//! The decisions of a folder's watcher loop. Changes are gathered until the
//! debounce timer runs out or the event queue overflowed; then the batch is
//! applied one call at a time and everyone who asked for a flush meanwhile
//! is told how it went. The task that waits on the channel, the timer and
//! the index performs the actions and reports back what happened.
use vstd::prelude::*;

use crate::watcher::{
    ChangeAccumulator,
    WatchChange,
    entries_settled,
    is_half,
    law_drain_gives_no_halves,
    law_push_leaves_no_halves,
    spec_drain,
    spec_push,
};

verus! {

/// Where the loop stands.
#[derive(Debug, Clone, Copy, PartialEq, Eq, Structural)]
pub enum WatcherPhase {
    /// Waiting for a message with no batch open.
    Idle,
    /// A message opened a batch; the overflow flag is to be read and reset.
    Opening,
    /// The overflow flag is to be read and reset before waiting again;
    /// `start_timer` says whether the debounce timer starts anew.
    Checking { start_timer: bool },
    /// A change arrived while debouncing; the overflow flag is to be read
    /// and reset.
    AfterChange,
    /// Waiting for a message or for the debounce timer.
    Debouncing,
    /// The overflow diagnostic is being recorded.
    RecordingOverflow,
    /// A full reconciliation is running.
    Reconciling,
    /// One change of the batch is being applied.
    Applying,
    /// A failure of the batch is being recorded.
    RecordingFailure,
    /// The flush waiters are being answered.
    Replying,
    /// The channel closed; nothing more happens.
    Stopped,
}

/// A diagnostic the loop records against its folder.
#[derive(Debug, Clone, PartialEq, Eq)]
pub enum WatcherDiagnostic {
    /// The event queue overflowed and a full reconciliation starts.
    Overflow,
    /// The reconciliation failed with this message.
    ReconcileFailed(String),
    /// Applying one change failed with this message.
    ChangeFailed(String),
}

impl WatcherDiagnostic {
    pub fn code(&self) -> (r: &'static str)
        ensures
            r@ == match self {
                WatcherDiagnostic::Overflow => "WATCHER_OVERFLOW"@,
                WatcherDiagnostic::ReconcileFailed(_) => "WATCHER_RECONCILE_FAILED"@,
                WatcherDiagnostic::ChangeFailed(_) => "WATCHER_CHANGE_FAILED"@,
            },
    {
        match self {
            WatcherDiagnostic::Overflow => "WATCHER_OVERFLOW",
            WatcherDiagnostic::ReconcileFailed(_) => "WATCHER_RECONCILE_FAILED",
            WatcherDiagnostic::ChangeFailed(_) => "WATCHER_CHANGE_FAILED",
        }
    }

    pub fn message(&self) -> (r: String)
        ensures
            r@ == match self {
                WatcherDiagnostic::Overflow =>
                    "watcher event capacity was exceeded; a full reconciliation was started"@,
                WatcherDiagnostic::ReconcileFailed(m) => m@,
                WatcherDiagnostic::ChangeFailed(m) => m@,
            },
    {
        match self {
            WatcherDiagnostic::Overflow => String::from_str(
                "watcher event capacity was exceeded; a full reconciliation was started",
            ),
            WatcherDiagnostic::ReconcileFailed(m) => m.clone(),
            WatcherDiagnostic::ChangeFailed(m) => m.clone(),
        }
    }
}

/// What the loop is told.
#[derive(Debug)]
pub enum WatcherEvent {
    /// A change arrived on the channel.
    Change(WatchChange),
    /// A flush request arrived; `overflowed` is the overflow flag as read
    /// when it arrived.
    Flush { waiter: u64, overflowed: bool },
    /// The channel closed.
    Closed,
    /// The overflow flag was reset; it held this value.
    Overflow(bool),
    /// The debounce timer ran out.
    TimerElapsed,
    /// The requested call or record finished with this result.
    Done(Result<(), String>),
}

/// What the loop asks for next.
#[derive(Debug)]
pub enum WatcherAction {
    /// Wait for the next message.
    Receive,
    /// Answer this flush waiter with success at once, then wait for the
    /// next message.
    ReplyNow(u64),
    /// Reset the overflow flag and report what it held.
    SwapOverflow,
    /// Wait for a message or the debounce timer, restarting the timer first
    /// when asked.
    ReceiveOrTimer { restart_timer: bool },
    /// Record this diagnostic.
    Record(WatcherDiagnostic),
    /// Reconcile the whole folder.
    Reconcile,
    /// Index the file at this path again.
    Reindex(String),
    /// Move the indexed document from one path to another.
    MoveDocument { from: String, to: String },
    /// Remove the indexed document at this path.
    RemoveDocument(String),
    /// Answer these flush waiters with this result.
    Reply { waiters: Vec<u64>, result: Result<(), String> },
    /// Stop the loop.
    Stop,
}

/// The state of one folder's watcher loop.
pub struct WatcherLoop {
    pub pending: ChangeAccumulator,
    /// Flush requests waiting for the batch to be applied.
    pub waiters: Vec<u64>,
    pub phase: WatcherPhase,
    /// Whether this batch starts with a full reconciliation.
    pub reconcile_overflow: bool,
    /// The changes of the batch not applied yet.
    pub batch: Vec<WatchChange>,
    /// The batch's result so far: the last failure, if any.
    pub result: Result<(), String>,
}

/// The call that applies one settled change.
pub open spec fn change_call(change: WatchChange, r: WatcherAction) -> bool {
    match change {
        WatchChange::Write(path) => r == WatcherAction::Reindex(path),
        WatchChange::Rename { from, to } => r == WatcherAction::MoveDocument { from, to },
        WatchChange::Delete(path) => r == WatcherAction::RemoveDocument(path),
        _ => false,
    }
}

/// After a step of the batch: the next change is applied, or, when none is
/// left, the waiters are answered with the batch's result.
pub open spec fn advanced(
    batch: Seq<WatchChange>,
    waiters: Vec<u64>,
    result: Result<(), String>,
    post: WatcherLoop,
    r: WatcherAction,
) -> bool {
    if batch.len() > 0 {
        &&& change_call(batch[0], r)
        &&& post.batch@ == batch.drop_first()
        &&& post.waiters == waiters
        &&& post.result == result
        &&& post.phase == WatcherPhase::Applying
    } else {
        &&& r == WatcherAction::Reply { waiters, result }
        &&& post.batch@.len() == 0
        &&& post.waiters@.len() == 0
        &&& post.result == Ok::<(), String>(())
        &&& post.phase == WatcherPhase::Replying
    }
}

/// A batch closes: after an overflow the pending changes are dropped and a
/// reconciliation comes first; otherwise the pending changes are drained and
/// applied in order.
pub open spec fn started(pre: WatcherLoop, reconcile: bool, post: WatcherLoop, r: WatcherAction) -> bool {
    &&& post.reconcile_overflow == reconcile
    &&& post.pending.is_empty_spec()
    &&& post.pending.next_sequence == pre.pending.next_sequence
    &&& if reconcile {
        &&& r == WatcherAction::Record(WatcherDiagnostic::Overflow)
        &&& post.batch@.len() == 0
        &&& post.waiters == pre.waiters
        &&& post.result == Ok::<(), String>(())
        &&& post.phase == WatcherPhase::RecordingOverflow
    } else {
        advanced(
            spec_drain(
                pre.pending.operations@,
                pre.pending.tracked_from@,
                pre.pending.untracked_from@,
            ),
            pre.waiters,
            Ok(()),
            post,
            r,
        )
    }
}

/// The change was recorded with the next arrival number.
pub open spec fn pushed(pre: ChangeAccumulator, change: WatchChange, post: ChangeAccumulator) -> bool {
    &&& post.next_sequence == pre.next_sequence + 1
    &&& spec_push(
        pre.operations@,
        pre.tracked_from@,
        pre.untracked_from@,
        pre.next_sequence,
        change,
    ) == (post.operations@, post.tracked_from@, post.untracked_from@)
}

/// Only the phase changed.
pub open spec fn moved_to(pre: WatcherLoop, post: WatcherLoop, phase: WatcherPhase) -> bool {
    &&& post.phase == phase
    &&& post.pending == pre.pending
    &&& post.waiters == pre.waiters
    &&& post.reconcile_overflow == pre.reconcile_overflow
    &&& post.batch == pre.batch
    &&& post.result == pre.result
}

/// The batch fields are untouched.
pub open spec fn batch_kept(pre: WatcherLoop, post: WatcherLoop) -> bool {
    &&& post.reconcile_overflow == pre.reconcile_overflow
    &&& post.batch == pre.batch
    &&& post.result == pre.result
}

/// One step of the loop: from `pre`, on `event`, to `post`, asking for `r`.
pub open spec fn transition(pre: WatcherLoop, event: WatcherEvent, post: WatcherLoop, r: WatcherAction) -> bool {
    match pre.phase {
        WatcherPhase::Idle => match event {
            WatcherEvent::Change(change) => {
                &&& pushed(pre.pending, change, post.pending)
                &&& post.waiters == pre.waiters
                &&& batch_kept(pre, post)
                &&& post.phase == WatcherPhase::Opening
                &&& r == WatcherAction::SwapOverflow
            },
            WatcherEvent::Flush { waiter, overflowed } => if pre.pending.is_empty_spec()
                && !overflowed {
                post == pre && r == WatcherAction::ReplyNow(waiter)
            } else {
                &&& post.pending == pre.pending
                &&& post.waiters@ == pre.waiters@.push(waiter)
                &&& batch_kept(pre, post)
                &&& post.phase == WatcherPhase::Opening
                &&& r == WatcherAction::SwapOverflow
            },
            WatcherEvent::Closed => moved_to(pre, post, WatcherPhase::Stopped) && r
                == WatcherAction::Stop,
            _ => false,
        },
        WatcherPhase::Opening => match event {
            WatcherEvent::Overflow(held) => {
                &&& post.reconcile_overflow == held
                &&& post.pending == pre.pending
                &&& post.waiters == pre.waiters
                &&& post.batch == pre.batch
                &&& post.result == pre.result
                &&& post.phase == WatcherPhase::Checking { start_timer: true }
                &&& r == WatcherAction::SwapOverflow
            },
            _ => false,
        },
        WatcherPhase::Checking { start_timer } => match event {
            WatcherEvent::Overflow(held) => if held {
                started(pre, true, post, r)
            } else {
                moved_to(pre, post, WatcherPhase::Debouncing) && r
                    == WatcherAction::ReceiveOrTimer { restart_timer: start_timer }
            },
            _ => false,
        },
        WatcherPhase::AfterChange => match event {
            WatcherEvent::Overflow(held) => if held {
                started(pre, true, post, r)
            } else {
                moved_to(pre, post, WatcherPhase::Checking { start_timer: true }) && r
                    == WatcherAction::SwapOverflow
            },
            _ => false,
        },
        WatcherPhase::Debouncing => match event {
            WatcherEvent::Change(change) => {
                &&& pushed(pre.pending, change, post.pending)
                &&& post.waiters == pre.waiters
                &&& batch_kept(pre, post)
                &&& post.phase == WatcherPhase::AfterChange
                &&& r == WatcherAction::SwapOverflow
            },
            WatcherEvent::Flush { waiter, overflowed: _ } => {
                &&& post.pending == pre.pending
                &&& post.waiters@ == pre.waiters@.push(waiter)
                &&& batch_kept(pre, post)
                &&& post.phase == WatcherPhase::Checking { start_timer: false }
                &&& r == WatcherAction::SwapOverflow
            },
            WatcherEvent::TimerElapsed => started(pre, pre.reconcile_overflow, post, r),
            WatcherEvent::Closed => moved_to(pre, post, WatcherPhase::Stopped) && r
                == WatcherAction::Stop,
            _ => false,
        },
        WatcherPhase::RecordingOverflow => match event {
            WatcherEvent::Done(_) => moved_to(pre, post, WatcherPhase::Reconciling) && r
                == WatcherAction::Reconcile,
            _ => false,
        },
        WatcherPhase::Reconciling => match event {
            WatcherEvent::Done(Ok(())) => {
                &&& post.pending == pre.pending
                &&& post.reconcile_overflow == pre.reconcile_overflow
                &&& advanced(pre.batch@, pre.waiters, pre.result, post, r)
            },
            WatcherEvent::Done(Err(message)) => {
                &&& post.pending == pre.pending
                &&& post.waiters == pre.waiters
                &&& post.reconcile_overflow == pre.reconcile_overflow
                &&& post.batch == pre.batch
                &&& post.result == Err::<(), String>(message)
                &&& post.phase == WatcherPhase::RecordingFailure
                &&& r == WatcherAction::Record(WatcherDiagnostic::ReconcileFailed(message))
            },
            _ => false,
        },
        WatcherPhase::Applying => match event {
            WatcherEvent::Done(Ok(())) => {
                &&& post.pending == pre.pending
                &&& post.reconcile_overflow == pre.reconcile_overflow
                &&& advanced(pre.batch@, pre.waiters, pre.result, post, r)
            },
            WatcherEvent::Done(Err(message)) => {
                &&& post.pending == pre.pending
                &&& post.waiters == pre.waiters
                &&& post.reconcile_overflow == pre.reconcile_overflow
                &&& post.batch == pre.batch
                &&& post.result == Err::<(), String>(message)
                &&& post.phase == WatcherPhase::RecordingFailure
                &&& r == WatcherAction::Record(WatcherDiagnostic::ChangeFailed(message))
            },
            _ => false,
        },
        WatcherPhase::RecordingFailure => match event {
            WatcherEvent::Done(_) => {
                &&& post.pending == pre.pending
                &&& post.reconcile_overflow == pre.reconcile_overflow
                &&& advanced(pre.batch@, pre.waiters, pre.result, post, r)
            },
            _ => false,
        },
        WatcherPhase::Replying => match event {
            WatcherEvent::Done(_) => moved_to(pre, post, WatcherPhase::Idle) && r
                == WatcherAction::Receive,
            _ => false,
        },
        WatcherPhase::Stopped => false,
    }
}

impl WatcherLoop {
    /// The changes pending and the batch hold no rename half, and the
    /// pending changes are well formed.
    pub open spec fn inv(&self) -> bool {
        &&& self.pending.wf()
        &&& entries_settled(self.pending.operations@)
        &&& forall|i: int| 0 <= i < self.batch@.len() ==> !is_half(#[trigger] self.batch@[i])
    }

    /// The events the loop waits for in its phase.
    pub open spec fn expects_spec(&self, event: WatcherEvent) -> bool {
        match self.phase {
            WatcherPhase::Idle => event is Change || event is Flush || event is Closed,
            WatcherPhase::Opening | WatcherPhase::Checking { .. } | WatcherPhase::AfterChange =>
                event is Overflow,
            WatcherPhase::Debouncing => event is Change || event is Flush || event is Closed
                || event is TimerElapsed,
            WatcherPhase::RecordingOverflow | WatcherPhase::Reconciling | WatcherPhase::Applying
            | WatcherPhase::RecordingFailure | WatcherPhase::Replying => event is Done,
            WatcherPhase::Stopped => false,
        }
    }

    /// A loop with nothing pending, waiting for its first message.
    pub fn new() -> (r: WatcherLoop)
        ensures
            r.inv(),
            r.phase == WatcherPhase::Idle,
            r.pending.is_empty_spec(),
            r.pending.next_sequence == 0,
            r.waiters@.len() == 0,
            r.batch@.len() == 0,
            r.result == Ok::<(), String>(()),
            !r.reconcile_overflow,
    {
        WatcherLoop {
            pending: ChangeAccumulator::new(),
            waiters: Vec::new(),
            phase: WatcherPhase::Idle,
            reconcile_overflow: false,
            batch: Vec::new(),
            result: Ok(()),
        }
    }

    /// Whether the loop waits for this event in its phase.
    pub fn expects(&self, event: &WatcherEvent) -> (r: bool)
        ensures
            r == self.expects_spec(*event),
    {
        match self.phase {
            WatcherPhase::Idle => match event {
                WatcherEvent::Change(_) | WatcherEvent::Flush { .. } | WatcherEvent::Closed => true,
                _ => false,
            },
            WatcherPhase::Opening | WatcherPhase::Checking { .. } | WatcherPhase::AfterChange =>
                match event {
                WatcherEvent::Overflow(_) => true,
                _ => false,
            },
            WatcherPhase::Debouncing => match event {
                WatcherEvent::Change(_)
                | WatcherEvent::Flush { .. }
                | WatcherEvent::Closed
                | WatcherEvent::TimerElapsed => true,
                _ => false,
            },
            WatcherPhase::RecordingOverflow
            | WatcherPhase::Reconciling
            | WatcherPhase::Applying
            | WatcherPhase::RecordingFailure
            | WatcherPhase::Replying => match event {
                WatcherEvent::Done(_) => true,
                _ => false,
            },
            WatcherPhase::Stopped => false,
        }
    }

    fn advance(&mut self) -> (r: WatcherAction)
        requires
            old(self).inv(),
        ensures
            final(self).inv(),
            final(self).pending == old(self).pending,
            final(self).reconcile_overflow == old(self).reconcile_overflow,
            advanced(old(self).batch@, old(self).waiters, old(self).result, *final(self), r),
    {
        if self.batch.len() > 0 {
            let ghost first = self.batch@[0];
            let change = self.batch.remove(0);
            proof {
                assert(!is_half(first));
                assert forall|i: int| 0 <= i < self.batch@.len() implies !is_half(
                    #[trigger] self.batch@[i],
                ) by {
                    assert(self.batch@[i] == old(self).batch@[i + 1]);
                }
            }
            self.phase = WatcherPhase::Applying;
            match change {
                WatchChange::Write(path) => WatcherAction::Reindex(path),
                WatchChange::Rename { from, to } => WatcherAction::MoveDocument { from, to },
                WatchChange::Delete(path) => WatcherAction::RemoveDocument(path),
                WatchChange::RenameFrom { .. } | WatchChange::RenameTo { .. } => {
                    proof {
                        assert(is_half(first));
                    }
                    WatcherAction::Stop
                },
            }
        } else {
            let mut waiters: Vec<u64> = Vec::new();
            std::mem::swap(&mut waiters, &mut self.waiters);
            let mut result: Result<(), String> = Ok(());
            std::mem::swap(&mut result, &mut self.result);
            self.phase = WatcherPhase::Replying;
            WatcherAction::Reply { waiters, result }
        }
    }

    fn start_batch(&mut self, reconcile: bool) -> (r: WatcherAction)
        requires
            old(self).inv(),
        ensures
            final(self).inv(),
            started(*old(self), reconcile, *final(self), r),
    {
        self.reconcile_overflow = reconcile;
        if reconcile {
            self.pending.clear();
            self.batch = Vec::new();
            self.result = Ok(());
            self.phase = WatcherPhase::RecordingOverflow;
            WatcherAction::Record(WatcherDiagnostic::Overflow)
        } else {
            proof {
                law_drain_gives_no_halves(
                    self.pending.operations@,
                    self.pending.tracked_from@,
                    self.pending.untracked_from@,
                );
            }
            let drained = self.pending.drain();
            self.batch = drained;
            self.result = Ok(());
            self.advance()
        }
    }

    fn push_change(&mut self, change: WatchChange)
        requires
            old(self).inv(),
            old(self).pending.next_sequence < u64::MAX,
        ensures
            final(self).inv(),
            pushed(old(self).pending, change, final(self).pending),
            final(self).waiters == old(self).waiters,
            final(self).phase == old(self).phase,
            batch_kept(*old(self), *final(self)),
    {
        proof {
            law_push_leaves_no_halves(
                self.pending.operations@,
                self.pending.tracked_from@,
                self.pending.untracked_from@,
                self.pending.next_sequence,
                change,
            );
        }
        self.pending.push(change);
    }

    /// Takes one event and says what to do next.
    pub fn step(&mut self, event: WatcherEvent) -> (r: WatcherAction)
        requires
            old(self).inv(),
            old(self).expects_spec(event),
            event is Change ==> old(self).pending.next_sequence < u64::MAX,
        ensures
            final(self).inv(),
            transition(*old(self), event, *final(self), r),
    {
        match self.phase {
            WatcherPhase::Idle => match event {
                WatcherEvent::Change(change) => {
                    self.push_change(change);
                    self.phase = WatcherPhase::Opening;
                    WatcherAction::SwapOverflow
                },
                WatcherEvent::Flush { waiter, overflowed } => {
                    if self.pending.is_empty() && !overflowed {
                        WatcherAction::ReplyNow(waiter)
                    } else {
                        self.waiters.push(waiter);
                        self.phase = WatcherPhase::Opening;
                        WatcherAction::SwapOverflow
                    }
                },
                _ => {
                    self.phase = WatcherPhase::Stopped;
                    WatcherAction::Stop
                },
            },
            WatcherPhase::Opening => {
                let held = match event {
                    WatcherEvent::Overflow(held) => held,
                    _ => false,
                };
                self.reconcile_overflow = held;
                self.phase = WatcherPhase::Checking { start_timer: true };
                WatcherAction::SwapOverflow
            },
            WatcherPhase::Checking { start_timer } => {
                let held = match event {
                    WatcherEvent::Overflow(held) => held,
                    _ => false,
                };
                if held {
                    self.start_batch(true)
                } else {
                    self.phase = WatcherPhase::Debouncing;
                    WatcherAction::ReceiveOrTimer { restart_timer: start_timer }
                }
            },
            WatcherPhase::AfterChange => {
                let held = match event {
                    WatcherEvent::Overflow(held) => held,
                    _ => false,
                };
                if held {
                    self.start_batch(true)
                } else {
                    self.phase = WatcherPhase::Checking { start_timer: true };
                    WatcherAction::SwapOverflow
                }
            },
            WatcherPhase::Debouncing => match event {
                WatcherEvent::Change(change) => {
                    self.push_change(change);
                    self.phase = WatcherPhase::AfterChange;
                    WatcherAction::SwapOverflow
                },
                WatcherEvent::Flush { waiter, overflowed: _ } => {
                    self.waiters.push(waiter);
                    self.phase = WatcherPhase::Checking { start_timer: false };
                    WatcherAction::SwapOverflow
                },
                WatcherEvent::TimerElapsed => {
                    let reconcile = self.reconcile_overflow;
                    self.start_batch(reconcile)
                },
                _ => {
                    self.phase = WatcherPhase::Stopped;
                    WatcherAction::Stop
                },
            },
            WatcherPhase::RecordingOverflow => {
                self.phase = WatcherPhase::Reconciling;
                WatcherAction::Reconcile
            },
            WatcherPhase::Reconciling => match event {
                WatcherEvent::Done(Err(message)) => {
                    self.result = Err(message.clone());
                    self.phase = WatcherPhase::RecordingFailure;
                    WatcherAction::Record(WatcherDiagnostic::ReconcileFailed(message))
                },
                _ => self.advance(),
            },
            WatcherPhase::Applying => match event {
                WatcherEvent::Done(Err(message)) => {
                    self.result = Err(message.clone());
                    self.phase = WatcherPhase::RecordingFailure;
                    WatcherAction::Record(WatcherDiagnostic::ChangeFailed(message))
                },
                _ => self.advance(),
            },
            WatcherPhase::RecordingFailure => self.advance(),
            WatcherPhase::Replying => {
                self.phase = WatcherPhase::Idle;
                WatcherAction::Receive
            },
            WatcherPhase::Stopped => WatcherAction::Stop,
        }
    }
}

} // verus!
