//! File watcher events: rename halves are paired, and later writes or
//! deletions of a path supersede earlier ones before the changes are applied.
use vstd::prelude::*;

use crate::text::{chars_of, eq_chars, starts_with_chars, string_from_chars, sub_chars, to_lowercase, unicode_lowercase};

verus! {

broadcast use vstd::string::group_string_axioms;

#[derive(Debug, Clone, PartialEq, Eq)]
pub enum WatchChange {
    Write(String),
    Rename { from: String, to: String },
    RenameFrom { path: String, tracker: Option<usize> },
    RenameTo { path: String, tracker: Option<usize> },
    Delete(String),
}

// ---------------------------------------------------------------------------
// Path keys
// ---------------------------------------------------------------------------

/// `str::trim_start_matches` with a non-empty string pattern.
pub open spec fn trim_start_seq(s: Seq<char>, p: Seq<char>) -> Seq<char>
    decreases s.len(),
{
    if p.len() > 0 && p.is_prefix_of(s) {
        trim_start_seq(s.skip(p.len() as int), p)
    } else {
        s
    }
}

/// Every `/` replaced by `\`.
pub open spec fn backslashed(s: Seq<char>) -> Seq<char> {
    s.map_values(|c: char| if c == '/' {
        '\\'
    } else {
        c
    })
}

/// The key under which changes to one path coalesce: the `\\?\` prefixes
/// removed, `/` written as `\`, lower-cased.
pub open spec fn path_key(path: Seq<char>) -> Seq<char> {
    unicode_lowercase(backslashed(trim_start_seq(path, seq!['\\', '\\', '?', '\\'])))
}

/// Normalizes a path into its coalescing key without touching the file system.
pub fn normalized_path_key(path: &str) -> (r: String)
    ensures
        r@ == path_key(path@),
        (forall|i: int| 0 <= i < path@.len() ==> crate::text::is_ascii(#[trigger] path@[i])) ==> r@
            == crate::text::ascii_lower_seq(
            backslashed(trim_start_seq(path@, seq!['\\', '\\', '?', '\\'])),
        ),
{
    let p = chars_of(path);
    let prefix: [char; 4] = ['\\', '\\', '?', '\\'];
    proof {
        assert(prefix@ =~= seq!['\\', '\\', '?', '\\']);
    }
    let mut start: usize = 0;
    assert(p@.skip(0) =~= p@);
    while p.len() - start >= 4 && starts_with_chars(
        sub_chars(p.as_slice(), start, p.len()).as_slice(),
        &prefix,
    )
        invariant
            start <= p@.len(),
            prefix@ =~= seq!['\\', '\\', '?', '\\'],
            trim_start_seq(path@, prefix@) == trim_start_seq(p@.skip(start as int), prefix@),
            p@ == path@,
        decreases p@.len() - start,
    {
        proof {
            let rest = p@.skip(start as int);
            assert(p@.subrange(start as int, p@.len() as int) =~= rest);
            assert(rest.skip(4) =~= p@.skip(start + 4));
        }
        start += 4;
    }
    proof {
        let rest = p@.skip(start as int);
        assert(p@.subrange(start as int, p@.len() as int) =~= rest);
        if p@.len() - start < 4 {
            assert(!prefix@.is_prefix_of(rest));
        }
        assert(trim_start_seq(rest, prefix@) == rest);
    }
    let mut out: Vec<char> = Vec::new();
    let mut i = start;
    while i < p.len()
        invariant
            start <= i <= p@.len(),
            out@ == backslashed(p@.subrange(start as int, i as int)),
        decreases p@.len() - i,
    {
        let c = p[i];
        out.push(if c == '/' {
            '\\'
        } else {
            c
        });
        i += 1;
        assert(out@ =~= backslashed(p@.subrange(start as int, i as int)));
    }
    assert(p@.subrange(start as int, p@.len() as int) =~= p@.skip(start as int));
    let text = string_from_chars(out.as_slice());
    proof {
        if forall|i: int| 0 <= i < path@.len() ==> crate::text::is_ascii(#[trigger] path@[i]) {
            assert forall|i: int| 0 <= i < text@.len() implies crate::text::is_ascii(#[trigger] text@[i]) by {
                assert(p@.skip(start as int)[i] == p@[start + i]);
                assert(crate::text::is_ascii(path@[start + i]));
            }
        }
    }
    to_lowercase(text.as_str())
}

pub open spec fn change_key(change: WatchChange) -> Option<Seq<char>> {
    match change {
        WatchChange::Write(path) => Some(path_key(path@)),
        WatchChange::Delete(path) => Some(path_key(path@)),
        _ => None,
    }
}

/// The key under which a change coalesces with others: writes and deletions only.
pub fn coalescible_path_key(change: &WatchChange) -> (r: Option<String>)
    ensures
        match change_key(*change) {
            Some(k) => r matches Some(s) && s@ == k,
            None => r is None,
        },
{
    match change {
        WatchChange::Write(path) => Some(normalized_path_key(path.as_str())),
        WatchChange::Delete(path) => Some(normalized_path_key(path.as_str())),
        _ => None,
    }
}

// ---------------------------------------------------------------------------
// Notifications
// ---------------------------------------------------------------------------

/// The kind of a file-system notification, as far as the watcher reads it.
#[derive(Debug, Clone, Copy, PartialEq, Eq)]
pub enum WatchEventKind {
    /// A rename reported with both paths in one notification.
    RenameBoth,
    /// The source half of a rename.
    RenameFrom,
    /// The target half of a rename.
    RenameTo,
    /// A removal.
    Remove,
    /// A creation, or any other modification.
    CreateOrModify,
    /// Anything else, such as an access.
    Other,
}

/// The changes one notification stands for.
pub open spec fn spec_changes_from_event(
    kind: WatchEventKind,
    paths: Seq<String>,
    tracker: Option<usize>,
) -> Seq<WatchChange> {
    match kind {
        WatchEventKind::RenameBoth => if paths.len() >= 2 {
            seq![WatchChange::Rename { from: paths[0], to: paths[1] }]
        } else {
            paths.map_values(|p: String| WatchChange::Write(p))
        },
        WatchEventKind::RenameFrom => paths.map_values(
            |p: String| WatchChange::RenameFrom { path: p, tracker },
        ),
        WatchEventKind::RenameTo => paths.map_values(
            |p: String| WatchChange::RenameTo { path: p, tracker },
        ),
        WatchEventKind::Remove => paths.map_values(|p: String| WatchChange::Delete(p)),
        WatchEventKind::CreateOrModify => paths.map_values(|p: String| WatchChange::Write(p)),
        WatchEventKind::Other => seq![],
    }
}

/// Turns one notification into watcher changes: a two-path rename becomes a
/// rename, rename halves keep the notification's tracker, removals become
/// deletions, and creations and other modifications become writes.
pub fn changes_from_event(kind: WatchEventKind, paths: &Vec<String>, tracker: Option<usize>) -> (r: Vec<
    WatchChange,
>)
    ensures
        r@ == spec_changes_from_event(kind, paths@, tracker),
{
    let mut out: Vec<WatchChange> = Vec::new();
    match kind {
        WatchEventKind::RenameBoth => {
            if paths.len() >= 2 {
                out.push(WatchChange::Rename { from: paths[0].clone(), to: paths[1].clone() });
                assert(out@ =~= spec_changes_from_event(kind, paths@, tracker));
                return out;
            }
        },
        WatchEventKind::Other => {
            assert(out@ =~= spec_changes_from_event(kind, paths@, tracker));
            return out;
        },
        _ => {},
    }
    let mut i: usize = 0;
    while i < paths.len()
        invariant
            i <= paths@.len(),
            kind != WatchEventKind::Other,
            kind == WatchEventKind::RenameBoth ==> paths@.len() < 2,
            out@ =~= spec_changes_from_event(kind, paths@.take(i as int), tracker),
        decreases paths@.len() - i,
    {
        let path = paths[i].clone();
        let change = match kind {
            WatchEventKind::RenameFrom => WatchChange::RenameFrom { path, tracker },
            WatchEventKind::RenameTo => WatchChange::RenameTo { path, tracker },
            WatchEventKind::Remove => WatchChange::Delete(path),
            _ => WatchChange::Write(path),
        };
        out.push(change);
        proof {
            assert(paths@.take(i + 1) =~= paths@.take(i as int).push(paths@[i as int]));
        }
        i += 1;
        assert(out@ =~= spec_changes_from_event(kind, paths@.take(i as int), tracker));
    }
    assert(paths@.take(paths@.len() as int) =~= paths@);
    out
}

// ---------------------------------------------------------------------------
// The accumulator
// ---------------------------------------------------------------------------

/// Pending watcher changes, in arrival order.
pub struct ChangeAccumulator {
    pub next_sequence: u64,
    /// Each change with its arrival number; a superseded change is `None`.
    pub operations: Vec<(u64, Option<WatchChange>)>,
    /// Unpaired rename sources by tracker, with their arrival numbers.
    pub tracked_from: Vec<(usize, u64, String)>,
    /// Unpaired rename sources without a tracker, oldest first.
    pub untracked_from: Vec<(u64, String)>,
}

pub open spec fn trackers_unique(t: Seq<(usize, u64, String)>) -> bool {
    forall|i: int, j: int| 0 <= i < j < t.len() ==> #[trigger] t[i].0 != #[trigger] t[j].0
}

/// Writes and deletions of one path are superseded: the later one stays.
pub open spec fn supersede(ops: Seq<(u64, Option<WatchChange>)>, key: Seq<char>) -> Seq<
    (u64, Option<WatchChange>),
> {
    ops.map_values(
        |op: (u64, Option<WatchChange>)|
            match op.1 {
                Some(c) => if change_key(c) == Some(key) {
                    (op.0, None::<WatchChange>)
                } else {
                    op
                },
                None => op,
            },
    )
}

/// The operations after recording `change` with arrival number `sequence`.
pub open spec fn spec_push_at(
    ops: Seq<(u64, Option<WatchChange>)>,
    sequence: u64,
    change: WatchChange,
) -> Seq<(u64, Option<WatchChange>)> {
    match change_key(change) {
        Some(key) => supersede(ops, key).push((sequence, Some(change))),
        None => ops.push((sequence, Some(change))),
    }
}



/// The index of the waiting rename source with this tracker.
pub open spec fn find_tracker(t: Seq<(usize, u64, String)>, tracker: usize) -> Option<int>
    decreases t.len(),
{
    if t.len() == 0 {
        None
    } else if t.last().0 == tracker {
        Some(t.len() - 1)
    } else {
        find_tracker(t.drop_last(), tracker)
    }
}

proof fn lemma_find_tracker(t: Seq<(usize, u64, String)>, tracker: usize)
    ensures
        match find_tracker(t, tracker) {
            Some(i) => 0 <= i < t.len() && t[i].0 == tracker,
            None => forall|j: int| 0 <= j < t.len() ==> #[trigger] t[j].0 != tracker,
        },
    decreases t.len(),
{
    if t.len() > 0 && t.last().0 != tracker {
        let rest = t.drop_last();
        lemma_find_tracker(rest, tracker);
        match find_tracker(rest, tracker) {
            Some(i) => {
                assert(rest[i] == t[i]);
            },
            None => {
                assert forall|j: int| 0 <= j < t.len() implies #[trigger] t[j].0 != tracker by {
                    if j < t.len() - 1 {
                        assert(rest[j] == t[j]);
                    }
                }
            },
        }
    }
}

proof fn lemma_find_tracker_at(t: Seq<(usize, u64, String)>, tracker: usize, i: int)
    requires
        trackers_unique(t),
        0 <= i < t.len(),
        t[i].0 == tracker,
    ensures
        find_tracker(t, tracker) == Some(i),
    decreases t.len(),
{
    if i < t.len() - 1 {
        assert(t[i].0 != t[t.len() - 1].0);
        assert(t.drop_last()[i] == t[i]);
        assert forall|a: int, b: int| 0 <= a < b < t.len() - 1 implies #[trigger] t.drop_last()[a].0
            != #[trigger] t.drop_last()[b].0 by {
            assert(t[a].0 != t[b].0);
        }
        lemma_find_tracker_at(t.drop_last(), tracker, i);
    }
}

proof fn lemma_find_tracker_none(t: Seq<(usize, u64, String)>, tracker: usize)
    requires
        forall|j: int| 0 <= j < t.len() ==> #[trigger] t[j].0 != tracker,
    ensures
        find_tracker(t, tracker) is None,
    decreases t.len(),
{
    if t.len() > 0 {
        assert(t[t.len() - 1].0 != tracker);
        assert forall|j: int| 0 <= j < t.len() - 1 implies #[trigger] t.drop_last()[j].0 != tracker by {
            assert(t.drop_last()[j] == t[j]);
        }
        lemma_find_tracker_none(t.drop_last(), tracker);
    }
}

fn find_tracker_exec(t: &Vec<(usize, u64, String)>, tracker: usize) -> (r: Option<usize>)
    requires
        trackers_unique(t@),
    ensures
        match r {
            Some(i) => find_tracker(t@, tracker) == Some(i as int) && i < t@.len(),
            None => find_tracker(t@, tracker) is None,
        },
{
    let mut i: usize = 0;
    while i < t.len()
        invariant
            i <= t@.len(),
            trackers_unique(t@),
            forall|j: int| 0 <= j < i ==> #[trigger] t@[j].0 != tracker,
        decreases t@.len() - i,
    {
        if t[i].0 == tracker {
            proof {
                lemma_find_tracker_at(t@, tracker, i as int);
            }
            return Some(i);
        }
        i += 1;
    }
    proof {
        lemma_find_tracker_none(t@, tracker);
    }
    None
}

/// The pending state after one change arrives with number `sequence`:
/// operations, rename sources waiting by tracker, and those waiting in order.
pub open spec fn spec_push(
    ops: Seq<(u64, Option<WatchChange>)>,
    by_tracker: Seq<(usize, u64, String)>,
    by_order: Seq<(u64, String)>,
    sequence: u64,
    change: WatchChange,
) -> (Seq<(u64, Option<WatchChange>)>, Seq<(usize, u64, String)>, Seq<(u64, String)>) {
    match change {
        WatchChange::RenameFrom { path, tracker } => match tracker {
            Some(t) => match find_tracker(by_tracker, t) {
                Some(i) => (
                    spec_push_at(ops, by_tracker[i].1, WatchChange::Delete(by_tracker[i].2)),
                    by_tracker.update(i, (t, sequence, path)),
                    by_order,
                ),
                None => (ops, by_tracker.push((t, sequence, path)), by_order),
            },
            None => (ops, by_tracker, by_order.push((sequence, path))),
        },
        WatchChange::RenameTo { path, tracker } => match tracker {
            Some(t) => match find_tracker(by_tracker, t) {
                Some(i) => (
                    spec_push_at(
                        ops,
                        sequence,
                        WatchChange::Rename { from: by_tracker[i].2, to: path },
                    ),
                    by_tracker.remove(i),
                    by_order,
                ),
                None => (spec_push_at(ops, sequence, WatchChange::Write(path)), by_tracker, by_order),
            },
            None => if by_order.len() > 0 {
                (
                    spec_push_at(
                        ops,
                        sequence,
                        WatchChange::Rename { from: by_order[0].1, to: path },
                    ),
                    by_tracker,
                    by_order.drop_first(),
                )
            } else {
                (spec_push_at(ops, sequence, WatchChange::Write(path)), by_tracker, by_order)
            },
        },
        other => (spec_push_at(ops, sequence, other), by_tracker, by_order),
    }
}

pub open spec fn tracked_deletes(t: Seq<(usize, u64, String)>) -> Seq<(u64, Option<WatchChange>)>
    decreases t.len(),
{
    if t.len() == 0 {
        seq![]
    } else {
        tracked_deletes(t.drop_last()).push((t.last().1, Some(WatchChange::Delete(t.last().2))))
    }
}

pub open spec fn untracked_deletes(u: Seq<(u64, String)>) -> Seq<(u64, Option<WatchChange>)>
    decreases u.len(),
{
    if u.len() == 0 {
        seq![]
    } else {
        untracked_deletes(u.drop_last()).push((u.last().0, Some(WatchChange::Delete(u.last().1))))
    }
}

/// Inserts an entry after every entry with a smaller or equal arrival number.
pub open spec fn insert_by_seq(
    list: Seq<(u64, Option<WatchChange>)>,
    e: (u64, Option<WatchChange>),
) -> Seq<(u64, Option<WatchChange>)>
    decreases list.len(),
{
    if list.len() == 0 {
        seq![e]
    } else if e.0 < list[0].0 {
        seq![e] + list
    } else {
        seq![list[0]] + insert_by_seq(list.drop_first(), e)
    }
}

/// Entries stably sorted by arrival number.
pub open spec fn sort_by_seq(s: Seq<(u64, Option<WatchChange>)>) -> Seq<(u64, Option<WatchChange>)>
    decreases s.len(),
{
    if s.len() == 0 {
        seq![]
    } else {
        insert_by_seq(sort_by_seq(s.drop_last()), s.last())
    }
}

proof fn lemma_insert_by_seq_at(
    list: Seq<(u64, Option<WatchChange>)>,
    e: (u64, Option<WatchChange>),
    pos: int,
)
    requires
        0 <= pos <= list.len(),
        forall|j: int| 0 <= j < pos ==> !(e.0 < #[trigger] list[j].0),
        pos == list.len() || e.0 < list[pos].0,
    ensures
        insert_by_seq(list, e) == list.take(pos) + seq![e] + list.skip(pos),
    decreases list.len(),
{
    if list.len() == 0 {
        assert(list.take(pos) + seq![e] + list.skip(pos) =~= seq![e]);
    } else if pos == 0 {
        assert(list.take(0) + seq![e] + list.skip(0) =~= seq![e] + list);
    } else {
        assert(!(e.0 < list[0].0));
        assert forall|j: int| 0 <= j < pos - 1 implies !(e.0 < #[trigger] list.drop_first()[j].0) by {
            assert(list.drop_first()[j] == list[j + 1]);
        }
        lemma_insert_by_seq_at(list.drop_first(), e, pos - 1);
        assert(seq![list[0]] + (list.drop_first().take(pos - 1) + seq![e] + list.drop_first().skip(
            pos - 1,
        )) =~= list.take(pos) + seq![e] + list.skip(pos));
    }
}

/// The changes that were not superseded, in order.
pub open spec fn keep_changes(s: Seq<(u64, Option<WatchChange>)>) -> Seq<WatchChange>
    decreases s.len(),
{
    if s.len() == 0 {
        seq![]
    } else {
        match s.last().1 {
            Some(c) => keep_changes(s.drop_last()).push(c),
            None => keep_changes(s.drop_last()),
        }
    }
}

/// What draining gives: all pending operations and unpaired rename sources
/// (as deletions), sorted by arrival number, superseded ones left out.
pub open spec fn spec_drain(
    ops: Seq<(u64, Option<WatchChange>)>,
    by_tracker: Seq<(usize, u64, String)>,
    by_order: Seq<(u64, String)>,
) -> Seq<WatchChange> {
    keep_changes(sort_by_seq(ops + tracked_deletes(by_tracker) + untracked_deletes(by_order)))
}

impl Default for ChangeAccumulator {
    fn default() -> (r: ChangeAccumulator)
        ensures
            r.wf(),
            r.is_empty_spec(),
            r.next_sequence == 0,
    {
        ChangeAccumulator::new()
    }
}

impl ChangeAccumulator {
    pub open spec fn wf(&self) -> bool {
        trackers_unique(self.tracked_from@)
    }

    pub fn new() -> (r: ChangeAccumulator)
        ensures
            r.wf(),
            r.is_empty_spec(),
            r.next_sequence == 0,
    {
        ChangeAccumulator {
            next_sequence: 0,
            operations: Vec::new(),
            tracked_from: Vec::new(),
            untracked_from: Vec::new(),
        }
    }

    pub open spec fn is_empty_spec(&self) -> bool {
        self.operations@.len() == 0 && self.tracked_from@.len() == 0
            && self.untracked_from@.len() == 0
    }

    pub fn is_empty(&self) -> (r: bool)
        ensures
            r == self.is_empty_spec(),
    {
        self.operations.len() == 0 && self.tracked_from.len() == 0 && self.untracked_from.len()
            == 0
    }

    pub fn clear(&mut self)
        ensures
            final(self).is_empty_spec(),
            final(self).wf(),
            final(self).next_sequence == old(self).next_sequence,
    {
        self.operations.clear();
        self.tracked_from.clear();
        self.untracked_from.clear();
    }

    /// Records a change; a write or deletion supersedes pending writes and
    /// deletions of the same path.
    pub fn push_at(&mut self, sequence: u64, change: WatchChange)
        ensures
            final(self).operations@ == spec_push_at(old(self).operations@, sequence, change),
            final(self).tracked_from@ == old(self).tracked_from@,
            final(self).untracked_from@ == old(self).untracked_from@,
            final(self).next_sequence == old(self).next_sequence,
    {
        if let Some(key) = coalescible_path_key(&change) {
            let ghost before = self.operations@;
            let mut i: usize = 0;
            while i < self.operations.len()
                invariant
                    i <= self.operations@.len(),
                    self.operations@.len() == before.len(),
                    change_key(change) == Some(key@),
                    forall|j: int|
                        0 <= j < i ==> #[trigger] self.operations@[j] == supersede(before, key@)[j],
                    forall|j: int| i <= j < before.len() ==> #[trigger] self.operations@[j] == before[j],
                    self.tracked_from@ == old(self).tracked_from@,
                    self.untracked_from@ == old(self).untracked_from@,
                    self.next_sequence == old(self).next_sequence,
                    before == old(self).operations@,
                decreases before.len() - i,
            {
                let superseded = match &self.operations[i].1 {
                    Some(c) => match coalescible_path_key(c) {
                        Some(k) => eq_chars(
                            chars_of(k.as_str()).as_slice(),
                            chars_of(key.as_str()).as_slice(),
                        ),
                        None => false,
                    },
                    None => false,
                };
                proof {
                    assert(self.operations@[i as int] == before[i as int]);
                }
                if superseded {
                    let seq_no = self.operations[i].0;
                    self.operations.set(i, (seq_no, None));
                }
                i += 1;
            }
            proof {
                assert(self.operations@ =~= supersede(before, key@));
            }
        }
        self.operations.push((sequence, Some(change)));
    }

    /// Records a watcher change with the next arrival number. A rename
    /// source waits for its target: a target with the same tracker, or for
    /// by_order halves the oldest waiting source, makes a rename; a target
    /// with no source is a write. A second source with the same tracker
    /// turns the first into a deletion.
    pub fn push(&mut self, change: WatchChange)
        requires
            old(self).wf(),
            old(self).next_sequence < u64::MAX,
        ensures
            final(self).wf(),
            final(self).next_sequence == old(self).next_sequence + 1,
            spec_push(
                old(self).operations@,
                old(self).tracked_from@,
                old(self).untracked_from@,
                old(self).next_sequence,
                change,
            ) == (final(self).operations@, final(self).tracked_from@, final(self).untracked_from@),
    {
        let sequence = self.next_sequence;
        self.next_sequence = self.next_sequence + 1;
        let ghost ops0 = self.operations@;
        let ghost tr0 = self.tracked_from@;
        let ghost un0 = self.untracked_from@;
        match change {
            WatchChange::RenameFrom { path, tracker } => {
                match tracker {
                    Some(t) => {
                        match find_tracker_exec(&self.tracked_from, t) {
                            Some(idx) => {
                                proof {
                                    lemma_find_tracker(tr0, t);
                                }
                                let old_sequence = self.tracked_from[idx].1;
                                let old_path = self.tracked_from[idx].2.clone();
                                self.tracked_from.set(idx, (t, sequence, path));
                                proof {
                                    assert forall|i: int, j: int|
                                        0 <= i < j < self.tracked_from@.len() implies #[trigger] self.tracked_from@[i].0
                                        != #[trigger] self.tracked_from@[j].0 by {
                                        assert(tr0[i].0 != tr0[j].0);
                                    }
                                }
                                self.push_at(old_sequence, WatchChange::Delete(old_path));
                            },
                            None => {
                                proof {
                                    lemma_find_tracker(tr0, t);
                                }
                                self.tracked_from.push((t, sequence, path));
                                proof {
                                    assert forall|i: int, j: int|
                                        0 <= i < j < self.tracked_from@.len() implies #[trigger] self.tracked_from@[i].0
                                        != #[trigger] self.tracked_from@[j].0 by {
                                        if j == tr0.len() {
                                            assert(tr0[i].0 != t);
                                        } else {
                                            assert(tr0[i].0 != tr0[j].0);
                                        }
                                    }
                                }
                            },
                        }
                    },
                    None => {
                        self.untracked_from.push((sequence, path));
                    },
                }
            },
            WatchChange::RenameTo { path, tracker } => {
                let from: Option<String> = match tracker {
                    Some(t) => match find_tracker_exec(&self.tracked_from, t) {
                        Some(idx) => {
                            let entry = self.tracked_from.remove(idx);
                            proof {
                                assert forall|i: int, j: int|
                                    0 <= i < j < self.tracked_from@.len() implies #[trigger] self.tracked_from@[i].0
                                    != #[trigger] self.tracked_from@[j].0 by {
                                    let i0 = if i < idx { i } else { i + 1 };
                                    let j0 = if j < idx { j } else { j + 1 };
                                    assert(self.tracked_from@[i] == tr0[i0]);
                                    assert(self.tracked_from@[j] == tr0[j0]);
                                    assert(tr0[i0].0 != tr0[j0].0);
                                }
                            }
                            Some(entry.2)
                        },
                        None => None,
                    },
                    None => {
                        if self.untracked_from.len() > 0 {
                            let entry = self.untracked_from.remove(0);
                            Some(entry.1)
                        } else {
                            None
                        }
                    },
                };
                match from {
                    Some(from) => self.push_at(sequence, WatchChange::Rename { from, to: path }),
                    None => self.push_at(sequence, WatchChange::Write(path)),
                }
            },
            other => {
                self.push_at(sequence, other);
            },
        }
    }

    /// Takes the pending changes in arrival order. Unpaired rename sources
    /// become deletions; superseded changes are dropped.
    pub fn drain(&mut self) -> (r: Vec<WatchChange>)
        ensures
            r@ == spec_drain(old(self).operations@, old(self).tracked_from@, old(self).untracked_from@),
            final(self).is_empty_spec(),
            final(self).wf(),
            final(self).next_sequence == old(self).next_sequence,
    {
        let ghost ops0 = self.operations@;
        let ghost tr0 = self.tracked_from@;
        let ghost un0 = self.untracked_from@;
        let mut entries: Vec<(u64, Option<WatchChange>)> = Vec::new();
        std::mem::swap(&mut entries, &mut self.operations);
        let mut i: usize = 0;
        while i < self.tracked_from.len()
            invariant
                i <= self.tracked_from@.len(),
                self.tracked_from@ == tr0,
                entries@ == ops0 + tracked_deletes(tr0.take(i as int)),
            decreases self.tracked_from@.len() - i,
        {
            let entry = &self.tracked_from[i];
            entries.push((entry.1, Some(WatchChange::Delete(entry.2.clone()))));
            i += 1;
            proof {
                assert(tr0.take(i as int).drop_last() =~= tr0.take(i - 1));
                assert(entries@ =~= ops0 + tracked_deletes(tr0.take(i as int)));
            }
        }
        assert(tr0.take(tr0.len() as int) =~= tr0);
        let mut i: usize = 0;
        while i < self.untracked_from.len()
            invariant
                i <= self.untracked_from@.len(),
                self.untracked_from@ == un0,
                entries@ == ops0 + tracked_deletes(tr0) + untracked_deletes(un0.take(i as int)),
            decreases self.untracked_from@.len() - i,
        {
            let entry = &self.untracked_from[i];
            entries.push((entry.0, Some(WatchChange::Delete(entry.1.clone()))));
            i += 1;
            proof {
                assert(un0.take(i as int).drop_last() =~= un0.take(i - 1));
                assert(entries@ =~= ops0 + tracked_deletes(tr0) + untracked_deletes(un0.take(i as int)));
            }
        }
        assert(un0.take(un0.len() as int) =~= un0);
        self.tracked_from.clear();
        self.untracked_from.clear();
        let ghost all = entries@;
        let total = entries.len();
        let mut sorted: Vec<(u64, Option<WatchChange>)> = Vec::new();
        let mut k: usize = 0;
        proof {
            assert(all.take(0) =~= seq![]);
        }
        while entries.len() > 0
            invariant
                k + entries@.len() == all.len(),
                all.len() == total,
                entries@ == all.skip(k as int),
                sorted@ == sort_by_seq(all.take(k as int)),
            decreases entries@.len(),
        {
            let e = entries.remove(0);
            let mut pos: usize = 0;
            while pos < sorted.len() && !(e.0 < sorted[pos].0)
                invariant
                    pos <= sorted@.len(),
                    forall|j: int| 0 <= j < pos ==> !(e.0 < #[trigger] sorted@[j].0),
                decreases sorted@.len() - pos,
            {
                pos += 1;
            }
            proof {
                lemma_insert_by_seq_at(sorted@, e, pos as int);
                assert(all.take(k + 1).drop_last() =~= all.take(k as int));
                assert(all.take(k + 1).last() == e);
                assert(all.skip(k + 1) =~= all.skip(k as int).drop_first());
            }
            sorted.insert(pos, e);
            k += 1;
            proof {
                assert(sorted@ =~= sort_by_seq(all.take(k as int)));
            }
        }
        assert(all.take(k as int) =~= all);
        let ghost srt = sorted@;
        let count = sorted.len();
        let mut result: Vec<WatchChange> = Vec::new();
        let mut m: usize = 0;
        proof {
            assert(srt.take(0) =~= seq![]);
        }
        while sorted.len() > 0
            invariant
                m + sorted@.len() == srt.len(),
                srt.len() == count,
                sorted@ == srt.skip(m as int),
                result@ == keep_changes(srt.take(m as int)),
            decreases sorted@.len(),
        {
            let e = sorted.remove(0);
            proof {
                assert(srt.take(m + 1).drop_last() =~= srt.take(m as int));
                assert(srt.take(m + 1).last() == e);
                assert(srt.skip(m + 1) =~= srt.skip(m as int).drop_first());
            }
            match e.1 {
                Some(change) => {
                    result.push(change);
                },
                None => {},
            }
            m += 1;
        }
        assert(srt.take(m as int) =~= srt);
        result
    }
}

/// Every live write or deletion has a coalescing key of its own.
pub open spec fn live_keys_unique(ops: Seq<(u64, Option<WatchChange>)>) -> bool {
    forall|i: int, j: int|
        #![trigger ops[i], ops[j]]
        0 <= i < j < ops.len() ==> match (ops[i].1, ops[j].1) {
            (Some(a), Some(b)) => change_key(a) is None || change_key(a) != change_key(b),
            _ => true,
        }
}

/// Recording a change never leaves two live writes or deletions of the same
/// path pending: the newer one supersedes the older.
pub proof fn law_push_keeps_paths_unique(
    ops: Seq<(u64, Option<WatchChange>)>,
    sequence: u64,
    change: WatchChange,
)
    requires
        live_keys_unique(ops),
    ensures
        live_keys_unique(spec_push_at(ops, sequence, change)),
{
    let r = spec_push_at(ops, sequence, change);
    match change_key(change) {
        Some(key) => {
            let sup = supersede(ops, key);
            assert forall|i: int, j: int| #![trigger r[i], r[j]] 0 <= i < j < r.len() implies match (r[i].1, r[j].1) {
                (Some(a), Some(b)) => change_key(a) is None || change_key(a) != change_key(b),
                _ => true,
            } by {
                assert(r[i] == sup[i]);
                if j < sup.len() {
                    assert(r[j] == sup[j]);
                    assert(ops[i].0 == sup[i].0);
                    let _ = ops[j];
                }
            }
        },
        None => {
            assert forall|i: int, j: int| #![trigger r[i], r[j]] 0 <= i < j < r.len() implies match (r[i].1, r[j].1) {
                (Some(a), Some(b)) => change_key(a) is None || change_key(a) != change_key(b),
                _ => true,
            } by {
                assert(r[i] == ops[i]);
                if j < ops.len() {
                    assert(r[j] == ops[j]);
                }
            }
        },
    }
}

/// A rename source and a rename target that carry the same tracker, pushed
/// in that order into an empty accumulator, drain as one rename.
pub proof fn law_tracked_halves_pair(from: String, to: String, tracker: usize, sequence: u64)
    requires
        sequence < u64::MAX,
    ensures
        ({
            let first = spec_push(
                seq![],
                seq![],
                seq![],
                sequence,
                WatchChange::RenameFrom { path: from, tracker: Some(tracker) },
            );
            let second = spec_push(
                first.0,
                first.1,
                first.2,
                (sequence + 1) as u64,
                WatchChange::RenameTo { path: to, tracker: Some(tracker) },
            );
            spec_drain(second.0, second.1, second.2) == seq![WatchChange::Rename { from, to }]
        }),
{
    let empty_ops: Seq<(u64, Option<WatchChange>)> = seq![];
    let empty_t: Seq<(usize, u64, String)> = seq![];
    assert(find_tracker(empty_t, tracker) is None);
    let waiting = seq![(tracker, sequence, from)];
    assert(empty_t.push((tracker, sequence, from)) =~= waiting);
    assert(waiting.drop_last() =~= empty_t);
    assert(find_tracker(waiting, tracker) == Some(0int));
    let rename = WatchChange::Rename { from, to };
    let ops = spec_push_at(empty_ops, (sequence + 1) as u64, rename);
    assert(ops =~= seq![((sequence + 1) as u64, Some(rename))]);
    let left = waiting.remove(0);
    assert(left =~= empty_t);
    assert(tracked_deletes(left) =~= seq![]);
    let by_order: Seq<(u64, String)> = seq![];
    assert(untracked_deletes(by_order) =~= seq![]);
    let all = ops + tracked_deletes(left) + untracked_deletes(by_order);
    assert(all =~= ops);
    assert(ops.drop_last() =~= empty_ops);
    assert(sort_by_seq(ops) == insert_by_seq(sort_by_seq(empty_ops), ops.last()));
    assert(sort_by_seq(ops) =~= ops);
    assert(keep_changes(ops) == keep_changes(ops.drop_last()).push(rename));
    assert(keep_changes(ops) =~= seq![rename]);
}


/// A rename half: a source or target still waiting for its other half.
pub open spec fn is_half(change: WatchChange) -> bool {
    change is RenameFrom || change is RenameTo
}

/// No live pending entry is a rename half.
pub open spec fn entries_settled(s: Seq<(u64, Option<WatchChange>)>) -> bool {
    forall|i: int|
        0 <= i < s.len() ==> match #[trigger] s[i].1 {
            Some(c) => !is_half(c),
            None => true,
        }
}

proof fn lemma_push_at_settled(ops: Seq<(u64, Option<WatchChange>)>, sequence: u64, change: WatchChange)
    requires
        entries_settled(ops),
        !is_half(change),
    ensures
        entries_settled(spec_push_at(ops, sequence, change)),
{
    let r = spec_push_at(ops, sequence, change);
    assert forall|i: int| 0 <= i < r.len() implies match #[trigger] r[i].1 {
        Some(c) => !is_half(c),
        None => true,
    } by {
        if i < ops.len() {
            let _ = ops[i].1;
        }
    }
}

proof fn lemma_deletes_settled(t: Seq<(usize, u64, String)>, u: Seq<(u64, String)>)
    ensures
        entries_settled(tracked_deletes(t)),
        entries_settled(untracked_deletes(u)),
    decreases t.len() + u.len(),
{
    if t.len() > 0 {
        lemma_deletes_settled(t.drop_last(), u);
        let d = tracked_deletes(t);
        assert forall|i: int| 0 <= i < d.len() implies match #[trigger] d[i].1 {
            Some(c) => !is_half(c),
            None => true,
        } by {
            if i < d.len() - 1 {
                let _ = tracked_deletes(t.drop_last())[i].1;
            }
        }
    }
    if u.len() > 0 {
        lemma_deletes_settled(t, u.drop_last());
        let d = untracked_deletes(u);
        assert forall|i: int| 0 <= i < d.len() implies match #[trigger] d[i].1 {
            Some(c) => !is_half(c),
            None => true,
        } by {
            if i < d.len() - 1 {
                let _ = untracked_deletes(u.drop_last())[i].1;
            }
        }
    }
}

proof fn lemma_insert_settled(list: Seq<(u64, Option<WatchChange>)>, e: (u64, Option<WatchChange>))
    requires
        entries_settled(list),
        entries_settled(seq![e]),
    ensures
        entries_settled(insert_by_seq(list, e)),
    decreases list.len(),
{
    let r = insert_by_seq(list, e);
    if list.len() == 0 {
    } else if e.0 < list[0].0 {
        assert forall|i: int| 0 <= i < r.len() implies match #[trigger] r[i].1 {
            Some(c) => !is_half(c),
            None => true,
        } by {
            if i == 0 {
                let _ = seq![e][0].1;
            } else {
                let _ = list[i - 1].1;
            }
        }
    } else {
        let rest = list.drop_first();
        assert forall|i: int| 0 <= i < rest.len() implies match #[trigger] rest[i].1 {
            Some(c) => !is_half(c),
            None => true,
        } by {
            let _ = list[i + 1].1;
        }
        lemma_insert_settled(rest, e);
        let tail = insert_by_seq(rest, e);
        assert forall|i: int| 0 <= i < r.len() implies match #[trigger] r[i].1 {
            Some(c) => !is_half(c),
            None => true,
        } by {
            if i == 0 {
                let _ = list[0].1;
            } else {
                let _ = tail[i - 1].1;
            }
        }
    }
}

proof fn lemma_sort_settled(s: Seq<(u64, Option<WatchChange>)>)
    requires
        entries_settled(s),
    ensures
        entries_settled(sort_by_seq(s)),
    decreases s.len(),
{
    if s.len() > 0 {
        let init = s.drop_last();
        assert forall|i: int| 0 <= i < init.len() implies match #[trigger] init[i].1 {
            Some(c) => !is_half(c),
            None => true,
        } by {
            let _ = s[i].1;
        }
        lemma_sort_settled(init);
        assert forall|i: int| 0 <= i < 1 implies match #[trigger] seq![s.last()][i].1 {
            Some(c) => !is_half(c),
            None => true,
        } by {
            let _ = s[s.len() - 1].1;
        }
        lemma_insert_settled(sort_by_seq(init), s.last());
    }
}

proof fn lemma_keep_settled(s: Seq<(u64, Option<WatchChange>)>)
    requires
        entries_settled(s),
    ensures
        forall|i: int| 0 <= i < keep_changes(s).len() ==> !is_half(#[trigger] keep_changes(s)[i]),
    decreases s.len(),
{
    if s.len() > 0 {
        let init = s.drop_last();
        assert forall|i: int| 0 <= i < init.len() implies match #[trigger] init[i].1 {
            Some(c) => !is_half(c),
            None => true,
        } by {
            let _ = s[i].1;
        }
        lemma_keep_settled(init);
        let _ = s[s.len() - 1].1;
        let k = keep_changes(s);
        let k0 = keep_changes(init);
        assert forall|i: int| 0 <= i < k.len() implies !is_half(#[trigger] k[i]) by {
            if i < k0.len() {
                assert(k[i] == k0[i]);
            }
        }
    }
}

/// Recording a change never leaves a rename half among the pending
/// operations: halves wait apart until they pair, or become a write.
pub proof fn law_push_leaves_no_halves(
    ops: Seq<(u64, Option<WatchChange>)>,
    by_tracker: Seq<(usize, u64, String)>,
    by_order: Seq<(u64, String)>,
    sequence: u64,
    change: WatchChange,
)
    requires
        entries_settled(ops),
    ensures
        entries_settled(spec_push(ops, by_tracker, by_order, sequence, change).0),
{
    match change {
        WatchChange::RenameFrom { path, tracker } => match tracker {
            Some(t) => match find_tracker(by_tracker, t) {
                Some(i) => lemma_push_at_settled(ops, by_tracker[i].1, WatchChange::Delete(by_tracker[i].2)),
                None => {},
            },
            None => {},
        },
        WatchChange::RenameTo { path, tracker } => match tracker {
            Some(t) => match find_tracker(by_tracker, t) {
                Some(i) => lemma_push_at_settled(
                    ops,
                    sequence,
                    WatchChange::Rename { from: by_tracker[i].2, to: path },
                ),
                None => lemma_push_at_settled(ops, sequence, WatchChange::Write(path)),
            },
            None => if by_order.len() > 0 {
                lemma_push_at_settled(
                    ops,
                    sequence,
                    WatchChange::Rename { from: by_order[0].1, to: path },
                )
            } else {
                lemma_push_at_settled(ops, sequence, WatchChange::Write(path))
            },
        },
        other => lemma_push_at_settled(ops, sequence, other),
    }
}

/// Draining never hands out a rename half: unpaired sources come out as
/// deletions, paired ones as renames.
pub proof fn law_drain_gives_no_halves(
    ops: Seq<(u64, Option<WatchChange>)>,
    by_tracker: Seq<(usize, u64, String)>,
    by_order: Seq<(u64, String)>,
)
    requires
        entries_settled(ops),
    ensures
        forall|i: int|
            0 <= i < spec_drain(ops, by_tracker, by_order).len() ==> !is_half(
                #[trigger] spec_drain(ops, by_tracker, by_order)[i],
            ),
{
    lemma_deletes_settled(by_tracker, by_order);
    let all = ops + tracked_deletes(by_tracker) + untracked_deletes(by_order);
    let a = ops + tracked_deletes(by_tracker);
    assert forall|i: int| 0 <= i < all.len() implies match #[trigger] all[i].1 {
        Some(c) => !is_half(c),
        None => true,
    } by {
        if i < ops.len() {
            let _ = ops[i].1;
        } else if i < a.len() {
            let _ = tracked_deletes(by_tracker)[i - ops.len()].1;
        } else {
            let _ = untracked_deletes(by_order)[i - a.len()].1;
        }
    }
    lemma_sort_settled(all);
    lemma_keep_settled(sort_by_seq(all));
}


/// The changes without those of one path key, in order.
pub open spec fn drop_key(s: Seq<WatchChange>, key: Seq<char>) -> Seq<WatchChange>
    decreases s.len(),
{
    if s.len() == 0 {
        seq![]
    } else if change_key(s.last()) == Some(key) {
        drop_key(s.drop_last(), key)
    } else {
        drop_key(s.drop_last(), key).push(s.last())
    }
}

/// The last change of each path, in the order they were pushed: each
/// write or deletion drops the earlier ones of its path.
pub open spec fn latest_per_key(cs: Seq<WatchChange>) -> Seq<WatchChange>
    decreases cs.len(),
{
    if cs.len() == 0 {
        seq![]
    } else {
        match change_key(cs.last()) {
            Some(key) => drop_key(latest_per_key(cs.drop_last()), key).push(cs.last()),
            None => latest_per_key(cs.drop_last()).push(cs.last()),
        }
    }
}

/// The pending state after pushing the changes, one after another, to an
/// empty accumulator whose next arrival number is `start`.
pub open spec fn push_run(cs: Seq<WatchChange>, start: u64) -> (
    Seq<(u64, Option<WatchChange>)>,
    Seq<(usize, u64, String)>,
    Seq<(u64, String)>,
)
    decreases cs.len(),
{
    if cs.len() == 0 {
        (seq![], seq![], seq![])
    } else {
        let (ops, by_tracker, by_order) = push_run(cs.drop_last(), start);
        spec_push(ops, by_tracker, by_order, (start + cs.len() - 1) as u64, cs.last())
    }
}

proof fn lemma_keep_supersede(ops: Seq<(u64, Option<WatchChange>)>, key: Seq<char>)
    ensures
        keep_changes(supersede(ops, key)) == drop_key(keep_changes(ops), key),
    decreases ops.len(),
{
    if ops.len() > 0 {
        lemma_keep_supersede(ops.drop_last(), key);
        let sup = supersede(ops, key);
        let sup0 = supersede(ops.drop_last(), key);
        assert(sup.drop_last() =~= sup0);
        let last = sup.last();
        assert(last == sup[sup.len() - 1]);
        let k0 = keep_changes(ops.drop_last());
        match ops.last().1 {
            Some(c) => {
                if change_key(c) == Some(key) {
                    assert(last.1 is None);
                    assert(keep_changes(sup) == keep_changes(sup0));
                    assert(keep_changes(ops) == k0.push(c));
                    assert(k0.push(c).drop_last() =~= k0);
                    assert(drop_key(k0.push(c), key) == drop_key(k0, key));
                } else {
                    assert(last.1 == Some(c));
                    assert(keep_changes(sup) == keep_changes(sup0).push(c));
                    assert(keep_changes(ops) == k0.push(c));
                    assert(k0.push(c).drop_last() =~= k0);
                    assert(drop_key(k0.push(c), key) == drop_key(k0, key).push(c));
                }
            },
            None => {
                assert(last.1 is None);
                assert(keep_changes(sup) == keep_changes(sup0));
                assert(keep_changes(ops) == k0);
            },
        }
    } else {
        assert(supersede(ops, key) =~= ops);
    }
}

proof fn lemma_sorted_stays(s: Seq<(u64, Option<WatchChange>)>)
    requires
        forall|i: int, j: int| 0 <= i < j < s.len() ==> #[trigger] s[i].0 < #[trigger] s[j].0,
    ensures
        sort_by_seq(s) == s,
    decreases s.len(),
{
    if s.len() > 0 {
        let init = s.drop_last();
        assert forall|i: int, j: int| 0 <= i < j < init.len() implies #[trigger] init[i].0
            < #[trigger] init[j].0 by {
            assert(init[i] == s[i] && init[j] == s[j]);
        }
        lemma_sorted_stays(init);
        assert forall|j: int| 0 <= j < init.len() implies !(s.last().0 < #[trigger] init[j].0) by {
            assert(init[j] == s[j]);
            assert(s[j].0 < s[s.len() - 1].0);
        }
        lemma_insert_by_seq_at(init, s.last(), init.len() as int);
        assert(init.take(init.len() as int) + seq![s.last()] + init.skip(init.len() as int) =~= s);
    }
}

proof fn lemma_push_run_shape(cs: Seq<WatchChange>, start: u64)
    requires
        forall|i: int| 0 <= i < cs.len() ==> (#[trigger] cs[i] is Write || cs[i] is Delete),
        start + cs.len() <= u64::MAX,
    ensures
        push_run(cs, start).1.len() == 0,
        push_run(cs, start).2.len() == 0,
        push_run(cs, start).0.len() == cs.len(),
        forall|i: int|
            0 <= i < cs.len() ==> (#[trigger] push_run(cs, start).0[i]).0 == start + i,
        keep_changes(push_run(cs, start).0) == latest_per_key(cs),
    decreases cs.len(),
{
    if cs.len() > 0 {
        let init = cs.drop_last();
        assert forall|i: int| 0 <= i < init.len() implies (#[trigger] init[i] is Write
            || init[i] is Delete) by {
            assert(init[i] == cs[i]);
        }
        lemma_push_run_shape(init, start);
        let (ops, t, u) = push_run(init, start);
        let c = cs.last();
        assert(c is Write || c is Delete) by {
            assert(cs[cs.len() - 1] == c);
        }
        let key = change_key(c)->Some_0;
        assert(change_key(c) == Some(key));
        let seqn = (start + cs.len() - 1) as u64;
        assert(push_run(cs, start) == (supersede(ops, key).push((seqn, Some(c))), t, u));
        let next = supersede(ops, key).push((seqn, Some(c)));
        assert forall|i: int| 0 <= i < cs.len() implies (#[trigger] next[i]).0 == start + i by {
            if i < ops.len() {
                assert(next[i].0 == ops[i].0);
            }
        }
        lemma_keep_supersede(ops, key);
        assert(next.drop_last() =~= supersede(ops, key));
        assert(next.last() == (seqn, Some(c)));
        assert(keep_changes(next) == keep_changes(supersede(ops, key)).push(c));
        assert(cs.drop_last() == init);
        assert(latest_per_key(cs) == drop_key(latest_per_key(init), key).push(c));
    }
}

/// Pushing writes and deletions and then draining gives the last change of
/// each path, in the order they were pushed. `push_run` is the state that
/// `ChangeAccumulator::push` ensures call by call from an empty accumulator,
/// and `drain` returns `spec_drain` of that state.
pub proof fn law_drain_keeps_the_last_change_per_path(cs: Seq<WatchChange>, start: u64)
    requires
        forall|i: int| 0 <= i < cs.len() ==> (#[trigger] cs[i] is Write || cs[i] is Delete),
        start + cs.len() <= u64::MAX,
    ensures
        spec_drain(push_run(cs, start).0, push_run(cs, start).1, push_run(cs, start).2)
            == latest_per_key(cs),
{
    lemma_push_run_shape(cs, start);
    let (ops, t, u) = push_run(cs, start);
    assert(tracked_deletes(t) =~= seq![]);
    assert(untracked_deletes(u) =~= seq![]);
    assert(ops + tracked_deletes(t) + untracked_deletes(u) =~= ops);
    assert forall|i: int, j: int| 0 <= i < j < ops.len() implies #[trigger] ops[i].0
        < #[trigger] ops[j].0 by {
        assert(ops[i].0 == start + i);
        assert(ops[j].0 == start + j);
    }
    lemma_sorted_stays(ops);
}
} // verus!
