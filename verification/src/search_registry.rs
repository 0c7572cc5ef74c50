//! The searches in progress: at most one is active; a new search cancels
//! the one before it, and a cancelled search whose statement is running has
//! that statement interrupted.
use vstd::prelude::*;

use crate::search::{is_invalid_request, valid_request_id, validate_request_id, SearchError};
use crate::text::{chars_of, eq_chars};

verus! {

broadcast use vstd::string::group_string_axioms;

/// What the registry holds: the active search (its identifier, lease token,
/// whether it was cancelled and whether its statement runs), the next lease
/// token, and whether a running statement waits to be interrupted.
pub struct SearchModel {
    pub active: Option<(Seq<char>, u64, bool, bool)>,
    pub next_token: u64,
    pub interrupt: bool,
}

pub open spec fn search_model_wf(m: SearchModel) -> bool {
    match m.active {
        Some((_, token, _, _)) => token < m.next_token,
        None => true,
    }
}

/// Why a search cannot begin, if it cannot.
pub open spec fn begin_refusal(m: SearchModel, request_id: Seq<char>) -> Option<Seq<char>> {
    if !valid_request_id(request_id) {
        Some("search request identifier must be 1-128 ASCII letters, numbers, '-' or '_'"@)
    } else if m.active matches Some((id, _, _, _)) && id == request_id {
        Some("search request identifier is already active"@)
    } else {
        None
    }
}

/// A new search replaces the active one, which is cancelled; its running
/// statement is interrupted.
pub open spec fn spec_search_begin(m: SearchModel, request_id: Seq<char>) -> SearchModel {
    if begin_refusal(m, request_id) is Some {
        m
    } else {
        SearchModel {
            active: Some((request_id, m.next_token, false, false)),
            next_token: (m.next_token + 1) as u64,
            interrupt: m.interrupt || (m.active matches Some((_, _, _, running)) && running),
        }
    }
}

/// Cancelling marks the active search if it has this identifier and
/// interrupts its running statement.
pub open spec fn spec_search_cancel(m: SearchModel, request_id: Seq<char>) -> SearchModel {
    match m.active {
        Some((id, token, _, running)) => if id == request_id {
            SearchModel {
                active: Some((id, token, true, running)),
                next_token: m.next_token,
                interrupt: m.interrupt || running,
            }
        } else {
            m
        },
        None => m,
    }
}

/// A lease is current while it owns the active search and that search was
/// not cancelled.
pub open spec fn spec_is_current(m: SearchModel, token: u64) -> bool {
    m.active matches Some((_, t, cancelled, _)) && t == token && !cancelled
}

/// Marks the statement of the lease's search as running or not.
pub open spec fn spec_set_running(m: SearchModel, token: u64, running: bool) -> SearchModel {
    match m.active {
        Some((id, t, cancelled, _)) => if t == token {
            SearchModel {
                active: Some((id, t, cancelled, running)),
                next_token: m.next_token,
                interrupt: m.interrupt,
            }
        } else {
            m
        },
        None => m,
    }
}

/// Letting go of a lease removes the active search if the lease owns it.
pub open spec fn spec_search_release(m: SearchModel, token: u64) -> SearchModel {
    match m.active {
        Some((_, t, _, _)) => if t == token {
            SearchModel { active: None, next_token: m.next_token, interrupt: m.interrupt }
        } else {
            m
        },
        None => m,
    }
}

struct ActiveSearch {
    request_id: String,
    token: u64,
    cancelled: bool,
    running: bool,
}

/// The searches in progress.
pub struct SearchRegistry {
    active: Option<ActiveSearch>,
    next_token: u64,
    interrupt: bool,
}

/// The right to run and finish one search.
pub struct SearchLease {
    request_id: String,
    token: u64,
}

impl SearchLease {
    pub closed spec fn token(&self) -> u64 {
        self.token
    }

    pub closed spec fn id(&self) -> Seq<char> {
        self.request_id@
    }

    pub fn request_id(&self) -> (r: &str)
        ensures
            r@ == self.id(),
    {
        self.request_id.as_str()
    }
}

impl SearchRegistry {
    pub closed spec fn model(&self) -> SearchModel {
        SearchModel {
            active: match self.active {
                Some(a) => Some((a.request_id@, a.token, a.cancelled, a.running)),
                None => None,
            },
            next_token: self.next_token,
            interrupt: self.interrupt,
        }
    }

    pub fn new() -> (r: SearchRegistry)
        ensures
            r.model() == (SearchModel { active: None, next_token: 0, interrupt: false }),
    {
        SearchRegistry { active: None, next_token: 0, interrupt: false }
    }

    /// Starts a search. A valid identifier that is not already active
    /// cancels and replaces the active search.
    pub fn begin(&mut self, request_id: &str) -> (r: Result<SearchLease, SearchError>)
        requires
            old(self).model().next_token < u64::MAX,
        ensures
            final(self).model() == spec_search_begin(old(self).model(), request_id@),
            match begin_refusal(old(self).model(), request_id@) {
                Some(message) => r matches Err(e) && is_invalid_request(e, message),
                None => r matches Ok(lease) && lease.id() == request_id@ && lease.token()
                    == old(self).model().next_token,
            },
    {
        if let Err(e) = validate_request_id(request_id) {
            return Err(e);
        }
        let already = match &self.active {
            Some(a) => eq_chars(chars_of(a.request_id.as_str()).as_slice(), chars_of(request_id).as_slice()),
            None => false,
        };
        if already {
            return Err(SearchError::invalid_request("search request identifier is already active"));
        }
        let running = match &self.active {
            Some(a) => a.running,
            None => false,
        };
        self.interrupt = self.interrupt || running;
        let token = self.next_token;
        self.next_token = self.next_token + 1;
        self.active = Some(
            ActiveSearch { request_id: request_id.to_string(), token, cancelled: false, running: false },
        );
        Ok(SearchLease { request_id: request_id.to_string(), token })
    }

    /// Cancels the active search with this identifier; says whether there
    /// was one.
    pub fn cancel(&mut self, request_id: &str) -> (r: bool)
        ensures
            final(self).model() == spec_search_cancel(old(self).model(), request_id@),
            r == (old(self).model().active matches Some((id, _, _, _)) && id == request_id@),
    {
        let running = match &mut self.active {
            Some(active) => {
                if eq_chars(
                    chars_of(active.request_id.as_str()).as_slice(),
                    chars_of(request_id).as_slice(),
                ) {
                    active.cancelled = true;
                    Some(active.running)
                } else {
                    None
                }
            },
            None => None,
        };
        match running {
            Some(running) => {
                self.interrupt = self.interrupt || running;
                true
            },
            None => false,
        }
    }

    /// Takes the pending interruption of a running statement: whether the
    /// caller must interrupt the statement now.
    pub fn take_interrupt(&mut self) -> (r: bool)
        ensures
            r == old(self).model().interrupt,
            final(self).model() == (SearchModel { interrupt: false, ..old(self).model() }),
    {
        let r = self.interrupt;
        self.interrupt = false;
        r
    }

    fn is_current(&self, lease: &SearchLease) -> (r: bool)
        ensures
            r == spec_is_current(self.model(), lease.token()),
    {
        match &self.active {
            Some(active) => active.token == lease.token && !active.cancelled,
            None => false,
        }
    }

    /// Checks that the lease still owns the active, uncancelled search.
    pub fn ensure_current(&self, lease: &SearchLease) -> (r: Result<(), SearchError>)
        ensures
            spec_is_current(self.model(), lease.token()) ==> r is Ok,
            !spec_is_current(self.model(), lease.token()) ==> r == Err::<(), SearchError>(
                SearchError::Cancelled,
            ),
    {
        if self.is_current(lease) {
            Ok(())
        } else {
            Err(SearchError::Cancelled)
        }
    }

    fn set_running(&mut self, lease: &SearchLease, running: bool)
        ensures
            final(self).model() == spec_set_running(old(self).model(), lease.token(), running),
    {
        match &mut self.active {
            Some(active) => {
                if active.token == lease.token {
                    active.running = running;
                }
            },
            None => {},
        }
    }

    /// The lease's statement is about to run: allowed only while the lease
    /// is current, and then marked as running.
    pub fn begin_execution(&mut self, lease: &SearchLease) -> (r: Result<(), SearchError>)
        ensures
            spec_is_current(old(self).model(), lease.token()) ==> r is Ok && final(self).model()
                == spec_set_running(old(self).model(), lease.token(), true),
            !spec_is_current(old(self).model(), lease.token()) ==> r == Err::<(), SearchError>(
                SearchError::Cancelled,
            ) && final(self).model() == old(self).model(),
    {
        if !self.is_current(lease) {
            return Err(SearchError::Cancelled);
        }
        self.set_running(lease, true);
        Ok(())
    }

    /// The lease's statement stopped running.
    pub fn end_execution(&mut self, lease: &SearchLease)
        ensures
            final(self).model() == spec_set_running(old(self).model(), lease.token(), false),
    {
        self.set_running(lease, false);
    }

    /// Lets go of a lease without finishing its search.
    pub fn release(&mut self, lease: SearchLease)
        ensures
            final(self).model() == spec_search_release(old(self).model(), lease.token()),
    {
        let owns = match &self.active {
            Some(active) => active.token == lease.token,
            None => false,
        };
        if owns {
            self.active = None;
        }
    }

    /// Finishes a search: while the lease is current, `commit` runs and its
    /// result is returned; otherwise the search was cancelled and `commit`
    /// does not run. Either way the lease's search is no longer active.
    pub fn finish<T, F: FnOnce() -> Result<T, SearchError>>(&mut self, lease: SearchLease, commit: F) -> (r:
        Result<T, SearchError>)
        requires
            commit.requires(()),
        ensures
            final(self).model() == spec_search_release(old(self).model(), lease.token()),
            spec_is_current(old(self).model(), lease.token()) ==> commit.ensures((), r),
            !spec_is_current(old(self).model(), lease.token()) ==> r == Err::<T, SearchError>(
                SearchError::Cancelled,
            ),
    {
        if !self.is_current(&lease) {
            self.release(lease);
            return Err(SearchError::Cancelled);
        }
        let value = commit();
        self.release(lease);
        value
    }
}

/// A new search cancels every earlier lease, asks for the earlier running
/// statement to be interrupted, and leaves its own lease current.
pub proof fn law_new_search_supersedes_the_active_one(
    m: SearchModel,
    earlier: u64,
    request_id: Seq<char>,
)
    requires
        search_model_wf(m),
        earlier < m.next_token,
        begin_refusal(m, request_id) is None,
        m.next_token < u64::MAX,
    ensures
        !spec_is_current(spec_search_begin(m, request_id), earlier),
        spec_is_current(spec_search_begin(m, request_id), m.next_token),
        (m.active matches Some((_, _, _, running)) && running) ==> spec_search_begin(
            m,
            request_id,
        ).interrupt,
        search_model_wf(spec_search_begin(m, request_id)),
{
}

/// Cancelling a search whose statement runs asks for that statement to be
/// interrupted, and the search's lease is no longer current.
pub proof fn law_cancelling_a_running_search_interrupts_it(m: SearchModel, token: u64, request_id: Seq<char>)
    requires
        m.active == Some((request_id, token, false, true)),
    ensures
        spec_search_cancel(m, request_id).interrupt,
        !spec_is_current(spec_search_cancel(m, request_id), token),
{
}

} // verus!
