//! Reading an indexed PDF for preview: at most one read is active, and a new
//! read cancels the one before it.
use vstd::prelude::*;

use crate::search::{request_id_is_valid, valid_request_id};
use crate::text::{chars_of, eq_chars};

verus! {

broadcast use vstd::string::group_string_axioms;

#[derive(Debug, Clone, Copy, PartialEq, Eq)]
pub enum PdfReadError {
    InvalidRequest,
    Cancelled,
}

pub open spec fn spec_pdf_read_code(e: PdfReadError) -> Seq<char> {
    match e {
        PdfReadError::InvalidRequest => "PDF_READ_REQUEST_INVALID"@,
        PdfReadError::Cancelled => "PDF_READ_CANCELLED"@,
    }
}

impl PdfReadError {
    pub fn code(&self) -> (r: &'static str)
        ensures
            r@ == spec_pdf_read_code(*self),
    {
        match self {
            PdfReadError::InvalidRequest => "PDF_READ_REQUEST_INVALID",
            PdfReadError::Cancelled => "PDF_READ_CANCELLED",
        }
    }
}

/// Rejects a request identifier that is not 1 to 128 ASCII letters, digits,
/// `-` or `_`.
pub fn validate_request_id(request_id: &str) -> (r: Result<(), PdfReadError>)
    ensures
        r == (if valid_request_id(request_id@) {
            Ok::<(), PdfReadError>(())
        } else {
            Err(PdfReadError::InvalidRequest)
        }),
{
    if request_id_is_valid(request_id) {
        Ok(())
    } else {
        Err(PdfReadError::InvalidRequest)
    }
}

// ---------------------------------------------------------------------------
// The registry as a model
// ---------------------------------------------------------------------------

/// The active read, if any: its request identifier, the number of its lease
/// and whether it was cancelled; and the number the next lease gets.
pub struct RegistryModel {
    pub active: Option<(Seq<char>, u64, bool)>,
    pub next_token: u64,
}

pub open spec fn model_wf(m: RegistryModel) -> bool {
    match m.active {
        Some((_, token, _)) => token < m.next_token,
        None => true,
    }
}

/// A new read with a valid identifier replaces the active one.
pub open spec fn spec_begin(m: RegistryModel, request_id: Seq<char>) -> RegistryModel {
    if valid_request_id(request_id) {
        RegistryModel {
            active: Some((request_id, m.next_token, false)),
            next_token: (m.next_token + 1) as u64,
        }
    } else {
        m
    }
}

/// Cancelling marks the active read if it has this identifier.
pub open spec fn spec_cancel(m: RegistryModel, request_id: Seq<char>) -> RegistryModel {
    match m.active {
        Some((id, token, _)) => if id == request_id {
            RegistryModel { active: Some((id, token, true)), next_token: m.next_token }
        } else {
            m
        },
        None => m,
    }
}

/// A lease is cancelled unless it owns the active read and that read was
/// not cancelled.
pub open spec fn spec_is_cancelled(m: RegistryModel, token: u64) -> bool {
    !(m.active matches Some((_, t, c)) && t == token && !c)
}

/// Letting go of a lease removes the active read if the lease owns it.
pub open spec fn spec_release(m: RegistryModel, token: u64) -> RegistryModel {
    match m.active {
        Some((_, t, _)) => if t == token {
            RegistryModel { active: None, next_token: m.next_token }
        } else {
            m
        },
        None => m,
    }
}

// ---------------------------------------------------------------------------
// The registry
// ---------------------------------------------------------------------------

struct ActiveRead {
    request_id: String,
    token: u64,
    cancelled: bool,
}

/// The PDF reads in progress: at most one is active.
pub struct PdfReadRegistry {
    active: Option<ActiveRead>,
    next_token: u64,
}

/// The right to finish one read.
pub struct PdfReadLease {
    request_id: String,
    token: u64,
}

impl PdfReadLease {
    pub closed spec fn token(&self) -> u64 {
        self.token
    }

    pub closed spec fn id(&self) -> Seq<char> {
        self.request_id@
    }

    pub fn request_id(&self) -> (r: &str)
        ensures
            r@ == self.id(),
    {
        self.request_id.as_str()
    }
}

impl PdfReadRegistry {
    pub closed spec fn model(&self) -> RegistryModel {
        RegistryModel {
            active: match self.active {
                Some(a) => Some((a.request_id@, a.token, a.cancelled)),
                None => None,
            },
            next_token: self.next_token,
        }
    }

    pub fn new() -> (r: PdfReadRegistry)
        ensures
            r.model() == (RegistryModel { active: None, next_token: 0 }),
    {
        PdfReadRegistry { active: None, next_token: 0 }
    }

    /// Starts a read. A valid request cancels and replaces the active read.
    pub fn begin(&mut self, request_id: &str) -> (r: Result<PdfReadLease, PdfReadError>)
        requires
            old(self).model().next_token < u64::MAX,
        ensures
            final(self).model() == spec_begin(old(self).model(), request_id@),
            match r {
                Ok(lease) => valid_request_id(request_id@) && lease.id() == request_id@
                    && lease.token() == old(self).model().next_token,
                Err(e) => !valid_request_id(request_id@) && e == PdfReadError::InvalidRequest,
            },
    {
        if let Err(e) = validate_request_id(request_id) {
            return Err(e);
        }
        let token = self.next_token;
        self.next_token = self.next_token + 1;
        self.active = Some(
            ActiveRead { request_id: request_id.to_string(), token, cancelled: false },
        );
        Ok(PdfReadLease { request_id: request_id.to_string(), token })
    }

    /// Cancels the active read with this identifier; says whether there was one.
    pub fn cancel(&mut self, request_id: &str) -> (r: bool)
        ensures
            final(self).model() == spec_cancel(old(self).model(), request_id@),
            r == (old(self).model().active matches Some((id, _, _)) && id == request_id@),
    {
        match &mut self.active {
            Some(active) => {
                if eq_chars(
                    chars_of(active.request_id.as_str()).as_slice(),
                    chars_of(request_id).as_slice(),
                ) {
                    active.cancelled = true;
                    true
                } else {
                    false
                }
            },
            None => false,
        }
    }

    pub fn is_cancelled(&self, lease: &PdfReadLease) -> (r: bool)
        ensures
            r == spec_is_cancelled(self.model(), lease.token()),
    {
        match &self.active {
            Some(active) => !(active.token == lease.token && !active.cancelled),
            None => true,
        }
    }

    /// Lets go of a lease without finishing its read.
    pub fn release(&mut self, lease: PdfReadLease)
        ensures
            final(self).model() == spec_release(old(self).model(), lease.token()),
    {
        let owns = match &self.active {
            Some(active) => active.token == lease.token,
            None => false,
        };
        if owns {
            self.active = None;
        }
    }

    /// Finishes a read: its value if the lease still owns the active,
    /// uncancelled read, and `Cancelled` otherwise. Either way the lease's
    /// read is no longer active.
    pub fn finish<T>(&mut self, lease: PdfReadLease, value: T) -> (r: Result<T, PdfReadError>)
        ensures
            final(self).model() == spec_release(old(self).model(), lease.token()),
            match r {
                Ok(v) => !spec_is_cancelled(old(self).model(), lease.token()) && v == value,
                Err(e) => spec_is_cancelled(old(self).model(), lease.token()) && e
                    == PdfReadError::Cancelled,
            },
    {
        let cancelled = self.is_cancelled(&lease);
        self.release(lease);
        if cancelled {
            Err(PdfReadError::Cancelled)
        } else {
            Ok(value)
        }
    }
}

// ---------------------------------------------------------------------------
// Laws
// ---------------------------------------------------------------------------

/// A new read cancels every earlier lease and leaves its own lease
/// uncancelled; cancelling it by its identifier then cancels it.
pub proof fn law_new_read_cancels_previous(m: RegistryModel, earlier: u64, request_id: Seq<char>)
    requires
        model_wf(m),
        earlier < m.next_token,
        valid_request_id(request_id),
        m.next_token < u64::MAX,
    ensures
        spec_is_cancelled(spec_begin(m, request_id), earlier),
        !spec_is_cancelled(spec_begin(m, request_id), m.next_token),
        spec_is_cancelled(spec_cancel(spec_begin(m, request_id), request_id), m.next_token),
        model_wf(spec_begin(m, request_id)),
{
}

/// Letting go of a lease that does not own the active read changes nothing.
pub proof fn law_release_of_stale_lease_is_harmless(m: RegistryModel, token: u64)
    requires
        !(m.active matches Some((_, t, _)) && t == token),
    ensures
        spec_release(m, token) == m,
{
}

} // verus!
