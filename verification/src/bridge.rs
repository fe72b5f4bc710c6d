//! The native open-event bridge.
//!
//! Some hosts tell a running process to open a document. Where the host has
//! such a facility and registering with it succeeded, the bridge listens and
//! turns each request into a candidate. Everywhere else the bridge is absent
//! and yields nothing, and the other two sources cover the ground.

use vstd::prelude::*;
use crate::candidate::{
    admissible, admission_needs_probe, is_admissible, probe, CandidatePath, CandidateView,
    Provenance,
};

verus! {

/// Whether open-document requests of the host reach the process.
#[derive(Clone, Copy, Debug, PartialEq, Eq, Structural)]
pub enum NativeBridge {
    /// Registered with the host: requests arrive.
    Listening,
    /// No facility on this host, or registering failed: nothing arrives.
    Absent,
}

/// The candidate that an open-document request yields, given what a probe of
/// the file system said about its payload. A payload that the admission rule
/// rejects is discarded.
pub open spec fn native_candidate(bridge: NativeBridge, payload: Seq<char>, exists: bool) -> Option<
    CandidateView,
> {
    if bridge is Listening && admissible(payload, exists) {
        Some(CandidateView { path: payload, source: Provenance::NativeBridge })
    } else {
        None
    }
}

impl NativeBridge {
    /// The bridge after an attempt to register with the host. A failed
    /// attempt leaves the bridge absent; it is no error.
    pub fn after_registration(registered: bool) -> (bridge: NativeBridge)
        ensures
            bridge is Listening <==> registered,
    {
        if registered {
            NativeBridge::Listening
        } else {
            NativeBridge::Absent
        }
    }

    /// Turns an open-document request into a candidate, given what a probe of
    /// the file system said about its payload.
    pub fn open_request_with(&self, payload: &str, exists: bool) -> (found: Option<CandidatePath>)
        ensures
            found.deep_view() == native_candidate(*self, payload@, exists),
    {
        match self {
            NativeBridge::Listening => {
                if is_admissible(payload, exists) {
                    Some(CandidatePath::new(payload.to_owned(), Provenance::NativeBridge))
                } else {
                    None
                }
            },
            NativeBridge::Absent => None,
        }
    }

    /// Turns an open-document request into a candidate, probing the file
    /// system where the outcome depends on it.
    pub fn open_request(&self, payload: &str) -> (found: Option<CandidatePath>)
        ensures
            found.deep_view() == native_candidate(*self, payload@, true) || found.deep_view()
                == native_candidate(*self, payload@, false),
            !admission_needs_probe(payload@) ==> found.deep_view() == native_candidate(
                *self,
                payload@,
                false,
            ),
    {
        let exists = probe(payload);
        self.open_request_with(payload, exists)
    }
}

/// An absent bridge yields nothing, whatever arrives.
pub proof fn law_absent_bridge_is_silent(payload: Seq<char>, exists: bool)
    ensures
        native_candidate(NativeBridge::Absent, payload, exists) is None,
{
}

} // verus!
