//! The per-datagram decision of the responder loop.
//!
//! The loop around this function only moves bytes: it receives a datagram,
//! hands the payload and the source's reputation record here, stores the
//! updated record, forwards the audit record to the indexing sink, and —
//! only when told to — writes the canned reply back to the source. Every
//! decision is made in [`handle_datagram`].

use vstd::prelude::*;

use crate::ip::{apply_spec, wf, Ip};
use crate::ssdp::{classify_spec, SsdpRequest};

verus! {

/// What one inbound datagram led to.
pub enum Outcome {
    /// The payload exceeded the configured maximum frame size and was
    /// dropped: no reply, no state change, no audit record — oversized
    /// input must not reach the classifier or the reputation store.
    Oversized,
    /// The payload was classified and the reputation updated; the audit
    /// record is to be indexed, and the canned reply is owed exactly
    /// when `respond` is true.
    Handled { record: SsdpRequest, respond: bool },
}

/// Decides one datagram received at `received` seconds of Unix time from
/// the source whose reputation record is `rep`. A payload over
/// `max_frame` bytes is dropped untouched; otherwise the reputation is
/// updated first, the payload is classified, and a reply is owed exactly
/// when the source is not blacklisted after the update.
pub fn handle_datagram(payload: Vec<u8>, rep: &mut Ip, received: i64, max_frame: usize) -> (r:
    Outcome)
    ensures
        payload@.len() > max_frame ==> r is Oversized && *final(rep) == *old(rep),
        payload@.len() <= max_frame ==> {
            &&& final(rep)@ == apply_spec(old(rep)@, received as int)
            &&& r matches Outcome::Handled { record, respond } && record.model() == classify_spec(
                payload@,
                final(rep)@.blacklisted,
                received as int,
            ) && respond == !final(rep)@.blacklisted
        },
        wf(old(rep)@) ==> wf(final(rep)@),
{
    if payload.len() > max_frame {
        return Outcome::Oversized;
    }
    rep.update(received);
    let blocked = rep.blacklisted;
    let record = SsdpRequest::new(payload, blocked, received);
    Outcome::Handled { record, respond: !blocked }
}

} // verus!
