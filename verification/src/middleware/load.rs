//! Admission of HTTP requests as engine work.

use vstd::prelude::*;

use crate::admission::AdmissionGuard;
use crate::admission::AdmissionState;
use crate::text::same;

verus! {

/// The status of an answer while the server drains.
pub const SERVICE_UNAVAILABLE: u16 = 503;

/// A handler that needs no engine: it stays available while the server drains.
pub open spec fn is_frontend_only(handler: Seq<char>) -> bool {
    ||| handler == "/health"@
    ||| handler == "/metrics"@
    ||| handler == "/load"@
    ||| handler == "/version"@
    ||| handler == "/v1/models"@
    ||| handler == "/server_info"@
    ||| handler == "/tokenize"@
    ||| handler == "/detokenize"@
}

/// The handler of a request needs an engine: every one that is not known to need none.
pub open spec fn is_engine_work(handler: Option<&str>) -> bool {
    handler matches Some(handler) && !is_frontend_only(handler@)
}

/// Whether a handler needs no engine.
pub fn frontend_only(handler: &str) -> (found: bool)
    ensures
        found == is_frontend_only(handler@),
{
    same(handler, "/health") || same(handler, "/metrics") || same(handler, "/load") || same(
        handler,
        "/version",
    ) || same(handler, "/v1/models") || same(handler, "/server_info") || same(handler, "/tokenize")
        || same(handler, "/detokenize")
}

/// What happens to a request.
pub enum Passage {
    /// It goes on, and is not counted.
    Uncounted,
    /// It goes on, and counts as engine work until the guard is released with the response body.
    Counted(AdmissionGuard),
    /// It is answered with this status and text.
    Refused { status: u16, message: &'static str },
}

/// The request is refused because the server drains.
pub open spec fn is_refusal(passage: Passage) -> bool {
    passage matches Passage::Refused { status, message } && status == SERVICE_UNAVAILABLE
        && message@ == "engine is draining"@
}

/// Decides what happens to a request, given the handler that it matched. Engine work is counted,
/// and refused while the server drains; all else goes on.
pub fn track_server_load(admission: &mut AdmissionState, handler: Option<&str>) -> (passage:
    Passage)
    requires
        old(admission).load() < u64::MAX,
    ensures
        final(admission).drains() == old(admission).drains(),
        if !is_engine_work(handler) {
            passage is Uncounted && final(admission).load() == old(admission).load()
        } else if old(admission).drains() {
            is_refusal(passage) && final(admission).load() == old(admission).load()
        } else {
            passage is Counted && final(admission).load() == old(admission).load() + 1
        },
{
    let handler = match handler {
        Some(handler) => handler,
        None => {
            return Passage::Uncounted;
        },
    };
    if frontend_only(handler) {
        return Passage::Uncounted;
    }
    match admission.try_admit() {
        Some(guard) => Passage::Counted(guard),
        None => Passage::Refused { status: SERVICE_UNAVAILABLE, message: "engine is draining" },
    }
}

/// Health, metrics, load, version, the list of models, the server's own description and the two
/// uses of the tokenizer stay available while the server drains; every other handler that a request
/// matched is engine work, and a request that matched none is not.
pub proof fn only_known_handlers_need_no_engine(handler: &str)
    ensures
        !is_engine_work(None),
        handler@ == "/health"@ ==> !is_engine_work(Some(handler)),
        handler@ == "/metrics"@ ==> !is_engine_work(Some(handler)),
        handler@ == "/load"@ ==> !is_engine_work(Some(handler)),
        handler@ == "/version"@ ==> !is_engine_work(Some(handler)),
        handler@ == "/v1/models"@ ==> !is_engine_work(Some(handler)),
        handler@ == "/server_info"@ ==> !is_engine_work(Some(handler)),
        handler@ == "/tokenize"@ ==> !is_engine_work(Some(handler)),
        handler@ == "/detokenize"@ ==> !is_engine_work(Some(handler)),
        handler@ != "/health"@ && handler@ != "/metrics"@ && handler@ != "/load"@ && handler@
            != "/version"@ && handler@ != "/v1/models"@ && handler@ != "/server_info"@ && handler@
            != "/tokenize"@ && handler@ != "/detokenize"@ ==> is_engine_work(Some(handler)),
{
}

/// A refused request is told that the service is unavailable.
pub proof fn refusals_are_unavailable(passage: Passage)
    requires
        is_refusal(passage),
    ensures
        passage is Refused,
        passage->status == 503,
{
}

/// A refusal says that the engine drains.
pub proof fn refusals_tell_the_cause(passage: Passage)
    requires
        is_refusal(passage),
    ensures
        passage is Refused,
        passage->message@ == "engine is draining"@,
{
}

} // verus!
