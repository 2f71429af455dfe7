//! What an engine RPC stream reports of a running request.

use vstd::prelude::*;

use crate::engine_rpc::convert::is_session_of;
use crate::engine_rpc::convert::kv_transfer_params_to_kv_session;
use crate::engine_rpc::convert::session_refusal;
use crate::engine_rpc::messages::EngineError;
use crate::engine_rpc::messages::ErrorCode;
use crate::engine_rpc::messages::GenerateEvent;
use crate::engine_rpc::messages::GenerateResponse;
use crate::engine_rpc::messages::GenerationEnd;
use crate::engine_rpc::messages::KvSessionRef;
use crate::engine_rpc::messages::Usage;
use crate::events::DecodedTextEvent;
use crate::events::FinishReason;
use crate::events::Finished;
use crate::json::lemma_field_models_len;
use crate::json::JsonModel;
use crate::openengine::convert::text_view;
use crate::openengine::messages::EngineRole;
use crate::openengine::output::lemma_count_is_cut;
use crate::struct_json::handoff_restores_members;
use crate::struct_json::lemma_fields_of_len;
use crate::struct_json::members_handed_off;
use crate::struct_json::members_of;
use crate::text::is_blank_text;

verus! {

/// The token counts, cut to 32 bits, add up within 32 bits.
pub open spec fn usage_fits(finished: Finished) -> bool {
    finished.usage.prompt_token_count as u32 + finished.usage.output_token_count as u32
        <= u32::MAX
}

/// The usage that is reported at the end of a request. Counts are cut to 32 bits.
pub open spec fn usage_of(finished: Finished) -> Usage {
    Usage {
        prompt_tokens: finished.usage.prompt_token_count as u32,
        completion_tokens: finished.usage.output_token_count as u32,
        total_tokens: (finished.usage.prompt_token_count as u32
            + finished.usage.output_token_count as u32) as u32,
    }
}

fn to_usage(finished: &Finished) -> (usage: Usage)
    requires
        usage_fits(*finished),
    ensures
        usage == usage_of(*finished),
{
    let prompt_tokens: u32 = #[verifier::truncate] (finished.usage.prompt_token_count as u32);
    let completion_tokens: u32 = #[verifier::truncate] (finished.usage.output_token_count as u32);
    Usage { prompt_tokens, completion_tokens, total_tokens: prompt_tokens + completion_tokens }
}

/// The reason that the end of an output is reported with.
pub open spec fn end_of(reason: FinishReason) -> GenerationEnd {
    match reason {
        FinishReason::Stop(_) => GenerationEnd::Stop,
        FinishReason::Repetition(_) => GenerationEnd::Stop,
        FinishReason::Length => GenerationEnd::Length,
        FinishReason::Abort => GenerationEnd::Cancelled,
        FinishReason::Error => GenerationEnd::Error,
    }
}

fn finish_reason_to_proto(reason: &FinishReason) -> (end: GenerationEnd)
    ensures
        end == end_of(*reason),
{
    match reason {
        FinishReason::Stop(_) | FinishReason::Repetition(_) => GenerationEnd::Stop,
        FinishReason::Length => GenerationEnd::Length,
        FinishReason::Abort => GenerationEnd::Cancelled,
        FinishReason::Error => GenerationEnd::Error,
    }
}

/// A response that reports a failure.
pub open spec fn reports_failure(
    response: GenerateResponse,
    request_id: Seq<char>,
    code: ErrorCode,
    message: Seq<char>,
    usage: Option<Usage>,
) -> bool {
    &&& response.request_id@ == request_id
    &&& response.event matches GenerateEvent::Error(error) && error.code == code
        && error.message@ == message && error.retry_hint@ == ""@
    &&& response.usage == usage
}

/// Reports a failure of a KV transfer.
pub fn kv_transfer_error_response(request_id: &str, message: &str, usage: Option<Usage>) -> (response:
    GenerateResponse)
    ensures
        reports_failure(
            response,
            request_id@,
            ErrorCode::KvTransferFailed,
            message@,
            usage,
        ),
{
    GenerateResponse {
        request_id: request_id.to_string(),
        event: GenerateEvent::Error(
            EngineError {
                code: ErrorCode::KvTransferFailed,
                message: message.to_string(),
                retry_hint: "".to_string(),
            },
        ),
        usage,
    }
}

/// Reports a failure of the engine.
pub fn error_response(request_id: &str, message: String) -> (response: GenerateResponse)
    ensures
        reports_failure(response, request_id@, ErrorCode::Internal, message@, None),
{
    GenerateResponse {
        request_id: request_id.to_string(),
        event: GenerateEvent::Error(
            EngineError { code: ErrorCode::Internal, message, retry_hint: "".to_string() },
        ),
        usage: None,
    }
}

/// Transfer parameters that a decode engine can use: an object with at least one member.
pub open spec fn usable_parameters(params: JsonModel) -> bool {
    params matches JsonModel::Object(members) && members.len() > 0
}

/// The response that ends a request.
pub open spec fn ends_request(
    response: GenerateResponse,
    finished: Finished,
    request_id: Seq<char>,
    role: EngineRole,
    kv_connector: Option<String>,
    handoff_dp_rank: u32,
) -> bool {
    let usage = Some(usage_of(finished));
    if role != EngineRole::Prefill {
        &&& response.request_id@ == request_id
        &&& response.event matches GenerateEvent::Finished { reason, message } && reason == end_of(
            finished.finish_reason,
        ) && message@ == ""@
        &&& response.usage == usage
    } else if finished.finish_reason is Abort || finished.finish_reason is Error {
        reports_failure(
            response,
            request_id,
            ErrorCode::KvTransferFailed,
            "prefill did not complete successfully"@,
            usage,
        )
    } else {
        match finished.kv_transfer_params {
            None => reports_failure(
                response,
                request_id,
                ErrorCode::KvTransferFailed,
                "prefill completed without KV transfer metadata"@,
                usage,
            ),
            Some(params) => if usable_parameters(params.model()) {
                &&& response.request_id@ == request_id
                &&& response.event matches GenerateEvent::PrefillReady { kv_session }
                    && is_session_of(
                    kv_session,
                    params.model(),
                    request_id,
                    kv_connector,
                    handoff_dp_rank,
                )
                &&& response.usage == usage
            } else {
                reports_failure(
                    response,
                    request_id,
                    ErrorCode::KvTransferFailed,
                    "prefill returned invalid KV transfer metadata"@,
                    usage,
                )
            },
        }
    }
}

/// Reports the end of a request.
pub fn terminal_response(
    finished: &Finished,
    request_id: &str,
    role: EngineRole,
    kv_connector: &Option<String>,
    handoff_dp_rank: u32,
) -> (response: GenerateResponse)
    requires
        usage_fits(*finished),
    ensures
        ends_request(response, *finished, request_id@, role, *kv_connector, handoff_dp_rank),
{
    let usage = Some(to_usage(finished));
    if role == EngineRole::Prefill {
        let failed: bool = match &finished.finish_reason {
            FinishReason::Abort | FinishReason::Error => true,
            _ => false,
        };
        if failed {
            return kv_transfer_error_response(
                request_id,
                "prefill did not complete successfully",
                usage,
            );
        }
        let params = match &finished.kv_transfer_params {
            Some(params) => params,
            None => {
                return kv_transfer_error_response(
                    request_id,
                    "prefill completed without KV transfer metadata",
                    usage,
                );
            },
        };
        let kv_session = kv_transfer_params_to_kv_session(
            params,
            request_id,
            kv_connector,
            handoff_dp_rank,
        );
        proof {
            if let JsonModel::Object(members) = params.model() {
                lemma_fields_of_len(members);
                lemma_field_models_len(kv_session.attributes_struct->Some_0.fields@);
            }
        }
        let described: bool = match &kv_session.attributes_struct {
            Some(attributes) => attributes.fields.len() > 0,
            None => false,
        };
        if !described {
            return kv_transfer_error_response(
                request_id,
                "prefill returned invalid KV transfer metadata",
                usage,
            );
        }
        return GenerateResponse {
            request_id: request_id.to_string(),
            event: GenerateEvent::PrefillReady { kv_session },
            usage,
        };
    }
    GenerateResponse {
        request_id: request_id.to_string(),
        event: GenerateEvent::Finished {
            reason: finish_reason_to_proto(&finished.finish_reason),
            message: "".to_string(),
        },
        usage,
    }
}

/// The responses say what the event reports.
pub open spec fn reports_event(
    responses: Seq<GenerateResponse>,
    event: DecodedTextEvent,
    request_id: Seq<char>,
    role: EngineRole,
    kv_connector: Option<String>,
    handoff_dp_rank: u32,
) -> bool {
    match event {
        DecodedTextEvent::Start { .. } => responses.len() == 0,
        DecodedTextEvent::TextDelta { delta, token_ids: ids, logprobs: _, finished } => {
            let shown = ids@.len() > 0 || delta@.len() > 0;
            &&& responses.len() == (if shown {
                1int
            } else {
                0
            }) + (if finished is Some {
                1int
            } else {
                0
            })
            &&& shown ==> {
                &&& responses[0].request_id@ == request_id
                &&& responses[0].event matches GenerateEvent::Token { token_ids, text } && token_ids
                    == ids && text == delta
                &&& responses[0].usage is None
            }
            &&& finished is Some ==> ends_request(
                responses.last(),
                finished->Some_0,
                request_id,
                role,
                kv_connector,
                handoff_dp_rank,
            )
        },
    }
}

/// The token counts of an event add up within 32 bits.
pub open spec fn event_fits(event: DecodedTextEvent) -> bool {
    event matches DecodedTextEvent::TextDelta { delta: _, token_ids: _, logprobs: _, finished }
        && finished is Some ==> usage_fits(event->finished->Some_0)
}

/// Reports an event of a running request.
pub fn event_to_responses(
    event: DecodedTextEvent,
    request_id: &str,
    role: EngineRole,
    kv_connector: &Option<String>,
    handoff_dp_rank: u32,
) -> (responses: Vec<GenerateResponse>)
    requires
        event_fits(event),
    ensures
        reports_event(responses@, event, request_id@, role, *kv_connector, handoff_dp_rank),
{
    let mut responses: Vec<GenerateResponse> = Vec::new();
    match event {
        DecodedTextEvent::Start { .. } => {},
        DecodedTextEvent::TextDelta { delta, token_ids, logprobs: _, finished } => {
            if token_ids.len() > 0 || !delta.as_str().is_empty() {
                responses.push(
                    GenerateResponse {
                        request_id: request_id.to_string(),
                        event: GenerateEvent::Token { token_ids, text: delta },
                        usage: None,
                    },
                );
            }
            if let Some(finished) = &finished {
                responses.push(
                    terminal_response(finished, request_id, role, kv_connector, handoff_dp_rank),
                );
            }
        },
    }
    responses
}

/// A prefill that failed never hands a KV session over.
pub proof fn failed_prefill_hands_nothing_over(
    response: GenerateResponse,
    finished: Finished,
    request_id: Seq<char>,
    kv_connector: Option<String>,
    handoff_dp_rank: u32,
)
    requires
        ends_request(
            response,
            finished,
            request_id,
            EngineRole::Prefill,
            kv_connector,
            handoff_dp_rank,
        ),
        finished.finish_reason is Abort || finished.finish_reason is Error
            || finished.kv_transfer_params is None,
    ensures
        response.event is Error,
{
}

/// The session that a prefill engine hands over with usable transfer parameters is one that a
/// decode engine with the same connector accepts. The decode engine gets those parameters back:
/// integers of at most 53 bits as they were, larger ones as decimal text.
pub proof fn decode_accepts_session(
    session: KvSessionRef,
    params: JsonModel,
    request_id: Seq<char>,
    kv_connector: Option<String>,
    data_parallel_rank: u32,
)
    requires
        is_session_of(session, params, request_id, kv_connector, data_parallel_rank),
        usable_parameters(params),
        !is_blank_text(request_id),
        kv_connector matches Some(connector) && !is_blank_text(connector@),
    ensures
        session_refusal(Some(session), text_view(kv_connector)) is None,
        members_of(session.attributes_struct->Some_0@, true) == members_handed_off(
            params->Object_0,
        ),
{
    handoff_restores_members(params->Object_0);
    lemma_fields_of_len(params->Object_0);
    lemma_field_models_len(session.attributes_struct->Some_0.fields@);
}

/// Outside a prefill engine, the reported reason tells why the engine ended an output: it is the
/// length if and only if the output was cut for its length, a cancellation if and only if it was
/// aborted, an error if and only if the engine failed, and a stop if and only if it stopped or
/// repeated.
pub proof fn ends_are_told_apart(
    responses: Seq<GenerateResponse>,
    event: DecodedTextEvent,
    request_id: Seq<char>,
    role: EngineRole,
    kv_connector: Option<String>,
    handoff_dp_rank: u32,
)
    requires
        reports_event(responses, event, request_id, role, kv_connector, handoff_dp_rank),
        role != EngineRole::Prefill,
        event is TextDelta,
        event->finished is Some,
    ensures
        responses.len() > 0,
        responses.last().event is Finished,
        ({
            let end = responses.last().event->reason;
            let reason = event->finished->Some_0.finish_reason;
            &&& end is Length <==> reason is Length
            &&& end is Cancelled <==> reason is Abort
            &&& end is Error <==> reason is Error
            &&& end is Stop <==> reason is Stop || reason is Repetition
        }),
{
}

/// A prefill engine ends a request with a session if and only if the engine neither failed nor
/// aborted it and gave an object of transfer parameters with at least one member. Else it reports
/// that the transfer failed.
pub proof fn prefill_ends_with_session_or_failure(
    responses: Seq<GenerateResponse>,
    event: DecodedTextEvent,
    request_id: Seq<char>,
    kv_connector: Option<String>,
    handoff_dp_rank: u32,
)
    requires
        reports_event(
            responses,
            event,
            request_id,
            EngineRole::Prefill,
            kv_connector,
            handoff_dp_rank,
        ),
        event is TextDelta,
        event->finished is Some,
    ensures
        responses.len() > 0,
        ({
            let finished = event->finished->Some_0;
            let done = responses.last().event;
            &&& done is PrefillReady <==> finished.finish_reason !is Error
                && finished.finish_reason !is Abort && finished.kv_transfer_params is Some
                && finished.kv_transfer_params->Some_0.model() is Object
                && finished.kv_transfer_params->Some_0.model()->Object_0.len() > 0
            &&& done !is PrefillReady ==> done is Error && done->Error_0.code is KvTransferFailed
            &&& done is PrefillReady ==> {
                &&& done->kv_session.session_id@ == request_id
                &&& done->kv_session.dp_rank == handoff_dp_rank
                &&& done->kv_session.transfer_backend@ == (match kv_connector {
                    Some(connector) => connector@,
                    None => ""@,
                })
            }
        }),
{
}

/// The text and the tokens of an event reach the client unchanged, in one report before the end of
/// the request, and are reported only if there are any. The start of a request is not reported.
pub proof fn output_is_reported_whole(
    responses: Seq<GenerateResponse>,
    event: DecodedTextEvent,
    request_id: Seq<char>,
    role: EngineRole,
    kv_connector: Option<String>,
    handoff_dp_rank: u32,
)
    requires
        reports_event(responses, event, request_id, role, kv_connector, handoff_dp_rank),
    ensures
        event is Start ==> responses.len() == 0,
        forall|i: int|
            0 <= i < responses.len() ==> (#[trigger] responses[i]).request_id@ == request_id,
        event is TextDelta && event->delta@.len() == 0 && event->token_ids@.len() == 0
            && event->finished is None ==> responses.len() == 0,
        event is TextDelta && (event->delta@.len() > 0 || event->token_ids@.len() > 0) ==> {
            &&& responses.len() > 0
            &&& responses[0].event is Token
            &&& responses[0].event->text@ == event->delta@
            &&& responses[0].event->token_ids@ == event->token_ids@
            &&& responses[0].usage is None
        },
        event is TextDelta && event->delta@.len() == 0 && event->token_ids@.len() == 0
            && responses.len() > 0 ==> responses[0].event !is Token,
        forall|i: int|
            1 <= i < responses.len() ==> (#[trigger] responses[i]).event !is Token,
{
    if event is TextDelta && event->finished is Some {
        let last = responses.last();
        assert(last.request_id@ == request_id);
        assert(last.event !is Token);
    }
}

/// The end of a request carries its token counts: each as counted, modulo what 32 bits hold, and
/// as the total their sum.
pub proof fn end_counts_tokens(
    responses: Seq<GenerateResponse>,
    event: DecodedTextEvent,
    request_id: Seq<char>,
    role: EngineRole,
    kv_connector: Option<String>,
    handoff_dp_rank: u32,
)
    requires
        reports_event(responses, event, request_id, role, kv_connector, handoff_dp_rank),
        event_fits(event),
        event is TextDelta,
        event->finished is Some,
    ensures
        responses.len() > 0,
        forall|i: int|
            0 <= i < responses.len() - 1 ==> (#[trigger] responses[i]).usage is None,
        responses.last().usage is Some,
        ({
            let counted = event->finished->Some_0.usage;
            let usage = responses.last().usage->Some_0;
            &&& usage.prompt_tokens == counted.prompt_token_count as int % 0x1_0000_0000
            &&& usage.completion_tokens == counted.output_token_count as int % 0x1_0000_0000
            &&& usage.total_tokens == usage.prompt_tokens + usage.completion_tokens
        }),
{
    let counted = event->finished->Some_0.usage;
    lemma_count_is_cut(counted.prompt_token_count);
    lemma_count_is_cut(counted.output_token_count);
    assert(responses.last().usage == Some(usage_of(event->finished->Some_0)));
}

/// Every end of a request, good or bad, goes out under the id of the request and with its usage,
/// and a failure with its message and no hint to try again.
pub proof fn ends_name_their_request(
    response: GenerateResponse,
    finished: Finished,
    request_id: Seq<char>,
    role: EngineRole,
    kv_connector: Option<String>,
    handoff_dp_rank: u32,
    code: ErrorCode,
    message: Seq<char>,
    usage: Option<Usage>,
)
    ensures
        ends_request(response, finished, request_id, role, kv_connector, handoff_dp_rank)
            ==> response.request_id@ == request_id && response.usage is Some,
        reports_failure(response, request_id, code, message, usage) ==> {
            &&& response.request_id@ == request_id
            &&& response.usage == usage
            &&& response.event is Error
            &&& response.event->Error_0.code == code
            &&& response.event->Error_0.message@ == message
            &&& response.event->Error_0.retry_hint@.len() == 0
        },
{
    reveal_strlit("");
}

/// A session that a prefill hands over is known by the request, the rank that holds it and the
/// connector that moves it.
pub proof fn sessions_name_their_request(
    session: KvSessionRef,
    params: JsonModel,
    request_id: Seq<char>,
    kv_connector: Option<String>,
    data_parallel_rank: u32,
)
    requires
        is_session_of(session, params, request_id, kv_connector, data_parallel_rank),
    ensures
        session.session_id@ == request_id,
        session.dp_rank == data_parallel_rank,
        kv_connector is Some ==> session.transfer_backend@ == kv_connector->Some_0@,
        kv_connector is None ==> session.transfer_backend@.len() == 0,
        session.attributes_struct is Some <==> params is Object,
{
    reveal_strlit("");
}

} // verus!
