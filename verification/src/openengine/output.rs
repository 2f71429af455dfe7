//! What an OpenEngine stream reports of a running request.

use vstd::prelude::*;

use crate::events::DecodedLogprobs;
use crate::events::DecodedPositionLogprobs;
use crate::events::DecodedPromptLogprobs;
use crate::events::DecodedTextEvent;
use crate::events::DecodedTokenLogprob;
use crate::events::FinishReason;
use crate::events::Finished;
use crate::events::StopReason;
use crate::json::JsonModel;
use crate::json::lemma_field_models_len;
use crate::openengine::convert::decode_refusal;
use crate::openengine::convert::HANDOFF_PROFILE;
use crate::openengine::convert::TRANSFER_BACKEND;
use crate::openengine::messages::EngineError;
use crate::openengine::messages::EngineRole;
use crate::openengine::messages::ErrorCode;
use crate::openengine::messages::GenerateEvent;
use crate::openengine::messages::GenerateResponse;
use crate::openengine::messages::GenerationEnd;
use crate::openengine::messages::GenerationFinished;
use crate::openengine::messages::KvSessionRef;
use crate::openengine::messages::LogProb;
use crate::openengine::messages::StopMatch;
use crate::openengine::messages::TokenInfo;
use crate::openengine::messages::TokenOutput;
use crate::openengine::messages::Usage;
use crate::struct_json::fields_of;
use crate::struct_json::handoff_restores_members;
use crate::struct_json::json_to_prost_struct;
use crate::struct_json::lemma_fields_of_len;
use crate::struct_json::members_handed_off;
use crate::struct_json::members_of;
use crate::text::is_blank_text;

verus! {

/// The first candidate that is this token, or -1.
pub open spec fn candidate_position(entries: Seq<DecodedTokenLogprob>, id: u32) -> int
    decreases entries.len(),
{
    if entries.len() == 0 {
        -1
    } else if candidate_position(entries.drop_last(), id) >= 0 {
        candidate_position(entries.drop_last(), id)
    } else if entries.last().token_id == id {
        entries.len() - 1
    } else {
        -1
    }
}

/// The candidate that a token is reported by: the token itself, or else the first candidate.
pub open spec fn reported_candidate(position: Option<DecodedPositionLogprobs>, id: u32) -> Option<
    DecodedTokenLogprob,
> {
    match position {
        None => None,
        Some(position) => if candidate_position(position.entries@, id) >= 0 {
            Some(position.entries@[candidate_position(position.entries@, id)])
        } else if position.entries@.len() > 0 {
            Some(position.entries@[0])
        } else {
            None
        },
    }
}

/// A reported candidate says what is known of it.
pub open spec fn is_candidate(reported: LogProb, entry: DecodedTokenLogprob) -> bool {
    &&& reported.token_id == entry.token_id
    &&& reported.logprob == entry.logprob
    &&& reported.token == entry.token
    &&& reported.rank == Some(entry.rank)
}

/// A reported token says what is known of it at its position.
pub open spec fn is_token_at(
    info: TokenInfo,
    id: u32,
    position: Option<DecodedPositionLogprobs>,
) -> bool {
    &&& info.token_id == id
    &&& match reported_candidate(position, id) {
        Some(entry) => {
            &&& info.token == entry.token
            &&& info.logprob == Some(entry.logprob)
            &&& info.rank == Some(entry.rank)
        },
        None => info.token@ == ""@ && info.logprob is None && info.rank is None,
    }
    &&& match position {
        Some(position) => {
            &&& info.candidates@.len() == position.entries@.len()
            &&& forall|i: int|
                0 <= i < info.candidates@.len() ==> is_candidate(
                    #[trigger] info.candidates@[i],
                    position.entries@[i],
                )
        },
        None => info.candidates@.len() == 0,
    }
}

/// The candidates at a position, where there are any.
pub open spec fn position_at(positions: Seq<DecodedPositionLogprobs>, index: int) -> Option<
    DecodedPositionLogprobs,
> {
    if 0 <= index < positions.len() {
        Some(positions[index])
    } else {
        None
    }
}

/// The candidates at a generated position.
pub open spec fn output_position(logprobs: Option<DecodedLogprobs>, index: int) -> Option<
    DecodedPositionLogprobs,
> {
    match logprobs {
        Some(logprobs) => position_at(logprobs.positions@, index),
        None => None,
    }
}

/// The candidates at a prompt position behind the first.
pub open spec fn prompt_position(logprobs: Option<DecodedPromptLogprobs>, index: int) -> Option<
    DecodedPositionLogprobs,
> {
    match logprobs {
        Some(logprobs) => position_at(logprobs.scored_positions@, index - 1),
        None => None,
    }
}

/// A reported first prompt token has a text and no probability.
pub open spec fn is_first_token(
    info: TokenInfo,
    id: u32,
    logprobs: Option<DecodedPromptLogprobs>,
) -> bool {
    &&& info.token_id == id
    &&& match logprobs {
        Some(logprobs) => info.token == logprobs.first_token,
        None => info.token@ == ""@,
    }
    &&& info.logprob is None
    &&& info.rank is None
    &&& info.candidates@.len() == 0
}

/// The reported tokens are those of the prompt.
pub open spec fn are_prompt_tokens(
    tokens: Seq<TokenInfo>,
    ids: Seq<u32>,
    logprobs: Option<DecodedPromptLogprobs>,
) -> bool {
    &&& tokens.len() == ids.len()
    &&& forall|i: int|
        0 <= i < tokens.len() ==> if i == 0 {
            is_first_token(#[trigger] tokens[i], ids[i], logprobs)
        } else {
            is_token_at(tokens[i], ids[i], prompt_position(logprobs, i))
        }
}

/// The reported tokens are those of the output.
pub open spec fn are_output_tokens(
    tokens: Seq<TokenInfo>,
    ids: Seq<u32>,
    logprobs: Option<DecodedLogprobs>,
) -> bool {
    &&& tokens.len() == ids.len()
    &&& forall|i: int|
        0 <= i < tokens.len() ==> is_token_at(
            #[trigger] tokens[i],
            ids[i],
            output_position(logprobs, i),
        )
}

/// Finds the first candidate that is a token.
fn find_candidate(entries: &Vec<DecodedTokenLogprob>, id: u32) -> (found: Option<usize>)
    ensures
        match found {
            Some(i) => i < entries@.len() && candidate_position(entries@, id) == i,
            None => candidate_position(entries@, id) < 0,
        },
{
    let mut i: usize = 0;
    while i < entries.len()
        invariant
            i <= entries@.len(),
            candidate_position(entries@.take(i as int), id) == -1,
        decreases entries@.len() - i,
    {
        assert(entries@.take(i + 1).drop_last() == entries@.take(i as int));
        if entries[i].token_id == id {
            proof {
                lemma_candidate_stays(entries@, id, i + 1);
            }
            return Some(i);
        }
        i += 1;
    }
    assert(entries@.take(i as int) == entries@);
    None
}

proof fn lemma_candidate_stays(entries: Seq<DecodedTokenLogprob>, id: u32, n: int)
    requires
        0 <= n <= entries.len(),
        candidate_position(entries.take(n), id) >= 0,
    ensures
        candidate_position(entries, id) == candidate_position(entries.take(n), id),
    decreases entries.len() - n,
{
    if n == entries.len() {
        assert(entries.take(n) == entries);
    } else {
        assert(entries.take(n + 1).drop_last() == entries.take(n));
        lemma_candidate_stays(entries, id, n + 1);
    }
}

/// Copies the candidates at a position.
fn copy_candidates(entries: &Vec<DecodedTokenLogprob>) -> (candidates: Vec<LogProb>)
    ensures
        candidates@.len() == entries@.len(),
        forall|i: int|
            0 <= i < candidates@.len() ==> is_candidate(#[trigger] candidates@[i], entries@[i]),
{
    let mut candidates: Vec<LogProb> = Vec::new();
    let mut i: usize = 0;
    while i < entries.len()
        invariant
            i <= entries@.len(),
            candidates@.len() == i,
            forall|j: int| 0 <= j < i ==> is_candidate(#[trigger] candidates@[j], entries@[j]),
        decreases entries@.len() - i,
    {
        let entry = &entries[i];
        candidates.push(
            LogProb {
                token_id: entry.token_id,
                logprob: entry.logprob,
                token: entry.token.clone(),
                rank: Some(entry.rank),
            },
        );
        i += 1;
    }
    candidates
}

/// The position that a reference points to.
pub open spec fn pointed(position: Option<&DecodedPositionLogprobs>) -> Option<
    DecodedPositionLogprobs,
> {
    match position {
        Some(position) => Some(*position),
        None => None,
    }
}

/// Reports a token with what is known of it at its position.
pub fn token_info(id: u32, position: Option<&DecodedPositionLogprobs>) -> (info: TokenInfo)
    ensures
        is_token_at(info, id, pointed(position)),
{
    match position {
        None => TokenInfo {
            token_id: id,
            token: "".to_string(),
            logprob: None,
            rank: None,
            candidates: Vec::new(),
        },
        Some(position) => {
            let candidates = copy_candidates(&position.entries);
            let found = find_candidate(&position.entries, id);
            if found.is_none() && position.entries.len() == 0 {
                return TokenInfo {
                    token_id: id,
                    token: "".to_string(),
                    logprob: None,
                    rank: None,
                    candidates,
                };
            }
            let at: usize = match found {
                Some(at) => at,
                None => 0,
            };
            let entry = &position.entries[at];
            TokenInfo {
                token_id: id,
                token: entry.token.clone(),
                logprob: Some(entry.logprob),
                rank: Some(entry.rank),
                candidates,
            }
        },
    }
}

/// Reports the tokens of a prompt.
pub fn prompt_tokens(ids: &Vec<u32>, logprobs: &Option<DecodedPromptLogprobs>) -> (tokens: Vec<
    TokenInfo,
>)
    ensures
        are_prompt_tokens(tokens@, ids@, *logprobs),
{
    let mut tokens: Vec<TokenInfo> = Vec::new();
    let mut i: usize = 0;
    while i < ids.len()
        invariant
            i <= ids@.len(),
            tokens@.len() == i,
            forall|j: int|
                0 <= j < i ==> if j == 0 {
                    is_first_token(#[trigger] tokens@[j], ids@[j], *logprobs)
                } else {
                    is_token_at(tokens@[j], ids@[j], prompt_position(*logprobs, j))
                },
        decreases ids@.len() - i,
    {
        if i == 0 {
            let token = match logprobs {
                Some(logprobs) => logprobs.first_token.clone(),
                None => "".to_string(),
            };
            tokens.push(
                TokenInfo {
                    token_id: ids[i],
                    token,
                    logprob: None,
                    rank: None,
                    candidates: Vec::new(),
                },
            );
        } else {
            let position: Option<&DecodedPositionLogprobs> = match logprobs {
                Some(logprobs) => if i - 1 < logprobs.scored_positions.len() {
                    Some(&logprobs.scored_positions[i - 1])
                } else {
                    None
                },
                None => None,
            };
            tokens.push(token_info(ids[i], position));
        }
        i += 1;
    }
    tokens
}

/// Reports the tokens of an output.
pub fn output_tokens(ids: &Vec<u32>, logprobs: &Option<DecodedLogprobs>) -> (tokens: Vec<TokenInfo>)
    ensures
        are_output_tokens(tokens@, ids@, *logprobs),
{
    let mut tokens: Vec<TokenInfo> = Vec::new();
    let mut i: usize = 0;
    while i < ids.len()
        invariant
            i <= ids@.len(),
            tokens@.len() == i,
            forall|j: int|
                0 <= j < i ==> is_token_at(
                    #[trigger] tokens@[j],
                    ids@[j],
                    output_position(*logprobs, j),
                ),
        decreases ids@.len() - i,
    {
        let position: Option<&DecodedPositionLogprobs> = match logprobs {
            Some(logprobs) => if i < logprobs.positions.len() {
                Some(&logprobs.positions[i])
            } else {
                None
            },
            None => None,
        };
        tokens.push(token_info(ids[i], position));
        i += 1;
    }
    tokens
}

/// The sum of two counts, or the largest count where it does not fit.
pub open spec fn saturating_sum(a: u32, b: u32) -> u32 {
    if a + b > u32::MAX {
        u32::MAX
    } else {
        (a + b) as u32
    }
}

/// The usage that is reported at the end of a request. Counts are cut to 32 bits.
pub open spec fn usage_of(finished: Finished) -> Usage {
    let prompt_tokens = finished.usage.prompt_token_count as u32;
    let completion_tokens = finished.usage.output_token_count as u32;
    Usage {
        prompt_tokens,
        completion_tokens,
        total_tokens: saturating_sum(prompt_tokens, completion_tokens),
        cached_prompt_tokens: Some(finished.usage.cached_token_count as u32),
        reasoning_tokens: None,
    }
}

/// Reports the usage at the end of a request.
pub fn usage(finished: &Finished) -> (usage: Usage)
    ensures
        usage == usage_of(*finished),
{
    let prompt_tokens: u32 = #[verifier::truncate] (finished.usage.prompt_token_count as u32);
    let completion_tokens: u32 = #[verifier::truncate] (finished.usage.output_token_count as u32);
    let cached: u32 = #[verifier::truncate] (finished.usage.cached_token_count as u32);
    Usage {
        prompt_tokens,
        completion_tokens,
        total_tokens: prompt_tokens.saturating_add(completion_tokens),
        cached_prompt_tokens: Some(cached),
        reasoning_tokens: None,
    }
}

/// A response that reports a failure.
pub open spec fn reports_failure(
    response: GenerateResponse,
    request_id: Seq<char>,
    code: ErrorCode,
    message: Seq<char>,
    usage: Option<Usage>,
) -> bool {
    &&& response.request_id@ == request_id
    &&& response.event matches GenerateEvent::Error(error) && error.code == code
        && error.message@ == message && !error.retryable
    &&& response.usage == usage
}

/// Reports a failure.
pub fn engine_error(request_id: &str, code: ErrorCode, message: &str, usage: Option<Usage>) -> (response:
    GenerateResponse)
    ensures
        reports_failure(response, request_id@, code, message@, usage),
{
    GenerateResponse {
        request_id: request_id.to_string(),
        event: GenerateEvent::Error(
            EngineError { code, message: message.to_string(), retryable: false },
        ),
        usage,
    }
}

/// The reason and the stop match that the end of an output is reported with.
pub open spec fn reported_end(reason: FinishReason) -> (GenerationEnd, Option<StopMatch>) {
    match reason {
        FinishReason::Stop(Some(StopReason::TokenId(id))) => (
            GenerationEnd::Stop,
            Some(StopMatch::StopTokenId(id)),
        ),
        FinishReason::Repetition(Some(StopReason::TokenId(id))) => (
            GenerationEnd::Stop,
            Some(StopMatch::StopTokenId(id)),
        ),
        FinishReason::Stop(Some(StopReason::Text(text))) => (
            GenerationEnd::Stop,
            Some(StopMatch::StopText(text)),
        ),
        FinishReason::Repetition(Some(StopReason::Text(text))) => (
            GenerationEnd::Stop,
            Some(StopMatch::StopText(text)),
        ),
        FinishReason::Stop(None) => (GenerationEnd::Stop, None),
        FinishReason::Repetition(None) => (GenerationEnd::Stop, None),
        FinishReason::Length => (GenerationEnd::Length, None),
        FinishReason::Abort => (GenerationEnd::Cancelled, None),
        FinishReason::Error => (GenerationEnd::Cancelled, None),
    }
}

/// Names the reason and the stop match of an output that ended without an engine failure.
pub fn finish_reason(reason: &FinishReason) -> (end: (GenerationEnd, Option<StopMatch>))
    requires
        *reason !is Error,
    ensures
        end == reported_end(*reason),
{
    match reason {
        FinishReason::Stop(Some(StopReason::TokenId(id)))
        | FinishReason::Repetition(Some(StopReason::TokenId(id))) => (
            GenerationEnd::Stop,
            Some(StopMatch::StopTokenId(*id)),
        ),
        FinishReason::Stop(Some(StopReason::Text(text)))
        | FinishReason::Repetition(Some(StopReason::Text(text))) => (
            GenerationEnd::Stop,
            Some(StopMatch::StopText(text.clone())),
        ),
        FinishReason::Stop(None) | FinishReason::Repetition(None) => (GenerationEnd::Stop, None),
        FinishReason::Length => (GenerationEnd::Length, None),
        FinishReason::Abort | FinishReason::Error => (GenerationEnd::Cancelled, None),
    }
}

/// The session that a prefill engine hands over, given the parameters of the transfer.
pub open spec fn hands_over(
    session: KvSessionRef,
    request_id: Seq<char>,
    handoff_dp_rank: u32,
    parameters: Seq<(Seq<char>, JsonModel)>,
) -> bool {
    &&& session.session_id@ == request_id
    &&& session.transfer_backend@ == TRANSFER_BACKEND@
    &&& session.endpoints@.len() == 0
    &&& session.dp_rank == handoff_dp_rank
    &&& session.attributes_struct matches Some(attributes) && attributes@ == fields_of(parameters)
    &&& session.handoff_profile@ == HANDOFF_PROFILE@
}

/// The response that ends a request.
pub open spec fn ends_request(
    response: GenerateResponse,
    finished: Finished,
    request_id: Seq<char>,
    role: EngineRole,
    handoff_dp_rank: u32,
) -> bool {
    let usage = Some(usage_of(finished));
    if finished.finish_reason is Error {
        reports_failure(
            response,
            request_id,
            ErrorCode::Internal,
            "generation failed in vLLM engine core"@,
            usage,
        )
    } else if role == EngineRole::Prefill && finished.finish_reason is Abort {
        reports_failure(
            response,
            request_id,
            ErrorCode::Cancelled,
            "prefill request was cancelled before handoff"@,
            usage,
        )
    } else if role == EngineRole::Prefill {
        if finished.kv_transfer_params matches Some(params)
            && params.model() matches JsonModel::Object(members) {
            &&& response.request_id@ == request_id
            &&& response.event matches GenerateEvent::PrefillReady { kv_session } && hands_over(
                kv_session,
                request_id,
                handoff_dp_rank,
                finished.kv_transfer_params->Some_0.model()->Object_0,
            )
            &&& response.usage == usage
        } else {
            reports_failure(
                response,
                request_id,
                ErrorCode::KvTransferFailed,
                "prefill completed without valid NIXL handoff metadata"@,
                usage,
            )
        }
    } else {
        &&& response.request_id@ == request_id
        &&& response.event matches GenerateEvent::Finished(end) && {
            &&& end.output_index == Some(0u32)
            &&& (end.reason, end.stop_match) == reported_end(finished.finish_reason)
            &&& end.message@ == ""@
        }
        &&& response.usage == usage
    }
}

/// Reports the end of a request.
pub fn terminal_response(
    finished: &Finished,
    request_id: &str,
    role: EngineRole,
    handoff_dp_rank: u32,
) -> (response: GenerateResponse)
    ensures
        ends_request(response, *finished, request_id@, role, handoff_dp_rank),
{
    let usage = Some(usage(finished));
    if let FinishReason::Error = &finished.finish_reason {
        return engine_error(
            request_id,
            ErrorCode::Internal,
            "generation failed in vLLM engine core",
            usage,
        );
    }
    if role == EngineRole::Prefill {
        if let FinishReason::Abort = &finished.finish_reason {
            return engine_error(
                request_id,
                ErrorCode::Cancelled,
                "prefill request was cancelled before handoff",
                usage,
            );
        }
        let attributes = match &finished.kv_transfer_params {
            Some(params) => json_to_prost_struct(params),
            None => None,
        };
        return match attributes {
            None => engine_error(
                request_id,
                ErrorCode::KvTransferFailed,
                "prefill completed without valid NIXL handoff metadata",
                usage,
            ),
            Some(attributes) => GenerateResponse {
                request_id: request_id.to_string(),
                event: GenerateEvent::PrefillReady {
                    kv_session: KvSessionRef {
                        session_id: request_id.to_string(),
                        transfer_backend: TRANSFER_BACKEND.to_string(),
                        endpoints: Vec::new(),
                        dp_rank: handoff_dp_rank,
                        attributes_struct: Some(attributes),
                        handoff_profile: HANDOFF_PROFILE.to_string(),
                    },
                },
                usage,
            },
        };
    }
    let (reason, stop_match) = finish_reason(&finished.finish_reason);
    GenerateResponse {
        request_id: request_id.to_string(),
        event: GenerateEvent::Finished(
            GenerationFinished {
                output_index: Some(0),
                reason,
                message: "".to_string(),
                stop_match,
            },
        ),
        usage,
    }
}

/// New output is reported, but not the token that a prefill engine makes to end its handoff.
pub open spec fn shows_output(delta: Seq<char>, token_ids: Seq<u32>, role: EngineRole) -> bool {
    role != EngineRole::Prefill && (delta.len() > 0 || token_ids.len() > 0)
}

/// The responses say what the event reports.
pub open spec fn reports_event(
    responses: Seq<GenerateResponse>,
    event: DecodedTextEvent,
    request_id: Seq<char>,
    role: EngineRole,
    handoff_dp_rank: u32,
) -> bool {
    match event {
        DecodedTextEvent::Start { prompt_token_ids, prompt_logprobs } => {
            &&& responses.len() == 1
            &&& responses[0].request_id@ == request_id
            &&& responses[0].event matches GenerateEvent::Prompt { tokens } && are_prompt_tokens(
                tokens@,
                prompt_token_ids@,
                prompt_logprobs,
            )
            &&& responses[0].usage is None
        },
        DecodedTextEvent::TextDelta { delta, token_ids, logprobs, finished } => {
            let shown = shows_output(delta@, token_ids@, role);
            &&& responses.len() == (if shown {
                1int
            } else {
                0
            }) + (if finished is Some {
                1int
            } else {
                0
            })
            &&& shown ==> {
                &&& responses[0].request_id@ == request_id
                &&& responses[0].event matches GenerateEvent::Token(output) && {
                    &&& output.output_index == Some(0u32)
                    &&& output.text == delta
                    &&& are_output_tokens(output.tokens@, token_ids@, logprobs)
                }
                &&& responses[0].usage is None
            }
            &&& finished is Some ==> ends_request(
                responses.last(),
                finished->Some_0,
                request_id,
                role,
                handoff_dp_rank,
            )
        },
    }
}

/// Reports an event of a running request.
pub fn event_to_responses(
    event: DecodedTextEvent,
    request_id: &str,
    role: EngineRole,
    handoff_dp_rank: u32,
) -> (responses: Vec<GenerateResponse>)
    ensures
        reports_event(responses@, event, request_id@, role, handoff_dp_rank),
{
    let mut responses: Vec<GenerateResponse> = Vec::new();
    match event {
        DecodedTextEvent::Start { prompt_token_ids, prompt_logprobs } => {
            responses.push(
                GenerateResponse {
                    request_id: request_id.to_string(),
                    event: GenerateEvent::Prompt {
                        tokens: prompt_tokens(&prompt_token_ids, &prompt_logprobs),
                    },
                    usage: None,
                },
            );
        },
        DecodedTextEvent::TextDelta { delta, token_ids, logprobs, finished } => {
            if role != EngineRole::Prefill && (!delta.as_str().is_empty() || token_ids.len() > 0) {
                responses.push(
                    GenerateResponse {
                        request_id: request_id.to_string(),
                        event: GenerateEvent::Token(
                            TokenOutput {
                                output_index: Some(0),
                                tokens: output_tokens(&token_ids, &logprobs),
                                text: delta,
                            },
                        ),
                        usage: None,
                    },
                );
            }
            if let Some(finished) = &finished {
                responses.push(terminal_response(finished, request_id, role, handoff_dp_rank));
            }
        },
    }
    responses
}

/// A prefill engine never shows the token that it makes to end its handoff.
pub proof fn prefill_shows_no_output(
    responses: Seq<GenerateResponse>,
    event: DecodedTextEvent,
    request_id: Seq<char>,
    handoff_dp_rank: u32,
)
    requires
        reports_event(responses, event, request_id, EngineRole::Prefill, handoff_dp_rank),
    ensures
        forall|i: int| 0 <= i < responses.len() ==> (#[trigger] responses[i]).event !is Token,
{
}

/// The session that a prefill engine hands over for a request with an id and transfer parameters
/// is one that a decode engine accepts. The decode engine gets those parameters back: integers of
/// at most 53 bits as they were, larger ones as decimal text.
pub proof fn decode_accepts_handoff(
    session: KvSessionRef,
    request_id: Seq<char>,
    handoff_dp_rank: u32,
    parameters: Seq<(Seq<char>, JsonModel)>,
)
    requires
        hands_over(session, request_id, handoff_dp_rank, parameters),
        !is_blank_text(request_id),
        parameters.len() > 0,
    ensures
        decode_refusal(Some(session)) is None,
        members_of(session.attributes_struct->Some_0@, true) == members_handed_off(parameters),
{
    handoff_restores_members(parameters);
    lemma_fields_of_len(parameters);
    lemma_field_models_len(session.attributes_struct->Some_0.fields@);
}

proof fn lemma_candidate_is_first(entries: Seq<DecodedTokenLogprob>, id: u32)
    ensures
        candidate_position(entries, id) < entries.len(),
        candidate_position(entries, id) >= 0 ==> entries[candidate_position(entries, id)].token_id
            == id,
        candidate_position(entries, id) >= 0 ==> forall|k: int|
            0 <= k < candidate_position(entries, id) ==> (#[trigger] entries[k]).token_id != id,
        candidate_position(entries, id) < 0 ==> forall|k: int|
            0 <= k < entries.len() ==> (#[trigger] entries[k]).token_id != id,
    decreases entries.len(),
{
    if entries.len() > 0 {
        lemma_candidate_is_first(entries.drop_last(), id);
        let found = candidate_position(entries.drop_last(), id);
        if found >= 0 {
            assert(entries.drop_last()[found] == entries[found]);
            assert forall|k: int| 0 <= k < found implies (#[trigger] entries[k]).token_id != id by {
                assert(entries.drop_last()[k] == entries[k]);
            }
        } else {
            assert forall|k: int| 0 <= k < entries.len() - 1 implies (
            #[trigger] entries[k]).token_id != id by {
                assert(entries.drop_last()[k] == entries[k]);
            }
        }
    }
}

proof fn lemma_token_by_candidate(
    info: TokenInfo,
    id: u32,
    position: DecodedPositionLogprobs,
    j: int,
)
    requires
        is_token_at(info, id, Some(position)),
        0 <= j < position.entries@.len(),
        position.entries@[j].token_id == id || j == 0,
        forall|k: int|
            0 <= k < j ==> (#[trigger] position.entries@[k]).token_id != id,
        position.entries@[j].token_id == id || forall|k: int|
            0 <= k < position.entries@.len() ==> (#[trigger] position.entries@[k]).token_id != id,
    ensures
        info.token_id == id,
        info.token == position.entries@[j].token,
        info.logprob == Some(position.entries@[j].logprob),
        info.rank == Some(position.entries@[j].rank),
{
    lemma_candidate_is_first(position.entries@, id);
    let found = candidate_position(position.entries@, id);
    if found >= 0 && found < j {
        assert(position.entries@[found].token_id == id);
    }
    if found > j {
        assert(position.entries@[j].token_id != id);
    }
}

/// An output token is reported with the probability, the rank and the text of the first candidate
/// at its position that is this token, whatever candidates stand beside it.
pub proof fn output_token_takes_its_own_candidate(
    responses: Seq<GenerateResponse>,
    event: DecodedTextEvent,
    request_id: Seq<char>,
    role: EngineRole,
    handoff_dp_rank: u32,
    i: int,
    j: int,
)
    requires
        reports_event(responses, event, request_id, role, handoff_dp_rank),
        role != EngineRole::Prefill,
        event is TextDelta,
        0 <= i < event->token_ids@.len(),
        event->logprobs matches Some(logprobs) && i < logprobs.positions@.len() && 0 <= j
            < logprobs.positions@[i].entries@.len() && logprobs.positions@[i].entries@[j].token_id
            == event->token_ids@[i] && forall|k: int|
            0 <= k < j ==> (#[trigger] logprobs.positions@[i].entries@[k]).token_id
                != event->token_ids@[i],
    ensures
        responses[0].event is Token,
        i < responses[0].event->Token_0.tokens@.len(),
        ({
            let info = responses[0].event->Token_0.tokens@[i];
            let entry = event->logprobs->Some_0.positions@[i].entries@[j];
            &&& info.token_id == entry.token_id
            &&& info.token == entry.token
            &&& info.logprob == Some(entry.logprob)
            &&& info.rank == Some(entry.rank)
        }),
{
    let tokens = responses[0].event->Token_0.tokens@;
    assert(is_token_at(tokens[i], event->token_ids@[i], output_position(event->logprobs, i)));
    lemma_token_by_candidate(
        tokens[i],
        event->token_ids@[i],
        event->logprobs->Some_0.positions@[i],
        j,
    );
}

/// A prompt token behind the first is reported with the probability, the rank and the text of the
/// first candidate that is this token at the position before it in the list of scored positions.
pub proof fn prompt_token_takes_its_own_candidate(
    responses: Seq<GenerateResponse>,
    event: DecodedTextEvent,
    request_id: Seq<char>,
    role: EngineRole,
    handoff_dp_rank: u32,
    i: int,
    j: int,
)
    requires
        reports_event(responses, event, request_id, role, handoff_dp_rank),
        event is Start,
        1 <= i < event->prompt_token_ids@.len(),
        event->prompt_logprobs matches Some(logprobs) && i - 1 < logprobs.scored_positions@.len()
            && 0 <= j < logprobs.scored_positions@[i - 1].entries@.len()
            && logprobs.scored_positions@[i - 1].entries@[j].token_id
            == event->prompt_token_ids@[i] && forall|k: int|
            0 <= k < j ==> (#[trigger] logprobs.scored_positions@[i - 1].entries@[k]).token_id
                != event->prompt_token_ids@[i],
    ensures
        responses[0].event is Prompt,
        i < responses[0].event->tokens@.len(),
        ({
            let info = responses[0].event->tokens@[i];
            let entry = event->prompt_logprobs->Some_0.scored_positions@[i - 1].entries@[j];
            &&& info.token_id == entry.token_id
            &&& info.token == entry.token
            &&& info.logprob == Some(entry.logprob)
            &&& info.rank == Some(entry.rank)
        }),
{
    let tokens = responses[0].event->tokens@;
    let first = tokens[0];
    let info = tokens[i];
    assert(is_token_at(
        info,
        event->prompt_token_ids@[i],
        prompt_position(event->prompt_logprobs, i),
    ));
    lemma_token_by_candidate(
        info,
        event->prompt_token_ids@[i],
        event->prompt_logprobs->Some_0.scored_positions@[i - 1],
        j,
    );
}

/// A token that is not among the candidates at its position is reported with the probability, the
/// rank and the text of the first candidate, and under its own id.
pub proof fn strange_token_takes_the_first_candidate(
    info: TokenInfo,
    id: u32,
    position: DecodedPositionLogprobs,
)
    requires
        is_token_at(info, id, Some(position)),
        position.entries@.len() > 0,
        forall|k: int|
            0 <= k < position.entries@.len() ==> (#[trigger] position.entries@[k]).token_id != id,
    ensures
        info.token_id == id,
        info.token == position.entries@[0].token,
        info.logprob == Some(position.entries@[0].logprob),
        info.rank == Some(position.entries@[0].rank),
{
    lemma_token_by_candidate(info, id, position, 0);
}

/// The candidates of a reported token are all those at its position, in their order.
pub proof fn candidates_are_all_reported(
    info: TokenInfo,
    id: u32,
    position: DecodedPositionLogprobs,
    i: int,
)
    requires
        is_token_at(info, id, Some(position)),
        0 <= i < position.entries@.len(),
    ensures
        info.candidates@.len() == position.entries@.len(),
        info.candidates@[i].token_id == position.entries@[i].token_id,
        info.candidates@[i].logprob == position.entries@[i].logprob,
        info.candidates@[i].token@ == position.entries@[i].token@,
        info.candidates@[i].rank == Some(position.entries@[i].rank),
{
    assert(is_candidate(info.candidates@[i], position.entries@[i]));
}

/// Nothing is made up about a token of whose position nothing is known.
pub proof fn unscored_token_has_no_probability(
    info: TokenInfo,
    id: u32,
    position: Option<DecodedPositionLogprobs>,
)
    requires
        is_token_at(info, id, position),
        position is None || position->Some_0.entries@.len() == 0,
    ensures
        info.token_id == id,
        info.token@.len() == 0,
        info.logprob is None,
        info.rank is None,
        info.candidates@.len() == 0,
{
    reveal_strlit("");
    if position is Some {
        lemma_candidate_is_first(position->Some_0.entries@, id);
    }
}

/// The first report of a request holds all tokens of its prompt, in their order. The first of them
/// has no probability.
pub proof fn prompt_is_reported_whole(
    responses: Seq<GenerateResponse>,
    event: DecodedTextEvent,
    request_id: Seq<char>,
    role: EngineRole,
    handoff_dp_rank: u32,
)
    requires
        reports_event(responses, event, request_id, role, handoff_dp_rank),
        event is Start,
    ensures
        responses.len() == 1,
        responses[0].request_id@ == request_id,
        responses[0].usage is None,
        responses[0].event is Prompt,
        responses[0].event->tokens@.len() == event->prompt_token_ids@.len(),
        forall|i: int|
            0 <= i < event->prompt_token_ids@.len() ==> (
            #[trigger] responses[0].event->tokens@[i]).token_id == event->prompt_token_ids@[i],
        event->prompt_token_ids@.len() > 0 ==> {
            let first = responses[0].event->tokens@[0];
            &&& first.logprob is None
            &&& first.rank is None
            &&& first.candidates@.len() == 0
            &&& event->prompt_logprobs matches Some(logprobs) ==> first.token@
                == logprobs.first_token@
        },
{
    let tokens = responses[0].event->tokens@;
    let ids = event->prompt_token_ids@;
    assert forall|i: int| 0 <= i < ids.len() implies (#[trigger] tokens[i]).token_id == ids[i] by {
        if i > 0 {
            assert(is_token_at(tokens[i], ids[i], prompt_position(event->prompt_logprobs, i)));
        }
    }
}

/// Outside a prefill engine, the text and the tokens of an event reach the client unchanged and in
/// order, in one report before the end of the request, and are reported only if there are any.
pub proof fn output_is_reported_whole(
    responses: Seq<GenerateResponse>,
    event: DecodedTextEvent,
    request_id: Seq<char>,
    role: EngineRole,
    handoff_dp_rank: u32,
)
    requires
        reports_event(responses, event, request_id, role, handoff_dp_rank),
        role != EngineRole::Prefill,
        event is TextDelta,
    ensures
        forall|i: int|
            0 <= i < responses.len() ==> (#[trigger] responses[i]).request_id@ == request_id,
        event->delta@.len() == 0 && event->token_ids@.len() == 0 && event->finished is None
            ==> responses.len() == 0,
        event->delta@.len() > 0 || event->token_ids@.len() > 0 ==> {
            &&& responses.len() > 0
            &&& responses[0].event is Token
            &&& responses[0].event->Token_0.text@ == event->delta@
            &&& responses[0].event->Token_0.output_index == Some(0u32)
            &&& responses[0].event->Token_0.tokens@.len() == event->token_ids@.len()
            &&& forall|i: int|
                0 <= i < event->token_ids@.len() ==> (
                #[trigger] responses[0].event->Token_0.tokens@[i]).token_id
                    == event->token_ids@[i]
            &&& responses[0].usage is None
        },
        forall|i: int|
            1 <= i < responses.len() ==> (#[trigger] responses[i]).event !is Token,
        event->delta@.len() == 0 && event->token_ids@.len() == 0 && responses.len() > 0
            ==> responses[0].event !is Token,
{
    if event->finished is Some {
        let last = responses.last();
        assert(last.request_id@ == request_id);
        assert(last.event !is Token);
    }
    if event->delta@.len() > 0 || event->token_ids@.len() > 0 {
        let tokens = responses[0].event->Token_0.tokens@;
        let ids = event->token_ids@;
        assert forall|i: int| 0 <= i < ids.len() implies (#[trigger] tokens[i]).token_id
            == ids[i] by {
            assert(is_token_at(tokens[i], ids[i], output_position(event->logprobs, i)));
        }
    }
}

/// Outside a prefill engine, the reported reason tells why the engine ended an output: it is the
/// length if and only if the output was cut for its length, a cancellation if and only if it was
/// aborted, and a stop if and only if it stopped or repeated. A stop names the token or the text
/// that it met where the engine does, and nothing else names one.
pub proof fn ends_are_told_apart(
    responses: Seq<GenerateResponse>,
    event: DecodedTextEvent,
    request_id: Seq<char>,
    role: EngineRole,
    handoff_dp_rank: u32,
)
    requires
        reports_event(responses, event, request_id, role, handoff_dp_rank),
        role != EngineRole::Prefill,
        event is TextDelta,
        event->finished matches Some(finished) && finished.finish_reason !is Error,
    ensures
        responses.len() > 0,
        responses.last().event is Finished,
        ({
            let end = responses.last().event->Finished_0;
            let reason = event->finished->Some_0.finish_reason;
            &&& end.reason is Length <==> reason is Length
            &&& end.reason is Cancelled <==> reason is Abort
            &&& end.reason is Stop <==> reason is Stop || reason is Repetition
            &&& reason is Length || reason is Abort ==> end.stop_match is None
            &&& reason == FinishReason::Stop(None) || reason == FinishReason::Repetition(None)
                ==> end.stop_match is None
            &&& forall|id: u32|
                reason == FinishReason::Stop(Some(StopReason::TokenId(id))) || reason
                    == FinishReason::Repetition(Some(StopReason::TokenId(id)))
                    <==> #[trigger] is_stop_token(end.stop_match, id)
            &&& forall|text: String|
                reason == FinishReason::Stop(Some(StopReason::Text(text))) || reason
                    == FinishReason::Repetition(Some(StopReason::Text(text)))
                    <==> #[trigger] is_stop_text(end.stop_match, text)
        }),
{
}

/// The match is this stop token.
pub open spec fn is_stop_token(found: Option<StopMatch>, id: u32) -> bool {
    found == Some(StopMatch::StopTokenId(id))
}

/// The match is this stop text.
pub open spec fn is_stop_text(found: Option<StopMatch>, text: String) -> bool {
    found == Some(StopMatch::StopText(text))
}

/// A failure of the engine is reported as an internal error that is not worth a retry, whatever
/// the role; and outside a prefill engine nothing else is reported as an error.
pub proof fn engine_failures_are_internal_errors(
    responses: Seq<GenerateResponse>,
    event: DecodedTextEvent,
    request_id: Seq<char>,
    role: EngineRole,
    handoff_dp_rank: u32,
)
    requires
        reports_event(responses, event, request_id, role, handoff_dp_rank),
        event is TextDelta,
        event->finished is Some,
    ensures
        responses.len() > 0,
        event->finished->Some_0.finish_reason is Error ==> {
            &&& responses.last().event is Error
            &&& responses.last().event->Error_0.code is Internal
            &&& !responses.last().event->Error_0.retryable
        },
        role != EngineRole::Prefill && event->finished->Some_0.finish_reason !is Error
            ==> responses.last().event !is Error,
{
}

/// A prefill engine ends a request with a handoff under the request's own id if and only if the
/// engine neither failed nor aborted it and gave an object of transfer parameters. Else it ends it
/// with a failure that says which: the engine's, the cancellation or the missing parameters.
pub proof fn prefill_ends_with_handoff_or_failure(
    responses: Seq<GenerateResponse>,
    event: DecodedTextEvent,
    request_id: Seq<char>,
    handoff_dp_rank: u32,
)
    requires
        reports_event(responses, event, request_id, EngineRole::Prefill, handoff_dp_rank),
        event is TextDelta,
        event->finished is Some,
    ensures
        responses.len() == 1,
        ({
            let finished = event->finished->Some_0;
            let done = responses[0].event;
            &&& done is PrefillReady <==> finished.finish_reason !is Error
                && finished.finish_reason !is Abort && finished.kv_transfer_params is Some
                && finished.kv_transfer_params->Some_0.model() is Object
            &&& done !is PrefillReady ==> done is Error
            &&& done is Error ==> (done->Error_0.code is Internal <==> finished.finish_reason
                is Error)
            &&& done is Error ==> (done->Error_0.code is Cancelled <==> finished.finish_reason
                is Abort)
            &&& done is PrefillReady ==> {
                &&& done->kv_session.session_id@ == request_id
                &&& done->kv_session.dp_rank == handoff_dp_rank
                &&& done->kv_session.endpoints@.len() == 0
                &&& done->kv_session.attributes_struct is Some
            }
        }),
{
}

/// The end of a request carries its token counts: each as counted, modulo what 32 bits hold, and
/// as the total their sum, or the largest total that 32 bits hold. No report before the end carries
/// any.
pub proof fn end_counts_tokens(
    responses: Seq<GenerateResponse>,
    event: DecodedTextEvent,
    request_id: Seq<char>,
    role: EngineRole,
    handoff_dp_rank: u32,
)
    requires
        reports_event(responses, event, request_id, role, handoff_dp_rank),
        event is TextDelta,
        event->finished is Some,
    ensures
        responses.len() > 0,
        forall|i: int|
            0 <= i < responses.len() - 1 ==> (#[trigger] responses[i]).usage is None,
        responses.last().usage is Some,
        ({
            let counted = event->finished->Some_0.usage;
            let usage = responses.last().usage->Some_0;
            let sum = usage.prompt_tokens + usage.completion_tokens;
            &&& usage.prompt_tokens == counted.prompt_token_count as int % 0x1_0000_0000
            &&& usage.completion_tokens == counted.output_token_count as int % 0x1_0000_0000
            &&& usage.cached_prompt_tokens is Some
            &&& usage.cached_prompt_tokens->Some_0 == counted.cached_token_count as int % 0x1_0000_0000
            &&& usage.reasoning_tokens is None
            &&& sum <= u32::MAX ==> usage.total_tokens == sum
            &&& sum > u32::MAX ==> usage.total_tokens == u32::MAX
        }),
{
    let counted = event->finished->Some_0.usage;
    lemma_count_is_cut(counted.prompt_token_count);
    lemma_count_is_cut(counted.output_token_count);
    lemma_count_is_cut(counted.cached_token_count);
    assert(responses.last().usage == Some(usage_of(event->finished->Some_0)));
}

/// Cutting a count to 32 bits takes it modulo what 32 bits hold.
pub proof fn lemma_count_is_cut(count: usize)
    ensures
        count as u32 == count as int % 0x1_0000_0000,
{
    let wide = count as u64;
    assert(wide as u32 == wide % 0x1_0000_0000) by (bit_vector);
    assert(count as u32 == wide as u32);
}

/// Every end of a request, good or bad, goes out under the id of the request and with its usage,
/// and a failure with its message and not to be tried again.
pub proof fn ends_name_their_request(
    response: GenerateResponse,
    finished: Finished,
    request_id: Seq<char>,
    role: EngineRole,
    handoff_dp_rank: u32,
    code: ErrorCode,
    message: Seq<char>,
    usage: Option<Usage>,
)
    ensures
        ends_request(response, finished, request_id, role, handoff_dp_rank)
            ==> response.request_id@ == request_id && response.usage is Some,
        reports_failure(response, request_id, code, message, usage) ==> {
            &&& response.request_id@ == request_id
            &&& response.usage == usage
            &&& response.event is Error
            &&& response.event->Error_0.code == code
            &&& response.event->Error_0.message@ == message
            &&& !response.event->Error_0.retryable
        },
{
}

} // verus!
