//! Conversion between OpenEngine messages and what the text engine takes and reports.

use vstd::prelude::*;

use crate::events::copy_bytes;
use crate::events::copy_ids;
use crate::events::copy_text;
use crate::events::copy_texts;
use crate::events::MediaContentPart;
use crate::events::Prompt;
use crate::foreign::fresh_uuid;
use crate::foreign::is_random_uuid;
use crate::foreign::json_document;
use crate::foreign::metadata_entries;
use crate::foreign::metadata_text;
use crate::foreign::parse_json;
use crate::openengine::messages::CandidateTokenSelection;
use crate::openengine::messages::EngineRole;
use crate::openengine::messages::GenerateInput;
use crate::openengine::messages::GenerateRequest;
use crate::openengine::messages::Guide;
use crate::openengine::messages::GuidedDecoding;
use crate::openengine::messages::KvSessionRef;
use crate::openengine::messages::MediaItem;
use crate::openengine::messages::MediaSource;
use crate::openengine::messages::Modality;
use crate::openengine::messages::StopCondition;
use crate::json::member_models;
use crate::json::set_member;
use crate::json::set_member_reads_back;
use crate::json::with_member;
use crate::json::JsonMember;
use crate::json::JsonModel;
use crate::json::JsonValue;
use crate::request::SamplingParams;
use crate::request::StructuredConstraint;
use crate::request::StructuredOutputBackend;
use crate::request::StructuredOutputsParams;
use crate::request::TextDecodeOptions;
use crate::request::TextRequest;
use crate::status::answers;
use crate::status::replies;
use crate::status::Code;
use crate::status::Status;
use crate::struct_json::members_of;
use crate::struct_json::prost_handoff_struct_to_json;
use crate::struct_json::prost_struct_to_json;
use crate::text::decimal;
use crate::text::decimal_reads_back;
use crate::text::decimal_text;
use crate::text::is_blank;
use crate::text::is_blank_text;
use crate::text::is_white_space;
use crate::text::join2;
use crate::text::join3;
use crate::text::join5;
use crate::text::listed;
use crate::text::parse_i32;
use crate::text::parse_u32;
use crate::text::parsed_i32;
use crate::text::parsed_u32;
use crate::text::same;
use crate::text::signed_decimal;
use crate::text::signed_decimal_reads_back;
use crate::text::signed_decimal_text;

verus! {

/// The profile of a KV handoff.
pub const HANDOFF_PROFILE: &'static str = "vllm.kv_transfer_params.v1";

/// The backend of a KV handoff.
pub const TRANSFER_BACKEND: &'static str = "nixl";

/// The metadata key of the data-parallel rank that a request asks for.
pub const TARGET_DP_RANK: &'static str = "openengine-target-dp-rank";

/// The metadata key of the priority that a request asks for.
pub const PRIORITY: &'static str = "openengine-priority";

/// The role of an engine with this KV role; there is none for an unsupported KV role.
pub open spec fn role_of(kv_role: Option<Seq<char>>) -> Option<EngineRole> {
    match kv_role {
        None => Some(EngineRole::Aggregated),
        Some(name) => if name == "kv_producer"@ {
            Some(EngineRole::Prefill)
        } else if name == "kv_consumer"@ {
            Some(EngineRole::Decode)
        } else {
            None
        },
    }
}

/// The characters of an optional text.
pub open spec fn text_view(text: Option<String>) -> Option<Seq<char>> {
    match text {
        Some(text) => Some(text@),
        None => None,
    }
}

/// The role of an engine with this KV role.
pub fn role_from_kv_role(kv_role: &Option<String>) -> (role: Option<EngineRole>)
    ensures
        role == role_of(text_view(*kv_role)),
{
    match kv_role {
        None => Some(EngineRole::Aggregated),
        Some(name) => {
            if same(name.as_str(), "kv_producer") {
                Some(EngineRole::Prefill)
            } else if same(name.as_str(), "kv_consumer") {
                Some(EngineRole::Decode)
            } else {
                None
            }
        },
    }
}

/// What metadata holds under a key: nothing, a text, or a value that is no text.
pub open spec fn entry_of(
    entries: Map<Seq<char>, Option<Seq<char>>>,
    key: Seq<char>,
) -> Option<Option<Seq<char>>> {
    if entries.contains_key(key) {
        Some(entries[key])
    } else {
        None
    }
}

/// The characters of a metadata value.
pub open spec fn entry_view(value: Option<Option<String>>) -> Option<Option<Seq<char>>> {
    match value {
        None => None,
        Some(None) => Some(None),
        Some(Some(text)) => Some(Some(text@)),
    }
}

/// The rank that a metadata value asks for.
pub open spec fn requested_rank(value: Option<Option<Seq<char>>>) -> Result<
    Option<u32>,
    (Code, Seq<char>),
> {
    match value {
        None => Ok(None),
        Some(None) => Err(
            (Code::InvalidArgument, "openengine-target-dp-rank is not ASCII"@),
        ),
        Some(Some(text)) => match parsed_u32(text) {
            Some(rank) => Ok(Some(rank)),
            None => Err(
                (
                    Code::InvalidArgument,
                    "openengine-target-dp-rank must be a base-10 uint32"@,
                ),
            ),
        },
    }
}

/// The engine priority that a metadata value asks for. The engine serves lower numbers first, so
/// the sign changes.
pub open spec fn requested_priority(value: Option<Option<Seq<char>>>) -> Result<
    i32,
    (Code, Seq<char>),
> {
    match value {
        None => Ok(0),
        Some(None) => Err((Code::InvalidArgument, "openengine-priority is not ASCII"@)),
        Some(Some(text)) => match parsed_i32(text) {
            Some(priority) => if priority == i32::MIN {
                Err(
                    (
                        Code::InvalidArgument,
                        "openengine-priority i32::MIN cannot map to vLLM priority"@,
                    ),
                )
            } else {
                Ok((-priority) as i32)
            },
            None => Err(
                (Code::InvalidArgument, "openengine-priority must be a base-10 int32"@),
            ),
        },
    }
}

/// The rank and the engine priority that metadata values ask for.
pub open spec fn requested_options(
    rank: Option<Option<Seq<char>>>,
    priority: Option<Option<Seq<char>>>,
) -> Result<(Option<u32>, i32), (Code, Seq<char>)> {
    match requested_rank(rank) {
        Err(refusal) => Err(refusal),
        Ok(rank) => match requested_priority(priority) {
            Err(refusal) => Err(refusal),
            Ok(priority) => Ok((rank, priority)),
        },
    }
}

/// Reads the rank and the priority from the two metadata values.
pub fn options_from_values(rank: Option<Option<String>>, priority: Option<Option<String>>) -> (options:
    Result<(Option<u32>, i32), Status>)
    ensures
        replies(options, requested_options(entry_view(rank), entry_view(priority))),
{
    let rank: Option<u32> = match rank {
        None => None,
        Some(None) => {
            return Err(Status::invalid_argument("openengine-target-dp-rank is not ASCII"));
        },
        Some(Some(text)) => match parse_u32(text.as_str()) {
            Some(rank) => Some(rank),
            None => {
                return Err(
                    Status::invalid_argument("openengine-target-dp-rank must be a base-10 uint32"),
                );
            },
        },
    };
    let portable: i32 = match priority {
        None => 0,
        Some(None) => {
            return Err(Status::invalid_argument("openengine-priority is not ASCII"));
        },
        Some(Some(text)) => match parse_i32(text.as_str()) {
            Some(priority) => priority,
            None => {
                return Err(
                    Status::invalid_argument("openengine-priority must be a base-10 int32"),
                );
            },
        },
    };
    if portable == i32::MIN {
        return Err(
            Status::invalid_argument("openengine-priority i32::MIN cannot map to vLLM priority"),
        );
    }
    Ok((rank, -portable))
}

/// Reads the rank and the priority that the metadata of a call asks for.
pub fn metadata_options(metadata: &tonic::metadata::MetadataMap) -> (options: Result<
    (Option<u32>, i32),
    Status,
>)
    ensures
        replies(
            options,
            requested_options(
                entry_of(metadata_entries(*metadata), TARGET_DP_RANK@),
                entry_of(metadata_entries(*metadata), PRIORITY@),
            ),
        ),
{
    let rank = metadata_text(metadata, TARGET_DP_RANK);
    let priority = metadata_text(metadata, PRIORITY);
    options_from_values(rank, priority)
}

/// The model that a request names is served here: by no name, the canonical one, or an alias.
pub open spec fn is_served(model: Seq<char>, canonical: Seq<char>, served: Seq<String>) -> bool {
    ||| model.len() == 0
    ||| model == canonical
    ||| exists|i: int| 0 <= i < served.len() && (#[trigger] served[i])@ == model
}

/// The message for a model that is not served.
pub open spec fn model_not_found(model: Seq<char>) -> Seq<char> {
    "model `"@ + model + "` not found"@
}

/// The refusal for a model that is not served.
pub open spec fn model_refusal(
    model: Seq<char>,
    canonical: Seq<char>,
    served: Seq<String>,
) -> Option<(Code, Seq<char>)> {
    if is_served(model, canonical, served) {
        None
    } else {
        Some((Code::NotFound, model_not_found(model)))
    }
}

/// Checks that the model of a request is served here.
pub fn validate_model(model: &str, canonical: &str, served: &Vec<String>) -> (outcome: Result<
    (),
    Status,
>)
    ensures
        answers(outcome, model_refusal(model@, canonical@, served@)),
{
    if model.is_empty() || same(model, canonical) || listed(served, model) {
        Ok(())
    } else {
        Err(Status::not_found(join3("model `", model, "` not found").as_str()))
    }
}

/// The KV session of a request.
pub open spec fn session_of(request: GenerateRequest) -> Option<KvSessionRef> {
    match request.kv {
        Some(kv) => kv.session,
        None => None,
    }
}

/// The refusal for the KV session of a decode request.
pub open spec fn decode_refusal(session: Option<KvSessionRef>) -> Option<(Code, Seq<char>)> {
    match session {
        None => Some((Code::FailedPrecondition, "decode requests require kv.session"@)),
        Some(session) => if is_blank_text(session.session_id@) {
            Some((Code::InvalidArgument, "kv.session.session_id is required"@))
        } else if session.handoff_profile@ != HANDOFF_PROFILE@ {
            Some(
                (
                    Code::InvalidArgument,
                    "unsupported handoff profile `"@ + session.handoff_profile@ + "`; expected `"@
                        + HANDOFF_PROFILE@ + "`"@,
                ),
            )
        } else if session.transfer_backend@ != TRANSFER_BACKEND@ {
            Some(
                (
                    Code::InvalidArgument,
                    "unsupported transfer backend `"@ + session.transfer_backend@ + "`; expected `"@
                        + TRANSFER_BACKEND@ + "`"@,
                ),
            )
        } else if session.attributes_struct is None
            || session.attributes_struct->Some_0.fields@.len() == 0 {
            Some(
                (
                    Code::InvalidArgument,
                    "kv.session.attributes_struct must contain NIXL transfer parameters"@,
                ),
            )
        } else {
            None
        },
    }
}

/// The refusal for a request whose rank or KV session does not fit the role of the engine.
pub open spec fn handoff_refusal(
    session: Option<KvSessionRef>,
    role: EngineRole,
    target_dp_rank: Option<u32>,
    data_parallel_size: u64,
) -> Option<(Code, Seq<char>)> {
    if target_dp_rank is Some && target_dp_rank->Some_0 >= data_parallel_size {
        Some(
            (
                Code::InvalidArgument,
                "target data-parallel rank is outside 0.."@ + decimal(data_parallel_size as nat),
            ),
        )
    } else {
        match role {
            EngineRole::Decode => decode_refusal(session),
            EngineRole::Prefill => if session is Some {
                Some((Code::InvalidArgument, "prefill requests must not contain a KV session"@))
            } else if data_parallel_size > 1 && target_dp_rank is None {
                Some(
                    (
                        Code::InvalidArgument,
                        "multi-rank prefill requests require openengine-target-dp-rank"@,
                    ),
                )
            } else {
                None
            },
            _ => if session is Some {
                Some(
                    (
                        Code::InvalidArgument,
                        "aggregated requests must not contain a KV session"@,
                    ),
                )
            } else {
                None
            },
        }
    }
}

/// Checks that the rank and the KV session of a request fit the role of the engine.
pub fn validate_role_and_handoff(
    request: &GenerateRequest,
    role: EngineRole,
    target_dp_rank: Option<u32>,
    data_parallel_size: u64,
) -> (outcome: Result<(), Status>)
    ensures
        answers(
            outcome,
            handoff_refusal(session_of(*request), role, target_dp_rank, data_parallel_size),
        ),
{
    if let Some(rank) = target_dp_rank {
        if rank as u64 >= data_parallel_size {
            return Err(
                Status::invalid_argument(
                    join2(
                        "target data-parallel rank is outside 0..",
                        decimal_text(data_parallel_size).as_str(),
                    ).as_str(),
                ),
            );
        }
    }
    let session: Option<&KvSessionRef> = match &request.kv {
        Some(kv) => match &kv.session {
            Some(session) => Some(session),
            None => None,
        },
        None => None,
    };
    match role {
        EngineRole::Decode => {
            let session = match session {
                Some(session) => session,
                None => {
                    return Err(Status::failed_precondition("decode requests require kv.session"));
                },
            };
            if is_blank(session.session_id.as_str()) {
                return Err(Status::invalid_argument("kv.session.session_id is required"));
            }
            if !same(session.handoff_profile.as_str(), HANDOFF_PROFILE) {
                return Err(
                    Status::invalid_argument(
                        join5(
                            "unsupported handoff profile `",
                            session.handoff_profile.as_str(),
                            "`; expected `",
                            HANDOFF_PROFILE,
                            "`",
                        ).as_str(),
                    ),
                );
            }
            if !same(session.transfer_backend.as_str(), TRANSFER_BACKEND) {
                return Err(
                    Status::invalid_argument(
                        join5(
                            "unsupported transfer backend `",
                            session.transfer_backend.as_str(),
                            "`; expected `",
                            TRANSFER_BACKEND,
                            "`",
                        ).as_str(),
                    ),
                );
            }
            let described: bool = match &session.attributes_struct {
                Some(attributes) => attributes.fields.len() > 0,
                None => false,
            };
            if !described {
                return Err(
                    Status::invalid_argument(
                        "kv.session.attributes_struct must contain NIXL transfer parameters",
                    ),
                );
            }
        },
        EngineRole::Prefill => {
            if session.is_some() {
                return Err(
                    Status::invalid_argument("prefill requests must not contain a KV session"),
                );
            }
            if data_parallel_size > 1 && target_dp_rank.is_none() {
                return Err(
                    Status::invalid_argument(
                        "multi-rank prefill requests require openengine-target-dp-rank",
                    ),
                );
            }
        },
        EngineRole::Aggregated | EngineRole::Unspecified => {
            if session.is_some() {
                return Err(
                    Status::invalid_argument("aggregated requests must not contain a KV session"),
                );
            }
        },
    }
    Ok(())
}

/// The top-k that the engine takes: -1 and 0 both stand for no limit.
pub open spec fn engine_top_k(request: GenerateRequest) -> Option<u32> {
    match request.sampling {
        Some(sampling) => match sampling.top_k {
            Some(k) => if k > 0 {
                Some(k as u32)
            } else {
                Some(0)
            },
            None => None,
        },
        None => None,
    }
}

/// The seed that the engine takes.
pub open spec fn engine_seed(request: GenerateRequest) -> Option<i64> {
    match request.sampling {
        Some(sampling) => match sampling.seed {
            Some(seed) => Some(seed as i64),
            None => None,
        },
        None => None,
    }
}

/// The token ids among stop conditions, in order.
pub open spec fn stop_tokens(conditions: Seq<StopCondition>) -> Seq<u32>
    decreases conditions.len(),
{
    if conditions.len() == 0 {
        Seq::empty()
    } else {
        let before = stop_tokens(conditions.drop_last());
        match conditions.last() {
            StopCondition::StopTokenId(id) => before.push(id),
            _ => before,
        }
    }
}

/// The texts among stop conditions, in order.
pub open spec fn stop_texts(conditions: Seq<StopCondition>) -> Seq<Seq<char>>
    decreases conditions.len(),
{
    if conditions.len() == 0 {
        Seq::empty()
    } else {
        let before = stop_texts(conditions.drop_last());
        match conditions.last() {
            StopCondition::StopText(text) => before.push(text@),
            _ => before,
        }
    }
}

/// The stop conditions of a request.
pub open spec fn stop_conditions(request: GenerateRequest) -> Seq<StopCondition> {
    match request.stopping {
        Some(stopping) => stopping.conditions@,
        None => Seq::empty(),
    }
}

/// Every stop condition is a text or a token id.
pub open spec fn stops_are_set(conditions: Seq<StopCondition>) -> bool {
    forall|i: int| 0 <= i < conditions.len() ==> (#[trigger] conditions[i]) !is Unset
}

/// The refusal for a selection of candidate tokens.
pub open spec fn selection_refusal(
    selection: Option<CandidateTokenSelection>,
    enabled: bool,
    token_ids_supported: bool,
) -> Option<(Code, Seq<char>)> {
    if !enabled {
        None
    } else {
        match selection {
            Some(CandidateTokenSelection::TopN(n)) => if n > i32::MAX {
                Some((Code::InvalidArgument, "logprob top_n exceeds signed 32-bit range"@))
            } else {
                None
            },
            Some(CandidateTokenSelection::TokenIds(_)) => if token_ids_supported {
                None
            } else {
                Some(
                    (
                        Code::InvalidArgument,
                        "prompt logprobs do not support token-id candidate selection"@,
                    ),
                )
            },
            _ => None,
        }
    }
}

/// How many candidate tokens a selection asks for; -1 asks for all.
pub open spec fn selected_count(selection: Option<CandidateTokenSelection>, enabled: bool) -> Option<
    i32,
> {
    if !enabled {
        None
    } else {
        match selection {
            Some(CandidateTokenSelection::TopN(n)) => Some(n as i32),
            Some(CandidateTokenSelection::All) => Some(-1i32),
            _ => Some(1i32),
        }
    }
}

/// The token ids that a selection asks for.
pub open spec fn selected_ids(selection: Option<CandidateTokenSelection>, enabled: bool) -> Option<
    Seq<u32>,
> {
    if !enabled {
        None
    } else {
        match selection {
            Some(CandidateTokenSelection::TokenIds(ids)) => Some(ids@),
            _ => None,
        }
    }
}

/// The ids of an optional list.
pub open spec fn ids_view(ids: Option<Vec<u32>>) -> Option<Seq<u32>> {
    match ids {
        Some(ids) => Some(ids@),
        None => None,
    }
}

/// Reads a selection of candidate tokens: their number, and the ids that are asked for.
pub fn candidate_selection(
    selection: &Option<CandidateTokenSelection>,
    enabled: bool,
    token_ids_supported: bool,
) -> (selected: Result<(Option<i32>, Option<Vec<u32>>), Status>)
    ensures
        match selected {
            Ok((count, ids)) => {
                &&& selection_refusal(*selection, enabled, token_ids_supported) is None
                &&& count == selected_count(*selection, enabled)
                &&& ids_view(ids) == selected_ids(*selection, enabled)
            },
            Err(status) => selection_refusal(*selection, enabled, token_ids_supported) == Some(
                status@,
            ),
        },
{
    if !enabled {
        return Ok((None, None));
    }
    match selection {
        Some(CandidateTokenSelection::TopN(n)) => if *n > 0x7fff_ffff {
            Err(Status::invalid_argument("logprob top_n exceeds signed 32-bit range"))
        } else {
            Ok((Some(*n as i32), None))
        },
        Some(CandidateTokenSelection::All) => Ok((Some(-1), None)),
        Some(CandidateTokenSelection::TokenIds(ids)) => if token_ids_supported {
            Ok((Some(1), Some(copy_ids(ids))))
        } else {
            Err(
                Status::invalid_argument(
                    "prompt logprobs do not support token-id candidate selection",
                ),
            )
        },
        Some(CandidateTokenSelection::Unset) => Ok((Some(1), None)),
        None => Ok((Some(1), None)),
    }
}

/// The backend that a name stands for.
pub open spec fn backend_of(name: Seq<char>) -> Option<StructuredOutputBackend> {
    if name == ""@ || name == "guidance"@ || name == "llguidance"@ {
        Some(StructuredOutputBackend::Guidance)
    } else if name == "xgrammar"@ {
        Some(StructuredOutputBackend::Xgrammar)
    } else if name == "outlines"@ {
        Some(StructuredOutputBackend::Outlines)
    } else if name == "lm-format-enforcer"@ {
        Some(StructuredOutputBackend::LmFormatEnforcer)
    } else {
        None
    }
}

/// The refusal for a constraint on the output, given what its JSON schema was read as.
pub open spec fn guide_refusal(
    guided: GuidedDecoding,
    schema: Result<serde_json::Value, Seq<char>>,
) -> Option<(Code, Seq<char>)> {
    if guided.guide is None {
        Some((Code::InvalidArgument, "guided decoding constraint is required"@))
    } else if guided.guide->Some_0 is JsonSchema && schema is Err {
        Some((Code::InvalidArgument, "invalid JSON schema: "@ + schema->Err_0))
    } else if backend_of(guided.backend@) is None {
        Some(
            (
                Code::InvalidArgument,
                "unsupported guided decoding backend `"@ + guided.backend@ + "`"@,
            ),
        )
    } else {
        None
    }
}

/// The constraint says what the guide asks for, given what its JSON schema was read as.
pub open spec fn enforces(
    constraint: StructuredConstraint,
    guide: Guide,
    schema: Result<serde_json::Value, Seq<char>>,
) -> bool {
    match guide {
        Guide::JsonSchema(_) => constraint == StructuredConstraint::Json(schema->Ok_0),
        Guide::Regex(regex) => constraint == StructuredConstraint::Regex(regex),
        Guide::EbnfGrammar(grammar) => constraint == StructuredConstraint::Grammar(grammar),
        Guide::StructuralTag(tag) => constraint == StructuredConstraint::StructuralTag(tag),
        Guide::Choice(choices) => constraint matches StructuredConstraint::Choice(chosen)
            && chosen@ == choices@,
        Guide::JsonObject => constraint == StructuredConstraint::JsonObject,
    }
}

/// The answer to a constraint on the output, given what its JSON schema was read as.
pub open spec fn guides(
    outcome: Result<StructuredOutputsParams, Status>,
    guided: GuidedDecoding,
    schema: Result<serde_json::Value, Seq<char>>,
) -> bool {
    match outcome {
        Ok(params) => {
            &&& guide_refusal(guided, schema) is None
            &&& enforces(params.constraint, guided.guide->Some_0, schema)
            &&& backend_of(guided.backend@) == Some(params.backend)
        },
        Err(status) => guide_refusal(guided, schema) == Some(status@),
    }
}

/// What `serde_json` reads the schema of a constraint as.
pub open spec fn schema_of(guided: GuidedDecoding) -> Result<serde_json::Value, Seq<char>> {
    match guided.guide {
        Some(Guide::JsonSchema(schema)) => json_document(schema@),
        _ => Err(Seq::empty()),
    }
}

/// The result of reading a JSON document, with the characters of its error.
pub open spec fn document_view(document: Result<serde_json::Value, String>) -> Result<
    serde_json::Value,
    Seq<char>,
> {
    match document {
        Ok(value) => Ok(value),
        Err(error) => Err(error@),
    }
}

/// Reads a constraint on the output whose JSON schema, where it has one, was read before.
pub fn guided_decoding_with_schema(
    guided: &GuidedDecoding,
    schema: Result<serde_json::Value, String>,
) -> (outcome: Result<StructuredOutputsParams, Status>)
    ensures
        guides(outcome, *guided, document_view(schema)),
{
    let constraint = match &guided.guide {
        Some(Guide::JsonSchema(_)) => match schema {
            Ok(value) => StructuredConstraint::Json(value),
            Err(error) => {
                return Err(
                    Status::invalid_argument(
                        join2("invalid JSON schema: ", error.as_str()).as_str(),
                    ),
                );
            },
        },
        Some(Guide::Regex(regex)) => StructuredConstraint::Regex(regex.clone()),
        Some(Guide::EbnfGrammar(grammar)) => StructuredConstraint::Grammar(grammar.clone()),
        Some(Guide::StructuralTag(tag)) => StructuredConstraint::StructuralTag(tag.clone()),
        Some(Guide::Choice(choices)) => StructuredConstraint::Choice(copy_texts(choices)),
        Some(Guide::JsonObject) => StructuredConstraint::JsonObject,
        None => {
            return Err(Status::invalid_argument("guided decoding constraint is required"));
        },
    };
    let name = guided.backend.as_str();
    let backend = if same(name, "") || same(name, "guidance") || same(name, "llguidance") {
        StructuredOutputBackend::Guidance
    } else if same(name, "xgrammar") {
        StructuredOutputBackend::Xgrammar
    } else if same(name, "outlines") {
        StructuredOutputBackend::Outlines
    } else if same(name, "lm-format-enforcer") {
        StructuredOutputBackend::LmFormatEnforcer
    } else {
        return Err(
            Status::invalid_argument(
                join3("unsupported guided decoding backend `", name, "`").as_str(),
            ),
        );
    };
    Ok(StructuredOutputsParams { constraint, backend })
}

/// Reads a constraint on the output.
pub fn guided_decoding(guided: &GuidedDecoding) -> (outcome: Result<
    StructuredOutputsParams,
    Status,
>)
    ensures
        guides(outcome, *guided, schema_of(*guided)),
{
    let schema = match &guided.guide {
        Some(Guide::JsonSchema(schema)) => parse_json(schema.as_str()),
        _ => Err("".to_string()),
    };
    proof {
        reveal_strlit("");
        assert(""@ =~= Seq::<char>::empty());
    }
    guided_decoding_with_schema(guided, schema)
}

/// The prompt candidates of a request.
pub open spec fn prompt_selection(request: GenerateRequest) -> Option<CandidateTokenSelection> {
    match request.response {
        Some(response) => response.prompt_candidates,
        None => None,
    }
}

/// The output candidates of a request.
pub open spec fn output_selection(request: GenerateRequest) -> Option<CandidateTokenSelection> {
    match request.response {
        Some(response) => response.output_candidates,
        None => None,
    }
}

/// The request asks for log probabilities of its prompt.
pub open spec fn wants_prompt_logprobs(request: GenerateRequest) -> bool {
    request.response matches Some(response) && response.return_prompt_logprobs == Some(true)
}

/// The request asks for log probabilities of the output.
pub open spec fn wants_output_logprobs(request: GenerateRequest) -> bool {
    request.response matches Some(response) && response.return_output_logprobs == Some(true)
}

/// The refusal for the sampling options of a request: the first of these that applies.
pub open spec fn sampling_refusal(request: GenerateRequest) -> Option<(Code, Seq<char>)> {
    if request.sampling matches Some(sampling) && sampling.num_sequences matches Some(n) && n
        != 1 {
        Some(
            (
                Code::InvalidArgument,
                "vLLM OpenEngine currently supports exactly one output sequence"@,
            ),
        )
    } else if request.sampling matches Some(sampling) && sampling.top_k matches Some(k) && k
        < -1 {
        Some(
            (
                Code::InvalidArgument,
                "top_k must be -1, 0, or positive; got "@ + signed_decimal(
                    request.sampling->Some_0.top_k->Some_0 as int,
                ),
            ),
        )
    } else if request.sampling matches Some(sampling) && sampling.seed matches Some(seed) && seed
        > i64::MAX {
        Some((Code::InvalidArgument, "seed exceeds vLLM's signed 64-bit range"@))
    } else if !stops_are_set(stop_conditions(request)) {
        Some(
            (
                Code::InvalidArgument,
                "every stop condition must set stop_text or stop_token_id"@,
            ),
        )
    } else if request.response matches Some(response) && response.prompt_logprob_start matches Some(
        start,
    ) && start != 0 {
        Some((Code::InvalidArgument, "prompt_logprob_start is not supported by vLLM"@))
    } else if selection_refusal(
        prompt_selection(request),
        wants_prompt_logprobs(request),
        false,
    ) is Some {
        selection_refusal(prompt_selection(request), wants_prompt_logprobs(request), false)
    } else if selection_refusal(
        output_selection(request),
        wants_output_logprobs(request),
        true,
    ) is Some {
        selection_refusal(output_selection(request), wants_output_logprobs(request), true)
    } else {
        match request.guided {
            Some(guided) => guide_refusal(guided, schema_of(guided)),
            None => None,
        }
    }
}

/// The sampling parameters say what a request asks for.
pub open spec fn samples_as_asked(params: SamplingParams, request: GenerateRequest) -> bool {
    &&& match request.sampling {
        Some(sampling) => {
            &&& params.temperature == sampling.temperature
            &&& params.top_p == sampling.top_p
            &&& params.min_p == sampling.min_p
            &&& params.frequency_penalty == sampling.frequency_penalty
            &&& params.presence_penalty == sampling.presence_penalty
            &&& params.repetition_penalty == sampling.repetition_penalty
        },
        None => {
            &&& params.temperature is None
            &&& params.top_p is None
            &&& params.min_p is None
            &&& params.frequency_penalty is None
            &&& params.presence_penalty is None
            &&& params.repetition_penalty is None
        },
    }
    &&& params.top_k == engine_top_k(request)
    &&& params.seed == engine_seed(request)
    &&& match request.stopping {
        Some(stopping) => {
            &&& params.max_tokens == stopping.max_tokens
            &&& params.min_tokens == stopping.min_tokens
            &&& params.ignore_eos == (stopping.ignore_eos == Some(true))
        },
        None => params.max_tokens is None && params.min_tokens is None && !params.ignore_eos,
    }
    &&& ids_view(params.stop_token_ids) == (if stop_tokens(stop_conditions(request)).len() == 0 {
        None
    } else {
        Some(stop_tokens(stop_conditions(request)))
    })
    &&& params.prompt_logprobs == selected_count(
        prompt_selection(request),
        wants_prompt_logprobs(request),
    )
    &&& params.logprobs == selected_count(output_selection(request), wants_output_logprobs(request))
    &&& ids_view(params.logprob_token_ids) == selected_ids(
        output_selection(request),
        wants_output_logprobs(request),
    )
    &&& match (request.guided, params.structured_outputs) {
        (Some(guided), Some(structured)) => guides(Ok(structured), guided, schema_of(guided)),
        (None, None) => true,
        _ => false,
    }
}

/// Collects the token ids among stop conditions; nothing where a condition is not set.
pub fn collect_stop_tokens(conditions: &Vec<StopCondition>) -> (tokens: Option<Vec<u32>>)
    ensures
        match tokens {
            Some(tokens) => stops_are_set(conditions@) && tokens@ == stop_tokens(conditions@),
            None => !stops_are_set(conditions@),
        },
{
    let mut tokens: Vec<u32> = Vec::new();
    let mut i: usize = 0;
    while i < conditions.len()
        invariant
            i <= conditions@.len(),
            tokens@ == stop_tokens(conditions@.take(i as int)),
            forall|j: int| 0 <= j < i ==> (#[trigger] conditions@[j]) !is Unset,
        decreases conditions@.len() - i,
    {
        assert(conditions@.take(i + 1).drop_last() == conditions@.take(i as int));
        match &conditions[i] {
            StopCondition::StopText(_) => {},
            StopCondition::StopTokenId(id) => {
                tokens.push(*id);
            },
            StopCondition::Unset => {
                assert(conditions@[i as int] is Unset);
                return None;
            },
        }
        i += 1;
    }
    assert(conditions@.take(i as int) == conditions@);
    Some(tokens)
}

/// Reads the sampling options of a request.
pub fn sampling_params(request: &GenerateRequest) -> (outcome: Result<SamplingParams, Status>)
    ensures
        match outcome {
            Ok(params) => {
                &&& sampling_refusal(*request) is None
                &&& samples_as_asked(params, *request)
                &&& params.skip_reading_prefix_cache is None
                &&& params.vllm_xargs is None
            },
            Err(status) => sampling_refusal(*request) == Some(status@),
        },
{
    let mut params = SamplingParams::default();
    if let Some(sampling) = &request.sampling {
        if let Some(n) = sampling.num_sequences {
            if n != 1 {
                return Err(
                    Status::invalid_argument(
                        "vLLM OpenEngine currently supports exactly one output sequence",
                    ),
                );
            }
        }
        if let Some(k) = sampling.top_k {
            if k < -1 {
                return Err(
                    Status::invalid_argument(
                        join2(
                            "top_k must be -1, 0, or positive; got ",
                            signed_decimal_text(k as i64).as_str(),
                        ).as_str(),
                    ),
                );
            }
            params.top_k = Some(
                if k > 0 {
                    k as u32
                } else {
                    0
                },
            );
        }
        if let Some(seed) = sampling.seed {
            if seed > 0x7fff_ffff_ffff_ffff {
                return Err(Status::invalid_argument("seed exceeds vLLM's signed 64-bit range"));
            }
            params.seed = Some(seed as i64);
        }
        params.temperature = sampling.temperature;
        params.top_p = sampling.top_p;
        params.min_p = sampling.min_p;
        params.frequency_penalty = sampling.frequency_penalty;
        params.presence_penalty = sampling.presence_penalty;
        params.repetition_penalty = sampling.repetition_penalty;
    }
    if let Some(stopping) = &request.stopping {
        match collect_stop_tokens(&stopping.conditions) {
            Some(tokens) => if tokens.len() > 0 {
                params.stop_token_ids = Some(tokens);
            },
            None => {
                return Err(
                    Status::invalid_argument(
                        "every stop condition must set stop_text or stop_token_id",
                    ),
                );
            },
        }
        params.max_tokens = stopping.max_tokens;
        params.min_tokens = stopping.min_tokens;
        params.ignore_eos = stopping.ignore_eos == Some(true);
    }
    if let Some(response) = &request.response {
        if let Some(start) = response.prompt_logprob_start {
            if start != 0 {
                return Err(
                    Status::invalid_argument("prompt_logprob_start is not supported by vLLM"),
                );
            }
        }
        match candidate_selection(
            &response.prompt_candidates,
            response.return_prompt_logprobs == Some(true),
            false,
        ) {
            Ok((count, _)) => {
                params.prompt_logprobs = count;
            },
            Err(status) => {
                return Err(status);
            },
        }
        match candidate_selection(
            &response.output_candidates,
            response.return_output_logprobs == Some(true),
            true,
        ) {
            Ok((count, ids)) => {
                params.logprobs = count;
                params.logprob_token_ids = ids;
            },
            Err(status) => {
                return Err(status);
            },
        }
    }
    if let Some(guided) = &request.guided {
        match guided_decoding(guided) {
            Ok(structured) => {
                params.structured_outputs = Some(structured);
            },
            Err(status) => {
                return Err(status);
            },
        }
    }
    Ok(params)
}

/// The characters of a text, or nothing where it is empty.
pub open spec fn unless_empty(text: Seq<char>) -> Option<Seq<char>> {
    if text.len() == 0 {
        None
    } else {
        Some(text)
    }
}

/// The refusal for a media item.
pub open spec fn media_refusal(item: MediaItem) -> Option<(Code, Seq<char>)> {
    if item.modality != Modality::Image {
        Some(
            (Code::InvalidArgument, "vLLM OpenEngine currently supports image media only"@),
        )
    } else if item.source is None {
        Some((Code::InvalidArgument, "media item source is required"@))
    } else {
        None
    }
}

/// The part is the media item.
pub open spec fn is_part_of(part: MediaContentPart, item: MediaItem) -> bool {
    match item.source {
        Some(MediaSource::Url(address)) => part matches MediaContentPart::ImageUrl {
            url,
            detail,
            uuid,
        } && url == address && detail is None && text_view(uuid) == unless_empty(item.uuid@),
        Some(MediaSource::DataUri(address)) => part matches MediaContentPart::ImageUrl {
            url,
            detail,
            uuid,
        } && url == address && detail is None && text_view(uuid) == unless_empty(item.uuid@),
        Some(MediaSource::RawBytes(bytes)) => part matches MediaContentPart::ImageData {
            data,
            mime_type,
            uuid,
            detail,
        } && data@ == bytes@ && detail is None && text_view(mime_type) == unless_empty(
            item.mime_type@,
        ) && text_view(uuid) == unless_empty(item.uuid@),
        None => false,
    }
}

pub fn text_unless_empty(text: &String) -> (kept: Option<String>)
    ensures
        text_view(kept) == unless_empty(text@),
{
    if text.as_str().is_empty() {
        None
    } else {
        Some(text.clone())
    }
}

/// Every media item can be part of a prompt.
pub open spec fn accepts_media(media: Seq<MediaItem>) -> bool {
    forall|i: int| 0 <= i < media.len() ==> media_refusal(#[trigger] media[i]) is None
}

/// The parts are those of the media items, in order.
pub open spec fn are_parts_of(parts: Seq<MediaContentPart>, media: Seq<MediaItem>) -> bool {
    &&& accepts_media(media)
    &&& parts.len() == media.len()
    &&& forall|i: int| 0 <= i < media.len() ==> is_part_of(#[trigger] parts[i], media[i])
}

/// The refusal is that of the first media item that cannot be part of a prompt.
pub open spec fn refuses_media(refusal: (Code, Seq<char>), media: Seq<MediaItem>) -> bool {
    exists|i: int|
        {
            &&& 0 <= i < media.len()
            &&& media_refusal(#[trigger] media[i]) == Some(refusal)
            &&& forall|j: int| 0 <= j < i ==> media_refusal(#[trigger] media[j]) is None
        }
}

/// Turns media items into parts of a prompt; the first item that cannot be one is refused.
pub fn media_parts(media: &Vec<MediaItem>) -> (outcome: Result<Vec<MediaContentPart>, Status>)
    ensures
        match outcome {
            Ok(parts) => are_parts_of(parts@, media@),
            Err(status) => refuses_media(status@, media@),
        },
{
    let mut parts: Vec<MediaContentPart> = Vec::new();
    let mut i: usize = 0;
    while i < media.len()
        invariant
            i <= media@.len(),
            parts@.len() == i,
            forall|j: int|
                0 <= j < i ==> media_refusal(#[trigger] media@[j]) is None && is_part_of(
                    parts@[j],
                    media@[j],
                ),
        decreases media@.len() - i,
    {
        let item = &media[i];
        assert(*item == media@[i as int]);
        if item.modality != Modality::Image {
            return Err(
                Status::invalid_argument("vLLM OpenEngine currently supports image media only"),
            );
        }
        let uuid = text_unless_empty(&item.uuid);
        let part = match &item.source {
            Some(MediaSource::Url(url)) => MediaContentPart::ImageUrl {
                url: url.clone(),
                detail: None,
                uuid,
            },
            Some(MediaSource::DataUri(url)) => MediaContentPart::ImageUrl {
                url: url.clone(),
                detail: None,
                uuid,
            },
            Some(MediaSource::RawBytes(data)) => MediaContentPart::ImageData {
                data: copy_bytes(data),
                mime_type: text_unless_empty(&item.mime_type),
                uuid,
                detail: None,
            },
            None => {
                return Err(Status::invalid_argument("media item source is required"));
            },
        };
        parts.push(part);
        i += 1;
    }
    Ok(parts)
}

/// A request on its way to the text engine: checked, with its input as the prompt. Where it has
/// media, its prompt is tokenized and the media are prepared before the conversion ends.
#[derive(Debug)]
pub struct TextConversion {
    pub request: GenerateRequest,
    pub prompt: Prompt,
    pub role: EngineRole,
    pub target_dp_rank: Option<u32>,
    pub priority: i32,
}

/// What a conversion waits for.
#[derive(Debug)]
pub enum ConversionStep {
    /// The text of the prompt has to be tokenized, with special tokens.
    Tokenize,
    /// These media have to be prepared for the tokens of the prompt.
    PrepareMedia(Vec<MediaContentPart>),
    /// Nothing is missing.
    Finish,
}

impl TextConversion {
    /// A decode request has the parameters of its KV transfer.
    pub open spec fn is_checked(self) -> bool {
        self.role == EngineRole::Decode ==> {
            &&& session_of(self.request) is Some
            &&& session_of(self.request)->Some_0.attributes_struct is Some
        }
    }

    /// The conversion can end with these features: a prompt with media consists of tokens, and
    /// there are features only where there are media.
    pub open spec fn takes<F>(self, features: Option<F>) -> bool {
        &&& self.is_checked()
        &&& if self.request.media@.len() > 0 {
            self.prompt is TokenIds && accepts_media(self.request.media@)
        } else {
            features is None
        }
    }

    /// What the conversion waits for. A text is tokenized before the media are looked at, and
    /// media that cannot be part of a prompt are refused.
    pub fn step(&self) -> (outcome: Result<ConversionStep, Status>)
        ensures
            match outcome {
                Ok(ConversionStep::Finish) => self.request.media@.len() == 0,
                Ok(ConversionStep::Tokenize) => self.request.media@.len() > 0 && self.prompt is Text,
                Ok(ConversionStep::PrepareMedia(parts)) => self.request.media@.len() > 0
                    && self.prompt is TokenIds && are_parts_of(parts@, self.request.media@),
                Err(status) => self.request.media@.len() > 0 && self.prompt is TokenIds
                    && refuses_media(status@, self.request.media@),
            },
    {
        if self.request.media.len() == 0 {
            return Ok(ConversionStep::Finish);
        }
        match &self.prompt {
            Prompt::Text(_) => Ok(ConversionStep::Tokenize),
            Prompt::TokenIds(_) => match media_parts(&self.request.media) {
                Ok(parts) => Ok(ConversionStep::PrepareMedia(parts)),
                Err(status) => Err(status),
            },
        }
    }

    /// Puts the tokens of the prompt in its place, given what the tokenizer made of its text.
    pub fn tokenize(self, encoded: Result<Vec<u32>, String>) -> (outcome: Result<
        TextConversion,
        Status,
    >)
        ensures
            match outcome {
                Ok(conversion) => conversion == (TextConversion {
                    prompt: match (self.prompt, encoded) {
                        (Prompt::Text(_), Ok(ids)) => Prompt::TokenIds(ids),
                        _ => self.prompt,
                    },
                    ..self
                }) && conversion.prompt is TokenIds,
                Err(status) => self.prompt is Text && (encoded matches Err(error) && status@ == (
                    Code::InvalidArgument,
                    "failed to tokenize multimodal prompt: "@ + error@,
                )),
            },
    {
        let mut conversion = self;
        match tokenize_multimodal_prompt(&mut conversion.prompt, encoded) {
            Ok(()) => Ok(conversion),
            Err(status) => Err(status),
        }
    }

    /// Puts media in place, given what preparing them came to: the tokens of the prompt with the
    /// places of the media filled, and the features.
    pub fn place_media<F>(self, prepared: Result<(Vec<u32>, Option<F>), String>) -> (outcome:
        Result<(TextConversion, Option<F>), Status>)
        ensures
            match (outcome, prepared) {
                (Ok((conversion, features)), Ok((ids, found))) => features == found && conversion
                    == (TextConversion { prompt: Prompt::TokenIds(ids), ..self }),
                (Err(status), Err(error)) => status@ == (Code::InvalidArgument, error@),
                _ => false,
            },
    {
        match prepared {
            Ok((ids, features)) => {
                let mut conversion = self;
                conversion.prompt = Prompt::TokenIds(ids);
                Ok((conversion, features))
            },
            Err(error) => Err(Status::invalid_argument(error.as_str())),
        }
    }
}

/// The refusal for a request that cannot be converted: the first of these that applies.
pub open spec fn conversion_refusal(
    request: GenerateRequest,
    role: EngineRole,
    target_dp_rank: Option<u32>,
    data_parallel_size: u64,
    canonical: Seq<char>,
    served: Seq<String>,
) -> Option<(Code, Seq<char>)> {
    if model_refusal(request.model@, canonical, served) is Some {
        model_refusal(request.model@, canonical, served)
    } else if handoff_refusal(
        session_of(request),
        role,
        target_dp_rank,
        data_parallel_size,
    ) is Some {
        handoff_refusal(session_of(request), role, target_dp_rank, data_parallel_size)
    } else if request.media_options matches Some(options) && options.fields@.len() > 0 {
        Some(
            (
                Code::InvalidArgument,
                "per-request media_options are not supported by the vLLM Rust frontend"@,
            ),
        )
    } else if request.input is None {
        Some((Code::InvalidArgument, "prompt or token_ids is required"@))
    } else {
        None
    }
}

/// Begins to convert a request: checks it and takes its input as the prompt.
pub fn to_text_request(
    request: GenerateRequest,
    role: EngineRole,
    target_dp_rank: Option<u32>,
    priority: i32,
    data_parallel_size: u64,
    model_id: &str,
    served_model_names: &Vec<String>,
) -> (outcome: Result<TextConversion, Status>)
    ensures
        match outcome {
            Ok(conversion) => {
                &&& conversion_refusal(
                    request,
                    role,
                    target_dp_rank,
                    data_parallel_size,
                    model_id@,
                    served_model_names@,
                ) is None
                &&& conversion.request == (GenerateRequest { input: None, ..request })
                &&& conversion.prompt == (match request.input->Some_0 {
                    GenerateInput::Prompt(text) => Prompt::Text(text),
                    GenerateInput::TokenIds(ids) => Prompt::TokenIds(ids),
                })
                &&& conversion.role == role
                &&& conversion.target_dp_rank == target_dp_rank
                &&& conversion.priority == priority
                &&& conversion.is_checked()
            },
            Err(status) => conversion_refusal(
                request,
                role,
                target_dp_rank,
                data_parallel_size,
                model_id@,
                served_model_names@,
            ) == Some(status@),
        },
{
    if let Err(status) = validate_model(request.model.as_str(), model_id, served_model_names) {
        return Err(status);
    }
    if let Err(status) = validate_role_and_handoff(
        &request,
        role,
        target_dp_rank,
        data_parallel_size,
    ) {
        return Err(status);
    }
    if let Some(options) = &request.media_options {
        if options.fields.len() > 0 {
            return Err(
                Status::invalid_argument(
                    "per-request media_options are not supported by the vLLM Rust frontend",
                ),
            );
        }
    }
    let mut request = request;
    let prompt = match request.input.take() {
        Some(GenerateInput::Prompt(prompt)) => Prompt::Text(prompt),
        Some(GenerateInput::TokenIds(ids)) => Prompt::TokenIds(ids),
        None => {
            return Err(Status::invalid_argument("prompt or token_ids is required"));
        },
    };
    Ok(TextConversion { request, prompt, role, target_dp_rank, priority })
}

/// Puts the tokens of a text in its place, given what the tokenizer made of the text. A prompt
/// that already consists of tokens stays as it is.
pub fn tokenize_multimodal_prompt(prompt: &mut Prompt, encoded: Result<Vec<u32>, String>) -> (outcome:
    Result<(), Status>)
    ensures
        match (*old(prompt), encoded) {
            (Prompt::TokenIds(_), _) => outcome is Ok && *final(prompt) == *old(prompt),
            (Prompt::Text(_), Ok(ids)) => outcome is Ok && *final(prompt) == Prompt::TokenIds(ids),
            (Prompt::Text(_), Err(error)) => {
                &&& *final(prompt) == *old(prompt)
                &&& outcome matches Err(status) && status@ == (
                    Code::InvalidArgument,
                    "failed to tokenize multimodal prompt: "@ + error@,
                )
            },
        },
{
    let text: bool = match prompt {
        Prompt::Text(_) => true,
        Prompt::TokenIds(_) => false,
    };
    if text {
        match encoded {
            Ok(ids) => {
                *prompt = Prompt::TokenIds(ids);
            },
            Err(error) => {
                return Err(
                    Status::invalid_argument(
                        join2("failed to tokenize multimodal prompt: ", error.as_str()).as_str(),
                    ),
                );
            },
        }
    }
    Ok(())
}

/// The extra arguments of a request for the engine: what the request brings along, and the
/// parameters of the KV transfer that its role needs.
pub open spec fn extra_arguments(request: GenerateRequest, role: EngineRole) -> Option<
    Seq<(Seq<char>, JsonModel)>,
> {
    let brought = match request.extra {
        Some(extra) => if extra.fields@.len() > 0 {
            Some(members_of(extra@, false))
        } else {
            None
        },
        None => None,
    };
    let members = match brought {
        Some(members) => members,
        None => Seq::empty(),
    };
    match role {
        EngineRole::Prefill => Some(
            with_member(members, "kv_transfer_params"@, remote_decode_parameters()),
        ),
        EngineRole::Decode => Some(
            with_member(
                members,
                "kv_transfer_params"@,
                JsonModel::Object(
                    members_of(session_of(request)->Some_0.attributes_struct->Some_0@, true),
                ),
            ),
        ),
        _ => brought,
    }
}

/// The parameters that have a prefill engine keep its KV blocks for a decode engine.
pub open spec fn remote_decode_parameters() -> JsonModel {
    JsonModel::Object(seq![("do_remote_decode"@, JsonModel::Bool(true))])
}

/// Whatever extra arguments a prefill request brings along, the engine is told to keep its KV
/// blocks for a decode engine.
pub proof fn prefill_keeps_blocks_for_decode(request: GenerateRequest)
    ensures
        extra_arguments(request, EngineRole::Prefill) matches Some(members)
            && crate::json::member_value(members, "kv_transfer_params"@) == Some(
            remote_decode_parameters(),
        ),
{
    let brought = extra_arguments(request, EngineRole::Aggregated);
    let members = match brought {
        Some(members) => members,
        None => Seq::empty(),
    };
    set_member_reads_back(
        members,
        "kv_transfer_params"@,
        remote_decode_parameters(),
        "kv_transfer_params"@,
    );
}

/// Whatever extra arguments a decode request brings along, the engine gets the parameters of the
/// KV transfer from the session, with exact integers restored.
pub proof fn decode_gets_session_parameters(request: GenerateRequest)
    requires
        session_of(request) is Some,
        session_of(request)->Some_0.attributes_struct is Some,
    ensures
        extra_arguments(request, EngineRole::Decode) matches Some(members)
            && crate::json::member_value(members, "kv_transfer_params"@) == Some(
            JsonModel::Object(
                members_of(session_of(request)->Some_0.attributes_struct->Some_0@, true),
            ),
        ),
{
    let brought = extra_arguments(request, EngineRole::Aggregated);
    let members = match brought {
        Some(members) => members,
        None => Seq::empty(),
    };
    set_member_reads_back(
        members,
        "kv_transfer_params"@,
        JsonModel::Object(members_of(session_of(request)->Some_0.attributes_struct->Some_0@, true)),
        "kv_transfer_params"@,
    );
}

/// The members of optional arguments.
pub open spec fn arguments_view(arguments: Option<Vec<JsonMember>>) -> Option<
    Seq<(Seq<char>, JsonModel)>,
> {
    match arguments {
        Some(members) => Some(member_models(members@)),
        None => None,
    }
}

/// The texts of a list.
pub open spec fn texts_view(texts: Seq<String>) -> Seq<Seq<char>> {
    texts.map_values(|text: String| text@)
}

/// The engine is asked for what the request asks for.
pub open spec fn converts<F>(
    text: TextRequest<F>,
    conversion: TextConversion,
    features: Option<F>,
) -> bool {
    let request = conversion.request;
    let params = text.sampling_params;
    &&& text.prompt == conversion.prompt
    &&& text.mm_features == features
    &&& samples_as_asked(params, request)
    &&& params.skip_reading_prefix_cache == (if request.kv matches Some(kv)
        && kv.bypass_prefix_cache == Some(true) {
        Some(true)
    } else {
        None
    })
    &&& arguments_view(params.vllm_xargs) == extra_arguments(request, conversion.role)
    &&& text.decode_options.skip_special_tokens
    &&& text.decode_options.include_stop_str_in_output == (request.stopping matches Some(stopping)
        && stopping.include_stop_in_output == Some(true))
    &&& match text.decode_options.stop_strings {
        Some(texts) => texts@.len() > 0 && texts_view(texts@) == stop_texts(
            stop_conditions(request),
        ),
        None => stop_texts(stop_conditions(request)).len() == 0,
    }
    &&& text.decode_options.min_tokens == (match request.stopping {
        Some(stopping) => match stopping.min_tokens {
            Some(n) => n,
            None => 0,
        },
        None => 0,
    })
    &&& text.intermediate
    &&& text.priority == conversion.priority
    &&& text.cache_salt == (match request.kv {
        Some(kv) => kv.cache_salt,
        None => None,
    })
    &&& text.add_special_tokens
    &&& text.data_parallel_rank == conversion.target_dp_rank
    &&& text.lora_request is None
}

/// Collects the texts among stop conditions.
pub fn collect_stop_texts(conditions: &Vec<StopCondition>) -> (texts: Vec<String>)
    ensures
        texts_view(texts@) == stop_texts(conditions@),
{
    let mut texts: Vec<String> = Vec::new();
    let mut i: usize = 0;
    while i < conditions.len()
        invariant
            i <= conditions@.len(),
            texts_view(texts@) == stop_texts(conditions@.take(i as int)),
        decreases conditions@.len() - i,
    {
        assert(conditions@.take(i + 1).drop_last() == conditions@.take(i as int));
        if let StopCondition::StopText(text) = &conditions[i] {
            let ghost before = texts@;
            texts.push(text.clone());
            assert(texts_view(texts@) == texts_view(before).push(text@));
        }
        i += 1;
    }
    assert(conditions@.take(i as int) == conditions@);
    texts
}

/// Adds the parameters of the KV transfer and the extra arguments of a request.
fn engine_arguments(request: &GenerateRequest, role: EngineRole) -> (arguments: Option<
    Vec<JsonMember>,
>)
    requires
        role == EngineRole::Decode ==> session_of(*request) is Some && session_of(
            *request,
        )->Some_0.attributes_struct is Some,
    ensures
        arguments_view(arguments) == extra_arguments(*request, role),
{
    let brought: Option<Vec<JsonMember>> = match &request.extra {
        Some(extra) => if extra.fields.len() > 0 {
            Some(prost_struct_to_json(extra))
        } else {
            None
        },
        None => None,
    };
    let transfer: Option<Vec<JsonMember>> = match role {
        EngineRole::Prefill => {
            let marker = JsonMember {
                name: "do_remote_decode".to_string(),
                value: JsonValue::Bool(true),
            };
            let mut members: Vec<JsonMember> = Vec::new();
            proof {
                crate::json::lemma_member_models_push(members@, marker);
                assert(member_models(members@).push(("do_remote_decode"@, JsonModel::Bool(true)))
                    == seq![("do_remote_decode"@, JsonModel::Bool(true))]);
            }
            members.push(marker);
            Some(members)
        },
        EngineRole::Decode => match &request.kv {
            Some(kv) => match &kv.session {
                Some(session) => match &session.attributes_struct {
                    Some(attributes) => Some(prost_handoff_struct_to_json(attributes)),
                    None => None,
                },
                None => None,
            },
            None => None,
        },
        _ => None,
    };
    match transfer {
        Some(parameters) => {
            let mut members: Vec<JsonMember> = match brought {
                Some(members) => members,
                None => Vec::new(),
            };
            set_member(
                &mut members,
                "kv_transfer_params".to_string(),
                JsonValue::Object(parameters),
            );
            Some(members)
        },
        None => brought,
    }
}

/// Ends the conversion of a request that brings its own id or gets `fresh_id`. `mm_features` are
/// those of its media.
pub fn finish_text_request<F>(
    conversion: TextConversion,
    mm_features: Option<F>,
    fresh_id: String,
) -> (outcome: Result<TextRequest<F>, Status>)
    requires
        conversion.takes(mm_features),
    ensures
        match outcome {
            Err(status) => sampling_refusal(conversion.request) == Some(status@),
            Ok(text) => {
                &&& sampling_refusal(conversion.request) is None
                &&& converts(text, conversion, mm_features)
                &&& text.request_id == (if conversion.request.request_id@.len() == 0 {
                    fresh_id
                } else {
                    conversion.request.request_id
                })
            },
        },
{
    let request = conversion.request;
    let mut params = match sampling_params(&request) {
        Ok(params) => params,
        Err(status) => {
            return Err(status);
        },
    };
    let mut cache_salt: Option<String> = None;
    if let Some(kv) = &request.kv {
        if kv.bypass_prefix_cache == Some(true) {
            params.skip_reading_prefix_cache = Some(true);
        }
        cache_salt = copy_text(&kv.cache_salt);
    }
    params.vllm_xargs = engine_arguments(&request, conversion.role);
    let mut stop_strings: Option<Vec<String>> = None;
    let mut include_stop_str_in_output: bool = false;
    let mut min_tokens: u32 = 0;
    if let Some(stopping) = &request.stopping {
        let texts = collect_stop_texts(&stopping.conditions);
        if texts.len() > 0 {
            stop_strings = Some(texts);
        } else {
            assert(texts_view(texts@).len() == 0);
        }
        include_stop_str_in_output = stopping.include_stop_in_output == Some(true);
        if let Some(n) = stopping.min_tokens {
            min_tokens = n;
        }
    }
    let request_id = if request.request_id.as_str().is_empty() {
        fresh_id
    } else {
        request.request_id
    };
    Ok(
        TextRequest {
            request_id,
            prompt: conversion.prompt,
            mm_features,
            sampling_params: params,
            decode_options: TextDecodeOptions {
                skip_special_tokens: true,
                include_stop_str_in_output,
                stop_strings,
                min_tokens,
            },
            intermediate: true,
            priority: conversion.priority,
            cache_salt,
            add_special_tokens: true,
            data_parallel_rank: conversion.target_dp_rank,
            lora_request: None,
        },
    )
}

/// The request is converted, with its own id or a random one.
pub open spec fn completes<F>(
    text: TextRequest<F>,
    conversion: TextConversion,
    features: Option<F>,
) -> bool {
    &&& sampling_refusal(conversion.request) is None
    &&& converts(text, conversion, features)
    &&& if conversion.request.request_id@.len() == 0 {
        is_random_uuid(text.request_id@)
    } else {
        text.request_id == conversion.request.request_id
    }
}

/// Ends the conversion of a request. One that brings no id of its own gets a random one.
pub fn complete_text_request<F>(conversion: TextConversion, mm_features: Option<F>) -> (outcome:
    Result<TextRequest<F>, Status>)
    requires
        conversion.takes(mm_features),
    ensures
        match outcome {
            Err(status) => sampling_refusal(conversion.request) == Some(status@),
            Ok(text) => completes(text, conversion, mm_features),
        },
{
    let fresh_id = if conversion.request.request_id.as_str().is_empty() {
        fresh_uuid()
    } else {
        "".to_string()
    };
    finish_text_request(conversion, mm_features, fresh_id)
}

/// The token ids and the texts of stop conditions are those of each condition, one behind the
/// other: each token id and each text is kept, with its repetitions and in its place.
pub proof fn stops_are_those_of_each_condition(
    front: Seq<StopCondition>,
    back: Seq<StopCondition>,
    id: u32,
    text: String,
)
    ensures
        stop_tokens(front + back) == stop_tokens(front) + stop_tokens(back),
        stop_texts(front + back) == stop_texts(front) + stop_texts(back),
        stop_tokens(Seq::empty()) == Seq::<u32>::empty(),
        stop_texts(Seq::empty()) == Seq::<Seq<char>>::empty(),
        stop_tokens(seq![StopCondition::StopTokenId(id)]) == seq![id],
        stop_texts(seq![StopCondition::StopTokenId(id)]) == Seq::<Seq<char>>::empty(),
        stop_tokens(seq![StopCondition::StopText(text)]) == Seq::<u32>::empty(),
        stop_texts(seq![StopCondition::StopText(text)]) == seq![text@],
{
    lemma_stops_add_up(front, back);
    lemma_single_stop(StopCondition::StopTokenId(id));
    lemma_single_stop(StopCondition::StopText(text));
}

proof fn lemma_stops_add_up(front: Seq<StopCondition>, back: Seq<StopCondition>)
    ensures
        stop_tokens(front + back) == stop_tokens(front) + stop_tokens(back),
        stop_texts(front + back) == stop_texts(front) + stop_texts(back),
    decreases back.len(),
{
    if back.len() == 0 {
        assert(front + back =~= front);
        assert(stop_tokens(front) + stop_tokens(back) =~= stop_tokens(front));
        assert(stop_texts(front) + stop_texts(back) =~= stop_texts(front));
    } else {
        lemma_stops_add_up(front, back.drop_last());
        assert((front + back).drop_last() =~= front + back.drop_last());
        assert(stop_tokens(front + back) =~= stop_tokens(front) + stop_tokens(back));
        assert(stop_texts(front + back) =~= stop_texts(front) + stop_texts(back));
    }
}

proof fn lemma_single_stop(condition: StopCondition)
    ensures
        condition matches StopCondition::StopTokenId(id) ==> stop_tokens(seq![condition]) == seq![
            id,
        ] && stop_texts(seq![condition]).len() == 0,
        condition matches StopCondition::StopText(text) ==> stop_texts(seq![condition]) == seq![
            text@,
        ] && stop_tokens(seq![condition]).len() == 0,
{
    reveal_with_fuel(stop_tokens, 2);
    reveal_with_fuel(stop_texts, 2);
    assert(seq![condition].drop_last() =~= Seq::<StopCondition>::empty());
}

/// A stop condition splits the token ids and the texts of all: those before it, its own, and those
/// behind it.
proof fn lemma_stops_around(conditions: Seq<StopCondition>, i: int)
    requires
        0 <= i < conditions.len(),
    ensures
        stop_tokens(conditions) == stop_tokens(conditions.take(i)) + stop_tokens(
            seq![conditions[i]],
        ) + stop_tokens(conditions.skip(i + 1)),
        stop_texts(conditions) == stop_texts(conditions.take(i)) + stop_texts(seq![conditions[i]])
            + stop_texts(conditions.skip(i + 1)),
{
    let front = conditions.take(i);
    let back = conditions.skip(i + 1);
    assert(conditions =~= (front + seq![conditions[i]]) + back);
    lemma_stops_add_up(front + seq![conditions[i]], back);
    lemma_stops_add_up(front, seq![conditions[i]]);
}

/// Every stop condition that is set gives one token id or one text, and no other.
proof fn lemma_stops_count(conditions: Seq<StopCondition>)
    requires
        stops_are_set(conditions),
    ensures
        stop_tokens(conditions).len() + stop_texts(conditions).len() == conditions.len(),
        (forall|i: int| 0 <= i < conditions.len() ==> (#[trigger] conditions[i]) !is StopTokenId)
            ==> stop_tokens(conditions).len() == 0,
        (forall|i: int| 0 <= i < conditions.len() ==> (#[trigger] conditions[i]) !is StopText)
            ==> stop_texts(conditions).len() == 0,
    decreases conditions.len(),
{
    if conditions.len() > 0 {
        let shorter = conditions.drop_last();
        assert forall|i: int| 0 <= i < shorter.len() implies (#[trigger] shorter[i]) !is Unset by {
            assert(conditions[i] !is Unset);
        }
        lemma_stops_count(shorter);
        assert(conditions[conditions.len() - 1] !is Unset);
        if forall|i: int| 0 <= i < conditions.len() ==> (#[trigger] conditions[i]) !is StopTokenId {
            assert forall|i: int| 0 <= i < shorter.len() implies (
            #[trigger] shorter[i]) !is StopTokenId by {
                assert(conditions[i] !is StopTokenId);
            }
            assert(conditions[conditions.len() - 1] !is StopTokenId);
        }
        if forall|i: int| 0 <= i < conditions.len() ==> (#[trigger] conditions[i]) !is StopText {
            assert forall|i: int| 0 <= i < shorter.len() implies (
            #[trigger] shorter[i]) !is StopText by {
                assert(conditions[i] !is StopText);
            }
            assert(conditions[conditions.len() - 1] !is StopText);
        }
    }
}

/// The token ids that stop the engine.
pub open spec fn engine_stop_tokens(params: SamplingParams) -> Seq<u32> {
    match params.stop_token_ids {
        Some(ids) => ids@,
        None => Seq::empty(),
    }
}

/// The texts that end the output.
pub open spec fn engine_stop_texts(options: TextDecodeOptions) -> Seq<Seq<char>> {
    match options.stop_strings {
        Some(texts) => texts@.map_values(|text: String| text@),
        None => Seq::empty(),
    }
}

/// Of the stop conditions of a request, each that is set gives one token id or one text, in the
/// order of the conditions.
pub proof fn stops_stand_in_order(conditions: Seq<StopCondition>, i: int, j: int)
    requires
        forall|k: int| 0 <= k < conditions.len() ==> (#[trigger] conditions[k]) !is Unset,
    ensures
        stop_tokens(conditions).len() + stop_texts(conditions).len() == conditions.len(),
        0 <= i < conditions.len() ==> (conditions[i] matches StopCondition::StopTokenId(id)
            ==> stop_tokens(conditions).contains(id)),
        0 <= i < conditions.len() ==> (conditions[i] matches StopCondition::StopText(stop)
            ==> stop_texts(conditions).contains(stop@)),
        0 <= i < j < conditions.len() ==> (conditions[i] matches StopCondition::StopTokenId(first)
            ==> (conditions[j] matches StopCondition::StopTokenId(second) ==> exists|
            k: int,
            l: int,
        |
            0 <= k < l < stop_tokens(conditions).len() && #[trigger] stop_tokens(conditions)[k]
                == first && #[trigger] stop_tokens(conditions)[l] == second)),
        0 <= i < j < conditions.len() ==> (conditions[i] matches StopCondition::StopText(first)
            ==> (conditions[j] matches StopCondition::StopText(second) ==> exists|k: int, l: int|
            0 <= k < l < stop_texts(conditions).len() && #[trigger] stop_texts(conditions)[k]
                == first@ && #[trigger] stop_texts(conditions)[l] == second@)),
{
    let ids = stop_tokens(conditions);
    let texts = stop_texts(conditions);
    lemma_stops_count(conditions);
    if 0 <= i < conditions.len() {
        lemma_stops_around(conditions, i);
        lemma_single_stop(conditions[i]);
        let before = stop_tokens(conditions.take(i)).len() as int;
        let texts_before = stop_texts(conditions.take(i)).len() as int;
        let rest = conditions.skip(i + 1);
        if let StopCondition::StopTokenId(id) = conditions[i] {
            assert(ids[before] == id);
        }
        if let StopCondition::StopText(stop) = conditions[i] {
            assert(texts[texts_before] == stop@);
        }
        if i < j < conditions.len() {
            lemma_stops_around(rest, j - i - 1);
            assert(rest[j - i - 1] == conditions[j]);
            lemma_single_stop(conditions[j]);
            let between = stop_tokens(rest.take(j - i - 1)).len() as int;
            let texts_between = stop_texts(rest.take(j - i - 1)).len() as int;
            if conditions[i] is StopTokenId && conditions[j] is StopTokenId {
                assert(stop_tokens(rest)[between] == conditions[j]->StopTokenId_0);
                assert(ids[before + 1 + between] == conditions[j]->StopTokenId_0);
            }
            if conditions[i] is StopText && conditions[j] is StopText {
                assert(stop_texts(rest)[texts_between] == conditions[j]->StopText_0@);
                assert(texts[texts_before + 1 + texts_between] == conditions[j]->StopText_0@);
            }
        }
    }
}

/// Each token id among the stop conditions of a request stops the engine, and each text ends the
/// text: as many as there are conditions, in the order of the conditions. Where there are none, the
/// engine is asked for none.
pub proof fn every_stop_reaches_the_engine<F>(
    text: TextRequest<F>,
    conversion: TextConversion,
    features: Option<F>,
    i: int,
    j: int,
)
    requires
        converts(text, conversion, features),
        sampling_refusal(conversion.request) is None,
        conversion.request.stopping is Some,
    ensures
        ({
            let conditions = conversion.request.stopping->Some_0.conditions@;
            let ids = engine_stop_tokens(text.sampling_params);
            let texts = engine_stop_texts(text.decode_options);
            &&& ids.len() + texts.len() == conditions.len()
            &&& ids.len() == 0 ==> text.sampling_params.stop_token_ids is None
            &&& texts.len() == 0 ==> text.decode_options.stop_strings is None
            &&& 0 <= i < conditions.len() ==> (conditions[i] matches StopCondition::StopTokenId(id)
                ==> ids.contains(id))
            &&& 0 <= i < conditions.len() ==> (conditions[i] matches StopCondition::StopText(stop)
                ==> texts.contains(stop@))
            &&& 0 <= i < j < conditions.len() ==> (conditions[i] matches
                StopCondition::StopTokenId(first) ==> (conditions[j] matches
                StopCondition::StopTokenId(second) ==> exists|k: int, l: int|
                0 <= k < l < ids.len() && #[trigger] ids[k] == first && #[trigger] ids[l]
                    == second))
            &&& 0 <= i < j < conditions.len() ==> (conditions[i] matches
                StopCondition::StopText(first) ==> (conditions[j] matches
                StopCondition::StopText(second) ==> exists|k: int, l: int|
                0 <= k < l < texts.len() && #[trigger] texts[k] == first@ && #[trigger] texts[l]
                    == second@))
        }),
{
    let conditions = conversion.request.stopping->Some_0.conditions@;
    assert(stop_conditions(conversion.request) == conditions);
    assert(engine_stop_tokens(text.sampling_params) =~= stop_tokens(conditions));
    assert(engine_stop_texts(text.decode_options) =~= stop_texts(conditions));
    stops_stand_in_order(conditions, i, j);
}

/// The engine samples as the request asks: each option reaches it under its own name and with its
/// own value, and an option that is not given is not set. A top-k of -1 and one of 0 both stand for
/// no limit, and every other is taken as it is.
pub proof fn sampling_options_are_kept<F>(
    text: TextRequest<F>,
    conversion: TextConversion,
    features: Option<F>,
)
    requires
        converts(text, conversion, features),
        sampling_refusal(conversion.request) is None,
    ensures
        conversion.request.sampling matches Some(sampling) ==> {
            let params = text.sampling_params;
            &&& params.temperature == sampling.temperature
            &&& params.top_p == sampling.top_p
            &&& params.min_p == sampling.min_p
            &&& params.frequency_penalty == sampling.frequency_penalty
            &&& params.presence_penalty == sampling.presence_penalty
            &&& params.repetition_penalty == sampling.repetition_penalty
            &&& params.top_k is Some <==> sampling.top_k is Some
            &&& sampling.top_k is Some && sampling.top_k->Some_0 > 0 ==> params.top_k->Some_0
                == sampling.top_k->Some_0
            &&& sampling.top_k is Some && sampling.top_k->Some_0 <= 0 ==> params.top_k->Some_0 == 0
            &&& params.seed is Some <==> sampling.seed is Some
            &&& sampling.seed is Some ==> params.seed->Some_0 == sampling.seed->Some_0
        },
        conversion.request.sampling is None ==> {
            let params = text.sampling_params;
            &&& params.temperature is None
            &&& params.top_p is None
            &&& params.min_p is None
            &&& params.frequency_penalty is None
            &&& params.presence_penalty is None
            &&& params.repetition_penalty is None
            &&& params.top_k is None
            &&& params.seed is None
        },
{
}

/// The engine ends the output when the request asks for it: the limits on its length are those of
/// the request, the end-of-sequence token is ignored only where that is asked for, and the stop
/// text is part of the output only where that is.
pub proof fn stopping_options_are_kept<F>(
    text: TextRequest<F>,
    conversion: TextConversion,
    features: Option<F>,
)
    requires
        converts(text, conversion, features),
    ensures
        conversion.request.stopping matches Some(stopping) ==> {
            &&& text.sampling_params.max_tokens == stopping.max_tokens
            &&& text.sampling_params.min_tokens == stopping.min_tokens
            &&& text.sampling_params.ignore_eos <==> stopping.ignore_eos == Some(true)
            &&& text.decode_options.include_stop_str_in_output <==> stopping.include_stop_in_output
                == Some(true)
            &&& stopping.min_tokens is None ==> text.decode_options.min_tokens == 0
            &&& stopping.min_tokens is Some ==> text.decode_options.min_tokens
                == stopping.min_tokens->Some_0
        },
        conversion.request.stopping is None ==> {
            &&& text.sampling_params.max_tokens is None
            &&& text.sampling_params.min_tokens is None
            &&& !text.sampling_params.ignore_eos
            &&& !text.decode_options.include_stop_str_in_output
            &&& text.decode_options.min_tokens == 0
            &&& text.sampling_params.stop_token_ids is None
            &&& text.decode_options.stop_strings is None
        },
{
    if let Some(texts) = text.decode_options.stop_strings {
        assert(texts_view(texts@).len() == texts@.len());
    }
}

/// The engine reports as many candidates as the request asks for: none unless log probabilities
/// are asked for, all where all are, the best few where a number is given, and else the token
/// itself. Those of the prompt and those of the output are asked for apart.
pub proof fn candidates_are_asked_for<F>(
    text: TextRequest<F>,
    conversion: TextConversion,
    features: Option<F>,
)
    requires
        converts(text, conversion, features),
        sampling_refusal(conversion.request) is None,
    ensures
        conversion.request.response is None ==> text.sampling_params.prompt_logprobs is None
            && text.sampling_params.logprobs is None && text.sampling_params.logprob_token_ids
            is None,
        conversion.request.response matches Some(response) ==> {
            let params = text.sampling_params;
            &&& params.prompt_logprobs is Some <==> response.return_prompt_logprobs == Some(true)
            &&& params.logprobs is Some <==> response.return_output_logprobs == Some(true)
            &&& params.prompt_logprobs is Some ==> match response.prompt_candidates {
                Some(CandidateTokenSelection::TopN(n)) => params.prompt_logprobs->Some_0 == n,
                Some(CandidateTokenSelection::All) => params.prompt_logprobs->Some_0 == -1,
                Some(CandidateTokenSelection::TokenIds(_)) => false,
                _ => params.prompt_logprobs->Some_0 == 1,
            }
            &&& params.logprobs is Some ==> match response.output_candidates {
                Some(CandidateTokenSelection::TopN(n)) => params.logprobs->Some_0 == n,
                Some(CandidateTokenSelection::All) => params.logprobs->Some_0 == -1,
                _ => params.logprobs->Some_0 == 1,
            }
            &&& params.logprob_token_ids is Some <==> response.return_output_logprobs == Some(true)
                && response.output_candidates is Some && response.output_candidates->Some_0
                is TokenIds
            &&& params.logprob_token_ids is Some ==> params.logprob_token_ids->Some_0@
                == response.output_candidates->Some_0->TokenIds_0@
        },
{
}

/// The engine gets the prompt, the features, the priority, the rank and the salt that the request
/// was taken with, reads the prefix cache unless told not to, streams its output and skips special
/// tokens in it. No adapter is set here.
pub proof fn conversion_keeps_the_rest<F>(
    text: TextRequest<F>,
    conversion: TextConversion,
    features: Option<F>,
)
    requires
        converts(text, conversion, features),
    ensures
        text.prompt == conversion.prompt,
        text.mm_features == features,
        text.priority == conversion.priority,
        text.data_parallel_rank == conversion.target_dp_rank,
        text.intermediate,
        text.add_special_tokens,
        text.decode_options.skip_special_tokens,
        text.lora_request is None,
        conversion.request.kv is None ==> text.cache_salt is None
            && text.sampling_params.skip_reading_prefix_cache is None,
        conversion.request.kv matches Some(kv) ==> text.cache_salt == kv.cache_salt && (
        text.sampling_params.skip_reading_prefix_cache is Some <==> kv.bypass_prefix_cache == Some(
            true,
        )),
        text.sampling_params.skip_reading_prefix_cache is Some
            ==> text.sampling_params.skip_reading_prefix_cache == Some(true),
{
}

/// The sampling options are accepted if and only if one sequence is asked for, top-k is a limit or
/// none, the seed fits, each stop condition is set, and what is asked of the log probabilities can
/// be reported. What is refused is refused as an invalid argument.
pub proof fn sampling_is_accepted_when_supported(request: GenerateRequest)
    requires
        request.guided is None,
    ensures
        sampling_refusal(request) is None <==> {
            &&& request.sampling matches Some(sampling) ==> {
                &&& sampling.num_sequences is None || sampling.num_sequences == Some(1u32)
                &&& sampling.top_k is None || sampling.top_k->Some_0 >= -1
                &&& sampling.seed is None || sampling.seed->Some_0 <= 0x7fff_ffff_ffff_ffff
            }
            &&& request.stopping matches Some(stopping) ==> forall|i: int|
                0 <= i < stopping.conditions@.len() ==> (
                #[trigger] stopping.conditions@[i]) !is Unset
            &&& request.response matches Some(response) ==> {
                &&& response.prompt_logprob_start is None || response.prompt_logprob_start == Some(
                    0u32,
                )
                &&& response.return_prompt_logprobs == Some(true) && response.prompt_candidates
                    is Some ==> response.prompt_candidates->Some_0 !is TokenIds && (
                response.prompt_candidates->Some_0 is TopN
                    ==> response.prompt_candidates->Some_0->TopN_0 <= 0x7fff_ffff)
                &&& response.return_output_logprobs == Some(true) && response.output_candidates
                    is Some && response.output_candidates->Some_0 is TopN
                    ==> response.output_candidates->Some_0->TopN_0 <= 0x7fff_ffff
            }
        },
        sampling_refusal(request) matches Some((code, _)) ==> code == Code::InvalidArgument,
{
    if let Some(stopping) = request.stopping {
        assert(stop_conditions(request) == stopping.conditions@);
        if forall|i: int|
            0 <= i < stopping.conditions@.len() ==> (#[trigger] stopping.conditions@[i]) !is Unset {
            assert(stops_are_set(stopping.conditions@));
        }
    }
}

/// A constraint on the output reaches the engine as what it is: a schema as a schema, a regular
/// expression, a grammar and a tag with their own text, a choice with its own texts in order. Each
/// name of a backend stands for that backend, and no name for guidance.
pub proof fn constraints_are_kept(
    params: StructuredOutputsParams,
    guided: GuidedDecoding,
    schema: Result<serde_json::Value, Seq<char>>,
)
    requires
        guides(Ok(params), guided, schema),
    ensures
        guided.guide is Some,
        guided.guide->Some_0 is JsonSchema ==> schema is Ok && params.constraint
            == StructuredConstraint::Json(schema->Ok_0),
        guided.guide->Some_0 matches Guide::Regex(text) ==> params.constraint
            == StructuredConstraint::Regex(text),
        guided.guide->Some_0 matches Guide::EbnfGrammar(text) ==> params.constraint
            == StructuredConstraint::Grammar(text),
        guided.guide->Some_0 matches Guide::StructuralTag(text) ==> params.constraint
            == StructuredConstraint::StructuralTag(text),
        guided.guide->Some_0 matches Guide::Choice(texts) ==> params.constraint is Choice
            && params.constraint->Choice_0@ == texts@,
        guided.guide->Some_0 is JsonObject <==> params.constraint is JsonObject,
        params.backend is Xgrammar <==> guided.backend@ == "xgrammar"@,
        params.backend is Outlines <==> guided.backend@ == "outlines"@,
        params.backend is LmFormatEnforcer <==> guided.backend@ == "lm-format-enforcer"@,
        params.backend is Guidance <==> guided.backend@ == ""@ || guided.backend@ == "guidance"@
            || guided.backend@ == "llguidance"@,
{
    reveal_strlit("");
    reveal_strlit("guidance");
    reveal_strlit("llguidance");
    reveal_strlit("xgrammar");
    reveal_strlit("outlines");
    reveal_strlit("lm-format-enforcer");
    assert("guidance"@[0] == 'g');
    assert("llguidance"@[0] == 'l' && "llguidance"@[1] == 'l');
    assert("xgrammar"@[0] == 'x');
    assert("outlines"@[0] == 'o');
    assert("lm-format-enforcer"@[0] == 'l' && "lm-format-enforcer"@[1] == 'm');
}

/// A constraint is accepted if and only if there is one, its schema can be read where it has one,
/// and its backend is known.
pub proof fn constraints_are_accepted_when_known(
    guided: GuidedDecoding,
    schema: Result<serde_json::Value, Seq<char>>,
)
    ensures
        guide_refusal(guided, schema) is None <==> guided.guide is Some && (
        guided.guide->Some_0 is JsonSchema ==> schema is Ok) && (guided.backend@ == ""@
            || guided.backend@ == "guidance"@ || guided.backend@ == "llguidance"@
            || guided.backend@ == "xgrammar"@ || guided.backend@ == "outlines"@ || guided.backend@
            == "lm-format-enforcer"@),
        guide_refusal(guided, schema) matches Some((code, _)) ==> code == Code::InvalidArgument,
{
}

/// An image item is a part of the prompt by its own address or its own bytes; its id and the type
/// of its bytes go with it where they are given. What is no image, or has no source, is refused as
/// an invalid argument.
pub proof fn media_items_are_kept(
    parts: Seq<MediaContentPart>,
    media: Seq<MediaItem>,
    item: MediaItem,
    i: int,
)
    requires
        are_parts_of(parts, media),
        0 <= i < media.len(),
    ensures
        parts.len() == media.len(),
        media[i].modality is Image,
        media[i].source matches Some(MediaSource::Url(address)) ==> parts[i] is ImageUrl
            && parts[i]->ImageUrl_url@ == address@ && parts[i]->ImageUrl_detail is None,
        media[i].source matches Some(MediaSource::DataUri(address)) ==> parts[i] is ImageUrl
            && parts[i]->ImageUrl_url@ == address@ && parts[i]->ImageUrl_detail is None,
        media[i].source matches Some(MediaSource::RawBytes(bytes)) ==> {
            &&& parts[i] is ImageData
            &&& parts[i]->ImageData_data@ == bytes@
            &&& parts[i]->ImageData_detail is None
            &&& media[i].mime_type@.len() == 0 ==> parts[i]->ImageData_mime_type is None
            &&& media[i].mime_type@.len() > 0 ==> parts[i]->ImageData_mime_type is Some
                && parts[i]->ImageData_mime_type->Some_0@ == media[i].mime_type@
            &&& media[i].uuid@.len() == 0 ==> parts[i]->ImageData_uuid is None
            &&& media[i].uuid@.len() > 0 ==> parts[i]->ImageData_uuid is Some
                && parts[i]->ImageData_uuid->Some_0@ == media[i].uuid@
        },
        parts[i] is ImageUrl ==> {
            &&& media[i].uuid@.len() == 0 ==> parts[i]->ImageUrl_uuid is None
            &&& media[i].uuid@.len() > 0 ==> parts[i]->ImageUrl_uuid is Some
                && parts[i]->ImageUrl_uuid->Some_0@ == media[i].uuid@
        },
        media_refusal(item) is None <==> item.modality is Image && item.source is Some,
        media_refusal(item) matches Some((code, _)) ==> code == Code::InvalidArgument,
{
    assert(is_part_of(parts[i], media[i]));
    assert(media_refusal(media[i]) is None);
}

/// The refusal of media is that of an item that cannot be part of a prompt, and all items before
/// it can.
pub proof fn first_bad_medium_is_refused(refusal: (Code, Seq<char>), media: Seq<MediaItem>)
    requires
        refuses_media(refusal, media),
    ensures
        refusal.0 == Code::InvalidArgument,
        exists|i: int|
            #![trigger media[i]]
            0 <= i < media.len() && (media[i].modality !is Image || media[i].source is None) && (
            forall|j: int|
                0 <= j < i ==> (#[trigger] media[j]).modality is Image && media[j].source is Some),
{
    let i = choose|i: int|
        {
            &&& 0 <= i < media.len()
            &&& media_refusal(#[trigger] media[i]) == Some(refusal)
            &&& forall|j: int| 0 <= j < i ==> media_refusal(#[trigger] media[j]) is None
        };
    assert forall|j: int| 0 <= j < i implies (#[trigger] media[j]).modality is Image
        && media[j].source is Some by {
        assert(media_refusal(media[j]) is None);
    }
    assert(media[i].modality !is Image || media[i].source is None);
}

/// The KV role of an engine decides its part: a producer prefills, a consumer decodes, an engine
/// without one does both, and every other KV role is unsupported.
pub proof fn kv_roles_decide_the_part(name: Seq<char>)
    ensures
        role_of(None) == Some(EngineRole::Aggregated),
        role_of(Some(name)) == Some(EngineRole::Prefill) <==> name == "kv_producer"@,
        role_of(Some(name)) == Some(EngineRole::Decode) <==> name == "kv_consumer"@,
        role_of(Some(name)) is None <==> name != "kv_producer"@ && name != "kv_consumer"@,
{
    reveal_strlit("kv_producer");
    reveal_strlit("kv_consumer");
    assert("kv_producer"@[3] == 'p');
    assert("kv_consumer"@[3] == 'c');
}

/// Every 32-bit rank can be asked for by its digits, and no larger number; every 32-bit priority
/// but the smallest by its digits. Without metadata no rank is asked for, and the middle priority.
pub proof fn metadata_reads_numbers(rank: nat, priority: int)
    ensures
        requested_rank(None) == Ok::<Option<u32>, (Code, Seq<char>)>(None),
        rank <= u32::MAX ==> requested_rank(Some(Some(decimal(rank)))) == Ok::<
            Option<u32>,
            (Code, Seq<char>),
        >(Some(rank as u32)),
        rank > u32::MAX ==> requested_rank(Some(Some(decimal(rank)))) is Err,
        requested_priority(None) == Ok::<i32, (Code, Seq<char>)>(0),
        -0x8000_0000 < priority < 0x8000_0000 ==> requested_priority(
            Some(Some(signed_decimal(priority))),
        ) is Ok && requested_priority(Some(Some(signed_decimal(priority))))->Ok_0 == -priority,
        !(-0x8000_0000 < priority < 0x8000_0000) ==> requested_priority(
            Some(Some(signed_decimal(priority))),
        ) is Err,
        requested_rank(Some(None)) is Err,
        requested_priority(Some(None)) is Err,
{
    decimal_reads_back(rank);
    signed_decimal_reads_back(priority);
}

/// A request with a higher priority is served before one with a lower: the engine, which serves
/// lower numbers first, gets the lower number for it.
pub proof fn higher_priorities_go_first(
    a: Option<Option<Seq<char>>>,
    b: Option<Option<Seq<char>>>,
    low: int,
    high: int,
)
    requires
        low < high,
        a == Some(Some(signed_decimal(low))),
        b == Some(Some(signed_decimal(high))),
        requested_priority(a) is Ok,
        requested_priority(b) is Ok,
    ensures
        requested_priority(b)->Ok_0 < requested_priority(a)->Ok_0,
{
    metadata_reads_numbers(0, low);
    metadata_reads_numbers(0, high);
}

/// The options of a call are read both or refused, the rank first.
pub proof fn options_are_read_both(
    rank: Option<Option<Seq<char>>>,
    priority: Option<Option<Seq<char>>>,
)
    ensures
        requested_options(rank, priority) is Ok <==> requested_rank(rank) is Ok
            && requested_priority(priority) is Ok,
        requested_options(rank, priority) is Ok ==> requested_options(rank, priority)->Ok_0 == (
            requested_rank(rank)->Ok_0,
            requested_priority(priority)->Ok_0,
        ),
        requested_rank(rank) is Err ==> requested_options(rank, priority) == Err::<
            (Option<u32>, i32),
            (Code, Seq<char>),
        >(requested_rank(rank)->Err_0),
        requested_options(rank, priority) is Err ==> requested_options(rank, priority)->Err_0.0
            == Code::InvalidArgument,
{
}

/// A model is served by its canonical name, by each of its public names and without a name, and
/// not by any other. What is not served is not found.
pub proof fn models_are_served_by_their_names(
    model: Seq<char>,
    canonical: Seq<char>,
    served: Seq<String>,
    i: int,
)
    ensures
        model_refusal(Seq::empty(), canonical, served) is None,
        model_refusal(canonical, canonical, served) is None,
        0 <= i < served.len() ==> model_refusal(served[i]@, canonical, served) is None,
        model.len() > 0 && model != canonical && (forall|k: int|
            0 <= k < served.len() ==> (#[trigger] served[k])@ != model) ==> model_refusal(
            model,
            canonical,
            served,
        ) is Some && model_refusal(model, canonical, served)->Some_0.0 == Code::NotFound,
{
    if 0 <= i < served.len() {
        assert(served[i]@ == served[i]@);
    }
}

/// A decode engine takes a session that has an id, the expected profile and backend and at least
/// one parameter, and no other. Without a session the call comes too early; a session that does not
/// fit is an invalid argument.
pub proof fn decode_takes_complete_sessions(session: KvSessionRef)
    ensures
        decode_refusal(Some(session)) is None <==> {
            &&& exists|i: int|
                0 <= i < session.session_id@.len() && !is_white_space(
                    #[trigger] session.session_id@[i],
                )
            &&& session.handoff_profile@ == HANDOFF_PROFILE@
            &&& session.transfer_backend@ == TRANSFER_BACKEND@
            &&& session.attributes_struct is Some
            &&& session.attributes_struct->Some_0.fields@.len() > 0
        },
        decode_refusal(None) is Some,
        decode_refusal(None)->Some_0.0 == Code::FailedPrecondition,
        decode_refusal(Some(session)) matches Some((code, _)) ==> code == Code::InvalidArgument,
{
}

/// A request fits the engine if and only if its rank is one of the engine's ranks and its session
/// fits the part of the engine: a decode engine needs one, no other takes one, and a prefill engine
/// with several ranks needs to be told the rank.
pub proof fn requests_fit_the_part(
    session: Option<KvSessionRef>,
    role: EngineRole,
    target_dp_rank: Option<u32>,
    data_parallel_size: u64,
)
    ensures
        handoff_refusal(session, role, target_dp_rank, data_parallel_size) is None <==> {
            &&& target_dp_rank matches Some(rank) ==> rank < data_parallel_size
            &&& role == EngineRole::Decode ==> decode_refusal(session) is None
            &&& role != EngineRole::Decode ==> session is None
            &&& role == EngineRole::Prefill && data_parallel_size > 1 ==> target_dp_rank is Some
        },
        target_dp_rank is Some && target_dp_rank->Some_0 >= data_parallel_size
            ==> handoff_refusal(session, role, target_dp_rank, data_parallel_size)->Some_0.0
            == Code::InvalidArgument,
{
}

/// A request is converted if and only if its model is served, it fits the part of the engine, it
/// asks for no media options and it has an input. An unknown model goes before every other refusal.
pub proof fn requests_are_converted_when_they_fit(
    request: GenerateRequest,
    role: EngineRole,
    target_dp_rank: Option<u32>,
    data_parallel_size: u64,
    canonical: Seq<char>,
    served: Seq<String>,
)
    ensures
        conversion_refusal(
            request,
            role,
            target_dp_rank,
            data_parallel_size,
            canonical,
            served,
        ) is None <==> {
            &&& is_served(request.model@, canonical, served)
            &&& handoff_refusal(
                if request.kv is Some {
                    request.kv->Some_0.session
                } else {
                    None
                },
                role,
                target_dp_rank,
                data_parallel_size,
            ) is None
            &&& request.media_options is None || request.media_options->Some_0.fields@.len() == 0
            &&& request.input is Some
        },
        !is_served(request.model@, canonical, served) ==> conversion_refusal(
            request,
            role,
            target_dp_rank,
            data_parallel_size,
            canonical,
            served,
        )->Some_0.0 == Code::NotFound,
{
}

/// The extra arguments that a request brings along reach the engine under their names, whatever
/// the part of the engine; only the parameters of the KV transfer are its own.
pub proof fn extra_arguments_are_kept(request: GenerateRequest, role: EngineRole, name: Seq<char>)
    requires
        request.extra is Some,
        request.extra->Some_0.fields@.len() > 0,
    ensures
        extra_arguments(request, role) is Some,
        name != "kv_transfer_params"@ ==> crate::json::member_value(
            extra_arguments(request, role)->Some_0,
            name,
        ) == crate::json::member_value(members_of(request.extra->Some_0@, false), name),
        role != EngineRole::Prefill && role != EngineRole::Decode ==> extra_arguments(request, role)
            == Some(members_of(request.extra->Some_0@, false)),
{
    let members = members_of(request.extra->Some_0@, false);
    set_member_reads_back(members, "kv_transfer_params"@, remote_decode_parameters(), name);
    set_member_reads_back(
        members,
        "kv_transfer_params"@,
        JsonModel::Object(members_of(session_of(request)->Some_0.attributes_struct->Some_0@, true)),
        name,
    );
}

/// An engine that neither prefills nor decodes for another gets no extra arguments but those that
/// the request brings; one that prefills is told to keep its blocks, and nothing else.
pub proof fn no_extra_arguments_are_made_up(request: GenerateRequest)
    requires
        request.extra is None || request.extra->Some_0.fields@.len() == 0,
    ensures
        extra_arguments(request, EngineRole::Aggregated) is None,
        extra_arguments(request, EngineRole::Prefill) == Some(
            seq![
                (
                    "kv_transfer_params"@,
                    JsonModel::Object(seq![("do_remote_decode"@, JsonModel::Bool(true))]),
                ),
            ],
        ),
{
    assert(Seq::<(Seq<char>, JsonModel)>::empty().push(
        ("kv_transfer_params"@, remote_decode_parameters()),
    ) =~= seq![("kv_transfer_params"@, remote_decode_parameters())]);
}

/// A request is completed only where its sampling is accepted; it is the request that was asked
/// for, under its own id where it brings one.
pub proof fn completed_requests_are_those_asked_for<F>(
    text: TextRequest<F>,
    conversion: TextConversion,
    features: Option<F>,
)
    requires
        completes(text, conversion, features),
    ensures
        sampling_refusal(conversion.request) is None,
        converts(text, conversion, features),
        conversion.request.request_id@.len() > 0 ==> text.request_id
            == conversion.request.request_id,
        conversion.request.request_id@.len() == 0 ==> is_random_uuid(text.request_id@),
{
}

} // verus!
