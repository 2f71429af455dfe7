//! Conversion of engine RPC requests.

use vstd::prelude::*;

use crate::engine_rpc::messages::GenerateRequest;
use crate::engine_rpc::messages::KvSessionRef;
use crate::engine_rpc::messages::MediaItem;
use crate::engine_rpc::messages::Modality;
use crate::events::copy_bytes;
use crate::events::MediaContentPart;
use crate::events::Prompt;
use crate::foreign::fresh_uuid;
use crate::foreign::is_random_uuid;
use crate::json::find_member;
use crate::json::lemma_member_models_push;
use crate::json::member_models;
use crate::json::member_value;
use crate::json::set_member;
use crate::json::set_member_reads_back;
use crate::json::with_member;
use crate::json::JsonMember;
use crate::json::JsonModel;
use crate::json::JsonValue;
use crate::openengine::convert::arguments_view;
use crate::openengine::convert::collect_stop_texts;
use crate::openengine::convert::collect_stop_tokens;
use crate::openengine::convert::engine_stop_texts;
use crate::openengine::convert::engine_stop_tokens;
use crate::openengine::convert::ids_view;
use crate::openengine::convert::model_not_found;
use crate::openengine::convert::stop_texts;
use crate::openengine::convert::stop_tokens;
use crate::openengine::convert::stops_are_set;
use crate::openengine::convert::stops_stand_in_order;
use crate::openengine::convert::text_unless_empty;
use crate::openengine::convert::text_view;
use crate::openengine::convert::texts_view;
use crate::openengine::convert::unless_empty;
use crate::openengine::messages::EngineRole;
use crate::openengine::messages::GenerateInput;
use crate::openengine::messages::MediaSource;
use crate::openengine::messages::StopCondition;
use crate::request::SamplingParams;
use crate::request::TextDecodeOptions;
use crate::request::TextRequest;
use crate::state::copy_or_empty;
use crate::state::text_or_empty;
use crate::status::Code;
use crate::status::Status;
use crate::struct_json::fields_of;
use crate::struct_json::json_to_prost_struct;
use crate::struct_json::members_of;
use crate::struct_json::prost_handoff_struct_to_json;
use crate::text::decimal;
use crate::text::decimal_text;
use crate::text::is_blank;
use crate::text::is_blank_text;
use crate::text::is_white_space;
use crate::text::join2;
use crate::text::join3;
use crate::text::join4;
use crate::text::join5;
use crate::text::listed;
use crate::text::same;
use crate::text::signed_decimal;
use crate::text::signed_decimal_text;

verus! {

/// The role of an engine with this KV role. Anything but a producer or a consumer is aggregated.
pub open spec fn rpc_role(kv_role: Option<Seq<char>>) -> EngineRole {
    match kv_role {
        Some(name) => if name == "kv_producer"@ {
            EngineRole::Prefill
        } else if name == "kv_consumer"@ {
            EngineRole::Decode
        } else {
            EngineRole::Aggregated
        },
        None => EngineRole::Aggregated,
    }
}

/// The role of an engine with this KV role.
pub fn role_from_kv_role(kv_role: &Option<String>) -> (role: EngineRole)
    ensures
        role == rpc_role(text_view(*kv_role)),
{
    match kv_role {
        Some(name) => if same(name.as_str(), "kv_producer") {
            EngineRole::Prefill
        } else if same(name.as_str(), "kv_consumer") {
            EngineRole::Decode
        } else {
            EngineRole::Aggregated
        },
        None => EngineRole::Aggregated,
    }
}

/// The refusal for the KV session of a decode request.
pub open spec fn session_refusal(session: Option<KvSessionRef>, kv_connector: Option<Seq<char>>) -> Option<
    (Code, Seq<char>),
> {
    match session {
        None => Some((Code::InvalidArgument, "kv_session is required for decode requests"@)),
        Some(session) => if is_blank_text(session.session_id@) {
            Some((Code::InvalidArgument, "kv_session.session_id is required"@))
        } else if is_blank_text(session.transfer_backend@) {
            Some((Code::InvalidArgument, "kv_session.transfer_backend is required"@))
        } else if kv_connector is Some && session.transfer_backend@ != kv_connector->Some_0 {
            Some(
                (
                    Code::InvalidArgument,
                    "kv_session transfer backend `"@ + session.transfer_backend@
                        + "` does not match engine connector `"@ + kv_connector->Some_0 + "`"@,
                ),
            )
        } else if session.attributes_struct is None
            || session.attributes_struct->Some_0.fields@.len() == 0 {
            Some(
                (
                    Code::InvalidArgument,
                    "kv_session.attributes_struct must contain transfer metadata"@,
                ),
            )
        } else {
            None
        },
    }
}

/// The refusal for a request whose rank or KV session does not fit the engine.
pub open spec fn disaggregation_refusal(
    request: GenerateRequest,
    role: EngineRole,
    kv_connector: Option<Seq<char>>,
    data_parallel_size: u64,
) -> Option<(Code, Seq<char>)> {
    if request.data_parallel_rank is Some && request.data_parallel_rank->Some_0
        >= data_parallel_size {
        Some(
            (
                Code::InvalidArgument,
                "data_parallel_rank "@ + decimal(request.data_parallel_rank->Some_0 as nat)
                    + " is outside the configured range 0.."@ + decimal(data_parallel_size as nat),
            ),
        )
    } else {
        match role {
            EngineRole::Decode => session_refusal(request.kv_session, kv_connector),
            EngineRole::Prefill => if request.kv_session is Some {
                Some((Code::InvalidArgument, "kv_session is only valid for decode requests"@))
            } else if data_parallel_size > 1 && request.data_parallel_rank is None {
                Some(
                    (
                        Code::InvalidArgument,
                        "data_parallel_rank is required for multi-rank prefill requests"@,
                    ),
                )
            } else {
                None
            },
            _ => if request.kv_session is Some {
                Some((Code::InvalidArgument, "kv_session is only valid for decode requests"@))
            } else {
                None
            },
        }
    }
}

/// Checks that the rank and the KV session of a request fit the engine, and gives the rank that
/// the request runs on.
pub fn validate_disaggregated_request(
    request: &GenerateRequest,
    role: EngineRole,
    kv_connector: &Option<String>,
    data_parallel_size: u64,
    engine_data_parallel_rank: u32,
) -> (outcome: Result<u32, Status>)
    ensures
        match outcome {
            Ok(rank) => {
                &&& disaggregation_refusal(
                    *request,
                    role,
                    text_view(*kv_connector),
                    data_parallel_size,
                ) is None
                &&& rank == (match request.data_parallel_rank {
                    Some(rank) => rank,
                    None => engine_data_parallel_rank,
                })
            },
            Err(status) => disaggregation_refusal(
                *request,
                role,
                text_view(*kv_connector),
                data_parallel_size,
            ) == Some(status@),
        },
{
    if let Some(rank) = request.data_parallel_rank {
        if rank as u64 >= data_parallel_size {
            return Err(
                Status::invalid_argument(
                    join4(
                        "data_parallel_rank ",
                        decimal_text(rank as u64).as_str(),
                        " is outside the configured range 0..",
                        decimal_text(data_parallel_size).as_str(),
                    ).as_str(),
                ),
            );
        }
    }
    match role {
        EngineRole::Decode => {
            let session = match &request.kv_session {
                Some(session) => session,
                None => {
                    return Err(
                        Status::invalid_argument("kv_session is required for decode requests"),
                    );
                },
            };
            if is_blank(session.session_id.as_str()) {
                return Err(Status::invalid_argument("kv_session.session_id is required"));
            }
            if is_blank(session.transfer_backend.as_str()) {
                return Err(Status::invalid_argument("kv_session.transfer_backend is required"));
            }
            if let Some(expected) = kv_connector {
                if !same(session.transfer_backend.as_str(), expected.as_str()) {
                    return Err(
                        Status::invalid_argument(
                            join5(
                                "kv_session transfer backend `",
                                session.transfer_backend.as_str(),
                                "` does not match engine connector `",
                                expected.as_str(),
                                "`",
                            ).as_str(),
                        ),
                    );
                }
            }
            let described: bool = match &session.attributes_struct {
                Some(attributes) => attributes.fields.len() > 0,
                None => false,
            };
            if !described {
                return Err(
                    Status::invalid_argument(
                        "kv_session.attributes_struct must contain transfer metadata",
                    ),
                );
            }
        },
        EngineRole::Prefill => {
            if request.kv_session.is_some() {
                return Err(
                    Status::invalid_argument("kv_session is only valid for decode requests"),
                );
            }
            if data_parallel_size > 1 && request.data_parallel_rank.is_none() {
                return Err(
                    Status::invalid_argument(
                        "data_parallel_rank is required for multi-rank prefill requests",
                    ),
                );
            }
        },
        EngineRole::Aggregated | EngineRole::Unspecified => {
            if request.kv_session.is_some() {
                return Err(
                    Status::invalid_argument("kv_session is only valid for decode requests"),
                );
            }
        },
    }
    Ok(
        match request.data_parallel_rank {
            Some(rank) => rank,
            None => engine_data_parallel_rank,
        },
    )
}

/// The refusal for a media item.
pub open spec fn item_refusal(item: MediaItem) -> Option<(Code, Seq<char>)> {
    match item.modality {
        Modality::Unknown { number } => Some(
            (Code::InvalidArgument, "unknown media modality "@ + signed_decimal(number as int)),
        ),
        Modality::Other { name } => Some(
            (
                Code::Unimplemented,
                "media modality "@ + name@
                    + " is not supported by the vLLM engine RPC service (image only in v1)"@,
            ),
        ),
        _ => if item.source is None {
            Some(
                (
                    Code::InvalidArgument,
                    "media item has no source (expected url, data_uri, or raw_bytes)"@,
                ),
            )
        } else {
            None
        },
    }
}

/// The part is the media item.
pub open spec fn is_part_of(part: MediaContentPart, item: MediaItem) -> bool {
    match item.source {
        Some(MediaSource::Url(address)) => part matches MediaContentPart::ImageUrl {
            url,
            detail,
            uuid,
        } && url == address && detail is None && text_view(uuid) == unless_empty(item.uuid@),
        Some(MediaSource::DataUri(address)) => part matches MediaContentPart::ImageUrl {
            url,
            detail,
            uuid,
        } && url == address && detail is None && text_view(uuid) == unless_empty(item.uuid@),
        Some(MediaSource::RawBytes(bytes)) => part matches MediaContentPart::ImageData {
            data,
            mime_type,
            uuid,
            detail,
        } && data@ == bytes@ && detail is None && text_view(mime_type) == unless_empty(
            item.mime_type@,
        ) && text_view(uuid) == unless_empty(item.uuid@),
        None => false,
    }
}

/// The answer to the media items of a request: the parts, or the refusal of the first item that
/// cannot be one.
pub open spec fn converts_media(
    outcome: Result<Vec<MediaContentPart>, Status>,
    media: Seq<MediaItem>,
) -> bool {
    match outcome {
        Ok(parts) => {
            &&& parts@.len() == media.len()
            &&& forall|i: int|
                0 <= i < media.len() ==> item_refusal(media[i]) is None && is_part_of(
                    #[trigger] parts@[i],
                    media[i],
                )
        },
        Err(status) => exists|i: int|
            {
                &&& 0 <= i < media.len()
                &&& item_refusal(#[trigger] media[i]) == Some(status@)
                &&& forall|j: int| 0 <= j < i ==> item_refusal(#[trigger] media[j]) is None
            },
    }
}

/// Turns media items into parts of a prompt; the first item that cannot be one is refused.
pub fn media_parts_from_request(media: &Vec<MediaItem>) -> (outcome: Result<
    Vec<MediaContentPart>,
    Status,
>)
    ensures
        converts_media(outcome, media@),
{
    let mut parts: Vec<MediaContentPart> = Vec::new();
    let mut i: usize = 0;
    while i < media.len()
        invariant
            i <= media@.len(),
            parts@.len() == i,
            forall|j: int|
                0 <= j < i ==> item_refusal(#[trigger] media@[j]) is None && is_part_of(
                    parts@[j],
                    media@[j],
                ),
        decreases media@.len() - i,
    {
        let item = &media[i];
        assert(*item == media@[i as int]);
        match &item.modality {
            Modality::Image | Modality::Unspecified => {},
            Modality::Unknown { number } => {
                return Err(
                    Status::invalid_argument(
                        join2(
                            "unknown media modality ",
                            signed_decimal_text(*number as i64).as_str(),
                        ).as_str(),
                    ),
                );
            },
            Modality::Other { name } => {
                return Err(
                    Status::unimplemented(
                        join3(
                            "media modality ",
                            name.as_str(),
                            " is not supported by the vLLM engine RPC service (image only in v1)",
                        ).as_str(),
                    ),
                );
            },
        }
        let uuid = text_unless_empty(&item.uuid);
        let part = match &item.source {
            Some(MediaSource::Url(url)) => MediaContentPart::ImageUrl {
                url: url.clone(),
                detail: None,
                uuid,
            },
            Some(MediaSource::DataUri(uri)) => MediaContentPart::ImageUrl {
                url: uri.clone(),
                detail: None,
                uuid,
            },
            Some(MediaSource::RawBytes(bytes)) => MediaContentPart::ImageData {
                data: copy_bytes(bytes),
                mime_type: text_unless_empty(&item.mime_type),
                uuid,
                detail: None,
            },
            None => {
                return Err(
                    Status::invalid_argument(
                        "media item has no source (expected url, data_uri, or raw_bytes)",
                    ),
                );
            },
        };
        parts.push(part);
        i += 1;
    }
    Ok(parts)
}

/// The arguments that a KV session adds for the engine: its transfer parameters, with exact
/// integers restored.
pub open spec fn session_arguments(session: Option<KvSessionRef>) -> Option<
    Seq<(Seq<char>, JsonModel)>,
> {
    match session {
        Some(session) => match session.attributes_struct {
            Some(attributes) => Some(
                seq![
                    (
                        "kv_transfer_params"@,
                        JsonModel::Object(members_of(attributes@, true)),
                    ),
                ],
            ),
            None => None,
        },
        None => None,
    }
}

/// The refusal for a request that cannot be converted: the first of these that applies.
pub open spec fn request_refusal(request: GenerateRequest, served: Seq<String>) -> Option<
    (Code, Seq<char>),
> {
    if request.model@.len() > 0 && !(exists|i: int|
        0 <= i < served.len() && (#[trigger] served[i])@ == request.model@) {
        Some((Code::NotFound, model_not_found(request.model@)))
    } else if request.input is None {
        Some((Code::InvalidArgument, "prompt or token_ids is required"@))
    } else if !stops_are_set(request.stop@) {
        Some(
            (
                Code::InvalidArgument,
                "every stop condition must set stop_text or stop_token_id"@,
            ),
        )
    } else {
        None
    }
}

/// The engine is asked for what the request asks for.
pub open spec fn converts_request<F>(text: TextRequest<F>, request: GenerateRequest) -> bool {
    let params = text.sampling_params;
    &&& if request.request_id@.len() == 0 {
        is_random_uuid(text.request_id@)
    } else {
        text.request_id == request.request_id
    }
    &&& text.prompt == (match request.input->Some_0 {
        GenerateInput::Prompt(prompt) => Prompt::Text(prompt),
        GenerateInput::TokenIds(ids) => Prompt::TokenIds(ids),
    })
    &&& text.mm_features is None
    &&& match request.sampling {
        Some(sampling) => {
            &&& params.temperature == sampling.temperature
            &&& params.top_p == sampling.top_p
            &&& params.top_k == sampling.top_k
            &&& params.seed == sampling.seed
            &&& params.min_tokens == sampling.min_tokens
            &&& text.decode_options.min_tokens == (match sampling.min_tokens {
                Some(n) => n,
                None => 0,
            })
        },
        None => {
            &&& params.temperature is None
            &&& params.top_p is None
            &&& params.top_k is None
            &&& params.seed is None
            &&& params.min_tokens is None
            &&& text.decode_options.min_tokens == 0
        },
    }
    &&& ids_view(params.stop_token_ids) == (if stop_tokens(request.stop@).len() == 0 {
        None
    } else {
        Some(stop_tokens(request.stop@))
    })
    &&& match text.decode_options.stop_strings {
        Some(texts) => texts@.len() > 0 && texts_view(texts@) == stop_texts(request.stop@),
        None => stop_texts(request.stop@).len() == 0,
    }
    &&& text.decode_options.skip_special_tokens
    &&& !text.decode_options.include_stop_str_in_output
    &&& params.max_tokens is None
    &&& !params.ignore_eos
    &&& params.logprobs is None
    &&& params.prompt_logprobs is None
    &&& params.logprob_token_ids is None
    &&& params.min_p is None
    &&& params.frequency_penalty is None
    &&& params.presence_penalty is None
    &&& params.repetition_penalty is None
    &&& params.structured_outputs is None
    &&& params.skip_reading_prefix_cache is None
    &&& arguments_view(params.vllm_xargs) == session_arguments(request.kv_session)
    &&& text.intermediate
    &&& text.priority == (match request.priority {
        Some(priority) => priority,
        None => 0,
    })
    &&& text.data_parallel_rank == request.data_parallel_rank
    &&& text.add_special_tokens
    &&& text.cache_salt is None
    &&& text.lora_request is None
}

/// Converts a request.
pub fn to_text_request<F>(request: GenerateRequest, served_model_names: &Vec<String>) -> (outcome:
    Result<TextRequest<F>, Status>)
    ensures
        match outcome {
            Ok(text) => request_refusal(request, served_model_names@) is None && converts_request(
                text,
                request,
            ),
            Err(status) => request_refusal(request, served_model_names@) == Some(status@),
        },
{
    if !request.model.as_str().is_empty() && !listed(served_model_names, request.model.as_str()) {
        return Err(
            Status::not_found(join3("model `", request.model.as_str(), "` not found").as_str()),
        );
    }
    let prompt = match request.input {
        Some(GenerateInput::Prompt(prompt)) => Prompt::Text(prompt),
        Some(GenerateInput::TokenIds(ids)) => Prompt::TokenIds(ids),
        None => {
            return Err(Status::invalid_argument("prompt or token_ids is required"));
        },
    };
    let mut params = SamplingParams::default();
    let mut min_tokens: u32 = 0;
    if let Some(sampling) = &request.sampling {
        params.temperature = sampling.temperature;
        params.top_p = sampling.top_p;
        params.top_k = sampling.top_k;
        params.seed = sampling.seed;
        params.min_tokens = sampling.min_tokens;
        if let Some(n) = sampling.min_tokens {
            min_tokens = n;
        }
    }
    match collect_stop_tokens(&request.stop) {
        Some(tokens) => if tokens.len() > 0 {
            params.stop_token_ids = Some(tokens);
        },
        None => {
            return Err(
                Status::invalid_argument(
                    "every stop condition must set stop_text or stop_token_id",
                ),
            );
        },
    }
    let texts = collect_stop_texts(&request.stop);
    assert(texts_view(texts@).len() == texts@.len());
    let stop_strings: Option<Vec<String>> = if texts.len() > 0 {
        Some(texts)
    } else {
        None
    };
    if let Some(session) = &request.kv_session {
        if let Some(attributes) = &session.attributes_struct {
            let member = JsonMember {
                name: "kv_transfer_params".to_string(),
                value: JsonValue::Object(prost_handoff_struct_to_json(attributes)),
            };
            let mut members: Vec<JsonMember> = Vec::new();
            proof {
                lemma_member_models_push(members@, member);
                assert(member_models(members@).push((member.name@, member.value.model()))
                    == seq![(member.name@, member.value.model())]);
            }
            members.push(member);
            params.vllm_xargs = Some(members);
        }
    }
    let request_id = if request.request_id.as_str().is_empty() {
        fresh_uuid()
    } else {
        request.request_id
    };
    Ok(
        TextRequest {
            request_id,
            prompt,
            mm_features: None,
            sampling_params: params,
            decode_options: TextDecodeOptions {
                skip_special_tokens: true,
                include_stop_str_in_output: false,
                stop_strings,
                min_tokens,
            },
            intermediate: true,
            priority: match request.priority {
                Some(priority) => priority,
                None => 0,
            },
            cache_salt: None,
            add_special_tokens: true,
            data_parallel_rank: request.data_parallel_rank,
            lora_request: None,
        },
    )
}

/// The arguments of a prefill request: its transfer parameters, with the mark that has the engine
/// keep its KV blocks for a decode engine. Parameters that are no object stay as they are.
pub open spec fn prefill_arguments(arguments: Option<Seq<(Seq<char>, JsonModel)>>) -> Seq<
    (Seq<char>, JsonModel),
> {
    let members = match arguments {
        Some(members) => members,
        None => Seq::empty(),
    };
    match member_value(members, "kv_transfer_params"@) {
        None => with_member(
            members,
            "kv_transfer_params"@,
            JsonModel::Object(seq![("do_remote_decode"@, JsonModel::Bool(true))]),
        ),
        Some(JsonModel::Object(parameters)) => with_member(
            members,
            "kv_transfer_params"@,
            JsonModel::Object(
                with_member(parameters, "do_remote_decode"@, JsonModel::Bool(true)),
            ),
        ),
        Some(_) => members,
    }
}

/// Marking a prefill request sets the mark and keeps every other transfer parameter.
pub proof fn prefill_mark_keeps_parameters(
    arguments: Seq<(Seq<char>, JsonModel)>,
    parameters: Seq<(Seq<char>, JsonModel)>,
    other: Seq<char>,
)
    requires
        member_value(arguments, "kv_transfer_params"@) == Some(JsonModel::Object(parameters)),
    ensures
        member_value(prefill_arguments(Some(arguments)), "kv_transfer_params"@) matches Some(
            JsonModel::Object(marked),
        ) && {
            &&& member_value(marked, "do_remote_decode"@) == Some(JsonModel::Bool(true))
            &&& other != "do_remote_decode"@ ==> member_value(marked, other) == member_value(
                parameters,
                other,
            )
        },
{
    set_member_reads_back(parameters, "do_remote_decode"@, JsonModel::Bool(true), other);
    set_member_reads_back(
        arguments,
        "kv_transfer_params"@,
        JsonModel::Object(with_member(parameters, "do_remote_decode"@, JsonModel::Bool(true))),
        "kv_transfer_params"@,
    );
}

/// Marks a prefill request, so that the engine keeps its KV blocks for a decode engine.
pub fn mark_prefill_request<F>(request: &mut TextRequest<F>)
    ensures
        arguments_view(final(request).sampling_params.vllm_xargs) == Some(
            prefill_arguments(arguments_view(old(request).sampling_params.vllm_xargs)),
        ),
        *final(request) == (TextRequest {
            sampling_params: SamplingParams {
                vllm_xargs: final(request).sampling_params.vllm_xargs,
                ..old(request).sampling_params
            },
            ..*old(request)
        }),
{
    let mut members: Vec<JsonMember> = match request.sampling_params.vllm_xargs.take() {
        Some(members) => members,
        None => Vec::new(),
    };
    let ghost before = members@;
    match find_member(&members, "kv_transfer_params") {
        None => {
            let mark = JsonMember {
                name: "do_remote_decode".to_string(),
                value: JsonValue::Bool(true),
            };
            let mut parameters: Vec<JsonMember> = Vec::new();
            proof {
                lemma_member_models_push(parameters@, mark);
                assert(member_models(parameters@).push(("do_remote_decode"@, JsonModel::Bool(true)))
                    == seq![("do_remote_decode"@, JsonModel::Bool(true))]);
            }
            parameters.push(mark);
            set_member(
                &mut members,
                "kv_transfer_params".to_string(),
                JsonValue::Object(parameters),
            );
        },
        Some(at) => {
            proof {
                crate::json::lemma_models_one_by_one(before);
            }
            let member = members.remove(at);
            let name = member.name;
            let value = match member.value {
                JsonValue::Object(parameters) => {
                    let mut parameters = parameters;
                    set_member(
                        &mut parameters,
                        "do_remote_decode".to_string(),
                        JsonValue::Bool(true),
                    );
                    JsonValue::Object(parameters)
                },
                other => other,
            };
            let changed = JsonMember { name, value };
            members.insert(at, changed);
            proof {
                assert(members@ == before.update(at as int, changed));
                crate::json::lemma_models_one_by_one(members@);
                crate::json::lemma_member_position(member_models(before), "kv_transfer_params"@);
                assert(member_models(members@) =~= prefill_arguments(Some(member_models(before))));
            }
        },
    }
    request.sampling_params.vllm_xargs = Some(members);
}

/// The session that a prefill engine hands over.
pub open spec fn is_session_of(
    session: KvSessionRef,
    params: JsonModel,
    request_id: Seq<char>,
    kv_connector: Option<String>,
    data_parallel_rank: u32,
) -> bool {
    &&& session.session_id@ == request_id
    &&& session.transfer_backend@ == text_or_empty(kv_connector)
    &&& session.dp_rank == data_parallel_rank
    &&& match params {
        JsonModel::Object(members) => session.attributes_struct is Some
            && session.attributes_struct->Some_0@ == fields_of(members),
        _ => session.attributes_struct is None,
    }
}

/// Makes the session that a prefill engine hands over from its transfer parameters.
pub fn kv_transfer_params_to_kv_session(
    params: &JsonValue,
    request_id: &str,
    kv_connector: &Option<String>,
    data_parallel_rank: u32,
) -> (session: KvSessionRef)
    ensures
        is_session_of(session, params.model(), request_id@, *kv_connector, data_parallel_rank),
{
    KvSessionRef {
        session_id: request_id.to_string(),
        transfer_backend: copy_or_empty(kv_connector),
        dp_rank: data_parallel_rank,
        attributes_struct: json_to_prost_struct(params),
    }
}

/// Each token id among the stop conditions of a request stops the engine, and each text ends the
/// text: as many as there are conditions, in the order of the conditions. Where there are none, the
/// engine is asked for none.
pub proof fn every_stop_reaches_the_engine<F>(
    text: TextRequest<F>,
    request: GenerateRequest,
    served: Seq<String>,
    i: int,
    j: int,
)
    requires
        converts_request(text, request),
        request_refusal(request, served) is None,
    ensures
        ({
            let conditions = request.stop@;
            let ids = engine_stop_tokens(text.sampling_params);
            let texts = engine_stop_texts(text.decode_options);
            &&& ids.len() + texts.len() == conditions.len()
            &&& ids.len() == 0 ==> text.sampling_params.stop_token_ids is None
            &&& texts.len() == 0 ==> text.decode_options.stop_strings is None
            &&& 0 <= i < conditions.len() ==> (conditions[i] matches StopCondition::StopTokenId(id)
                ==> ids.contains(id))
            &&& 0 <= i < conditions.len() ==> (conditions[i] matches StopCondition::StopText(stop)
                ==> texts.contains(stop@))
            &&& 0 <= i < j < conditions.len() ==> (conditions[i] matches
                StopCondition::StopTokenId(first) ==> (conditions[j] matches
                StopCondition::StopTokenId(second) ==> exists|k: int, l: int|
                0 <= k < l < ids.len() && #[trigger] ids[k] == first && #[trigger] ids[l]
                    == second))
            &&& 0 <= i < j < conditions.len() ==> (conditions[i] matches
                StopCondition::StopText(first) ==> (conditions[j] matches
                StopCondition::StopText(second) ==> exists|k: int, l: int|
                0 <= k < l < texts.len() && #[trigger] texts[k] == first@ && #[trigger] texts[l]
                    == second@))
        }),
{
    assert(engine_stop_tokens(text.sampling_params) =~= stop_tokens(request.stop@));
    assert(engine_stop_texts(text.decode_options) =~= stop_texts(request.stop@));
    stops_stand_in_order(request.stop@, i, j);
}

/// The engine is asked for what the request asks for: its prompt, its sampling options, its
/// priority and its rank, each under its own name and with its own value. What a request cannot ask
/// for is not set.
pub proof fn request_options_are_kept<F>(text: TextRequest<F>, request: GenerateRequest)
    requires
        converts_request(text, request),
    ensures
        request.request_id@.len() > 0 ==> text.request_id@ == request.request_id@,
        request.input matches Some(GenerateInput::Prompt(prompt)) ==> text.prompt == Prompt::Text(
            prompt,
        ),
        request.input matches Some(GenerateInput::TokenIds(ids)) ==> text.prompt
            == Prompt::TokenIds(ids),
        request.sampling matches Some(sampling) ==> {
            &&& text.sampling_params.temperature == sampling.temperature
            &&& text.sampling_params.top_p == sampling.top_p
            &&& text.sampling_params.top_k == sampling.top_k
            &&& text.sampling_params.seed == sampling.seed
            &&& text.sampling_params.min_tokens == sampling.min_tokens
            &&& sampling.min_tokens is Some ==> text.decode_options.min_tokens
                == sampling.min_tokens->Some_0
            &&& sampling.min_tokens is None ==> text.decode_options.min_tokens == 0
        },
        request.sampling is None ==> {
            &&& text.sampling_params.temperature is None
            &&& text.sampling_params.top_p is None
            &&& text.sampling_params.top_k is None
            &&& text.sampling_params.seed is None
            &&& text.sampling_params.min_tokens is None
            &&& text.decode_options.min_tokens == 0
        },
        request.priority is Some ==> text.priority == request.priority->Some_0,
        request.priority is None ==> text.priority == 0,
        text.data_parallel_rank == request.data_parallel_rank,
        text.mm_features is None,
        text.lora_request is None,
        text.cache_salt is None,
        text.intermediate,
        text.add_special_tokens,
        text.decode_options.skip_special_tokens,
        !text.decode_options.include_stop_str_in_output,
        !text.sampling_params.ignore_eos,
        text.sampling_params.max_tokens is None,
        text.sampling_params.logprobs is None,
        text.sampling_params.prompt_logprobs is None,
        text.sampling_params.logprob_token_ids is None,
        text.sampling_params.min_p is None,
        text.sampling_params.frequency_penalty is None,
        text.sampling_params.presence_penalty is None,
        text.sampling_params.repetition_penalty is None,
        text.sampling_params.structured_outputs is None,
        text.sampling_params.skip_reading_prefix_cache is None,
{
}

/// The engine gets the transfer parameters of the session, with exact integers restored, and no
/// other extra argument; without a session it gets none.
pub proof fn sessions_bring_their_parameters<F>(text: TextRequest<F>, request: GenerateRequest)
    requires
        converts_request(text, request),
    ensures
        request.kv_session is None || request.kv_session->Some_0.attributes_struct is None
            ==> text.sampling_params.vllm_xargs is None,
        request.kv_session is Some && request.kv_session->Some_0.attributes_struct is Some ==> {
            &&& text.sampling_params.vllm_xargs is Some
            &&& member_models(text.sampling_params.vllm_xargs->Some_0@).len() == 1
            &&& member_value(
                member_models(text.sampling_params.vllm_xargs->Some_0@),
                "kv_transfer_params"@,
            ) == Some(
                JsonModel::Object(
                    members_of(request.kv_session->Some_0.attributes_struct->Some_0@, true),
                ),
            )
        },
{
    if let Some(members) = text.sampling_params.vllm_xargs {
        if member_models(members@).len() == 1 {
            crate::json::single_member_is_found(
                member_models(members@),
                member_models(members@)[0].0,
                0,
            );
        }
    }
}

/// A request is converted if and only if it names a served model or none, has an input and each of
/// its stop conditions is set. A model that is not served is not found.
pub proof fn requests_are_converted_when_complete(request: GenerateRequest, served: Seq<String>)
    ensures
        request_refusal(request, served) is None <==> {
            &&& request.model@.len() == 0 || exists|i: int|
                0 <= i < served.len() && (#[trigger] served[i])@ == request.model@
            &&& request.input is Some
            &&& forall|i: int|
                0 <= i < request.stop@.len() ==> (#[trigger] request.stop@[i]) !is Unset
        },
        request_refusal(request, served) matches Some((code, _)) ==> (code == Code::NotFound <==> (
        request.model@.len() > 0 && forall|i: int|
            0 <= i < served.len() ==> (#[trigger] served[i])@ != request.model@)),
        request_refusal(request, served) matches Some((code, _)) ==> code == Code::NotFound || code
            == Code::InvalidArgument,
{
}

/// A producer prefills, a consumer decodes, and every other engine does both.
pub proof fn kv_roles_decide_the_part(name: Seq<char>)
    ensures
        rpc_role(None) == EngineRole::Aggregated,
        rpc_role(Some(name)) == EngineRole::Prefill <==> name == "kv_producer"@,
        rpc_role(Some(name)) == EngineRole::Decode <==> name == "kv_consumer"@,
        rpc_role(Some(name)) == EngineRole::Aggregated <==> name != "kv_producer"@ && name
            != "kv_consumer"@,
{
    reveal_strlit("kv_producer");
    reveal_strlit("kv_consumer");
    assert("kv_producer"@[3] == 'p');
    assert("kv_consumer"@[3] == 'c');
}

/// A decode engine takes a session that has an id, the engine's own backend and at least one
/// parameter, and no other.
pub proof fn decode_takes_complete_sessions(session: KvSessionRef, kv_connector: Option<Seq<char>>)
    ensures
        session_refusal(Some(session), kv_connector) is None <==> {
            &&& exists|i: int|
                0 <= i < session.session_id@.len() && !is_white_space(
                    #[trigger] session.session_id@[i],
                )
            &&& exists|i: int|
                0 <= i < session.transfer_backend@.len() && !is_white_space(
                    #[trigger] session.transfer_backend@[i],
                )
            &&& kv_connector matches Some(connector) ==> session.transfer_backend@ == connector
            &&& session.attributes_struct is Some
            &&& session.attributes_struct->Some_0.fields@.len() > 0
        },
        session_refusal(None, kv_connector) is Some,
        session_refusal(None, kv_connector)->Some_0.0 == Code::InvalidArgument,
        session_refusal(Some(session), kv_connector) matches Some((code, _)) ==> code
            == Code::InvalidArgument,
{
}

/// A request fits the engine if and only if its rank is one of the engine's ranks and its session
/// fits the part of the engine: a decode engine needs one, no other takes one, and a prefill engine
/// with several ranks needs to be told the rank.
pub proof fn requests_fit_the_part(
    request: GenerateRequest,
    role: EngineRole,
    kv_connector: Option<Seq<char>>,
    data_parallel_size: u64,
)
    ensures
        disaggregation_refusal(request, role, kv_connector, data_parallel_size) is None <==> {
            &&& request.data_parallel_rank matches Some(rank) ==> rank < data_parallel_size
            &&& role == EngineRole::Decode ==> session_refusal(request.kv_session, kv_connector)
                is None
            &&& role != EngineRole::Decode ==> request.kv_session is None
            &&& role == EngineRole::Prefill && data_parallel_size > 1
                ==> request.data_parallel_rank is Some
        },
        disaggregation_refusal(request, role, kv_connector, data_parallel_size) matches Some(
            (code, _),
        ) ==> code == Code::InvalidArgument,
{
}

/// An image item is a part of the prompt by its own address or its own bytes; its id and the type
/// of its bytes go with it where they are given.
pub proof fn media_items_are_kept(parts: Vec<MediaContentPart>, media: Seq<MediaItem>, i: int)
    requires
        converts_media(Ok(parts), media),
        0 <= i < media.len(),
    ensures
        parts@.len() == media.len(),
        media[i].modality is Image || media[i].modality is Unspecified,
        media[i].source is Some,
        media[i].source matches Some(MediaSource::Url(address)) ==> parts@[i] is ImageUrl
            && parts@[i]->ImageUrl_url@ == address@ && parts@[i]->ImageUrl_detail is None,
        media[i].source matches Some(MediaSource::DataUri(address)) ==> parts@[i] is ImageUrl
            && parts@[i]->ImageUrl_url@ == address@ && parts@[i]->ImageUrl_detail is None,
        media[i].source matches Some(MediaSource::RawBytes(bytes)) ==> {
            &&& parts@[i] is ImageData
            &&& parts@[i]->ImageData_data@ == bytes@
            &&& parts@[i]->ImageData_detail is None
            &&& media[i].mime_type@.len() == 0 ==> parts@[i]->ImageData_mime_type is None
            &&& media[i].mime_type@.len() > 0 ==> parts@[i]->ImageData_mime_type is Some
                && parts@[i]->ImageData_mime_type->Some_0@ == media[i].mime_type@
            &&& media[i].uuid@.len() == 0 ==> parts@[i]->ImageData_uuid is None
            &&& media[i].uuid@.len() > 0 ==> parts@[i]->ImageData_uuid is Some
                && parts@[i]->ImageData_uuid->Some_0@ == media[i].uuid@
        },
        parts@[i] is ImageUrl ==> {
            &&& media[i].uuid@.len() == 0 ==> parts@[i]->ImageUrl_uuid is None
            &&& media[i].uuid@.len() > 0 ==> parts@[i]->ImageUrl_uuid is Some
                && parts@[i]->ImageUrl_uuid->Some_0@ == media[i].uuid@
        },
{
    assert(is_part_of(parts@[i], media[i]));
}

/// A media item is refused if and only if it is known to be no image, or of no known kind, or has
/// no source. What is known to be no image is not implemented; all else is an invalid argument.
pub proof fn media_are_refused_by_kind(item: MediaItem)
    ensures
        item_refusal(item) is None <==> (item.modality is Image || item.modality is Unspecified)
            && item.source is Some,
        item_refusal(item) matches Some((code, _)) ==> (code == Code::Unimplemented
            <==> item.modality is Other),
        item_refusal(item) matches Some((code, _)) ==> (code == Code::InvalidArgument
            <==> item.modality !is Other),
{
}

/// A prefill request is marked whatever it brings along, unless it brings transfer parameters that
/// are no object; and its other arguments stay as they are.
pub proof fn prefill_requests_are_marked(
    arguments: Seq<(Seq<char>, JsonModel)>,
    other: Seq<char>,
)
    ensures
        prefill_arguments(None) == seq![
            (
                "kv_transfer_params"@,
                JsonModel::Object(seq![("do_remote_decode"@, JsonModel::Bool(true))]),
            ),
        ],
        member_value(arguments, "kv_transfer_params"@) is None ==> member_value(
            prefill_arguments(Some(arguments)),
            "kv_transfer_params"@,
        ) == Some(JsonModel::Object(seq![("do_remote_decode"@, JsonModel::Bool(true))])),
        member_value(arguments, "kv_transfer_params"@) is Some && member_value(
            arguments,
            "kv_transfer_params"@,
        )->Some_0 !is Object ==> prefill_arguments(Some(arguments)) == arguments,
        other != "kv_transfer_params"@ ==> member_value(prefill_arguments(Some(arguments)), other)
            == member_value(arguments, other),
{
    let mark = JsonModel::Object(seq![("do_remote_decode"@, JsonModel::Bool(true))]);
    set_member_reads_back(arguments, "kv_transfer_params"@, mark, other);
    if let Some(JsonModel::Object(parameters)) = member_value(arguments, "kv_transfer_params"@) {
        set_member_reads_back(
            arguments,
            "kv_transfer_params"@,
            JsonModel::Object(with_member(parameters, "do_remote_decode"@, JsonModel::Bool(true))),
            other,
        );
    }
    assert(Seq::<(Seq<char>, JsonModel)>::empty().push(("kv_transfer_params"@, mark)) =~= seq![
        ("kv_transfer_params"@, mark),
    ]);
}

/// Where media are refused, the first item that cannot be a part of a prompt is the cause.
pub proof fn first_bad_medium_is_refused(
    outcome: Result<Vec<MediaContentPart>, Status>,
    media: Seq<MediaItem>,
    at: int,
)
    requires
        converts_media(outcome, media),
        0 <= at < media.len(),
        item_refusal(media[at]) is Some,
        forall|j: int| 0 <= j < at ==> item_refusal(#[trigger] media[j]) is None,
    ensures
        outcome is Err,
        Some(outcome->Err_0@) == item_refusal(media[at]),
{
    if let Ok(parts) = outcome {
        assert(is_part_of(parts@[at], media[at]));
    }
    if let Err(status) = outcome {
        let i = choose|i: int|
            {
                &&& 0 <= i < media.len()
                &&& item_refusal(#[trigger] media[i]) == Some(status@)
                &&& forall|j: int| 0 <= j < i ==> item_refusal(#[trigger] media[j]) is None
            };
        if i < at {
            assert(item_refusal(media[i]) is None);
        }
        if at < i {
            assert(item_refusal(media[at]) is None);
        }
    }
}

} // verus!
