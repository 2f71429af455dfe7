use vllm_server::binary64::Binary64;
use vllm_server::engine_rpc::convert::kv_transfer_params_to_kv_session;
use vllm_server::engine_rpc::convert::mark_prefill_request;
use vllm_server::engine_rpc::convert::media_parts_from_request;
use vllm_server::engine_rpc::convert::role_from_kv_role;
use vllm_server::engine_rpc::convert::to_text_request;
use vllm_server::engine_rpc::convert::validate_disaggregated_request;
use vllm_server::engine_rpc::messages::ErrorCode;
use vllm_server::engine_rpc::messages::GenerateEvent;
use vllm_server::engine_rpc::messages::GenerateRequest;
use vllm_server::engine_rpc::messages::GenerationEnd;
use vllm_server::engine_rpc::messages::KvSessionRef;
use vllm_server::engine_rpc::messages::MediaItem;
use vllm_server::engine_rpc::messages::Modality;
use vllm_server::engine_rpc::messages::SamplingOptions;
use vllm_server::engine_rpc::response::error_response;
use vllm_server::engine_rpc::response::event_to_responses;
use vllm_server::events::DecodedTextEvent;
use vllm_server::events::FinishReason;
use vllm_server::events::Finished;
use vllm_server::events::MediaContentPart;
use vllm_server::events::StopReason;
use vllm_server::events::TokenUsage;
use vllm_server::json::JsonMember;
use vllm_server::json::JsonNumber;
use vllm_server::json::JsonValue;
use vllm_server::openengine::messages::EngineRole;
use vllm_server::openengine::messages::GenerateInput;
use vllm_server::openengine::messages::MediaSource;
use vllm_server::openengine::messages::StopCondition;
use vllm_server::request::TextRequest;
use vllm_server::status::Code;
use vllm_server::status::Status;
use vllm_server::struct_json::json_to_prost_struct;
use vllm_server::struct_json::prost_handoff_struct_to_json;

fn from_serde(value: &serde_json::Value) -> JsonValue {
    match value {
        serde_json::Value::Null => JsonValue::Null,
        serde_json::Value::Bool(b) => JsonValue::Bool(*b),
        serde_json::Value::Number(n) => JsonValue::Number(if let Some(n) = n.as_u64() {
            JsonNumber::Unsigned(n)
        } else if let Some(n) = n.as_i64() {
            JsonNumber::Negative(n)
        } else {
            JsonNumber::Float(Binary64 { bits: n.as_f64().unwrap().to_bits() })
        }),
        serde_json::Value::String(s) => JsonValue::Text(s.clone()),
        serde_json::Value::Array(values) => {
            JsonValue::Array(values.iter().map(from_serde).collect())
        }
        serde_json::Value::Object(fields) => JsonValue::Object(
            fields
                .iter()
                .map(|(name, value)| JsonMember { name: name.clone(), value: from_serde(value) })
                .collect(),
        ),
    }
}

fn to_serde(value: &JsonValue) -> serde_json::Value {
    match value {
        JsonValue::Null => serde_json::Value::Null,
        JsonValue::Bool(b) => serde_json::Value::Bool(*b),
        JsonValue::Number(JsonNumber::Unsigned(n)) => serde_json::Value::from(*n),
        JsonValue::Number(JsonNumber::Negative(n)) => serde_json::Value::from(*n),
        JsonValue::Number(JsonNumber::Float(n)) => serde_json::Value::from(f64::from_bits(n.bits)),
        JsonValue::Text(s) => serde_json::Value::from(s.as_str()),
        JsonValue::Array(values) => serde_json::Value::Array(values.iter().map(to_serde).collect()),
        JsonValue::Object(members) => members_to_serde(members),
    }
}

fn members_to_serde(members: &[JsonMember]) -> serde_json::Value {
    serde_json::Value::Object(
        members.iter().map(|member| (member.name.clone(), to_serde(&member.value))).collect(),
    )
}

fn json(text: &str) -> serde_json::Value {
    serde_json::from_str(text).unwrap()
}

fn base_request() -> GenerateRequest {
    GenerateRequest {
        request_id: "req".to_string(),
        model: "test-model".to_string(),
        input: Some(GenerateInput::Prompt("hi".to_string())),
        ..Default::default()
    }
}

fn served() -> Vec<String> {
    vec!["test-model".to_string()]
}

fn convert(request: GenerateRequest) -> Result<TextRequest<()>, Status> {
    to_text_request(request, &served())
}

fn nixl() -> Option<String> {
    Some("NixlConnector".to_string())
}

fn finished(reason: FinishReason) -> Finished {
    Finished {
        usage: TokenUsage { prompt_token_count: 3, output_token_count: 2, cached_token_count: 0 },
        finish_reason: reason,
        kv_transfer_params: None,
        ec_transfer_params: None,
    }
}

#[test]
fn rejects_explicit_rank_outside_data_parallel_size() {
    let request = GenerateRequest { data_parallel_rank: Some(4), ..Default::default() };

    let error =
        validate_disaggregated_request(&request, EngineRole::Aggregated, &None, 4, 0).unwrap_err();

    assert_eq!(error.code(), Code::InvalidArgument);
}

#[test]
fn accepts_last_explicit_rank_in_data_parallel_size() {
    let request = GenerateRequest { data_parallel_rank: Some(3), ..Default::default() };

    assert_eq!(
        validate_disaggregated_request(&request, EngineRole::Aggregated, &None, 4, 0).unwrap(),
        3
    );
}

#[test]
fn request_conversion_preserves_sampling_stop_and_routing_fields() {
    let request = GenerateRequest {
        sampling: Some(SamplingOptions {
            temperature: Some(Binary64 { bits: 0.7f64.to_bits() }),
            top_p: Some(Binary64 { bits: 0.9f64.to_bits() }),
            top_k: Some(50),
            seed: Some(-7),
            min_tokens: Some(2),
        }),
        stop: vec![StopCondition::StopText("END".to_string()), StopCondition::StopTokenId(7)],
        priority: Some(-3),
        data_parallel_rank: Some(2),
        ..base_request()
    };
    let text = convert(request).unwrap();
    assert_eq!(text.sampling_params.temperature, Some(Binary64 { bits: 0.7f64.to_bits() }));
    assert_eq!(text.sampling_params.seed, Some(-7));
    assert_eq!(text.sampling_params.stop_token_ids, Some(vec![7]));
    assert_eq!(text.decode_options.stop_strings, Some(vec!["END".to_string()]));
    assert_eq!(text.decode_options.min_tokens, 2);
    assert_eq!(text.priority, -3);
    assert_eq!(text.data_parallel_rank, Some(2));
}

#[test]
fn request_conversion_rejects_missing_input_and_wrong_model() {
    let missing = GenerateRequest { input: None, ..base_request() };
    assert_eq!(convert(missing).unwrap_err().code(), Code::InvalidArgument);
    let wrong = GenerateRequest { model: "other".to_string(), ..base_request() };
    assert_eq!(convert(wrong).unwrap_err().code(), Code::NotFound);
}

#[test]
fn kv_session_round_trips_into_request_transfer_params() {
    let params = json(
        r#"{"remote_engine_id": "engine-7", "remote_port": 20097, "remote_block_ids": [4, 5, 6]}"#,
    );
    let request = GenerateRequest {
        kv_session: Some(kv_transfer_params_to_kv_session(
            &from_serde(&params),
            "session",
            &nixl(),
            2,
        )),
        ..base_request()
    };
    let text = convert(request).unwrap();
    let xargs = members_to_serde(&text.sampling_params.vllm_xargs.unwrap());
    assert_eq!(xargs.get("kv_transfer_params"), Some(&params));
}

#[test]
fn role_validation_requires_exact_handoff_shape() {
    let mut request = base_request();
    assert!(
        validate_disaggregated_request(&request, EngineRole::Decode, &nixl(), 1, 0).is_err()
    );
    request.kv_session = Some(KvSessionRef {
        session_id: "session".to_string(),
        transfer_backend: "NixlConnector".to_string(),
        dp_rank: 0,
        attributes_struct: json_to_prost_struct(&from_serde(&json(r#"{"remote_port": 8000}"#))),
    });
    assert_eq!(
        validate_disaggregated_request(&request, EngineRole::Decode, &nixl(), 1, 0).unwrap(),
        0
    );
    assert!(
        validate_disaggregated_request(&request, EngineRole::Prefill, &nixl(), 1, 0).is_err()
    );
}

#[test]
fn prefill_terminal_emits_typed_handoff() {
    let mut terminal = finished(FinishReason::Length);
    terminal.kv_transfer_params = Some(from_serde(&json(
        r#"{"remote_engine_id": "engine-7", "remote_block_ids": [1, 2, 3]}"#,
    )));
    let responses = event_to_responses(
        DecodedTextEvent::TextDelta {
            delta: String::new(),
            token_ids: vec![5],
            logprobs: None,
            finished: Some(terminal),
        },
        "req",
        EngineRole::Prefill,
        &nixl(),
        3,
    );
    let session = responses
        .iter()
        .find_map(|response| match &response.event {
            GenerateEvent::PrefillReady { kv_session } => Some(kv_session),
            _ => None,
        })
        .unwrap();
    assert_eq!(session.dp_rank, 3);
    // A protobuf struct holds every number as a double: the block ids are integers again only
    // where exact integers are restored.
    let attributes = members_to_serde(&prost_handoff_struct_to_json(
        session.attributes_struct.as_ref().unwrap(),
    ));
    assert_eq!(attributes["remote_block_ids"], json("[1, 2, 3]"));
    assert_eq!(attributes["remote_engine_id"], json(r#""engine-7""#));
}

#[test]
fn failed_prefill_never_emits_ready() {
    let mut terminal = finished(FinishReason::Error);
    terminal.kv_transfer_params = Some(from_serde(&json(r#"{"remote_port": 8000}"#)));
    let responses = event_to_responses(
        DecodedTextEvent::TextDelta {
            delta: String::new(),
            token_ids: Vec::new(),
            logprobs: None,
            finished: Some(terminal),
        },
        "req",
        EngineRole::Prefill,
        &nixl(),
        0,
    );
    assert!(matches!(responses[0].event, GenerateEvent::Error(_)));
}

#[test]
fn prefill_marker_preserves_existing_params() {
    let request = GenerateRequest {
        kv_session: Some(KvSessionRef {
            attributes_struct: json_to_prost_struct(&from_serde(&json(
                r#"{"remote_engine_id": "engine-7"}"#,
            ))),
            ..Default::default()
        }),
        ..base_request()
    };
    let mut text = convert(request).unwrap();
    mark_prefill_request(&mut text);
    let xargs = members_to_serde(&text.sampling_params.vllm_xargs.unwrap());
    let params = &xargs["kv_transfer_params"];
    assert_eq!(params["do_remote_decode"], true);
    assert_eq!(params["remote_engine_id"], "engine-7");
}

#[test]
fn media_parts_maps_url_data_uri_and_raw_bytes() {
    let media = vec![
        MediaItem {
            modality: Modality::Image,
            source: Some(MediaSource::Url("http://h/a.png".to_string())),
            uuid: "uid-1".to_string(),
            ..Default::default()
        },
        MediaItem {
            modality: Modality::Unspecified,
            source: Some(MediaSource::DataUri("data:image/png;base64,AAAA".to_string())),
            ..Default::default()
        },
        MediaItem {
            modality: Modality::Image,
            source: Some(MediaSource::RawBytes(vec![1, 2, 3])),
            mime_type: "image/png".to_string(),
            ..Default::default()
        },
    ];

    let parts = media_parts_from_request(&media).expect("convert media");
    assert_eq!(parts.len(), 3);

    match &parts[0] {
        MediaContentPart::ImageUrl { url, detail, uuid } => {
            assert_eq!(url, "http://h/a.png");
            assert!(detail.is_none());
            assert_eq!(uuid.as_deref(), Some("uid-1"));
        }
        _ => panic!("part 0 should be an ImageUrl from a url source"),
    }
    match &parts[1] {
        MediaContentPart::ImageUrl { url, uuid, .. } => {
            assert_eq!(url, "data:image/png;base64,AAAA");
            assert!(uuid.is_none());
        }
        _ => panic!("part 1 should be an ImageUrl from a data_uri source"),
    }
    match &parts[2] {
        MediaContentPart::ImageData { data, mime_type, .. } => {
            assert_eq!(data, &[1, 2, 3]);
            assert_eq!(mime_type.as_deref(), Some("image/png"));
        }
        _ => panic!("part 2 should be ImageData from a raw_bytes source"),
    }
}

#[test]
fn media_parts_empty_input_yields_no_parts() {
    assert!(media_parts_from_request(&Vec::new()).unwrap().is_empty());
}

#[test]
fn media_parts_rejects_item_without_source() {
    let media =
        vec![MediaItem { modality: Modality::Image, source: None, ..Default::default() }];
    let status = media_parts_from_request(&media)
        .expect_err("a media item with no source must be rejected");
    assert_eq!(status.code(), Code::InvalidArgument);
}

#[test]
fn media_parts_rejects_video_modality_in_v1() {
    let media = vec![MediaItem {
        modality: Modality::Other { name: "Video".to_string() },
        source: Some(MediaSource::Url("http://h/clip.mp4".to_string())),
        ..Default::default()
    }];
    let status =
        media_parts_from_request(&media).expect_err("video modality must be rejected in v1");
    assert_eq!(status.code(), Code::Unimplemented);
}

#[test]
fn roles_follow_the_kv_role() {
    assert_eq!(role_from_kv_role(&Some("kv_producer".to_string())), EngineRole::Prefill);
    assert_eq!(role_from_kv_role(&Some("kv_consumer".to_string())), EngineRole::Decode);
    assert_eq!(role_from_kv_role(&Some("kv_both".to_string())), EngineRole::Aggregated);
    assert_eq!(role_from_kv_role(&None), EngineRole::Aggregated);
}

#[test]
fn unknown_modality_number_is_invalid() {
    let media = vec![MediaItem {
        modality: Modality::Unknown { number: 42 },
        source: Some(MediaSource::Url("http://h/a".to_string())),
        ..Default::default()
    }];
    assert_eq!(media_parts_from_request(&media).unwrap_err().code(), Code::InvalidArgument);
}

#[test]
fn rank_defaults_to_that_of_the_engine() {
    let rank =
        validate_disaggregated_request(&base_request(), EngineRole::Aggregated, &None, 4, 3)
            .unwrap();
    assert_eq!(rank, 3);
}

#[test]
fn prefill_marker_makes_parameters_where_there_are_none() {
    let mut text = convert(base_request()).unwrap();
    assert!(text.sampling_params.vllm_xargs.is_none());
    mark_prefill_request(&mut text);
    let xargs = members_to_serde(&text.sampling_params.vllm_xargs.unwrap());
    assert_eq!(xargs, json(r#"{"kv_transfer_params": {"do_remote_decode": true}}"#));
}

#[test]
fn error_response_is_internal_without_usage() {
    let response = error_response("req", "boom".to_string());
    assert_eq!(response.request_id, "req");
    assert!(response.usage.is_none());
    match response.event {
        GenerateEvent::Error(error) => {
            assert_eq!(error.code, ErrorCode::Internal);
            assert_eq!(error.message, "boom");
        }
        _ => panic!("expected an error event"),
    }
}

#[test]
fn prefill_without_parameters_is_a_transfer_failure() {
    let responses = event_to_responses(
        DecodedTextEvent::TextDelta {
            delta: String::new(),
            token_ids: vec![1],
            logprobs: None,
            finished: Some(finished(FinishReason::Length)),
        },
        "req",
        EngineRole::Prefill,
        &nixl(),
        0,
    );
    let last = responses.last().unwrap();
    match &last.event {
        GenerateEvent::Error(error) => assert_eq!(error.code, ErrorCode::KvTransferFailed),
        _ => panic!("expected a transfer failure"),
    }
}

#[test]
fn aggregated_stream_reports_tokens_then_end_with_usage() {
    let responses = event_to_responses(
        DecodedTextEvent::TextDelta {
            delta: "hi".to_string(),
            token_ids: vec![11, 12],
            logprobs: None,
            finished: Some(finished(FinishReason::Stop(Some(StopReason::TokenId(2))))),
        },
        "req",
        EngineRole::Aggregated,
        &None,
        0,
    );
    assert_eq!(responses.len(), 2);
    match &responses[0].event {
        GenerateEvent::Token { token_ids, text } => {
            assert_eq!(token_ids, &[11, 12]);
            assert_eq!(text, "hi");
        }
        _ => panic!("expected tokens"),
    }
    match &responses[1].event {
        GenerateEvent::Finished { reason, .. } => assert_eq!(*reason, GenerationEnd::Stop),
        _ => panic!("expected the end"),
    }
    let usage = responses[1].usage.unwrap();
    assert_eq!((usage.prompt_tokens, usage.completion_tokens, usage.total_tokens), (3, 2, 5));
}

#[test]
fn decode_takes_the_session_of_a_prefill() {
    let mut terminal = finished(FinishReason::Length);
    terminal.kv_transfer_params = Some(from_serde(&json(r#"{"remote_port": 8000}"#)));
    let mut responses = event_to_responses(
        DecodedTextEvent::TextDelta {
            delta: String::new(),
            token_ids: Vec::new(),
            logprobs: None,
            finished: Some(terminal),
        },
        "req",
        EngineRole::Prefill,
        &nixl(),
        0,
    );
    let kv_session = match responses.remove(0).event {
        GenerateEvent::PrefillReady { kv_session } => kv_session,
        _ => panic!("expected a session"),
    };
    let request = GenerateRequest { kv_session: Some(kv_session), ..base_request() };
    assert!(validate_disaggregated_request(&request, EngineRole::Decode, &nixl(), 1, 0).is_ok());
}

#[test]
fn request_conversion_sets_nothing_that_was_not_asked_for() {
    for sampling in [None, Some(SamplingOptions { top_k: Some(5), ..Default::default() })] {
        let text = convert(GenerateRequest { sampling, ..base_request() }).unwrap();
        let params = text.sampling_params;
        assert_eq!(params.max_tokens, None);
        assert!(!params.ignore_eos);
        assert_eq!((params.logprobs, params.prompt_logprobs), (None, None));
        assert_eq!(params.logprob_token_ids, None);
        assert_eq!(params.min_p, None);
        assert_eq!((params.frequency_penalty, params.presence_penalty), (None, None));
        assert_eq!(params.repetition_penalty, None);
        assert!(params.structured_outputs.is_none());
        assert_eq!(params.skip_reading_prefix_cache, None);
        assert!(params.vllm_xargs.is_none());
    }
}
