use vllm_server::binary64::used_kv_blocks;
use vllm_server::binary64::Binary64;
use vllm_server::events::DecodedTextEvent;
use vllm_server::events::FinishReason;
use vllm_server::events::Finished;
use vllm_server::events::MediaContentPart;
use vllm_server::events::Prompt;
use vllm_server::events::TokenUsage;
use vllm_server::json::JsonMember;
use vllm_server::json::JsonNumber;
use vllm_server::json::JsonValue;
use vllm_server::json::ProtoField;
use vllm_server::json::ProtoStruct;
use vllm_server::json::ProtoValue;
use vllm_server::openengine::convert::candidate_selection;
use vllm_server::openengine::convert::complete_text_request;
use vllm_server::openengine::convert::guided_decoding;
use vllm_server::openengine::convert::metadata_options;
use vllm_server::openengine::convert::options_from_values;
use vllm_server::openengine::convert::role_from_kv_role;
use vllm_server::openengine::convert::sampling_params;
use vllm_server::openengine::convert::to_text_request;
use vllm_server::openengine::convert::tokenize_multimodal_prompt;
use vllm_server::openengine::convert::validate_model;
use vllm_server::openengine::convert::validate_role_and_handoff;
use vllm_server::openengine::convert::ConversionStep;
use vllm_server::openengine::convert::TextConversion;
use vllm_server::openengine::convert::HANDOFF_PROFILE;
use vllm_server::openengine::convert::PRIORITY;
use vllm_server::openengine::convert::TARGET_DP_RANK;
use vllm_server::openengine::convert::TRANSFER_BACKEND;
use vllm_server::openengine::messages::CandidateTokenSelection;
use vllm_server::openengine::messages::EngineRole;
use vllm_server::openengine::messages::GenerateEvent;
use vllm_server::openengine::messages::GenerateInput;
use vllm_server::openengine::messages::GenerateRequest;
use vllm_server::openengine::messages::Guide;
use vllm_server::openengine::messages::GuidedDecoding;
use vllm_server::openengine::messages::KvOptions;
use vllm_server::openengine::messages::KvSessionRef;
use vllm_server::openengine::messages::MediaItem;
use vllm_server::openengine::messages::MediaSource;
use vllm_server::openengine::messages::Modality;
use vllm_server::openengine::messages::SamplingOptions;
use vllm_server::openengine::output::event_to_responses;
use vllm_server::request::StructuredConstraint;
use vllm_server::request::TextRequest;
use vllm_server::status::Code;

fn decode_request(session: Option<KvSessionRef>) -> GenerateRequest {
    GenerateRequest {
        kv: Some(KvOptions { session, bypass_prefix_cache: None, cache_salt: None }),
        ..Default::default()
    }
}

fn unsigned(name: &str, n: u64) -> JsonMember {
    JsonMember { name: name.to_string(), value: JsonValue::Number(JsonNumber::Unsigned(n)) }
}

fn prefill_end(members: Vec<JsonMember>) -> Finished {
    Finished {
        usage: TokenUsage { prompt_token_count: 4, output_token_count: 1, cached_token_count: 0 },
        finish_reason: FinishReason::Length,
        kv_transfer_params: Some(JsonValue::Object(members)),
        ec_transfer_params: None,
    }
}

#[test]
fn direct_decode_requires_profiled_handoff() {
    let error = validate_role_and_handoff(&decode_request(None), EngineRole::Decode, None, 1)
        .unwrap_err();
    assert_eq!(error.code(), Code::FailedPrecondition);

    let request = decode_request(Some(KvSessionRef {
        session_id: "session".to_string(),
        transfer_backend: TRANSFER_BACKEND.to_string(),
        attributes_struct: Some(ProtoStruct {
            fields: vec![ProtoField {
                name: "remote_port".to_string(),
                value: ProtoValue::Number(Binary64 { bits: 1234.0f64.to_bits() }),
            }],
        }),
        handoff_profile: "wrong.profile".to_string(),
        ..Default::default()
    }));
    let error = validate_role_and_handoff(&request, EngineRole::Decode, None, 1).unwrap_err();
    assert_eq!(error.code(), Code::InvalidArgument);
}

#[test]
fn portable_priority_is_inverted_for_vllm() {
    let mut metadata = tonic::metadata::MetadataMap::new();
    metadata.insert(
        PRIORITY,
        tonic::metadata::MetadataValue::try_from("7").expect("valid metadata"),
    );
    metadata.insert(
        TARGET_DP_RANK,
        tonic::metadata::MetadataValue::try_from("2").expect("valid metadata"),
    );
    assert_eq!(metadata_options(&metadata).unwrap(), (Some(2), -7));
}

#[test]
fn multimodal_text_prompt_uses_shared_frontend_tokenizer() {
    let mut prompt = Prompt::Text("image prompt".to_string());
    tokenize_multimodal_prompt(&mut prompt, Ok(vec![17, 4])).unwrap();
    let Prompt::TokenIds(token_ids) = prompt else {
        panic!("multimodal prompt was not tokenized");
    };
    assert_eq!(token_ids, [17, 4]);
}

#[test]
fn unsupported_kv_role_is_not_advertised_as_aggregate() {
    assert_eq!(role_from_kv_role(&None), Some(EngineRole::Aggregated));
    assert_eq!(role_from_kv_role(&Some("kv_producer".to_string())), Some(EngineRole::Prefill));
    assert_eq!(role_from_kv_role(&Some("kv_consumer".to_string())), Some(EngineRole::Decode));
    assert_eq!(role_from_kv_role(&Some("kv_both".to_string())), None);
}

#[test]
fn prefill_handoff_preserves_profile_and_large_integer() {
    let finished = prefill_end(vec![
        unsigned("remote_request_id", 9_007_199_254_740_993),
        unsigned("remote_port", 1234),
    ]);
    let responses = event_to_responses(
        DecodedTextEvent::TextDelta {
            delta: String::new(),
            token_ids: Vec::new(),
            logprobs: None,
            finished: Some(finished),
        },
        "request",
        EngineRole::Prefill,
        3,
    );
    let GenerateEvent::PrefillReady { kv_session: session } = &responses[0].event else {
        panic!("expected prefill ready")
    };
    assert_eq!(session.handoff_profile, HANDOFF_PROFILE);
    assert_eq!(session.transfer_backend, TRANSFER_BACKEND);
    assert_eq!(session.dp_rank, 3);
    let field = session
        .attributes_struct
        .as_ref()
        .unwrap()
        .fields
        .iter()
        .find(|field| field.name == "remote_request_id")
        .unwrap();
    assert!(matches!(&field.value, ProtoValue::Text(text) if text == "9007199254740993"));
}

#[test]
fn prefill_handoff_suppresses_internal_generated_token() {
    let finished = prefill_end(vec![JsonMember {
        name: "remote_engine_id".to_string(),
        value: JsonValue::Text("prefill".to_string()),
    }]);
    let responses = event_to_responses(
        DecodedTextEvent::TextDelta {
            delta: " internal".to_string(),
            token_ids: vec![42],
            logprobs: None,
            finished: Some(finished),
        },
        "request",
        EngineRole::Prefill,
        0,
    );

    assert_eq!(responses.len(), 1);
    assert!(matches!(responses[0].event, GenerateEvent::PrefillReady { .. }));
}

#[test]
fn kv_usage_converts_to_bounded_block_counts() {
    let usage = |value: f64| Some(Binary64 { bits: value.to_bits() });
    assert_eq!(used_kv_blocks(1_000, usage(0.125)), Some(125));
    assert_eq!(used_kv_blocks(1_000, usage(2.0)), Some(1_000));
    assert_eq!(used_kv_blocks(1_000, usage(-0.1)), None);
    assert_eq!(used_kv_blocks(1_000, usage(f64::NAN)), None);
    assert_eq!(used_kv_blocks(1_000, None), None);
}

#[test]
fn kv_usage_rounds_as_double_arithmetic_does() {
    let cases: [(u64, f64); 12] = [
        (1_000, 0.0005),
        (1_000, 0.0015),
        (3, 0.5),
        (1, 0.5),
        (7, 0.3333333333333333),
        (1_000_003, 0.1),
        (123_456_789, 0.7),
        (u64::MAX, 0.25),
        (u64::MAX, 1.0),
        (9_007_199_254_740_993, 0.5),
        (10, 5e-324),
        (0, 0.9),
    ];
    for (total, usage) in cases {
        let expected = ((total as f64 * usage).round() as u64).min(total);
        assert_eq!(
            used_kv_blocks(total, Some(Binary64 { bits: usage.to_bits() })),
            Some(expected),
            "{total} {usage}"
        );
    }
    assert_eq!(used_kv_blocks(5, Some(Binary64 { bits: f64::INFINITY.to_bits() })), None);
    assert_eq!(used_kv_blocks(5, Some(Binary64 { bits: (-0.0f64).to_bits() })), Some(0));
}

#[test]
fn more_usage_never_means_fewer_blocks() {
    let used =
        |total, usage: f64| used_kv_blocks(total, Some(Binary64 { bits: usage.to_bits() }));
    for total in [0, 1, 7, 1000, 9007199254740991, u64::MAX] {
        let mut last = 0;
        for step in 0..=120 {
            let now = used(total, f64::from(step) / 100.0).unwrap();
            assert!(last <= now);
            last = now;
        }
    }
    for usage in [1.0, 1.5, f64::MAX] {
        assert_eq!(used(9007199254740992, usage), Some(9007199254740992));
        assert_eq!(used(1000, usage), Some(1000));
    }
    assert_eq!(used(1000, -0.0), Some(0));
    for usage in [-1.0, f64::NAN, f64::INFINITY] {
        assert_eq!(used(1000, usage), None);
    }
    assert_eq!(used_kv_blocks(1000, None), None);
}

#[test]
fn metadata_without_options_has_no_rank_and_no_priority() {
    let metadata = tonic::metadata::MetadataMap::new();
    assert_eq!(metadata_options(&metadata).unwrap(), (None, 0));
}

#[test]
fn metadata_that_is_no_number_is_refused() {
    assert_eq!(
        options_from_values(Some(Some("x".to_string())), None).unwrap_err().code(),
        Code::InvalidArgument
    );
    assert_eq!(
        options_from_values(None, Some(Some("1.5".to_string()))).unwrap_err().code(),
        Code::InvalidArgument
    );
    assert_eq!(
        options_from_values(Some(None), None).unwrap_err().code(),
        Code::InvalidArgument
    );
    assert_eq!(
        options_from_values(None, Some(Some("-2147483648".to_string()))).unwrap_err().code(),
        Code::InvalidArgument
    );
    assert_eq!(
        options_from_values(None, Some(Some("-2147483647".to_string()))).unwrap(),
        (None, i32::MAX)
    );
}

#[test]
fn models_are_known_by_their_id_and_their_names() {
    let served = vec!["alias".to_string()];
    assert!(validate_model("org/model", "org/model", &served).is_ok());
    assert!(validate_model("alias", "org/model", &served).is_ok());
    let status = validate_model("other", "org/model", &served).unwrap_err();
    assert_eq!(status.code(), Code::NotFound);
}

#[test]
fn candidates_are_selected_only_where_logprobs_are_asked_for() {
    assert_eq!(candidate_selection(&None, false, true).unwrap(), (None, None));
    assert_eq!(
        candidate_selection(&Some(CandidateTokenSelection::TopN(5)), true, true).unwrap(),
        (Some(5), None)
    );
    assert_eq!(
        candidate_selection(&Some(CandidateTokenSelection::All), true, true).unwrap(),
        (Some(-1), None)
    );
    assert_eq!(
        candidate_selection(&Some(CandidateTokenSelection::TopN(5)), false, true).unwrap(),
        (None, None)
    );
    assert_eq!(candidate_selection(&None, true, true).unwrap(), (Some(1), None));
    assert_eq!(
        candidate_selection(&Some(CandidateTokenSelection::TokenIds(vec![3, 4])), true, true)
            .unwrap(),
        (Some(1), Some(vec![3, 4]))
    );
    assert_eq!(
        candidate_selection(&Some(CandidateTokenSelection::TopN(u32::MAX)), true, true)
            .unwrap_err()
            .message(),
        "logprob top_n exceeds signed 32-bit range"
    );
    assert!(
        candidate_selection(&Some(CandidateTokenSelection::TokenIds(vec![1])), true, false)
            .is_err()
    );
}

#[test]
fn a_json_schema_is_parsed() {
    let guided = GuidedDecoding {
        guide: Some(Guide::JsonSchema(r#"{"type": "object"}"#.to_string())),
        backend: String::new(),
    };
    let params = guided_decoding(&guided).unwrap();
    let StructuredConstraint::Json(schema) = params.constraint else {
        panic!("expected a schema")
    };
    assert_eq!(schema["type"], "object");
}

#[test]
fn a_json_schema_that_does_not_parse_is_refused() {
    let guided = GuidedDecoding {
        guide: Some(Guide::JsonSchema("{".to_string())),
        backend: String::new(),
    };
    let status = guided_decoding(&guided).unwrap_err();
    assert_eq!(status.code(), Code::InvalidArgument);
    let parse_error = serde_json::from_str::<serde_json::Value>("{").unwrap_err();
    assert!(status.message().contains(&parse_error.to_string()));
}

#[test]
fn more_than_one_sequence_is_refused() {
    let request = GenerateRequest {
        sampling: Some(SamplingOptions { num_sequences: Some(2), ..Default::default() }),
        ..Default::default()
    };
    assert!(sampling_params(&request).is_err());
}

#[test]
fn a_request_without_an_id_gets_a_random_one() {
    let convert = || -> TextRequest<()> {
        let request = GenerateRequest {
            model: "m".to_string(),
            input: Some(GenerateInput::TokenIds(vec![1, 2])),
            ..Default::default()
        };
        let conversion = to_text_request(
            request,
            EngineRole::Aggregated,
            None,
            0,
            1,
            "m",
            &vec!["m".to_string()],
        )
        .unwrap();
        complete_text_request(conversion, None).unwrap()
    };
    let first = convert();
    let second = convert();
    assert_ne!(first.request_id, second.request_id);
    let id = first.request_id.strip_prefix("openengine-").unwrap_or(&first.request_id);
    assert_eq!(id.len(), 36);
    assert_eq!(id.as_bytes()[14], b'4');
    assert!(matches!(first.prompt, Prompt::TokenIds(ids) if ids == [1, 2]));
}

#[test]
fn decode_takes_the_handoff_of_a_prefill() {
    let mut responses = event_to_responses(
        DecodedTextEvent::TextDelta {
            delta: String::new(),
            token_ids: Vec::new(),
            logprobs: None,
            finished: Some(prefill_end(vec![unsigned("remote_port", 1234)])),
        },
        "request",
        EngineRole::Prefill,
        0,
    );
    let GenerateEvent::PrefillReady { kv_session } = responses.remove(0).event else {
        panic!("expected a session")
    };
    let request = decode_request(Some(kv_session));
    assert!(validate_role_and_handoff(&request, EngineRole::Decode, None, 1).is_ok());
}

fn extra_arguments(request: GenerateRequest, role: EngineRole) -> Vec<JsonMember> {
    let conversion =
        to_text_request(request, role, None, 0, 1, "m", &vec!["m".to_string()]).unwrap();
    let text: TextRequest<()> = complete_text_request(conversion, None).unwrap();
    text.sampling_params.vllm_xargs.unwrap()
}

#[test]
fn prefill_request_keeps_its_blocks() {
    let request = GenerateRequest {
        model: "m".to_string(),
        input: Some(GenerateInput::TokenIds(vec![1])),
        extra: Some(ProtoStruct {
            fields: vec![
                ProtoField {
                    name: "kv_transfer_params".to_string(),
                    value: ProtoValue::Text("other".to_string()),
                },
                ProtoField { name: "seen".to_string(), value: ProtoValue::Bool(true) },
            ],
        }),
        ..Default::default()
    };
    let members = extra_arguments(request, EngineRole::Prefill);
    assert_eq!(members.len(), 2);
    let found = members.iter().find(|member| member.name == "kv_transfer_params").unwrap();
    let JsonValue::Object(parameters) = &found.value else { panic!("expected an object") };
    assert_eq!(parameters.len(), 1);
    assert_eq!(parameters[0].name, "do_remote_decode");
    assert!(matches!(parameters[0].value, JsonValue::Bool(true)));
}

#[test]
fn decode_request_has_the_parameters_of_its_session() {
    let mut responses = event_to_responses(
        DecodedTextEvent::TextDelta {
            delta: String::new(),
            token_ids: Vec::new(),
            logprobs: None,
            finished: Some(prefill_end(vec![
                unsigned("block", 9007199254740992),
                unsigned("wide", 9007199254740993),
            ])),
        },
        "request",
        EngineRole::Prefill,
        0,
    );
    let GenerateEvent::PrefillReady { kv_session } = responses.remove(0).event else {
        panic!("expected a session")
    };
    let request = GenerateRequest {
        model: "m".to_string(),
        input: Some(GenerateInput::TokenIds(vec![1])),
        ..decode_request(Some(kv_session))
    };
    let members = extra_arguments(request, EngineRole::Decode);
    assert_eq!(members.len(), 1);
    assert_eq!(members[0].name, "kv_transfer_params");
    let JsonValue::Object(parameters) = &members[0].value else { panic!("expected an object") };
    let value = |name| &parameters.iter().find(|member| member.name == name).unwrap().value;
    assert!(matches!(
        value("block"),
        JsonValue::Number(JsonNumber::Unsigned(9007199254740992))
    ));
    assert!(matches!(value("wide"), JsonValue::Text(text) if text == "9007199254740993"));
}

fn media_conversion(input: GenerateInput, source: Option<MediaSource>) -> TextConversion {
    let request = GenerateRequest {
        model: "m".to_string(),
        request_id: "r".to_string(),
        input: Some(input),
        media: vec![MediaItem {
            modality: Modality::Image,
            source,
            uuid: "u".to_string(),
            mime_type: String::new(),
        }],
        ..Default::default()
    };
    let served = vec!["m".to_string()];
    to_text_request(request, EngineRole::Aggregated, None, 0, 1, "m", &served).unwrap()
}

#[test]
fn media_are_prepared_for_the_tokens_of_a_text() {
    let url = || Some(MediaSource::Url("http://h/a.png".to_string()));
    let conversion = media_conversion(GenerateInput::Prompt("hi".to_string()), url());
    assert!(matches!(conversion.step(), Ok(ConversionStep::Tokenize)));
    let conversion = conversion.tokenize(Ok(vec![7])).unwrap();
    let Ok(ConversionStep::PrepareMedia(parts)) = conversion.step() else {
        panic!("expected media")
    };
    assert!(matches!(
        parts.as_slice(),
        [MediaContentPart::ImageUrl { url, uuid: Some(uuid), .. }]
            if url == "http://h/a.png" && uuid == "u"
    ));
    let (conversion, features) = conversion.place_media(Ok((vec![7, 8, 8], Some(1)))).unwrap();
    let text: TextRequest<i32> = complete_text_request(conversion, features).unwrap();
    assert!(matches!(&text.prompt, Prompt::TokenIds(ids) if ids == &[7, 8, 8]));
    assert_eq!((text.mm_features, text.request_id.as_str()), (Some(1), "r"));
}

#[test]
fn media_that_cannot_be_prepared_are_refused() {
    let tokens = || GenerateInput::TokenIds(vec![1]);
    let status = media_conversion(tokens(), None).step().err().unwrap();
    assert_eq!(
        (status.code(), status.message()),
        (Code::InvalidArgument, "media item source is required")
    );
    let url = || Some(MediaSource::Url("http://h/a.png".to_string()));
    let status = media_conversion(tokens(), url())
        .place_media::<()>(Err("no image".to_string()))
        .err()
        .unwrap();
    assert_eq!((status.code(), status.message()), (Code::InvalidArgument, "no image"));
    let status = media_conversion(GenerateInput::Prompt("hi".to_string()), url())
        .tokenize(Err("bad".to_string()))
        .err()
        .unwrap();
    assert_eq!(
        (status.code(), status.message()),
        (Code::InvalidArgument, "failed to tokenize multimodal prompt: bad")
    );
}
