use std::sync::Arc;

use vllm_server::admission::AdmissionState;
use vllm_server::admission::DrainState;
use vllm_server::binary64::Binary64;
use vllm_server::control;
use vllm_server::engine_rpc;
use vllm_server::engine_rpc::service::AbortStatus;
use vllm_server::engine_rpc::service::AbortStep;
use vllm_server::engine_rpc::service::EngineServiceImpl;
use vllm_server::engine_rpc::service::GenerateStep;
use vllm_server::events::Prompt;
use vllm_server::grpc;
use vllm_server::grpc::GenerateServiceImpl;
use vllm_server::grpc::StreamEvent;
use vllm_server::grpc::TextFailure;
use vllm_server::grpc::UnsupportedCall;
use vllm_server::lora::RegisteredLora;
use vllm_server::middleware::load::track_server_load;
use vllm_server::middleware::load::Passage;
use vllm_server::openengine::adapters::unload_status;
use vllm_server::openengine::adapters::validate_lora_source;
use vllm_server::openengine::adapters::LoraAdapter;
use vllm_server::openengine::adapters::LoraSource;
use vllm_server::openengine::adapters::RegisterLoraError;
use vllm_server::openengine::adapters::UnregisterLoraError;
use vllm_server::openengine::load::active_scheduler_baseline;
use vllm_server::openengine::load::is_cleaned;
use vllm_server::openengine::load::AbortCleanupTasks;
use vllm_server::openengine::load::CleanupStep;
use vllm_server::openengine::load::ConnectorSessionGuard;
use vllm_server::openengine::load::ConnectorSessions;
use vllm_server::openengine::lora::AdapterPath;
use vllm_server::openengine::lora::LoadStart;
use vllm_server::openengine::lora::LoraManagerServiceImpl;
use vllm_server::openengine::lora::RankResult;
use vllm_server::openengine::messages::EngineRole;
use vllm_server::openengine::messages::GenerateInput;
use vllm_server::openengine::messages::GenerateRequest;
use vllm_server::openengine::service::AbortStep as OpenAbortStep;
use vllm_server::openengine::service::AbortTarget;
use vllm_server::openengine::service::ActivateLoraError;
use vllm_server::openengine::service::ConvertedGenerate;
use vllm_server::openengine::service::DrainUpdate;
use vllm_server::openengine::service::HealthRequest;
use vllm_server::openengine::service::OpenEngineService;
use vllm_server::probe::HealthState;
use vllm_server::probe::ProbeOutcome;
use vllm_server::protocol::handshake::EngineCoreReadyResponse;
use vllm_server::protocol::handshake::ReadyMessage;
use vllm_server::request::SamplingParams;
use vllm_server::request::TextDecodeOptions;
use vllm_server::request::TextRequest;
use vllm_server::state::AppState;
use vllm_server::state::EngineLoad;
use vllm_server::status::Code;
use vllm_server::status::Status;

fn ready() -> EngineCoreReadyResponse {
    EngineCoreReadyResponse {
        max_model_len: 4096,
        num_gpu_blocks: 100,
        block_size: 16,
        dp_stats_address: None,
        dtype: "bfloat16".to_string(),
        vllm_version: "1.0".to_string(),
        instance_id: "instance".to_string(),
        world_size: 1,
        data_parallel_size: 1,
        kv_cache_size_tokens: None,
        kv_cache_max_concurrency: None,
        tensor_parallel_size: 2,
        pipeline_parallel_size: 1,
        decode_context_parallel_size: 1,
        data_parallel_rank: 0,
        max_num_seqs: 8,
        max_num_batched_tokens: 2048,
        kv_connector: None,
        kv_role: None,
        kv_engine_id: None,
        kv_events_publisher: None,
        kv_events_endpoint: None,
        kv_events_replay_endpoint: None,
        kv_events_topic: None,
        kv_events_buffer_steps: 0,
        kv_events_hwm: 0,
        kv_events_max_queue_size: 0,
        kv_events_config: None,
        supports_lora: true,
        max_loras: 4,
    }
}

fn state_of(ready_responses: Vec<EngineCoreReadyResponse>) -> Arc<AppState> {
    Arc::new(AppState {
        model_id: "org/model".to_string(),
        served_model_names: vec!["model".to_string(), "alias".to_string()],
        tokenizer_mode: "auto".to_string(),
        supports_multimodal: false,
        supports_image: false,
        reasoning_parser: Some("deepseek".to_string()),
        tool_call_parser: None,
        max_model_len: 4096,
        total_num_gpu_blocks: 500,
        ready_responses,
    })
}

fn state() -> Arc<AppState> {
    state_of(vec![ready()])
}

fn open_engine() -> OpenEngineService {
    OpenEngineService::new(state(), "node-1".to_string(), "release".to_string()).unwrap()
}

fn text_request(prompt: Prompt) -> TextRequest<u8> {
    TextRequest {
        request_id: "req".to_string(),
        prompt,
        mm_features: None,
        sampling_params: SamplingParams::default(),
        decode_options: TextDecodeOptions {
            skip_special_tokens: true,
            include_stop_str_in_output: false,
            stop_strings: None,
            min_tokens: 0,
        },
        intermediate: true,
        priority: 0,
        cache_salt: None,
        add_special_tokens: true,
        data_parallel_rank: None,
        lora_request: None,
    }
}

fn registered(name: &str, id: u64) -> RegisteredLora {
    RegisteredLora::new(name.to_string(), id, format!("/{name}"), false, false)
}

#[test]
fn nothing_is_taken_once_the_service_drains() {
    let mut service = GenerateServiceImpl::new(state());
    let control = service.control_service();
    let guard = service.enter().ok().unwrap();
    assert!(!service.is_draining());
    let response = control.drain(&mut service.admission);
    assert_eq!(response.state, DrainState::InProgress);
    assert_eq!(response.in_flight_requests, 1);
    assert!(service.is_draining());
    let status = service.enter().err().unwrap();
    assert_eq!(status.code(), Code::Unavailable);
    assert_eq!(status.message(), "gRPC service is draining");
    service.admission.release(guard);
    let response = control.drain(&mut service.admission);
    assert_eq!(response.state, DrainState::Complete);
    assert_eq!(response.in_flight_requests, 0);
}

#[test]
fn media_needs_a_prompt_of_tokens() {
    let service = GenerateServiceImpl::new(state());
    let image = || {
        vec![vllm_server::events::MediaContentPart::ImageUrl {
            url: "http://h/a.png".to_string(),
            detail: None,
            uuid: None,
        }]
    };
    let text = text_request(Prompt::Text("hi".to_string()));
    let status = service.prepare_request("", Ok(image()), Ok(text)).err().unwrap();
    assert_eq!(status.message(), "multimodal gRPC requests must provide token_ids input");
    let tokens = text_request(Prompt::TokenIds(vec![1]));
    let prepared = service.prepare_request("", Ok(image()), Ok(tokens)).ok().unwrap();
    let finished = service.finish_request(prepared, Some(Ok((vec![1, 2, 2], Some(7))))).ok().unwrap();
    assert!(matches!(finished.prompt, Prompt::TokenIds(ids) if ids == [1, 2, 2]));
    assert_eq!(finished.mm_features, Some(7));
    let text = text_request(Prompt::Text("hi".to_string()));
    let prepared = service.prepare_request("", Ok(Vec::new()), Ok(text)).ok().unwrap();
    let finished = service.finish_request(prepared, None).ok().unwrap();
    assert!(matches!(finished.prompt, Prompt::Text(text) if text == "hi"));
    let text = text_request(Prompt::Text("hi".to_string()));
    let status = service.prepare_request("adapter", Ok(Vec::new()), Ok(text)).err().unwrap();
    assert_eq!(status.code(), Code::Unimplemented);
    let refused: Result<TextRequest<u8>, Status> = Err(Status::not_found("model"));
    let status = service.prepare_request("", Ok(Vec::new()), refused).err().unwrap();
    assert_eq!(status.code(), Code::NotFound);
    let prepared = grpc::PreparedRequest {
        text: text_request(Prompt::TokenIds(vec![1])),
        media: image(),
    };
    let status = service.finish_request(prepared, Some(Err("no image".to_string()))).err().unwrap();
    assert_eq!((status.code(), status.message()), (Code::Internal, "no image"));
}

#[test]
fn stream_events_become_messages() {
    let service = GenerateServiceImpl::new(state());
    let start = service.generate_stream::<u8, u8>(Ok(StreamEvent::Start(1))).ok().unwrap();
    assert_eq!((start.prompt_info, start.outputs), (Some(1), None));
    let delta = service.generate_stream::<u8, u8>(Ok(StreamEvent::TextDelta(2))).ok().unwrap();
    assert_eq!((delta.prompt_info, delta.outputs), (None, Some(2)));
    let whole = service.generate::<u8, u8>(Ok((1, 2))).ok().unwrap();
    assert_eq!((whole.prompt_info, whole.outputs), (Some(1), Some(2)));
    let failure =
        |invalid_request| TextFailure { report: "too long".to_string(), invalid_request };
    let status = service.generate_stream::<u8, u8>(Err(failure(true))).err().unwrap();
    assert_eq!((status.code(), status.message()), (Code::InvalidArgument, "too long"));
    let status = service.generate::<u8, u8>(Err(failure(false))).err().unwrap();
    assert_eq!(status.code(), Code::Internal);
}

#[test]
fn control_service_describes_the_server() {
    let mut second = ready();
    second.num_gpu_blocks = 60;
    second.data_parallel_rank = 1;
    let state = state_of(vec![ready(), second]);
    let service = GenerateServiceImpl::new(state.clone()).control_service();
    let info = service.get_server_info();
    assert_eq!(info.total_kv_blocks, 60);
    assert_eq!(info.api_version, "vllm");
    assert_eq!(info.max_loras, 0);
    assert_eq!(info.parallelism.tensor_parallel_size, 2);
    let model = service.get_model_info();
    assert_eq!(model.model_id, "org/model");
    assert_eq!(model.served_model_name, "model");
    assert_eq!(model.served_model_aliases, ["alias"]);
    assert_eq!(model.reasoning_parser, "deepseek");
    assert_eq!(model.tool_call_parser, "");
    assert!(!model.supports_lora);
    let status = service.unsupported(UnsupportedCall::ListLoras);
    assert_eq!((status.code(), status.message()), (Code::Unimplemented, "ListLoras"));
    let status = service.abort(&Vec::new()).err().unwrap();
    assert_eq!(status.message(), "request_ids is required");
    assert!(service.abort(&vec!["r".to_string()]).is_ok());
    assert_eq!(service.finish_abort(Err("gone".to_string())).err().unwrap().message(), "gone");

    let other = control::ControlServiceImpl::new(state);
    let info = other.get_server_info();
    assert_eq!(info.total_kv_blocks, 500);
    assert_eq!(info.max_model_len, 4096);
    assert!(!other.abort(&Vec::new()));
    assert!(other.abort(&vec!["r".to_string()]));
}

#[test]
fn sources_are_listed_in_the_order_of_the_engines() {
    let service = control::ControlServiceImpl::new(state());
    let mut publisher = ready();
    publisher.kv_events_config = Some(vllm_server::protocol::handshake::KvEventsConfig {
        enable_kv_cache_events: true,
        publisher: "zmq".to_string(),
        endpoint: "tcp://*:5557".to_string(),
        replay_endpoint: None,
        topic: "kv".to_string(),
        buffer_steps: 1,
        hwm: 2,
        max_queue_size: 3,
    });
    let engines = vec![
        control::IndexedEngine { rank: Some(1), response: publisher.clone() },
        control::IndexedEngine { rank: Some(2), response: ready() },
        control::IndexedEngine { rank: None, response: publisher },
    ];
    let sources = service.get_kv_event_sources(&engines, "10.0.0.1");
    let ports: Vec<u32> = sources.iter().map(|source| source.endpoint_addr.port).collect();
    assert_eq!(ports, [5558, 5557]);
}

#[test]
fn only_frontend_handlers_pass_while_draining() {
    let mut admission = AdmissionState::default();
    let Passage::Counted(guard) = track_server_load(&mut admission, Some("/v1/completions")) else {
        panic!("expected engine work")
    };
    assert_eq!(admission.in_flight(), 1);
    admission.release(guard);
    assert_eq!(admission.in_flight(), 0);
    admission.begin_drain();
    for handler in [
        "/health",
        "/metrics",
        "/load",
        "/version",
        "/v1/models",
        "/server_info",
        "/tokenize",
        "/detokenize",
    ] {
        assert!(matches!(
            track_server_load(&mut admission, Some(handler)),
            Passage::Uncounted
        ));
    }
    assert!(matches!(track_server_load(&mut admission, None), Passage::Uncounted));
    for handler in ["/v1/completions", "/v1/load_lora_adapter", "/health/"] {
        assert!(matches!(
            track_server_load(&mut admission, Some(handler)),
            Passage::Refused { status: 503, message: "engine is draining" }
        ));
    }
    assert_eq!(admission.in_flight(), 0);
}

#[test]
fn engine_service_answers_aborts() {
    let service = EngineServiceImpl::new(state());
    assert!(matches!(
        service.abort(true, String::new()).unwrap(),
        AbortStep::Answer { status: AbortStatus::Unsupported, .. }
    ));
    assert_eq!(
        service.abort(false, String::new()).unwrap_err().code(),
        Code::InvalidArgument
    );
    assert!(matches!(
        service.abort(false, "r".to_string()).unwrap(),
        AbortStep::Abort { request_id } if request_id == "r"
    ));
    assert_eq!(service.finish_abort(Ok(())).unwrap().0, AbortStatus::Aborted);
    assert!(service.finish_abort(Err("gone".to_string())).is_err());
}

#[test]
fn engine_service_describes_itself() {
    let service = EngineServiceImpl::new(state());
    let info = service.get_engine_info();
    assert_eq!(info.role, EngineRole::Aggregated);
    assert_eq!(info.engine_version, "1.0");
    assert!(!info.kv_connector.enabled);
    let model = service.get_model_info();
    assert_eq!(model.total_kv_blocks, 100);
    assert_eq!(model.kv_block_size, 16);
    assert!(model.supports_lora);
    assert!(service.get_kv_event_sources("10.0.0.1").is_empty());
    let mut admission = AdmissionState::default();
    assert_eq!(service.drain(&mut admission).state, DrainState::Complete);
    assert!(admission.is_draining());
}

#[test]
fn engine_adapters_are_loaded_from_directories() {
    let state = state();
    let adapter = |id, name: &str, path: &str| LoraAdapter {
        lora_id: id,
        lora_name: name.to_string(),
        source_path: path.to_string(),
    };
    let found = |directory| AdapterPath {
        canonical: Ok(b"/real/\xff".to_vec()),
        directory: Ok(directory),
    };
    assert_eq!(
        engine_rpc::lora::load_lora(&state, true, None).unwrap_err().message(),
        "adapter is required"
    );
    assert_eq!(
        engine_rpc::lora::load_lora(&state, false, None).unwrap_err().code(),
        Code::FailedPrecondition
    );
    let mut admission = AdmissionState::default();
    let (request, guard) =
        engine_rpc::lora::start_load(adapter(5, "a", "/link"), found(true), &mut admission)
            .ok()
            .unwrap();
    assert_eq!((request.lora_int_id, request.lora_path.as_str()), (5, "/real/\u{fffd}"));
    admission.release(guard);
    for (adapter, path, message) in [
        (adapter(0, "a", "/l"), found(true), "lora_id must be positive"),
        (adapter(1, " ", "/l"), found(true), "lora_name is required"),
        (adapter(1, "a", "l"), found(true), "source_path must be absolute"),
        (adapter(1, "a", "/l"), found(false), "source_path must be a directory"),
        (
            adapter(1, "a", "/l"),
            AdapterPath { canonical: Err("gone".to_string()), directory: Ok(true) },
            "invalid source_path: gone",
        ),
    ] {
        let status = engine_rpc::lora::normalize_adapter(adapter, path).unwrap_err();
        assert_eq!((status.code(), status.message()), (Code::InvalidArgument, message));
    }
    admission.begin_drain();
    let status = engine_rpc::lora::start_load(adapter(5, "a", "/link"), found(true), &mut admission)
        .err()
        .unwrap();
    assert_eq!((status.code(), status.message()), (Code::Unavailable, "engine is draining"));
}

#[test]
fn engine_adapters_are_listed_by_name() {
    let served = vec![registered("b", 1), registered("c", 2), registered("a", 3)];
    let listed = engine_rpc::lora::list_loras(&state(), true, served).unwrap();
    let names: Vec<&str> = listed.iter().map(|adapter| adapter.lora_name.as_str()).collect();
    assert_eq!(names, ["a", "b", "c"]);
    assert_eq!(listed[0].lora_id, 3);
    let mut admission = AdmissionState::default();
    let served = vec![registered("b", 1)];
    let (id, _) = engine_rpc::lora::unload_lora(&state(), true, "b", &served, &mut admission)
        .ok()
        .unwrap();
    assert_eq!(id, 1);
    let status = engine_rpc::lora::unload_lora(&state(), true, "x", &served, &mut admission)
        .err()
        .unwrap();
    assert_eq!(status.message(), "LoRA adapter `x` is not loaded");
}

#[test]
fn adapter_service_rolls_back_when_a_rank_refuses() {
    let service = LoraManagerServiceImpl::new(state());
    let request = vllm_server::openengine::lora::normalize_adapter(
        LoraAdapter {
            lora_id: 3,
            lora_name: "a".to_string(),
            source_path: "/link".to_string(),
        },
        AdapterPath { canonical: Ok(b"/a".to_vec()), directory: Ok(true) },
    )
    .unwrap();
    let other = vllm_server::protocol::lora::LoraRequest { lora_int_id: 4, ..request.clone() };
    assert!(matches!(
        service.load_lora(request.clone(), None, None),
        Ok(LoadStart::AddLora(_))
    ));
    assert!(matches!(
        service.load_lora(request.clone(), Some(&request), None),
        Ok(LoadStart::AlreadyLoaded(response)) if response.already_loaded
    ));
    assert_eq!(
        service.load_lora(request.clone(), Some(&other), None).unwrap_err().message(),
        "conflicts with loaded LoRA `a` (id 4)"
    );
    assert!(matches!(
        service.finish_load(&request, Ok(vec![true, true])),
        RankResult::Done(response) if !response.already_loaded
    ));
    let RankResult::RollBack(status) = service.finish_load(&request, Ok(vec![true, false])) else {
        panic!("expected a rollback")
    };
    assert_eq!(status.message(), "one or more engine ranks rejected the LoRA");
    assert!(matches!(
        service.finish_unload(&request, Err("gone".to_string())),
        RankResult::RollBack(_)
    ));
    assert_eq!(
        service.unload_lora("zz", None).unwrap_err().message(),
        "LoRA adapter `zz` is not loaded"
    );
}

#[test]
fn open_engine_reports_health() {
    let service = open_engine();
    let request = |role, include_inference_probe| HealthRequest {
        role,
        model: String::new(),
        include_inference_probe,
    };
    let report = service.health(&request(EngineRole::Unspecified, true), true, None, false);
    assert_eq!(report.response.state, HealthState::Ready);
    assert!(report.probe);
    let report = service.health(&request(EngineRole::Unspecified, true), true, None, true);
    assert_eq!(report.response.state, HealthState::Draining);
    assert!(!report.probe);
    let report = service.health(&request(EngineRole::Decode, false), true, None, false);
    assert_eq!(report.response.state, HealthState::NotReady);
    assert_eq!(report.response.checks[1].message, "expected Decode, serving Aggregated");
    let report = service.health(
        &request(EngineRole::Unspecified, false),
        false,
        Some("dead".to_string()),
        false,
    );
    assert_eq!(report.response.state, HealthState::NotReady);
    assert_eq!(report.response.checks[0].message, "dead");
    assert_eq!(service.finish_probe(ProbeOutcome::Completed).0, HealthState::Ready);
    assert_ne!(
        service.finish_probe(ProbeOutcome::Failed("x".to_string())).0,
        HealthState::Ready
    );
}

#[test]
fn open_engine_drains() {
    let service = open_engine();
    let mut admission = AdmissionState::default();
    let guard = admission.try_admit().unwrap();
    assert_eq!(service.drain(&mut admission), [DrainUpdate::Started { in_flight: 1 }]);
    assert_eq!(service.drain_progress(&admission), None);
    admission.release(guard);
    assert_eq!(service.drain_progress(&admission), Some(DrainUpdate::Complete));
    assert!(admission.try_admit().is_none());
}

#[test]
fn open_engine_aborts_named_requests_only() {
    let service = open_engine();
    for target in [
        AbortTarget::RequestId("r".to_string()),
        AbortTarget::KvSession { session_id: "r".to_string() },
    ] {
        let Ok(OpenAbortStep::Abort { ids }) = service.abort(target) else {
            panic!("expected an abort")
        };
        assert_eq!(ids, ["r"]);
    }
    for target in [
        AbortTarget::Unset,
        AbortTarget::RequestId(String::new()),
        AbortTarget::KvSession { session_id: String::new() },
    ] {
        let status = service.abort(target).err().unwrap();
        assert_eq!(
            (status.code(), status.message()),
            (Code::InvalidArgument, "abort target is required")
        );
    }
    assert_eq!(service.finish_abort(Ok(())).unwrap(), (AbortStatus::Aborted, String::new()));
    let status = service.finish_abort(Err("gone".to_string())).err().unwrap();
    assert_eq!((status.code(), status.message()), (Code::Internal, "gone"));
    assert_eq!(
        service.subscribe_kv_events().code(),
        Code::Unimplemented
    );
    assert_eq!(service.subscribe_runtime_events().code(), Code::Unimplemented);
}

#[test]
fn an_abort_of_all_requests_is_unsupported() {
    let Ok(OpenAbortStep::Answer { status, message }) =
        open_engine().abort(AbortTarget::AllRequests)
    else {
        panic!("expected an answer")
    };
    assert_eq!((status, message.as_str()), (AbortStatus::Unsupported, "abort_all is not supported"));
}

#[test]
fn unsupported_role_stops_the_service() {
    let mut engine = ready();
    engine.kv_role = Some("kv_both".to_string());
    let error =
        OpenEngineService::new(state_of(vec![engine]), "h".to_string(), "r".to_string())
            .err()
            .unwrap();
    assert_eq!(error, "vLLM OpenEngine does not support KV role `kv_both`");
}

fn engine_load(engine_index: u32, update_generation: u64, running: u64) -> EngineLoad {
    EngineLoad {
        engine_index,
        update_generation,
        frontend_inflight: 0,
        running_requests: running,
        queued_requests: 0,
        kv_cache_usage: Some(Binary64 { bits: 0.5f64.to_bits() }),
    }
}

#[test]
fn cleanup_waits_for_a_new_idle_report() {
    let busy = vec![engine_load(0, 7, 1)];
    let baseline = active_scheduler_baseline(&busy);
    assert_eq!(baseline.into_iter().collect::<Vec<_>>(), [(0, 7)]);
    let baseline = active_scheduler_baseline(&busy);
    let mut tasks = AbortCleanupTasks::new();
    assert!(tasks.track(&baseline));
    assert_eq!(tasks.pending(), 1);
    assert!(!is_cleaned(&baseline, &busy));
    assert!(matches!(tasks.step(&baseline, &vec![engine_load(0, 7, 0)]), CleanupStep::Wait));
    assert!(matches!(tasks.step(&baseline, &vec![engine_load(0, 8, 0)]), CleanupStep::Done));
    tasks.finish();
    assert_eq!(tasks.pending(), 0);
    tasks.shutdown();
    assert!(!tasks.track(&baseline));
}

#[test]
fn pending_cleanup_counts_as_load() {
    let service = open_engine();
    let mut sessions = ConnectorSessions::new();
    let guard = ConnectorSessionGuard::new(&mut sessions);
    let mut cleanups = AbortCleanupTasks::new();
    let idle = vec![engine_load(0, 1, 0)];
    let info = service.get_load(&vec![0], &idle, 0, &sessions, &cleanups, true, Some(5));
    assert_eq!(info.running_requests, Some(0));
    assert_eq!(info.used_kv_blocks, Some(50));
    assert_eq!(info.total_kv_blocks, Some(100));
    assert_eq!(info.ranks.len(), 1);
    assert_eq!(info.timestamp_unix_nanos, Some(5));
    cleanups.track(&[(0, 1)].into_iter().collect());
    let info = service.get_load(&vec![0], &idle, 0, &sessions, &cleanups, false, None);
    assert_eq!(info.running_requests, Some(1));
    assert!(info.ranks.is_empty());
    guard.end(&mut sessions);
    assert_eq!(sessions.active(), 0);
}

#[test]
fn adapter_directories_are_checked() {
    let source = |config: Result<&[u8], &str>, is_dir, has_safetensors, has_bin| {
        Ok(LoraSource {
            path: b"/lora".to_vec(),
            is_dir,
            config: config.map(|bytes| bytes.to_vec()).map_err(str::to_string),
            has_safetensors,
            has_bin,
        })
    };
    let message = |source: &Result<LoraSource, String>| {
        let status = validate_lora_source("/link", source).unwrap_err();
        assert_eq!(status.code(), Code::InvalidArgument);
        status.message().to_string()
    };
    assert_eq!(
        validate_lora_source("/link", &source(Ok(b"{}"), true, true, false)).unwrap(),
        "/lora"
    );
    assert!(validate_lora_source("/link", &source(Ok(b"{}"), true, false, true)).is_ok());
    assert_eq!(
        message(&Err("gone".to_string())),
        "adapter source_path `/link` is not accessible: gone"
    );
    assert_eq!(
        message(&source(Ok(b"{}"), false, true, true)),
        "adapter source_path must be a directory"
    );
    assert_eq!(
        message(&source(Err("denied"), true, true, true)),
        "LoRA directory is missing readable adapter_config.json at \
         `/lora/adapter_config.json`: denied"
    );
    let fault = serde_json::from_slice::<serde_json::Value>(b"{").unwrap_err();
    assert_eq!(
        message(&source(Ok(b"{"), true, true, true)),
        format!("LoRA adapter_config.json at `/lora/adapter_config.json` is invalid: {fault}")
    );
    assert_eq!(
        message(&source(Ok(b"[]"), true, true, true)),
        "LoRA adapter_config.json at `/lora/adapter_config.json` must contain a JSON object"
    );
    assert_eq!(
        message(&source(Ok(b"{}"), true, false, false)),
        "LoRA directory `/lora` is missing adapter_model.safetensors or adapter_model.bin"
    );
}

#[test]
fn ready_message_defaults_to_nothing() {
    let message = ReadyMessage::default();
    assert!(message.status.is_none());
    assert!(message.local.is_none());
    assert!(message.headless.is_none());
    assert!(message.parallel_config_hash.is_none());
}

#[test]
fn engine_service_prepares_media_for_tokens_only() {
    let service = EngineServiceImpl::new(state());
    let image = || vllm_server::events::MediaContentPart::ImageUrl {
        url: "http://h/a.png".to_string(),
        detail: None,
        uuid: None,
    };
    let started = |prompt, media, role| engine_rpc::service::StartedGenerate {
        text: text_request(prompt),
        lora_name: String::new(),
        resolved: None,
        media,
        role,
        handoff_dp_rank: 0,
    };
    let tokens = || Prompt::TokenIds(vec![1]);
    let text = started(Prompt::Text("hi".to_string()), vec![image()], EngineRole::Aggregated);
    let status = service.check_media(&text).err().unwrap();
    assert_eq!(status.code(), Code::InvalidArgument);
    assert_eq!(
        status.message(),
        "multimodal engine RPC requests must provide token_ids input; placeholder markers are expanded engine-side"
    );
    assert_eq!(service.step(&text).err().unwrap().message(), status.message());
    let marked = started(tokens(), vec![image()], EngineRole::Prefill);
    assert!(service.check_media(&marked).unwrap());
    assert_eq!(service.step(&marked).ok(), Some(GenerateStep::PrepareMedia));
    let finished = service.finish_generate(marked, Some(Ok((vec![1, 2], Some(9))))).ok().unwrap();
    assert!(matches!(&finished.prompt, Prompt::TokenIds(ids) if ids == &[1, 2]));
    assert_eq!(finished.mm_features, Some(9));
    let marked = finished.sampling_params.vllm_xargs.unwrap();
    assert_eq!(marked[0].name, "kv_transfer_params");
    let plain = started(tokens(), Vec::new(), EngineRole::Aggregated);
    assert_eq!(service.step(&plain).ok(), Some(GenerateStep::AskEngine));
    let finished = service.finish_generate(plain, None).ok().unwrap();
    assert!(finished.sampling_params.vllm_xargs.is_none());
    let failed = started(tokens(), vec![image()], EngineRole::Aggregated);
    let status = service.finish_generate(failed, Some(Err("no image".to_string()))).err().unwrap();
    assert_eq!((status.code(), status.message()), (Code::Internal, "no image"));
}

#[test]
fn engine_service_resolves_adapters_before_it_asks_the_ranks() {
    let service = EngineServiceImpl::new(state());
    let started = || engine_rpc::service::StartedGenerate {
        text: text_request(Prompt::TokenIds(vec![1])),
        lora_name: "a".to_string(),
        resolved: None,
        media: Vec::new(),
        role: EngineRole::Aggregated,
        handoff_dp_rank: 0,
    };
    assert_eq!(service.step(&started()).ok(), Some(GenerateStep::ResolveLora));
    let resolved = service.resolve_lora(started(), Some(registered("a", 3)));
    assert_eq!(service.step(&resolved).ok(), Some(GenerateStep::CheckConsistency));
    let attached = service.attach_lora(resolved, true).ok().unwrap();
    assert_eq!(service.step(&attached).ok(), Some(GenerateStep::AskEngine));
    let text = service.finish_generate(attached, None).ok().unwrap();
    assert_eq!(text.lora_request.unwrap().lora_int_id, 3);
    let resolved = service.resolve_lora(started(), Some(registered("a", 3)));
    let status = service.attach_lora(resolved, false).err().unwrap();
    assert_eq!(
        (status.code(), status.message()),
        (Code::FailedPrecondition, "LoRA state differs across engine ranks; restart the engine")
    );
    let resolved = service.resolve_lora(started(), None);
    let status = service.attach_lora(resolved, true).err().unwrap();
    assert_eq!(
        (status.code(), status.message()),
        (Code::NotFound, "LoRA adapter `a` is not loaded")
    );
}

#[test]
fn open_engine_asks_for_the_adapter_of_a_request() {
    let service = open_engine();
    let converted = |lora_name: &str| ConvertedGenerate {
        text: text_request(Prompt::TokenIds(vec![1])),
        lora_name: lora_name.to_string(),
        handoff_dp_rank: 0,
    };
    let text = service.finish_generate(converted(""), None).ok().unwrap();
    assert!(text.lora_request.is_none());
    let text = service.finish_generate(converted("a"), Some(Ok(registered("a", 3)))).ok().unwrap();
    assert_eq!(text.lora_request.unwrap().lora_int_id, 3);
    let failed = ActivateLoraError::NotFound { lora_name: "a".to_string() };
    let status = service.finish_generate(converted("a"), Some(Err(failed))).err().unwrap();
    assert_eq!(
        (status.code(), status.message()),
        (Code::NotFound, "LoRA adapter `a` is not registered")
    );
    let mut without = ready();
    without.supports_lora = false;
    let service = OpenEngineService::new(
        state_of(vec![without]),
        "node-1".to_string(),
        "release".to_string(),
    )
    .unwrap();
    let started = |lora_name: &str| {
        let request = GenerateRequest {
            model: "model".to_string(),
            lora_name: lora_name.to_string(),
            input: Some(GenerateInput::TokenIds(vec![1])),
            ..Default::default()
        };
        let metadata = tonic::metadata::MetadataMap::new();
        service.generate(&mut AdmissionState::default(), &metadata, request).ok().unwrap().0
    };
    assert!(service.convert_request::<u8>(started(""), None).is_ok());
    let status = service.convert_request::<u8>(started("a"), None).err().unwrap();
    assert_eq!(
        (status.code(), status.message()),
        (Code::FailedPrecondition, "vLLM was not started with dynamic LoRA support")
    );
}

#[test]
fn open_engine_answers_adapter_requests() {
    let service = open_engine();
    let response = service.finish_load_lora(Ok((registered("a", u64::MAX), true))).ok().unwrap();
    assert!(response.already_loaded);
    assert_eq!((response.adapter.lora_id, response.adapter.lora_name.as_str()), (i64::MAX, "a"));
    let status = service
        .finish_load_lora(Err(RegisterLoraError::BaseModelName { lora_name: "model".to_string() }))
        .err()
        .unwrap();
    assert_eq!(status.code(), Code::AlreadyExists);
    let status = unload_status(
        &UnregisterLoraError::NotFound { lora_name: "b".to_string() },
        "described",
    );
    assert_eq!(
        (status.code(), status.message()),
        (Code::NotFound, "LoRA adapter `b` is not registered")
    );
    let status = unload_status(&UnregisterLoraError::Engine("gone".to_string()), "described");
    assert_eq!((status.code(), status.message()), (Code::Internal, "described"));
    assert!(!service.needs_lora("").unwrap());
    assert!(service.needs_lora("a").unwrap());
    let mut without = ready();
    without.supports_lora = false;
    let service = OpenEngineService::new(
        state_of(vec![ready(), without]),
        "node-1".to_string(),
        "release".to_string(),
    )
    .unwrap();
    assert!(!service.needs_lora("").unwrap());
    assert_eq!(service.needs_lora("a").unwrap_err().code(), Code::FailedPrecondition);
}

#[test]
fn adapter_service_needs_an_adapter_and_support() {
    let service = LoraManagerServiceImpl::new(state());
    let status = service.check_load(None).unwrap_err();
    assert_eq!((status.code(), status.message()), (Code::InvalidArgument, "adapter is required"));
    let adapter = LoraAdapter {
        lora_id: 3,
        lora_name: "a".to_string(),
        source_path: "/link".to_string(),
    };
    assert_eq!(service.check_load(Some(adapter)).unwrap().lora_id, 3);
    let mut without = ready();
    without.supports_lora = false;
    let service = LoraManagerServiceImpl::new(state_of(vec![without]));
    assert_eq!(service.check_load(None).unwrap_err().code(), Code::FailedPrecondition);
}

#[test]
fn only_engines_that_hand_over_count_sessions() {
    let mut sessions = ConnectorSessions::new();
    assert!(open_engine().begin_session(&mut sessions).is_none());
    assert_eq!(sessions.active(), 0);
    let mut prefill = ready();
    prefill.kv_role = Some("kv_producer".to_string());
    prefill.kv_connector = Some("NixlConnector".to_string());
    let service = OpenEngineService::new(
        state_of(vec![prefill]),
        "node-1".to_string(),
        "release".to_string(),
    )
    .unwrap();
    let guard = service.begin_session(&mut sessions).unwrap();
    assert_eq!(sessions.active(), 1);
    guard.end(&mut sessions);
    assert_eq!(sessions.active(), 0);
}

fn decode_options() -> TextDecodeOptions {
    TextDecodeOptions {
        skip_special_tokens: true,
        include_stop_str_in_output: false,
        stop_strings: None,
        min_tokens: 0,
    }
}

fn check_probe(request: TextRequest<u8>, prefix: &str) {
    assert_eq!(request.request_id.strip_prefix(prefix).unwrap().len(), 36);
    assert!(matches!(request.prompt, Prompt::Text(text) if text == "hi"));
    assert_eq!(request.sampling_params.temperature, Some(Binary64 { bits: 0 }));
    assert_eq!(request.sampling_params.max_tokens, Some(1));
    assert_eq!(request.sampling_params.top_k, None);
    assert!(request.decode_options.skip_special_tokens);
    assert!(!request.intermediate);
    assert_eq!((request.priority, request.data_parallel_rank), (0, None));
    assert!(request.lora_request.is_none());
}

#[test]
fn probes_ask_for_one_token() {
    let mut admission = AdmissionState::default();
    let start =
        open_engine().run_inference_probe::<u8>(&mut admission, "model", decode_options());
    let vllm_server::openengine::service::ProbeStart::Run(request, guard) = start else {
        panic!("expected a probe")
    };
    check_probe(request, "openengine-health-");
    admission.release(guard);
    let start =
        open_engine().run_inference_probe::<u8>(&mut admission, "other", decode_options());
    let vllm_server::openengine::service::ProbeStart::Decided(state, message) = start else {
        panic!("expected a decision")
    };
    assert_eq!((state, message.as_str()), (HealthState::Degraded, "model `other` not found"));
    let service = EngineServiceImpl::new(state_of(vec![ready()]));
    let start = service.run_inference_probe::<u8>("alias", decode_options());
    let engine_rpc::service::ProbeStart::Run(request) = start else {
        panic!("expected a probe")
    };
    check_probe(request, "engine_rpc-health-");
}
