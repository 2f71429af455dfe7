use vllm_server::control::kv_event_source;
use vllm_server::endpoints::kv_endpoint_from_zmq;
use vllm_server::engine_rpc::service::build_kv_event_sources;
use vllm_server::openengine::endpoints::connectable_zmq_uri;
use vllm_server::openengine::endpoints::offset_endpoint_port;
use vllm_server::openengine::endpoints::parse_zmq_endpoint;
use vllm_server::openengine::endpoints::per_rank_kv_blocks;
use vllm_server::openengine::endpoints::routable_host;
use vllm_server::protocol::handshake::EngineCoreReadyResponse;
use vllm_server::protocol::handshake::KvEventsConfig;

fn ready() -> EngineCoreReadyResponse {
    EngineCoreReadyResponse {
        max_model_len: 4096,
        num_gpu_blocks: 100,
        block_size: 16,
        dp_stats_address: None,
        dtype: "bfloat16".to_string(),
        vllm_version: "1.0".to_string(),
        instance_id: "instance".to_string(),
        world_size: 1,
        data_parallel_size: 1,
        kv_cache_size_tokens: None,
        kv_cache_max_concurrency: None,
        tensor_parallel_size: 1,
        pipeline_parallel_size: 1,
        decode_context_parallel_size: 1,
        data_parallel_rank: 0,
        max_num_seqs: 8,
        max_num_batched_tokens: 2048,
        kv_connector: None,
        kv_role: None,
        kv_engine_id: None,
        kv_events_publisher: None,
        kv_events_endpoint: None,
        kv_events_replay_endpoint: None,
        kv_events_topic: None,
        kv_events_buffer_steps: 0,
        kv_events_hwm: 0,
        kv_events_max_queue_size: 0,
        kv_events_config: None,
        supports_lora: false,
        max_loras: 0,
    }
}

fn ready_with_kv_events(
    dp_rank: u32,
    publisher: Option<&str>,
    endpoint: Option<&str>,
) -> EngineCoreReadyResponse {
    EngineCoreReadyResponse {
        data_parallel_rank: dp_rank,
        kv_events_publisher: publisher.map(str::to_string),
        kv_events_endpoint: endpoint.map(str::to_string),
        kv_events_topic: Some("kv".to_string()),
        ..ready()
    }
}

fn config(endpoint: &str) -> KvEventsConfig {
    KvEventsConfig {
        enable_kv_cache_events: true,
        publisher: "zmq".to_string(),
        endpoint: endpoint.to_string(),
        replay_endpoint: Some("tcp://*:6000".to_string()),
        topic: "kv".to_string(),
        buffer_steps: 10,
        hwm: 20,
        max_queue_size: 30,
    }
}

#[test]
fn per_rank_event_port_matches_vllm_publisher() {
    assert_eq!(offset_endpoint_port("tcp://*:5557", 0), "tcp://*:5557");
    assert_eq!(offset_endpoint_port("tcp://*:5557", 2), "tcp://*:5559");
}

#[test]
fn wildcard_event_endpoint_is_connectable() {
    let endpoint = parse_zmq_endpoint("tcp://*:5557", "10.1.2.3").unwrap();
    assert_eq!(endpoint.host, "10.1.2.3");
    assert_eq!(endpoint.port, 5557);
}

#[test]
fn per_rank_kv_blocks_divides_aggregate_by_dp_size() {
    assert_eq!(per_rank_kv_blocks(1000, 1), 1000);
    assert_eq!(per_rank_kv_blocks(1000, 0), 1000);
    assert_eq!(per_rank_kv_blocks(1000, 4), 250);
    assert_eq!(per_rank_kv_blocks(1001, 4), 250);
    assert_eq!(per_rank_kv_blocks(0, 8), 0);
    assert_eq!(per_rank_kv_blocks(3, 8), 1);
}

#[test]
fn offset_endpoint_port_matches_vllm_convention() {
    assert_eq!(offset_endpoint_port("tcp://*:5557", 0), "tcp://*:5557");
    assert_eq!(offset_endpoint_port("tcp://*:5557", 1), "tcp://*:5558");
    assert_eq!(offset_endpoint_port("tcp://127.0.0.1:5557", 7), "tcp://127.0.0.1:5564");
    assert_eq!(offset_endpoint_port("inproc://cache", 3), "inproc://cache_dp3");
    assert_eq!(offset_endpoint_port("", 5), "");
}

#[test]
fn kv_event_sources_fall_back_to_per_rank_publishers() {
    let r0 = ready_with_kv_events(0, Some("zmq"), Some("tcp://*:5557"));
    let r1 = ready_with_kv_events(1, Some("zmq"), Some("tcp://*:5557"));
    let sources = build_kv_event_sources(&vec![(0, &r0), (1, &r1)], "10.0.0.1");
    let ports: Vec<u32> = sources.iter().map(|source| source.endpoint_addr.port).collect();
    assert_eq!(ports, vec![5557, 5558]);
}

#[test]
fn kv_event_sources_are_empty_without_any_publisher() {
    let ready = ready_with_kv_events(0, None, None);
    assert!(build_kv_event_sources(&vec![(0, &ready)], "10.0.0.1").is_empty());
}

#[test]
fn other_schemes_keep_their_endpoint() {
    assert_eq!(offset_endpoint_port("ipc:///tmp/kv", 3), "ipc:///tmp/kv");
    assert_eq!(offset_endpoint_port("tcp://host", 3), "tcp://host");
    assert_eq!(offset_endpoint_port("tcp://*:4294967295", 3), "tcp://*:4294967295");
}

#[test]
fn only_the_scheme_decides_where_the_rank_goes() {
    let offset = vllm_server::endpoints::offset_endpoint_port;
    assert_eq!(offset("tcp://inproc-host:5557", 1), "tcp://inproc-host:5558");
    assert_eq!(offset("ipc:///tmp/tcp:5557", 1), "ipc:///tmp/tcp:5557");
    assert_eq!(offset("inproc://cache", 3), "inproc://cache_dp3");
    assert_eq!(offset("tcp://*:5557", 2), "tcp://*:5559");
    assert_eq!(offset("tcp://*:4294967295", 0), "tcp://*:4294967295");
    assert_eq!(offset("", 5), "");
}

#[test]
fn control_service_looks_for_the_transport_anywhere() {
    let offset = vllm_server::control::offset_endpoint_port;
    assert_eq!(offset("tcp://inproc-host:5557", 1), "tcp://inproc-host:5557_dp1");
    assert_eq!(offset("ipc:///tmp/tcp:5557", 1), "ipc:///tmp/tcp:5558");
    assert_eq!(offset("ipc:///tmp/kv", 3), "ipc:///tmp/kv");
}

#[test]
fn ranks_have_endpoints_of_their_own() {
    for endpoint in ["tcp://*:5557", "inproc://cache"] {
        let shifted: Vec<String> = (0..4)
            .map(|rank| vllm_server::endpoints::offset_endpoint_port(endpoint, rank))
            .collect();
        for i in 0..4 {
            for j in 0..i {
                assert_ne!(shifted[i], shifted[j]);
            }
        }
    }
}

#[test]
fn connectable_uri_names_the_same_address() {
    let uri = connectable_zmq_uri("tcp://[fe80::1]:5557", "10.0.0.1").unwrap();
    assert_eq!(uri, "tcp://[fe80::1]:5557");
    let back = parse_zmq_endpoint(&uri, "ignored").unwrap();
    assert_eq!((back.host.as_str(), back.port), ("fe80::1", 5557));
    assert_eq!(
        connectable_zmq_uri("tcp://*:5557", "10.0.0.1").unwrap(),
        "tcp://10.0.0.1:5557"
    );
    assert!(connectable_zmq_uri("inproc://cache", "10.0.0.1").is_none());
}

#[test]
fn configured_host_wins_unless_it_is_a_wildcard() {
    assert_eq!(routable_host("node-1", "10.0.0.1"), "node-1");
    for wildcard in ["", "*", "0.0.0.0", "::"] {
        assert_eq!(routable_host(wildcard, "10.0.0.1"), "10.0.0.1");
    }
}

#[test]
fn publisher_endpoint_needs_a_port() {
    let address = kv_endpoint_from_zmq("tcp://[::]:5557", "10.0.0.1").unwrap();
    assert_eq!((address.host.as_str(), address.port), ("10.0.0.1", 5557));
    let address = kv_endpoint_from_zmq("node-1:80", "10.0.0.1").unwrap();
    assert_eq!((address.host.as_str(), address.port), ("node-1", 80));
    assert!(kv_endpoint_from_zmq("tcp://node-1", "10.0.0.1").is_none());
    assert!(kv_endpoint_from_zmq("tcp://node-1:x", "10.0.0.1").is_none());
}

#[test]
fn configured_publisher_is_a_source() {
    let mut response = ready();
    response.kv_events_config = Some(config("tcp://*:5557"));
    let source = kv_event_source(&response, Some(2), "10.0.0.1").unwrap();
    assert_eq!(source.endpoint_addr.host, "10.0.0.1");
    assert_eq!(source.endpoint_addr.port, 5559);
    assert_eq!(source.endpoint_addr.protocol, "tcp");
    assert_eq!(source.replay_endpoint, "tcp://*:6002");
    assert_eq!(source.data_parallel_rank, Some(2));
    assert_eq!(source.transport, "zmq");
    assert_eq!(source.encoding, "msgpack");
    assert_eq!(source.schema_version, 1);
    assert_eq!((source.buffer_steps, source.hwm, source.max_queue_size), (10, 20, 30));
    let unranked = kv_event_source(&response, None, "10.0.0.1").unwrap();
    assert_eq!(unranked.endpoint_addr.port, 5557);
    assert_eq!(unranked.data_parallel_rank, None);
}

#[test]
fn publisher_that_is_off_or_unknown_is_no_source() {
    let mut response = ready();
    assert!(kv_event_source(&response, None, "h").is_none());
    response.kv_events_config = Some(KvEventsConfig {
        enable_kv_cache_events: false,
        ..config("tcp://*:5557")
    });
    assert!(kv_event_source(&response, None, "h").is_none());
    response.kv_events_config =
        Some(KvEventsConfig { publisher: "null".to_string(), ..config("tcp://*:5557") });
    assert!(kv_event_source(&response, None, "h").is_none());
    response.kv_events_config = Some(config("tcp://nowhere"));
    assert!(kv_event_source(&response, None, "h").is_none());
}

#[test]
fn shifted_publishers_stay_apart() {
    for endpoint in ["tcp://*:5557", "inproc://cache:1"] {
        let shifted: Vec<String> =
            (0..4).map(|rank| offset_endpoint_port(endpoint, rank)).collect();
        for i in 0..4 {
            for j in 0..i {
                assert_ne!(shifted[i], shifted[j]);
            }
        }
    }
}

#[test]
fn shares_add_up_to_no_more_than_the_aggregate() {
    for (aggregate, ranks) in [(1000, 3), (8, 8), (17, 4)] {
        let share = per_rank_kv_blocks(aggregate, ranks);
        assert!(share > 0);
        assert!(share * ranks <= aggregate);
    }
}

#[test]
fn no_wildcard_is_advertised() {
    for endpoint in ["tcp://*:1", "tcp://0.0.0.0:1", "tcp://[::]:1", "tcp://:1"] {
        let found = parse_zmq_endpoint(endpoint, "10.0.0.1").unwrap();
        assert_eq!((found.host.as_str(), found.port), ("10.0.0.1", 1));
    }
}

#[test]
fn ports_of_silent_publishers_do_not_matter() {
    let silent = ready_with_kv_events(7, None, Some("tcp://*:4294967295"));
    assert!(build_kv_event_sources(&vec![(7, &silent)], "10.0.0.1").is_empty());
}
