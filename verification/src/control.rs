//! The gRPC control service of a deployment that publishes KV events.

use std::sync::Arc;

use vstd::prelude::*;

use crate::endpoints::add_rank;
use crate::endpoints::kv_endpoint_from_zmq;
use crate::endpoints::places_keep_ranks_apart;
use crate::endpoints::port_fits;
use crate::endpoints::publisher_address;
use crate::endpoints::rank_moves_the_port;
use crate::endpoints::shows_rank;
use crate::endpoints::with_rank;
use crate::endpoints::RankPlace;
use crate::grpc::GRPC_API_VERSION;
use crate::openengine::messages::KvEndpoint;
use crate::protocol::handshake::EngineCoreReadyResponse;
use crate::protocol::handshake::KvEventsConfig;
use crate::state::cap;
use crate::state::capped;
use crate::state::copy_or_empty;
use crate::state::text_or_empty;
use crate::state::AppState;
use crate::status::Code;
use crate::status::Status;
use crate::text::contains;
use crate::text::decimal;
use crate::text::occurs_at;
use crate::text::occurs_in;
use crate::text::same;

verus! {

/// The service that controls the engines.
pub struct ControlServiceImpl {
    pub state: Arc<AppState>,
}

/// How the engines share the work.
#[derive(Clone, Copy, Debug, PartialEq, Eq, Structural)]
pub struct ParallelismInfo {
    pub tensor_parallel_size: u32,
    pub pipeline_parallel_size: u32,
    pub data_parallel_size: u32,
    pub data_parallel_rank: u32,
    pub decode_context_parallel_size: u32,
}

/// What a server tells of itself.
#[derive(Debug)]
pub struct ServerInfo {
    pub engine_version: String,
    pub api_version: String,
    pub instance_id: String,
    pub parallelism: ParallelismInfo,
    pub max_model_len: u32,
    pub kv_block_size: u32,
    pub total_kv_blocks: u64,
    pub max_running_requests: u64,
    pub max_batched_tokens: u64,
}

/// What a server tells of its model.
#[derive(Debug)]
pub struct ModelInfo {
    pub model_id: String,
    pub served_model_name: String,
    pub served_model_aliases: Vec<String>,
    pub supports_text_input: bool,
    pub supports_token_ids_input: bool,
    pub supports_multimodal: bool,
    pub reasoning_parser: String,
    pub tool_call_parser: String,
}

/// A source of KV events.
#[derive(Debug)]
pub struct KvEventSource {
    pub transport: String,
    pub endpoint_addr: KvEndpoint,
    pub topic: String,
    pub replay_endpoint: String,
    pub data_parallel_rank: Option<u32>,
    pub encoding: String,
    pub schema_version: u32,
    pub buffer_steps: u32,
    pub hwm: u32,
    pub max_queue_size: u32,
}

/// The rank that an engine publishes at; one without a rank publishes at the base endpoint.
pub open spec fn rank_or_zero(rank: Option<u32>) -> u32 {
    match rank {
        Some(rank) => rank,
        None => 0,
    }
}

/// Where the rank goes in an endpoint: to the name where it speaks of `inproc`, to the port where
/// it speaks of `tcp`, and nowhere otherwise.
pub open spec fn spoken_place(endpoint: Seq<char>) -> RankPlace {
    if occurs_in(endpoint, "inproc"@) {
        RankPlace::Name
    } else if occurs_in(endpoint, "tcp"@) {
        RankPlace::Port
    } else {
        RankPlace::Nowhere
    }
}

/// The endpoint of a publisher that binds one port per rank.
pub open spec fn offset_endpoint(endpoint: Seq<char>, data_parallel_rank: u32) -> Seq<char> {
    with_rank(endpoint, spoken_place(endpoint), data_parallel_rank)
}

/// The rank can be added to the port of the endpoint, where there is a port that it is added to.
pub open spec fn offset_fits(endpoint: Seq<char>, data_parallel_rank: u32) -> bool {
    port_fits(endpoint, spoken_place(endpoint), data_parallel_rank)
}

/// Adds the data-parallel rank to the endpoint of a publisher. Rank 0 and an empty endpoint leave
/// it as it is, and so does an endpoint that speaks of neither `inproc` nor `tcp`.
pub fn offset_endpoint_port(endpoint: &str, data_parallel_rank: u32) -> (shifted: String)
    requires
        offset_fits(endpoint@, data_parallel_rank),
    ensures
        shifted@ == offset_endpoint(endpoint@, data_parallel_rank),
{
    let place = if contains(endpoint, "inproc") {
        RankPlace::Name
    } else if contains(endpoint, "tcp") {
        RankPlace::Port
    } else {
        RankPlace::Nowhere
    };
    add_rank(endpoint, place, data_parallel_rank)
}

/// The publisher of an engine that publishes over ZeroMQ.
pub open spec fn zmq_publisher(response: EngineCoreReadyResponse) -> Option<KvEventsConfig> {
    match response.kv_events_config {
        Some(config) => if config.enable_kv_cache_events && config.publisher@ == "zmq"@ {
            Some(config)
        } else {
            None
        },
        None => None,
    }
}

/// The address that the events of an engine can be had at.
pub open spec fn event_address(
    response: EngineCoreReadyResponse,
    rank: Option<u32>,
    host: Seq<char>,
) -> Option<(Seq<char>, u32)> {
    match zmq_publisher(response) {
        Some(config) => publisher_address(
            offset_endpoint(config.endpoint@, rank_or_zero(rank)),
            host,
        ),
        None => None,
    }
}

/// The source is that of the engine.
pub open spec fn is_source_of(
    source: KvEventSource,
    response: EngineCoreReadyResponse,
    rank: Option<u32>,
    host: Seq<char>,
) -> bool {
    zmq_publisher(response) matches Some(config) && {
        &&& source.transport@ == "zmq"@
        &&& event_address(response, rank, host) == Some(
            (source.endpoint_addr.host@, source.endpoint_addr.port),
        )
        &&& source.endpoint_addr.protocol@ == "tcp"@
        &&& source.topic == config.topic
        &&& source.replay_endpoint@ == (match config.replay_endpoint {
            Some(endpoint) => offset_endpoint(endpoint@, rank_or_zero(rank)),
            None => ""@,
        })
        &&& source.data_parallel_rank == rank
        &&& source.encoding@ == "msgpack"@
        &&& source.schema_version == 1
        &&& source.buffer_steps == config.buffer_steps
        &&& source.hwm == config.hwm
        &&& source.max_queue_size == config.max_queue_size
    }
}

/// The rank can be added to the ports of the endpoints that the engine publishes on.
pub open spec fn rank_fits(response: EngineCoreReadyResponse, rank: Option<u32>) -> bool {
    zmq_publisher(response) matches Some(config) ==> {
        &&& offset_fits(config.endpoint@, rank_or_zero(rank))
        &&& config.replay_endpoint matches Some(endpoint) ==> offset_fits(
            endpoint@,
            rank_or_zero(rank),
        )
    }
}

/// Describes where the KV events of an engine can be had, with `advertise_host` in place of a
/// host that stands for every address.
pub fn kv_event_source(
    response: &EngineCoreReadyResponse,
    data_parallel_rank: Option<u32>,
    advertise_host: &str,
) -> (source: Option<KvEventSource>)
    requires
        rank_fits(*response, data_parallel_rank),
    ensures
        match source {
            Some(source) => is_source_of(source, *response, data_parallel_rank, advertise_host@),
            None => event_address(*response, data_parallel_rank, advertise_host@) is None,
        },
{
    let config = match &response.kv_events_config {
        Some(config) => config,
        None => {
            return None;
        },
    };
    if !config.enable_kv_cache_events || !same(config.publisher.as_str(), "zmq") {
        return None;
    }
    let rank: u32 = match data_parallel_rank {
        Some(rank) => rank,
        None => 0,
    };
    let endpoint = offset_endpoint_port(config.endpoint.as_str(), rank);
    let replay_endpoint = match &config.replay_endpoint {
        Some(endpoint) => offset_endpoint_port(endpoint.as_str(), rank),
        None => "".to_string(),
    };
    match kv_endpoint_from_zmq(endpoint.as_str(), advertise_host) {
        None => None,
        Some(address) => Some(
            KvEventSource {
                transport: "zmq".to_string(),
                endpoint_addr: KvEndpoint {
                    host: address.host,
                    port: address.port,
                    protocol: "tcp".to_string(),
                },
                topic: config.topic.clone(),
                replay_endpoint,
                data_parallel_rank,
                encoding: "msgpack".to_string(),
                schema_version: 1,
                buffer_steps: config.buffer_steps,
                hwm: config.hwm,
                max_queue_size: config.max_queue_size,
            },
        ),
    }
}

/// Two ranks never publish on the same endpoint.
pub proof fn ranks_publish_apart(endpoint: Seq<char>, a: u32, b: u32)
    requires
        shows_rank(endpoint, spoken_place(endpoint)),
        offset_fits(endpoint, a),
        offset_fits(endpoint, b),
        a != b,
    ensures
        offset_endpoint(endpoint, a) != offset_endpoint(endpoint, b),
{
    places_keep_ranks_apart(endpoint, spoken_place(endpoint), a, b);
}

/// An engine with the rank that it has, where it has one.
#[derive(Debug)]
pub struct IndexedEngine {
    pub rank: Option<u32>,
    pub response: EngineCoreReadyResponse,
}

/// The engines whose KV events are advertised, in order.
pub open spec fn advertised(engines: Seq<IndexedEngine>, host: Seq<char>) -> Seq<IndexedEngine>
    decreases engines.len(),
{
    if engines.len() == 0 {
        Seq::empty()
    } else {
        let before = advertised(engines.drop_last(), host);
        if event_address(engines.last().response, engines.last().rank, host) is Some {
            before.push(engines.last())
        } else {
            before
        }
    }
}

impl ControlServiceImpl {
    pub fn new(state: Arc<AppState>) -> (service: ControlServiceImpl)
        ensures
            service.state == state,
    {
        ControlServiceImpl { state }
    }

    /// What the first engine reported.
    pub fn ready(&self) -> (ready: &EngineCoreReadyResponse)
        requires
            self.state.well_formed(),
        ensures
            *ready == self.state.first_ready(),
    {
        self.state.ready_response()
    }

    /// How the engines share the work.
    pub open spec fn parallelism(self) -> ParallelismInfo {
        let ready = self.state.first_ready();
        ParallelismInfo {
            tensor_parallel_size: ready.tensor_parallel_size,
            pipeline_parallel_size: ready.pipeline_parallel_size,
            data_parallel_size: capped(ready.data_parallel_size),
            data_parallel_rank: ready.data_parallel_rank,
            decode_context_parallel_size: ready.decode_context_parallel_size,
        }
    }

    /// Describes how the engines share the work.
    pub fn parallelism_info(&self) -> (info: ParallelismInfo)
        requires
            self.state.well_formed(),
        ensures
            info == self.parallelism(),
    {
        let ready = self.ready();
        ParallelismInfo {
            tensor_parallel_size: ready.tensor_parallel_size,
            pipeline_parallel_size: ready.pipeline_parallel_size,
            data_parallel_size: cap(ready.data_parallel_size),
            data_parallel_rank: ready.data_parallel_rank,
            decode_context_parallel_size: ready.decode_context_parallel_size,
        }
    }

    /// Describes the server.
    pub fn get_server_info(&self) -> (info: ServerInfo)
        requires
            self.state.well_formed(),
        ensures
            ({
                let ready = self.state.first_ready();
                &&& info.engine_version == ready.vllm_version
                &&& info.api_version@ == GRPC_API_VERSION@
                &&& info.instance_id == ready.instance_id
                &&& info.parallelism == self.parallelism()
                &&& info.max_model_len == self.state.max_model_len
                &&& info.kv_block_size == capped(ready.block_size)
                &&& info.total_kv_blocks == self.state.total_num_gpu_blocks
                &&& info.max_running_requests == ready.max_num_seqs
                &&& info.max_batched_tokens == ready.max_num_batched_tokens
            }),
    {
        let ready = self.ready();
        ServerInfo {
            engine_version: ready.vllm_version.clone(),
            api_version: GRPC_API_VERSION.to_string(),
            instance_id: ready.instance_id.clone(),
            parallelism: self.parallelism_info(),
            max_model_len: self.state.max_model_len,
            kv_block_size: cap(ready.block_size),
            total_kv_blocks: self.state.total_num_gpu_blocks,
            max_running_requests: ready.max_num_seqs,
            max_batched_tokens: ready.max_num_batched_tokens,
        }
    }

    /// Describes the model.
    pub fn get_model_info(&self) -> (info: ModelInfo)
        requires
            self.state.well_formed(),
        ensures
            info.model_id == self.state.model_id,
            info.served_model_name@ == self.state.served_model_names@[0]@,
            info.served_model_aliases@ == self.state.served_model_names@.skip(1),
            info.supports_text_input,
            info.supports_token_ids_input,
            info.supports_multimodal == self.state.supports_multimodal,
            info.reasoning_parser@ == text_or_empty(self.state.reasoning_parser),
            info.tool_call_parser@ == text_or_empty(self.state.tool_call_parser),
    {
        ModelInfo {
            model_id: self.state.model_id.clone(),
            served_model_name: self.state.primary_model_name().to_string(),
            served_model_aliases: self.state.model_aliases(),
            supports_text_input: true,
            supports_token_ids_input: true,
            supports_multimodal: self.state.supports_multimodal,
            reasoning_parser: copy_or_empty(&self.state.reasoning_parser),
            tool_call_parser: copy_or_empty(&self.state.tool_call_parser),
        }
    }

    /// Decides whether the engine has to be asked to abort requests; an empty list needs nothing.
    pub fn abort(&self, request_ids: &Vec<String>) -> (needed: bool)
        ensures
            needed == (request_ids@.len() > 0),
    {
        request_ids.len() > 0
    }

    /// Answers a request to abort, given what the engine made of it.
    pub fn finish_abort(&self, aborted: Result<(), String>) -> (outcome: Result<(), Status>)
        ensures
            match (outcome, aborted) {
                (Ok(()), Ok(())) => true,
                (Err(status), Err(error)) => status@ == (Code::Internal, error@),
                _ => false,
            },
    {
        match aborted {
            Ok(()) => Ok(()),
            Err(error) => Err(Status::internal(error.as_str())),
        }
    }

    /// Describes where KV events can be had.
    pub fn get_kv_event_sources(&self, engines: &Vec<IndexedEngine>, advertise_host: &str) -> (sources:
        Vec<KvEventSource>)
        requires
            forall|i: int|
                0 <= i < engines@.len() ==> rank_fits(
                    (#[trigger] engines@[i]).response,
                    engines@[i].rank,
                ),
        ensures
            sources@.len() == advertised(engines@, advertise_host@).len(),
            forall|i: int|
                0 <= i < sources@.len() ==> is_source_of(
                    #[trigger] sources@[i],
                    advertised(engines@, advertise_host@)[i].response,
                    advertised(engines@, advertise_host@)[i].rank,
                    advertise_host@,
                ),
    {
        let mut sources: Vec<KvEventSource> = Vec::new();
        let mut i: usize = 0;
        while i < engines.len()
            invariant
                i <= engines@.len(),
                forall|j: int|
                    0 <= j < engines@.len() ==> rank_fits(
                        (#[trigger] engines@[j]).response,
                        engines@[j].rank,
                    ),
                sources@.len() == advertised(engines@.take(i as int), advertise_host@).len(),
                forall|j: int|
                    0 <= j < sources@.len() ==> is_source_of(
                        #[trigger] sources@[j],
                        advertised(engines@.take(i as int), advertise_host@)[j].response,
                        advertised(engines@.take(i as int), advertise_host@)[j].rank,
                        advertise_host@,
                    ),
            decreases engines@.len() - i,
        {
            assert(engines@.take(i + 1).drop_last() == engines@.take(i as int));
            assert(rank_fits(engines@[i as int].response, engines@[i as int].rank));
            if let Some(source) = kv_event_source(
                &engines[i].response,
                engines[i].rank,
                advertise_host,
            ) {
                sources.push(source);
            }
            i += 1;
        }
        assert(engines@.take(i as int) == engines@);
        sources
    }
}

/// The source of an engine names the host of the endpoint that it is configured with, and as port
/// the configured one plus its rank. An engine without a rank is reached at the configured port.
pub proof fn source_ports_follow_the_rank(
    source: KvEventSource,
    response: EngineCoreReadyResponse,
    rank: Option<u32>,
    host: Seq<char>,
)
    requires
        is_source_of(source, response, rank, host),
        response.kv_events_config is Some,
        "tcp://"@.is_prefix_of(response.kv_events_config->Some_0.endpoint@),
        !occurs_in(response.kv_events_config->Some_0.endpoint@, "inproc"@),
        publisher_address(response.kv_events_config->Some_0.endpoint@, host) matches Some((_, port))
            && port + (if rank is Some {
            rank->Some_0
        } else {
            0
        }) <= u32::MAX,
    ensures
        ({
            let (name, port) = publisher_address(
                response.kv_events_config->Some_0.endpoint@,
                host,
            )->Some_0;
            &&& source.endpoint_addr.host@ == name
            &&& rank is None ==> source.endpoint_addr.port == port
            &&& rank is Some ==> source.endpoint_addr.port == port + rank->Some_0
            &&& source.data_parallel_rank == rank
        }),
{
    let endpoint = response.kv_events_config->Some_0.endpoint@;
    reveal_strlit("tcp://");
    reveal_strlit("tcp");
    assert(occurs_at(endpoint, "tcp"@, 0)) by {
        assert(endpoint.subrange(0, 6) == "tcp://"@);
        assert(endpoint.subrange(0, 3) =~= endpoint.subrange(0, 6).subrange(0, 3));
        assert("tcp://"@.subrange(0, 3) =~= "tcp"@);
    }
    rank_moves_the_port(
        endpoint,
        host,
        if rank is Some {
            rank->Some_0
        } else {
            0
        },
    );
}

/// Two ranks with the same configured endpoint never name the same host and port as their source:
/// their ports are as far apart as their ranks.
pub proof fn sources_of_ranks_stand_apart(
    one: KvEventSource,
    other: KvEventSource,
    first: EngineCoreReadyResponse,
    second: EngineCoreReadyResponse,
    a: u32,
    b: u32,
    host: Seq<char>,
)
    requires
        is_source_of(one, first, Some(a), host),
        is_source_of(other, second, Some(b), host),
        first.kv_events_config is Some,
        second.kv_events_config is Some,
        first.kv_events_config->Some_0.endpoint@ == second.kv_events_config->Some_0.endpoint@,
        "tcp://"@.is_prefix_of(first.kv_events_config->Some_0.endpoint@),
        !occurs_in(first.kv_events_config->Some_0.endpoint@, "inproc"@),
        publisher_address(first.kv_events_config->Some_0.endpoint@, host) matches Some((_, port))
            && port + a <= u32::MAX && port + b <= u32::MAX,
    ensures
        one.endpoint_addr.port - other.endpoint_addr.port == a - b,
        a != b ==> one.endpoint_addr.port != other.endpoint_addr.port,
{
    source_ports_follow_the_rank(one, first, Some(a), host);
    source_ports_follow_the_rank(other, second, Some(b), host);
}

/// The replay endpoint that is told to a subscriber is the configured one, moved by the rank as
/// the endpoint of the events is; an engine without a rank, or with rank 0, replays at the
/// configured one. The limits and the topic are those that are configured.
pub proof fn sources_tell_the_configuration(
    source: KvEventSource,
    response: EngineCoreReadyResponse,
    rank: Option<u32>,
    host: Seq<char>,
)
    requires
        is_source_of(source, response, rank, host),
    ensures
        response.kv_events_config is Some,
        ({
            let config = response.kv_events_config->Some_0;
            &&& config.enable_kv_cache_events
            &&& config.publisher@ == "zmq"@
            &&& source.transport@ == "zmq"@
            &&& source.encoding@ == "msgpack"@
            &&& source.endpoint_addr.protocol@ == "tcp"@
            &&& source.topic@ == config.topic@
            &&& source.buffer_steps == config.buffer_steps
            &&& source.hwm == config.hwm
            &&& source.max_queue_size == config.max_queue_size
            &&& source.schema_version == 1
            &&& config.replay_endpoint is None ==> source.replay_endpoint@.len() == 0
            &&& config.replay_endpoint is Some && (rank is None || rank == Some(0u32))
                ==> source.replay_endpoint@ == config.replay_endpoint->Some_0@
            &&& config.replay_endpoint is Some && rank is Some && rank->Some_0 > 0
                && config.replay_endpoint->Some_0@.len() > 0 && occurs_in(
                config.replay_endpoint->Some_0@,
                "inproc"@,
            ) ==> source.replay_endpoint@ == config.replay_endpoint->Some_0@ + "_dp"@ + decimal(
                rank->Some_0 as nat,
            )
            &&& config.replay_endpoint is Some && rank is Some && "tcp://"@.is_prefix_of(
                config.replay_endpoint->Some_0@,
            ) && !occurs_in(config.replay_endpoint->Some_0@, "inproc"@) && (publisher_address(
                config.replay_endpoint->Some_0@,
                host,
            ) matches Some((_, port)) && port + rank->Some_0 <= u32::MAX) ==> publisher_address(
                source.replay_endpoint@,
                host,
            ) == Some(
                (
                    publisher_address(config.replay_endpoint->Some_0@, host)->Some_0.0,
                    (publisher_address(config.replay_endpoint->Some_0@, host)->Some_0.1
                        + rank->Some_0) as u32,
                ),
            )
        }),
{
    reveal_strlit("");
    let config = response.kv_events_config->Some_0;
    if config.replay_endpoint is Some && rank is Some {
        let endpoint = config.replay_endpoint->Some_0@;
        if "tcp://"@.is_prefix_of(endpoint) && !occurs_in(endpoint, "inproc"@)
            && publisher_address(endpoint, host) is Some && publisher_address(
            endpoint,
            host,
        )->Some_0.1 + rank->Some_0 <= u32::MAX {
            reveal_strlit("tcp://");
            reveal_strlit("tcp");
            assert(occurs_at(endpoint, "tcp"@, 0)) by {
                assert(endpoint.subrange(0, 6) == "tcp://"@);
                assert(endpoint.subrange(0, 3) =~= endpoint.subrange(0, 6).subrange(0, 3));
                assert("tcp://"@.subrange(0, 3) =~= "tcp"@);
            }
            rank_moves_the_port(endpoint, host, rank->Some_0);
        }
    }
}

/// The sources of engines are those of each engine, one behind the other, whatever engines stand
/// beside it. An engine that publishes nothing, or not over ZeroMQ, has none.
pub proof fn each_engine_is_advertised_by_itself(
    front: Seq<IndexedEngine>,
    back: Seq<IndexedEngine>,
    engine: IndexedEngine,
    host: Seq<char>,
)
    ensures
        advertised(front + back, host) == advertised(front, host) + advertised(back, host),
        engine.response.kv_events_config is None || !engine.response.kv_events_config->Some_0.enable_kv_cache_events
            || engine.response.kv_events_config->Some_0.publisher@ != "zmq"@ ==> advertised(
            seq![engine],
            host,
        ).len() == 0,
        engine.response.kv_events_config is Some && engine.response.kv_events_config->Some_0.enable_kv_cache_events
            && engine.response.kv_events_config->Some_0.publisher@ == "zmq"@ && (engine.rank is None
            || engine.rank == Some(0u32)) && publisher_address(
            engine.response.kv_events_config->Some_0.endpoint@,
            host,
        ) is Some ==> advertised(seq![engine], host) == seq![engine],
    decreases back.len(),
{
    if back.len() == 0 {
        assert(front + back == front);
        assert(advertised(front, host) + advertised(back, host) =~= advertised(front, host));
    } else {
        each_engine_is_advertised_by_itself(front, back.drop_last(), engine, host);
        assert((front + back).drop_last() == front + back.drop_last());
        assert(advertised(front + back, host) =~= advertised(front, host) + advertised(
            back,
            host,
        ));
    }
    assert(seq![engine].drop_last() == Seq::<IndexedEngine>::empty());
    reveal_with_fuel(advertised, 2);
    assert(event_address(engine.response, engine.rank, host) is Some ==> advertised(
        seq![engine],
        host,
    ) =~= seq![engine]);
}

/// The ranks are described by the first engine: its sizes and its rank under their own names.
pub proof fn parallelism_is_that_of_the_first_engine(service: ControlServiceImpl)
    ensures
        ({
            let info = service.parallelism();
            let ready = service.state.ready_responses@[0];
            &&& info.tensor_parallel_size == ready.tensor_parallel_size
            &&& info.pipeline_parallel_size == ready.pipeline_parallel_size
            &&& info.decode_context_parallel_size == ready.decode_context_parallel_size
            &&& info.data_parallel_rank == ready.data_parallel_rank
            &&& ready.data_parallel_size <= u32::MAX ==> info.data_parallel_size
                == ready.data_parallel_size
            &&& ready.data_parallel_size > u32::MAX ==> info.data_parallel_size == u32::MAX
        }),
{
}

} // verus!
