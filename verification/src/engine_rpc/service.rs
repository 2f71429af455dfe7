//! The engine RPC service: which requests it takes and what it answers.

use std::sync::Arc;

use vstd::prelude::*;

use crate::admission::drain_response;
use crate::admission::reports_drain;
use crate::admission::AdmissionGuard;
use crate::admission::AdmissionState;
use crate::admission::DrainResponse;
use crate::endpoints::kv_endpoint_from_zmq;
use crate::endpoints::offset_endpoint;
use crate::endpoints::offset_endpoint_port;
use crate::endpoints::offset_fits;
use crate::endpoints::publisher_address;
use crate::endpoints::rank_moves_the_port;
use crate::engine_rpc::convert::converts_media;
use crate::engine_rpc::convert::converts_request;
use crate::engine_rpc::convert::disaggregation_refusal;
use crate::engine_rpc::convert::mark_prefill_request;
use crate::engine_rpc::convert::media_parts_from_request;
use crate::engine_rpc::convert::prefill_arguments;
use crate::engine_rpc::convert::request_refusal;
use crate::engine_rpc::convert::role_from_kv_role;
use crate::engine_rpc::convert::rpc_role;
use crate::engine_rpc::convert::to_text_request;
use crate::engine_rpc::convert::validate_disaggregated_request;
use crate::engine_rpc::messages::ErrorCode;
use crate::engine_rpc::messages::GenerateRequest;
use crate::engine_rpc::messages::GenerateResponse;
use crate::engine_rpc::response::error_response;
use crate::engine_rpc::response::event_fits;
use crate::engine_rpc::response::event_to_responses;
use crate::engine_rpc::response::reports_event;
use crate::engine_rpc::response::reports_failure;
use crate::events::copy_texts;
use crate::events::DecodedTextEvent;
use crate::events::MediaContentPart;
use crate::events::Prompt;
use crate::lora::RegisteredLora;
use crate::openengine::convert::arguments_view;
use crate::openengine::convert::model_not_found;
use crate::openengine::convert::text_view;
use crate::openengine::messages::EngineRole;
use crate::openengine::messages::KvEndpoint;
use crate::probe::checks;
use crate::probe::health_check;
use crate::probe::is_probe;
use crate::probe::judge_probe;
use crate::probe::probe_request;
use crate::probe::probe_result;
use crate::probe::HealthCheck;
use crate::probe::HealthResponse;
use crate::probe::HealthState;
use crate::probe::ProbeOutcome;
use crate::protocol::handshake::EngineCoreReadyResponse;
use crate::request::SamplingParams;
use crate::request::TextDecodeOptions;
use crate::request::TextRequest;
use crate::state::cap;
use crate::state::capped;
use crate::state::copy_or_empty;
use crate::state::text_or_empty;
use crate::state::AppState;
use crate::status::Code;
use crate::status::Status;
use crate::text::join3;
use crate::text::listed;
use crate::text::same;

verus! {

/// The version of the interface.
pub const ENGINE_RPC_API_VERSION: &'static str = "vllm.engine.v1";

/// The service in front of the engines.
pub struct EngineServiceImpl {
    pub state: Arc<AppState>,
}

/// How the engines share the work.
#[derive(Clone, Copy, Debug, PartialEq, Eq, Structural)]
pub struct ParallelismInfo {
    pub tensor_parallel_size: u32,
    pub pipeline_parallel_size: u32,
    pub data_parallel_size: u32,
    pub data_parallel_rank: u32,
    pub data_parallel_start_rank: u32,
}

/// How KV blocks are transferred.
#[derive(Debug)]
pub struct KvConnectorInfo {
    pub enabled: bool,
    pub transfer_backend: String,
    pub local_endpoints: Vec<KvEndpoint>,
    pub supported_protocols: Vec<String>,
    pub schema_version: u32,
}

/// What an engine tells of itself.
#[derive(Debug)]
pub struct EngineInfo {
    pub engine_name: String,
    pub engine_version: String,
    pub api_version: String,
    pub role: EngineRole,
    pub instance_id: String,
    pub supported_models: Vec<String>,
    pub parallelism: ParallelismInfo,
    pub kv_connector: KvConnectorInfo,
}

/// What an engine tells of its model.
#[derive(Debug)]
pub struct ModelInfo {
    pub model_id: String,
    pub served_model_name: String,
    pub served_model_aliases: Vec<String>,
    pub max_context_length: u32,
    pub max_output_tokens: u32,
    pub kv_block_size: u32,
    pub total_kv_blocks: u64,
    pub max_running_requests: u64,
    pub max_batched_tokens: u64,
    pub tokenizer_modes: Vec<String>,
    pub max_loras: u32,
    pub supports_text_input: bool,
    pub supports_token_ids_input: bool,
    pub supports_lora: bool,
    pub supports_multimodal: bool,
    pub reasoning_parser: String,
    pub tool_call_parser: String,
}

/// A source of KV events.
#[derive(Debug)]
pub struct KvEventSource {
    pub transport: String,
    pub endpoint_addr: KvEndpoint,
    pub topic: String,
    pub replay_endpoint: String,
    pub data_parallel_rank: u32,
    pub encoding: String,
    pub schema_version: u32,
    pub buffer_steps: u32,
    pub hwm: u32,
    pub max_queue_size: u32,
}

/// The answer to a request to abort.
#[derive(Clone, Copy, Debug, PartialEq, Eq, Structural)]
pub enum AbortStatus {
    Aborted,
    Unsupported,
}

/// How an abort goes on: it is answered at once, or the engine is asked to abort a request.
#[derive(Debug)]
pub enum AbortStep {
    Answer { status: AbortStatus, message: String },
    Abort { request_id: String },
}

/// A request that was taken and is on its way to the engine.
#[derive(Debug)]
pub struct StartedGenerate<F> {
    pub text: TextRequest<F>,
    pub lora_name: String,
    /// What the registry holds under the name of the adapter, once it was asked.
    pub resolved: Option<Option<RegisteredLora>>,
    pub media: Vec<MediaContentPart>,
    pub role: EngineRole,
    pub handoff_dp_rank: u32,
}

/// What a request waits for before the engine is asked.
#[derive(Clone, Copy, Debug, PartialEq, Eq, Structural)]
pub enum GenerateStep {
    /// The registry is asked for the adapter of the request.
    ResolveLora,
    /// The registry is asked whether the ranks agree on their adapters.
    CheckConsistency,
    /// The media are prepared for the tokens of the prompt.
    PrepareMedia,
    /// Nothing is missing.
    AskEngine,
}

impl<F> StartedGenerate<F> {
    /// The adapter that the request names, if any, is in place.
    pub open spec fn has_adapter(self) -> bool {
        self.lora_name@.len() > 0 ==> self.text.lora_request is Some
    }
}

/// What a stream sends for one event, and whether it ends there.
#[derive(Debug)]
pub struct StreamStep {
    pub responses: Vec<GenerateResponse>,
    pub last: bool,
}

/// A health report that may still wait for a probe.
#[derive(Debug)]
pub struct HealthReport {
    pub response: HealthResponse,
    pub probe: bool,
}

/// How a probe begins: it is decided without one, or the engine is asked.
#[derive(Debug)]
pub enum ProbeStart<F> {
    Decided(HealthState, Option<String>),
    Run(TextRequest<F>),
}

/// The KV blocks of the engine that has the fewest.
pub open spec fn fewest_blocks(ready: Seq<EngineCoreReadyResponse>) -> u64
    decreases ready.len(),
{
    if ready.len() == 0 {
        0
    } else if ready.len() == 1 {
        ready[0].num_gpu_blocks
    } else {
        let before = fewest_blocks(ready.drop_last());
        if ready.last().num_gpu_blocks < before {
            ready.last().num_gpu_blocks
        } else {
            before
        }
    }
}

/// No engine has fewer KV blocks than are advertised for each.
pub proof fn no_engine_has_fewer_blocks(ready: Seq<EngineCoreReadyResponse>, i: int)
    requires
        0 <= i < ready.len(),
    ensures
        fewest_blocks(ready) <= ready[i].num_gpu_blocks,
    decreases ready.len(),
{
    if ready.len() > 1 && i < ready.len() - 1 {
        no_engine_has_fewer_blocks(ready.drop_last(), i);
    }
}

/// Finds the KV blocks of the engine that has the fewest, so that no engine is said to have more
/// than it has.
pub fn per_rank_kv_blocks(ready: &Vec<EngineCoreReadyResponse>) -> (blocks: u64)
    ensures
        blocks == fewest_blocks(ready@),
{
    if ready.len() == 0 {
        return 0;
    }
    let mut blocks: u64 = ready[0].num_gpu_blocks;
    let mut i: usize = 1;
    while i < ready.len()
        invariant
            1 <= i <= ready@.len(),
            blocks == fewest_blocks(ready@.take(i as int)),
        decreases ready@.len() - i,
    {
        assert(ready@.take(i + 1).drop_last() == ready@.take(i as int));
        if ready[i].num_gpu_blocks < blocks {
            blocks = ready[i].num_gpu_blocks;
        }
        i += 1;
    }
    assert(ready@.take(i as int) == ready@);
    blocks
}

/// The engine publishes KV events that can be reached at this rank.
pub open spec fn is_advertised(
    rank: u32,
    response: EngineCoreReadyResponse,
    host: Seq<char>,
) -> bool {
    &&& publishes(response)
    &&& response.kv_events_endpoint matches Some(endpoint) && publisher_address(
        offset_endpoint(endpoint@, rank),
        host,
    ) is Some
}

/// The source is that of the engine at this rank.
pub open spec fn is_source_of(
    source: KvEventSource,
    rank: u32,
    response: EngineCoreReadyResponse,
    host: Seq<char>,
) -> bool {
    &&& source.transport@ == "zmq"@
    &&& publisher_address(offset_endpoint(response.kv_events_endpoint->Some_0@, rank), host)
        == Some((source.endpoint_addr.host@, source.endpoint_addr.port))
    &&& source.endpoint_addr.protocol@ == "tcp"@
    &&& source.topic@ == text_or_empty(response.kv_events_topic)
    &&& source.replay_endpoint@ == ""@
    &&& source.data_parallel_rank == rank
    &&& source.encoding@ == "msgpack"@
    &&& source.schema_version == 1
    &&& source.buffer_steps == 0
    &&& source.hwm == 0
    &&& source.max_queue_size == 0
}

/// The ranks whose KV events are advertised, with their engines, in order.
pub open spec fn advertised(ranked: Seq<(u32, EngineCoreReadyResponse)>, host: Seq<char>) -> Seq<
    (u32, EngineCoreReadyResponse),
>
    decreases ranked.len(),
{
    if ranked.len() == 0 {
        Seq::empty()
    } else {
        let before = advertised(ranked.drop_last(), host);
        if is_advertised(ranked.last().0, ranked.last().1, host) {
            before.push(ranked.last())
        } else {
            before
        }
    }
}

/// The engine publishes KV events over ZeroMQ.
pub open spec fn publishes(response: EngineCoreReadyResponse) -> bool {
    response.kv_events_publisher matches Some(publisher) && publisher@ == "zmq"@
}

/// The rank can be added to the port of the endpoint, where the engine publishes on one.
pub open spec fn rank_fits(rank: u32, response: EngineCoreReadyResponse) -> bool {
    publishes(response) ==> (response.kv_events_endpoint matches Some(endpoint) ==> offset_fits(
        endpoint@,
        rank,
    ))
}

/// Engines with their ranks, by value.
pub open spec fn ranked_engines(ranked: Seq<(u32, &EngineCoreReadyResponse)>) -> Seq<
    (u32, EngineCoreReadyResponse),
> {
    ranked.map_values(|entry: (u32, &EngineCoreReadyResponse)| (entry.0, *entry.1))
}

/// The sources say where the KV events of these engines can be had.
pub open spec fn advertises(
    sources: Seq<KvEventSource>,
    ranked: Seq<(u32, EngineCoreReadyResponse)>,
    host: Seq<char>,
) -> bool {
    &&& sources.len() == advertised(ranked, host).len()
    &&& forall|i: int|
        0 <= i < sources.len() ==> is_source_of(
            #[trigger] sources[i],
            advertised(ranked, host)[i].0,
            advertised(ranked, host)[i].1,
            host,
        )
}

/// Describes where KV events can be had, with `advertise_host` in place of a host that stands for
/// every address. Each engine publishes its own events.
pub fn build_kv_event_sources(
    ranked: &Vec<(u32, &EngineCoreReadyResponse)>,
    advertise_host: &str,
) -> (sources: Vec<KvEventSource>)
    requires
        forall|i: int|
            0 <= i < ranked@.len() ==> rank_fits((#[trigger] ranked@[i]).0, *ranked@[i].1),
    ensures
        advertises(sources@, ranked_engines(ranked@), advertise_host@),
{
    let mut sources: Vec<KvEventSource> = Vec::new();
    let mut i: usize = 0;
    while i < ranked.len()
        invariant
            i <= ranked@.len(),
            forall|j: int|
                0 <= j < ranked@.len() ==> rank_fits((#[trigger] ranked@[j]).0, *ranked@[j].1),
            advertises(sources@, ranked_engines(ranked@.take(i as int)), advertise_host@),
        decreases ranked@.len() - i,
    {
        proof {
            let next = ranked_engines(ranked@.take(i + 1));
            assert(next.drop_last() == ranked_engines(ranked@.take(i as int)));
            assert(next.last() == (ranked@[i as int].0, *ranked@[i as int].1));
        }
        let rank: u32 = ranked[i].0;
        let response = ranked[i].1;
        assert(rank_fits(ranked@[i as int].0, *ranked@[i as int].1));
        let published: bool = match &response.kv_events_publisher {
            Some(publisher) => same(publisher.as_str(), "zmq"),
            None => false,
        };
        if published {
            if let Some(endpoint) = &response.kv_events_endpoint {
                let shifted = offset_endpoint_port(endpoint.as_str(), rank);
                if let Some(address) = kv_endpoint_from_zmq(shifted.as_str(), advertise_host) {
                    sources.push(
                        KvEventSource {
                            transport: "zmq".to_string(),
                            endpoint_addr: KvEndpoint {
                                host: address.host,
                                port: address.port,
                                protocol: "tcp".to_string(),
                            },
                            topic: copy_or_empty(&response.kv_events_topic),
                            replay_endpoint: "".to_string(),
                            data_parallel_rank: rank,
                            encoding: "msgpack".to_string(),
                            schema_version: 1,
                            buffer_steps: 0,
                            hwm: 0,
                            max_queue_size: 0,
                        },
                    );
                }
            }
        }
        i += 1;
    }
    assert(ranked@.take(i as int) == ranked@);
    sources
}

/// The connector is described.
pub open spec fn describes_connector(info: KvConnectorInfo, kv_connector: Option<String>) -> bool {
    &&& info.enabled == (kv_connector is Some)
    &&& info.transfer_backend@ == text_or_empty(kv_connector)
    &&& info.local_endpoints@.len() == 0
    &&& info.supported_protocols@.len() == 0
    &&& info.schema_version == 1
}

impl EngineServiceImpl {
    pub fn new(state: Arc<AppState>) -> (service: EngineServiceImpl)
        ensures
            service.state == state,
    {
        EngineServiceImpl { state }
    }

    /// What the first engine reported.
    pub fn ready(&self) -> (ready: &EngineCoreReadyResponse)
        requires
            self.state.well_formed(),
        ensures
            *ready == self.state.first_ready(),
    {
        self.state.ready_response()
    }

    /// The KV blocks that are advertised for each engine.
    pub fn per_rank_kv_blocks(&self) -> (blocks: u64)
        ensures
            blocks == fewest_blocks(self.state.ready_responses@),
    {
        per_rank_kv_blocks(&self.state.ready_responses)
    }

    /// How the engines share the work.
    pub open spec fn parallelism(self) -> ParallelismInfo {
        let ready = self.state.first_ready();
        ParallelismInfo {
            tensor_parallel_size: ready.tensor_parallel_size,
            pipeline_parallel_size: ready.pipeline_parallel_size,
            data_parallel_size: capped(ready.data_parallel_size),
            data_parallel_rank: ready.data_parallel_rank,
            data_parallel_start_rank: ready.data_parallel_rank,
        }
    }

    /// Describes how the engines share the work.
    pub fn parallelism_info(&self) -> (info: ParallelismInfo)
        requires
            self.state.well_formed(),
        ensures
            info == self.parallelism(),
    {
        let ready = self.ready();
        ParallelismInfo {
            tensor_parallel_size: ready.tensor_parallel_size,
            pipeline_parallel_size: ready.pipeline_parallel_size,
            data_parallel_size: cap(ready.data_parallel_size),
            data_parallel_rank: ready.data_parallel_rank,
            data_parallel_start_rank: ready.data_parallel_rank,
        }
    }

    /// Describes how KV blocks are transferred.
    pub fn kv_connector_info(&self) -> (info: KvConnectorInfo)
        requires
            self.state.well_formed(),
        ensures
            describes_connector(info, self.state.first_ready().kv_connector),
    {
        let ready = self.ready();
        KvConnectorInfo {
            enabled: ready.kv_connector.is_some(),
            transfer_backend: copy_or_empty(&ready.kv_connector),
            local_endpoints: Vec::new(),
            supported_protocols: Vec::new(),
            schema_version: 1,
        }
    }

    /// The role of the engine.
    pub open spec fn role(self) -> EngineRole {
        rpc_role(text_view(self.state.first_ready().kv_role))
    }

    /// Takes a request to generate text: admits it, checks it and converts it. A refused request
    /// is not in flight; one that was taken is until the guard is released.
    pub fn generate<F>(&self, admission: &mut AdmissionState, request: GenerateRequest) -> (outcome:
        Result<(StartedGenerate<F>, AdmissionGuard), Status>)
        requires
            self.state.well_formed(),
            old(admission).load() < u64::MAX,
        ensures
            final(admission).drains() == old(admission).drains(),
            final(admission).load() == old(admission).load() + (if outcome is Ok {
                1int
            } else {
                0
            }),
            ({
                let ready = self.state.first_ready();
                let disaggregated = disaggregation_refusal(
                    request,
                    self.role(),
                    text_view(ready.kv_connector),
                    ready.data_parallel_size,
                );
                let unconverted = request_refusal(request, self.state.served_model_names@);
                match outcome {
                    Ok((started, _)) => {
                        &&& !old(admission).drains()
                        &&& disaggregated is None
                        &&& converts_media(
                            Ok::<Vec<MediaContentPart>, Status>(started.media),
                            request.media@,
                        )
                        &&& unconverted is None
                        &&& request.lora_name@.len() > 0 ==> ready.supports_lora
                        &&& converts_request(started.text, request)
                        &&& started.lora_name == request.lora_name
                        &&& started.resolved is None
                        &&& started.role == self.role()
                        &&& started.handoff_dp_rank == (match request.data_parallel_rank {
                            Some(rank) => rank,
                            None => ready.data_parallel_rank,
                        })
                    },
                    Err(status) => if old(admission).drains() {
                        status@ == (Code::Unavailable, "engine is draining"@)
                    } else if disaggregated is Some {
                        disaggregated == Some(status@)
                    } else {
                        ||| converts_media(
                            Err::<Vec<MediaContentPart>, Status>(status),
                            request.media@,
                        )
                        ||| self.media_accepted(request) && unconverted == Some(status@)
                        ||| self.media_accepted(request) && unconverted is None && request.lora_name@.len() > 0
                            && !ready.supports_lora && status@ == (
                            Code::FailedPrecondition,
                            "engine was not started with LoRA enabled"@,
                        )
                    },
                }
            }),
    {
        let guard = match admission.try_admit() {
            Some(guard) => guard,
            None => {
                return Err(Status::unavailable("engine is draining"));
            },
        };
        let ready = self.ready();
        let role = role_from_kv_role(&ready.kv_role);
        let handoff_dp_rank: u32 = match validate_disaggregated_request(
            &request,
            role,
            &ready.kv_connector,
            ready.data_parallel_size,
            ready.data_parallel_rank,
        ) {
            Ok(rank) => rank,
            Err(status) => {
                admission.release(guard);
                return Err(status);
            },
        };
        let lora_name = request.lora_name.clone();
        let media = match media_parts_from_request(&request.media) {
            Ok(media) => media,
            Err(status) => {
                admission.release(guard);
                return Err(status);
            },
        };
        assert(self.media_accepted(request)) by {
            assert forall|i: int| 0 <= i < request.media@.len() implies (
            crate::engine_rpc::convert::item_refusal(#[trigger] request.media@[i]) is None) by {
                assert(crate::engine_rpc::convert::is_part_of(media@[i], request.media@[i]));
            }
        }
        let text: TextRequest<F> = match to_text_request(request, &self.state.served_model_names) {
            Ok(text) => text,
            Err(status) => {
                admission.release(guard);
                return Err(status);
            },
        };
        if !lora_name.as_str().is_empty() && !self.ready().supports_lora {
            admission.release(guard);
            return Err(Status::failed_precondition("engine was not started with LoRA enabled"));
        }
        Ok(
            (
                StartedGenerate { text, lora_name, resolved: None, media, role, handoff_dp_rank },
                guard,
            ),
        )
    }

    /// Every media item of a request can be part of a prompt.
    pub open spec fn media_accepted(self, request: GenerateRequest) -> bool {
        forall|i: int|
            0 <= i < request.media@.len() ==> crate::engine_rpc::convert::item_refusal(
                #[trigger] request.media@[i],
            ) is None
    }

    /// What a request waits for. Its adapter is resolved before the ranks are asked whether they
    /// agree, so that no change of the registry comes in between, and it is in place before the
    /// media are prepared.
    pub fn step<F>(&self, started: &StartedGenerate<F>) -> (outcome: Result<GenerateStep, Status>)
        ensures
            match outcome {
                Ok(step) => step == (if !started.has_adapter() && started.resolved is None {
                    GenerateStep::ResolveLora
                } else if !started.has_adapter() {
                    GenerateStep::CheckConsistency
                } else if started.media@.len() > 0 {
                    GenerateStep::PrepareMedia
                } else {
                    GenerateStep::AskEngine
                }) && (step == GenerateStep::PrepareMedia ==> started.text.prompt is TokenIds),
                Err(status) => started.has_adapter() && started.media@.len() > 0
                    && started.text.prompt is Text && status@ == (
                    Code::InvalidArgument,
                    "multimodal engine RPC requests must provide token_ids input; placeholder markers are expanded engine-side"@,
                ),
            },
    {
        if !started.lora_name.as_str().is_empty() && started.text.lora_request.is_none() {
            return Ok(
                if started.resolved.is_none() {
                    GenerateStep::ResolveLora
                } else {
                    GenerateStep::CheckConsistency
                },
            );
        }
        match self.check_media(started) {
            Ok(needed) => Ok(
                if needed {
                    GenerateStep::PrepareMedia
                } else {
                    GenerateStep::AskEngine
                },
            ),
            Err(status) => Err(status),
        }
    }

    /// Takes down what the registry holds under the name of the adapter.
    pub fn resolve_lora<F>(&self, started: StartedGenerate<F>, found: Option<RegisteredLora>) -> (resolved:
        StartedGenerate<F>)
        ensures
            resolved == (StartedGenerate { resolved: Some(found), ..started }),
    {
        let mut started = started;
        started.resolved = Some(found);
        started
    }

    /// Puts the adapter that the registry holds in place, given whether the ranks agree on their
    /// adapters. The registry was asked before the ranks.
    pub fn attach_lora<F>(&self, started: StartedGenerate<F>, consistent: bool) -> (outcome: Result<
        StartedGenerate<F>,
        Status,
    >)
        requires
            started.resolved is Some,
        ensures
            match outcome {
                Ok(attached) => consistent && started.resolved->Some_0 is Some && attached == (
                StartedGenerate {
                    text: TextRequest { lora_request: started.resolved->Some_0, ..started.text },
                    resolved: None,
                    ..started
                }) && attached.has_adapter(),
                Err(status) => if !consistent {
                    status@ == (
                        Code::FailedPrecondition,
                        "LoRA state differs across engine ranks; restart the engine"@,
                    )
                } else {
                    started.resolved == Some(None::<RegisteredLora>) && status@ == (
                        Code::NotFound,
                        "LoRA adapter `"@ + started.lora_name@ + "` is not loaded"@,
                    )
                },
            },
    {
        if !consistent {
            return Err(
                Status::failed_precondition(
                    "LoRA state differs across engine ranks; restart the engine",
                ),
            );
        }
        let mut started = started;
        match started.resolved.take() {
            Some(Some(adapter)) => {
                started.text.lora_request = Some(adapter);
                Ok(started)
            },
            _ => Err(
                Status::not_found(
                    join3(
                        "LoRA adapter `",
                        started.lora_name.as_str(),
                        "` is not loaded",
                    ).as_str(),
                ),
            ),
        }
    }

    /// Checks that the prompt of a request with media consists of tokens, which hold the places
    /// of the media.
    pub fn check_media<F>(&self, started: &StartedGenerate<F>) -> (outcome: Result<bool, Status>)
        requires
            started.has_adapter(),
        ensures
            match outcome {
                Ok(needed) => needed == (started.media@.len() > 0) && (needed
                    ==> started.text.prompt is TokenIds),
                Err(status) => started.media@.len() > 0 && started.text.prompt is Text && status@
                    == (
                    Code::InvalidArgument,
                    "multimodal engine RPC requests must provide token_ids input; placeholder markers are expanded engine-side"@,
                ),
            },
    {
        if started.media.len() == 0 {
            return Ok(false);
        }
        match &started.text.prompt {
            Prompt::TokenIds(_) => Ok(true),
            Prompt::Text(_) => Err(
                Status::invalid_argument(
                    "multimodal engine RPC requests must provide token_ids input; placeholder markers are expanded engine-side",
                ),
            ),
        }
    }

    /// Ends the preparation of a request. `media` is what preparing its media came to: the tokens
    /// with the places of the media filled, and the features. A prefill engine is told to keep
    /// its KV blocks.
    pub fn finish_generate<F>(
        &self,
        started: StartedGenerate<F>,
        media: Option<Result<(Vec<u32>, Option<F>), String>>,
    ) -> (outcome: Result<TextRequest<F>, Status>)
        requires
            started.has_adapter(),
            media is Some <==> started.media@.len() > 0,
            media is Some ==> started.text.prompt is TokenIds,
        ensures
            match outcome {
                Err(status) => media matches Some(Err(error)) && status@ == (
                    Code::Internal,
                    error@,
                ),
                Ok(text) => {
                    let prepared = match media {
                        Some(Ok((ids, features))) => TextRequest {
                            prompt: Prompt::TokenIds(ids),
                            mm_features: features,
                            ..started.text
                        },
                        _ => started.text,
                    };
                    &&& !(media matches Some(Err(_)))
                    &&& if started.role == EngineRole::Prefill {
                        &&& arguments_view(text.sampling_params.vllm_xargs) == Some(
                            prefill_arguments(
                                arguments_view(prepared.sampling_params.vllm_xargs),
                            ),
                        )
                        &&& text == (TextRequest {
                            sampling_params: SamplingParams {
                                vllm_xargs: text.sampling_params.vllm_xargs,
                                ..prepared.sampling_params
                            },
                            ..prepared
                        })
                    } else {
                        text == prepared
                    }
                },
            },
    {
        let mut text = started.text;
        match media {
            Some(Ok((ids, features))) => {
                text.prompt = Prompt::TokenIds(ids);
                text.mm_features = features;
            },
            Some(Err(error)) => {
                return Err(Status::internal(error.as_str()));
            },
            None => {},
        }
        if started.role == EngineRole::Prefill {
            mark_prefill_request(&mut text);
        }
        Ok(text)
    }

    /// Turns what the engine reports of a running request into responses. A failure is the last
    /// thing that a stream sends.
    pub fn stream_step(
        &self,
        event: Result<DecodedTextEvent, String>,
        request_id: &str,
        handoff_dp_rank: u32,
    ) -> (step: StreamStep)
        requires
            self.state.well_formed(),
            event matches Ok(event) ==> event_fits(event),
        ensures
            match event {
                Ok(event) => !step.last && reports_event(
                    step.responses@,
                    event,
                    request_id@,
                    self.role(),
                    self.state.first_ready().kv_connector,
                    handoff_dp_rank,
                ),
                Err(error) => step.last && step.responses@.len() == 1 && reports_failure(
                    step.responses@[0],
                    request_id@,
                    ErrorCode::Internal,
                    error@,
                    None,
                ),
            },
    {
        let ready = self.ready();
        match event {
            Ok(event) => StreamStep {
                responses: event_to_responses(
                    event,
                    request_id,
                    role_from_kv_role(&ready.kv_role),
                    &ready.kv_connector,
                    handoff_dp_rank,
                ),
                last: false,
            },
            Err(error) => {
                let mut responses: Vec<GenerateResponse> = Vec::new();
                responses.push(error_response(request_id, error));
                StreamStep { responses, last: true }
            },
        }
    }

    /// Describes the engine.
    pub fn get_engine_info(&self) -> (info: EngineInfo)
        requires
            self.state.well_formed(),
        ensures
            info.engine_name@ == "vllm"@,
            info.engine_version == self.state.first_ready().vllm_version,
            info.api_version@ == ENGINE_RPC_API_VERSION@,
            info.role == self.role(),
            info.instance_id@ == text_or_empty(self.state.first_ready().kv_engine_id),
            info.supported_models@ == self.state.served_model_names@,
            info.parallelism == self.parallelism(),
            describes_connector(info.kv_connector, self.state.first_ready().kv_connector),
    {
        let ready = self.ready();
        EngineInfo {
            engine_name: "vllm".to_string(),
            engine_version: ready.vllm_version.clone(),
            api_version: ENGINE_RPC_API_VERSION.to_string(),
            role: role_from_kv_role(&ready.kv_role),
            instance_id: copy_or_empty(&ready.kv_engine_id),
            supported_models: copy_texts(&self.state.served_model_names),
            parallelism: self.parallelism_info(),
            kv_connector: self.kv_connector_info(),
        }
    }

    /// Describes the model.
    pub fn get_model_info(&self) -> (info: ModelInfo)
        requires
            self.state.well_formed(),
        ensures
            ({
                let ready = self.state.first_ready();
                &&& info.model_id == self.state.model_id
                &&& info.served_model_name@ == self.state.served_model_names@[0]@
                &&& info.served_model_aliases@ == self.state.served_model_names@.skip(1)
                &&& info.max_context_length == self.state.max_model_len
                &&& info.max_output_tokens == 0
                &&& info.kv_block_size == capped(ready.block_size)
                &&& info.total_kv_blocks == fewest_blocks(self.state.ready_responses@)
                &&& info.max_running_requests == ready.max_num_seqs
                &&& info.max_batched_tokens == ready.max_num_batched_tokens
                &&& info.tokenizer_modes@.len() == 0
                &&& info.max_loras == ready.max_loras
                &&& info.supports_text_input
                &&& info.supports_token_ids_input
                &&& info.supports_lora == ready.supports_lora
                &&& info.supports_multimodal == self.state.supports_multimodal
                &&& info.reasoning_parser@ == text_or_empty(self.state.reasoning_parser)
                &&& info.tool_call_parser@ == text_or_empty(self.state.tool_call_parser)
            }),
    {
        let ready = self.ready();
        ModelInfo {
            model_id: self.state.model_id.clone(),
            served_model_name: self.state.primary_model_name().to_string(),
            served_model_aliases: self.state.model_aliases(),
            max_context_length: self.state.max_model_len,
            max_output_tokens: 0,
            kv_block_size: cap(ready.block_size),
            total_kv_blocks: self.per_rank_kv_blocks(),
            max_running_requests: ready.max_num_seqs,
            max_batched_tokens: ready.max_num_batched_tokens,
            tokenizer_modes: Vec::new(),
            max_loras: ready.max_loras,
            supports_text_input: true,
            supports_token_ids_input: true,
            supports_lora: ready.supports_lora,
            supports_multimodal: self.state.supports_multimodal,
            reasoning_parser: copy_or_empty(&self.state.reasoning_parser),
            tool_call_parser: copy_or_empty(&self.state.tool_call_parser),
        }
    }

    /// How the engine is, by its connection and its admission.
    pub open spec fn engine_state(self, healthy: bool, drains: bool) -> HealthState {
        if !healthy {
            HealthState::NotReady
        } else if drains {
            HealthState::Draining
        } else {
            HealthState::Ready
        }
    }

    /// The ranks have adapters and do not agree on them.
    pub open spec fn lora_diverged(self, consistent: bool) -> bool {
        self.state.first_ready().supports_lora && !consistent
    }

    /// Reports the health of the engine, given how its connection, its admission and its adapters
    /// are. Where the client asks for a probe and the engine is ready, the report waits for it.
    pub fn health(
        &self,
        include_inference_probe: bool,
        healthy: bool,
        health_error: Option<String>,
        draining: bool,
        lora_consistent: bool,
    ) -> (report: HealthReport)
        requires
            self.state.well_formed(),
        ensures
            report.response.state == (if self.lora_diverged(lora_consistent) {
                HealthState::NotReady
            } else {
                self.engine_state(healthy, draining)
            }),
            report.probe == (include_inference_probe && report.response.state
                == HealthState::Ready),
            report.response.checks@.len() == (if self.lora_diverged(lora_consistent) {
                2int
            } else {
                1
            }),
            checks(
                report.response.checks@[0],
                "engine"@,
                self.engine_state(healthy, draining),
                text_or_empty(health_error),
            ),
            self.lora_diverged(lora_consistent) ==> checks(
                report.response.checks@[1],
                "lora"@,
                HealthState::NotReady,
                "adapter state differs across engine ranks; restart required"@,
            ),
    {
        let engine_state = if !healthy {
            HealthState::NotReady
        } else if draining {
            HealthState::Draining
        } else {
            HealthState::Ready
        };
        let mut checks: Vec<HealthCheck> = Vec::new();
        checks.push(health_check("engine", engine_state, health_error));
        let mut overall = engine_state;
        if self.ready().supports_lora && !lora_consistent {
            checks.push(
                health_check(
                    "lora",
                    HealthState::NotReady,
                    Some("adapter state differs across engine ranks; restart required".to_string()),
                ),
            );
            overall = HealthState::NotReady;
        }
        HealthReport {
            probe: include_inference_probe && overall == HealthState::Ready,
            response: HealthResponse { state: overall, checks },
        }
    }

    /// Begins a probe. A model that is not served decides it without asking the engine.
    /// `decode_options` are those that the text engine has by default.
    pub fn run_inference_probe<F>(&self, model: &str, decode_options: TextDecodeOptions) -> (start:
        ProbeStart<F>)
        ensures
            ({
                let unknown = model@.len() > 0 && !(exists|i: int|
                    0 <= i < self.state.served_model_names@.len() && (
                    #[trigger] self.state.served_model_names@[i])@ == model@);
                match start {
                    ProbeStart::Decided(state, message) => unknown && state
                        == HealthState::Degraded && message is Some && message->Some_0@
                        == model_not_found(model@),
                    ProbeStart::Run(request) => !unknown && is_probe(
                        request,
                        "engine_rpc-health-"@,
                        decode_options,
                    ),
                }
            }),
    {
        if !model.is_empty() && !listed(&self.state.served_model_names, model) {
            return ProbeStart::Decided(
                HealthState::Degraded,
                Some(join3("model `", model, "` not found")),
            );
        }
        ProbeStart::Run(probe_request("engine_rpc-health-", decode_options))
    }

    /// How the engine is after a probe ran, and what is said of it.
    pub fn finish_probe(&self, outcome: ProbeOutcome) -> (result: (HealthState, Option<String>))
        ensures
            (result.0, text_view(result.1)) == probe_result(outcome),
    {
        judge_probe(outcome)
    }

    /// Adds what a probe came to. Anything but a ready engine is a degraded one. Where the probe
    /// was not admitted there is nothing to add, and the engine drains.
    pub fn finish_health(
        &self,
        report: HealthReport,
        probed: Option<(HealthState, Option<String>)>,
    ) -> (response: HealthResponse)
        ensures
            match probed {
                None => response == (HealthResponse {
                    state: HealthState::Draining,
                    ..report.response
                }),
                Some((state, message)) => {
                    &&& response.state == (if state == HealthState::Ready {
                        report.response.state
                    } else {
                        HealthState::Degraded
                    })
                    &&& response.checks@.len() == report.response.checks@.len() + 1
                    &&& response.checks@.drop_last() == report.response.checks@
                    &&& checks(
                        response.checks@.last(),
                        "inference_probe"@,
                        state,
                        text_or_empty(message),
                    )
                },
            },
    {
        let mut response = report.response;
        match probed {
            None => {
                response.state = HealthState::Draining;
            },
            Some((state, message)) => {
                if state != HealthState::Ready {
                    response.state = HealthState::Degraded;
                }
                response.checks.push(health_check("inference_probe", state, message));
                assert(response.checks@.drop_last() =~= report.response.checks@);
            },
        }
        response
    }

    /// Decides how an abort goes on. All requests at once cannot be aborted, since their ids are
    /// not kept.
    pub fn abort(&self, abort_all: bool, request_id: String) -> (outcome: Result<AbortStep, Status>)
        ensures
            match outcome {
                Ok(AbortStep::Answer { status, message }) => abort_all && status
                    == AbortStatus::Unsupported && message@ == "abort_all is not supported"@,
                Ok(AbortStep::Abort { request_id: id }) => !abort_all && request_id@.len() > 0
                    && id == request_id,
                Err(status) => !abort_all && request_id@.len() == 0 && status@ == (
                    Code::InvalidArgument,
                    "request_id is required"@,
                ),
            },
    {
        if abort_all {
            return Ok(
                AbortStep::Answer {
                    status: AbortStatus::Unsupported,
                    message: "abort_all is not supported".to_string(),
                },
            );
        }
        if request_id.as_str().is_empty() {
            return Err(Status::invalid_argument("request_id is required"));
        }
        Ok(AbortStep::Abort { request_id })
    }

    /// Answers an abort, given what the engine made of it. A request that is not in flight is
    /// aborted too.
    pub fn finish_abort(&self, aborted: Result<(), String>) -> (outcome: Result<
        (AbortStatus, String),
        Status,
    >)
        ensures
            match (outcome, aborted) {
                (Ok((status, message)), Ok(())) => status == AbortStatus::Aborted && message@
                    == ""@,
                (Err(status), Err(error)) => status@ == (Code::Internal, error@),
                _ => false,
            },
    {
        match aborted {
            Ok(()) => Ok((AbortStatus::Aborted, "".to_string())),
            Err(error) => Err(Status::internal(error.as_str())),
        }
    }

    /// Refuses new work from now on, and tells how much is in flight.
    pub fn drain(&self, admission: &mut AdmissionState) -> (response: DrainResponse)
        ensures
            final(admission).drains(),
            final(admission).load() == old(admission).load(),
            reports_drain(response, old(admission).load()),
    {
        admission.begin_drain();
        drain_response(admission.in_flight())
    }

    /// Describes where KV events can be had.
    pub fn get_kv_event_sources(&self, advertise_host: &str) -> (sources: Vec<KvEventSource>)
        requires
            forall|i: int|
                0 <= i < self.state.ready_responses@.len() ==> rank_fits(
                    (#[trigger] self.state.ready_responses@[i]).data_parallel_rank,
                    self.state.ready_responses@[i],
                ),
        ensures
            advertises(
                sources@,
                self.state.ready_responses@.map_values(
                    |ready: EngineCoreReadyResponse| (ready.data_parallel_rank, ready),
                ),
                advertise_host@,
            ),
    {
        let ready = &self.state.ready_responses;
        let mut ranked: Vec<(u32, &EngineCoreReadyResponse)> = Vec::new();
        let mut i: usize = 0;
        while i < ready.len()
            invariant
                i <= ready@.len(),
                ranked@.len() == i,
                forall|j: int|
                    0 <= j < i ==> (#[trigger] ranked@[j]).0 == ready@[j].data_parallel_rank
                        && *ranked@[j].1 == ready@[j],
            decreases ready@.len() - i,
        {
            ranked.push((ready[i].data_parallel_rank, &ready[i]));
            i += 1;
        }
        proof {
            assert forall|j: int| 0 <= j < ranked@.len() implies rank_fits(
                (#[trigger] ranked@[j]).0,
                *ranked@[j].1,
            ) by {
                assert(rank_fits(ready@[j].data_parallel_rank, ready@[j]));
            }
            assert(ranked_engines(ranked@) =~= ready@.map_values(
                |ready: EngineCoreReadyResponse| (ready.data_parallel_rank, ready),
            ));
        }
        build_kv_event_sources(&ranked, advertise_host)
    }
}

/// The source of an engine names the host of the endpoint that it is configured with, and as port
/// the configured one plus its rank.
pub proof fn source_ports_follow_the_rank(
    source: KvEventSource,
    rank: u32,
    response: EngineCoreReadyResponse,
    host: Seq<char>,
)
    requires
        is_source_of(source, rank, response, host),
        response.kv_events_endpoint is Some,
        "tcp://"@.is_prefix_of(response.kv_events_endpoint->Some_0@),
        publisher_address(response.kv_events_endpoint->Some_0@, host) matches Some((_, port))
            && port + rank <= u32::MAX,
    ensures
        ({
            let (name, port) = publisher_address(
                response.kv_events_endpoint->Some_0@,
                host,
            )->Some_0;
            &&& source.endpoint_addr.host@ == name
            &&& source.endpoint_addr.port == port + rank
            &&& source.data_parallel_rank == rank
        }),
{
    rank_moves_the_port(response.kv_events_endpoint->Some_0@, host, rank);
}

/// Two ranks with the same configured endpoint never name the same host and port as their source:
/// their ports are as far apart as their ranks.
pub proof fn sources_of_ranks_stand_apart(
    one: KvEventSource,
    other: KvEventSource,
    a: u32,
    b: u32,
    first: EngineCoreReadyResponse,
    second: EngineCoreReadyResponse,
    host: Seq<char>,
)
    requires
        is_source_of(one, a, first, host),
        is_source_of(other, b, second, host),
        first.kv_events_endpoint is Some,
        second.kv_events_endpoint is Some,
        first.kv_events_endpoint->Some_0@ == second.kv_events_endpoint->Some_0@,
        "tcp://"@.is_prefix_of(first.kv_events_endpoint->Some_0@),
        publisher_address(first.kv_events_endpoint->Some_0@, host) matches Some((_, port)) && port
            + a <= u32::MAX && port + b <= u32::MAX,
    ensures
        one.endpoint_addr.port - other.endpoint_addr.port == a - b,
        a != b ==> one.endpoint_addr.port != other.endpoint_addr.port,
{
    source_ports_follow_the_rank(one, a, first, host);
    source_ports_follow_the_rank(other, b, second, host);
}

/// The sources of engines are those of each engine, one behind the other, whatever engines stand
/// beside it. An engine with a TCP endpoint has one if and only if it publishes over ZeroMQ.
pub proof fn each_engine_is_advertised_by_itself(
    front: Seq<(u32, EngineCoreReadyResponse)>,
    back: Seq<(u32, EngineCoreReadyResponse)>,
    rank: u32,
    response: EngineCoreReadyResponse,
    host: Seq<char>,
)
    ensures
        advertised(front + back, host) == advertised(front, host) + advertised(back, host),
        response.kv_events_publisher is Some && response.kv_events_publisher->Some_0@ == "zmq"@
            && response.kv_events_endpoint is Some && "tcp://"@.is_prefix_of(
            response.kv_events_endpoint->Some_0@,
        ) && (publisher_address(response.kv_events_endpoint->Some_0@, host) matches Some((_, port))
            && port + rank <= u32::MAX) ==> advertised(seq![(rank, response)], host) == seq![
            (rank, response),
        ],
        response.kv_events_publisher is None || response.kv_events_publisher->Some_0@ != "zmq"@
            || response.kv_events_endpoint is None ==> advertised(
            seq![(rank, response)],
            host,
        ).len() == 0,
    decreases back.len(),
{
    if back.len() == 0 {
        assert(front + back == front);
        assert(advertised(front, host) + advertised(back, host) =~= advertised(front, host));
    } else {
        each_engine_is_advertised_by_itself(front, back.drop_last(), rank, response, host);
        assert((front + back).drop_last() == front + back.drop_last());
        assert(advertised(front + back, host) =~= advertised(front, host) + advertised(
            back,
            host,
        ));
    }
    assert(seq![(rank, response)].drop_last() == Seq::<(u32, EngineCoreReadyResponse)>::empty());
    reveal_with_fuel(advertised, 2);
    if let Some(endpoint) = response.kv_events_endpoint {
        if "tcp://"@.is_prefix_of(endpoint@) && (publisher_address(endpoint@, host) matches Some(
            (_, port),
        ) && port + rank <= u32::MAX) {
            rank_moves_the_port(endpoint@, host, rank);
        }
    }
    assert(is_advertised(rank, response, host) ==> advertised(seq![(rank, response)], host)
        =~= seq![(rank, response)]);
}

/// Some engine has the KV blocks that are advertised for each.
pub proof fn some_engine_has_the_fewest_blocks(ready: Seq<EngineCoreReadyResponse>)
    requires
        ready.len() > 0,
    ensures
        exists|i: int|
            0 <= i < ready.len() && (#[trigger] ready[i]).num_gpu_blocks == fewest_blocks(ready),
    decreases ready.len(),
{
    if ready.len() == 1 {
        assert(ready[0].num_gpu_blocks == fewest_blocks(ready));
    } else {
        let shorter = ready.drop_last();
        some_engine_has_the_fewest_blocks(shorter);
        let i = choose|i: int|
            0 <= i < shorter.len() && (#[trigger] shorter[i]).num_gpu_blocks == fewest_blocks(
                shorter,
            );
        assert(ready[i] == shorter[i]);
        assert(ready[ready.len() - 1] == ready.last());
    }
}

/// The engine is ready if and only if it is healthy and takes work, and drains if and only if it
/// is healthy and takes none.
pub proof fn health_tells_what_fails(service: EngineServiceImpl, healthy: bool, drains: bool)
    ensures
        service.engine_state(healthy, drains) is Ready <==> healthy && !drains,
        service.engine_state(healthy, drains) is Draining <==> healthy && drains,
        service.engine_state(healthy, drains) is NotReady <==> !healthy,
{
}

/// Adapters matter to the health of the engine if and only if it can load them and the ranks
/// differ.
pub proof fn adapters_diverge_where_they_are_supported(service: EngineServiceImpl, consistent: bool)
    ensures
        service.lora_diverged(consistent) <==> service.state.ready_responses@[0].supports_lora
            && !consistent,
{
}

/// A connector is described as enabled if and only if the engine has one, under its own name.
pub proof fn connectors_are_described_by_name(info: KvConnectorInfo, kv_connector: Option<String>)
    requires
        describes_connector(info, kv_connector),
    ensures
        info.enabled <==> kv_connector is Some,
        kv_connector matches Some(connector) ==> info.transfer_backend@ == connector@,
        kv_connector is None ==> info.transfer_backend@.len() == 0,
        info.local_endpoints@.len() == 0,
        info.supported_protocols@.len() == 0,
        info.schema_version == 1,
{
    reveal_strlit("");
}

/// The ranks are described by the first engine: its sizes under their own names, and its rank both
/// as its own and as the first.
pub proof fn parallelism_is_that_of_the_first_engine(service: EngineServiceImpl)
    ensures
        ({
            let info = service.parallelism();
            let ready = service.state.ready_responses@[0];
            &&& info.tensor_parallel_size == ready.tensor_parallel_size
            &&& info.pipeline_parallel_size == ready.pipeline_parallel_size
            &&& info.data_parallel_rank == ready.data_parallel_rank
            &&& info.data_parallel_start_rank == ready.data_parallel_rank
            &&& ready.data_parallel_size <= u32::MAX ==> info.data_parallel_size
                == ready.data_parallel_size
            &&& ready.data_parallel_size > u32::MAX ==> info.data_parallel_size == u32::MAX
        }),
{
}

/// A request waits for its adapter if and only if it names one that is not in place.
pub proof fn requests_wait_for_their_adapter<F>(started: StartedGenerate<F>)
    ensures
        started.has_adapter() <==> started.lora_name@.len() == 0 || started.text.lora_request
            is Some,
{
}

/// A source tells how the engine publishes: over ZeroMQ, as MessagePack, on the configured topic.
pub proof fn sources_tell_how_events_are_published(
    source: KvEventSource,
    rank: u32,
    response: EngineCoreReadyResponse,
    host: Seq<char>,
)
    requires
        is_source_of(source, rank, response, host),
    ensures
        source.transport@ == seq!['z', 'm', 'q'],
        source.encoding@ == seq!['m', 's', 'g', 'p', 'a', 'c', 'k'],
        source.endpoint_addr.protocol@ == seq!['t', 'c', 'p'],
        response.kv_events_topic matches Some(topic) ==> source.topic@ == topic@,
        response.kv_events_topic is None ==> source.topic@.len() == 0,
        source.replay_endpoint@.len() == 0,
        source.schema_version == 1,
        source.buffer_steps == 0,
        source.hwm == 0,
        source.max_queue_size == 0,
{
    reveal_strlit("zmq");
    reveal_strlit("msgpack");
    reveal_strlit("tcp");
    reveal_strlit("");
    assert("zmq"@ =~= seq!['z', 'm', 'q']);
    assert("msgpack"@ =~= seq!['m', 's', 'g', 'p', 'a', 'c', 'k']);
    assert("tcp"@ =~= seq!['t', 'c', 'p']);
}

/// An engine that publishes has exactly one source, its own, and one that does not has none. No
/// source is made up: there are at most as many as engines.
pub proof fn each_engine_has_one_source(
    sources: Seq<KvEventSource>,
    ranked: Seq<(u32, EngineCoreReadyResponse)>,
    host: Seq<char>,
)
    requires
        advertises(sources, ranked, host),
    ensures
        sources.len() <= ranked.len(),
        ranked.len() == 1 && is_advertised(ranked[0].0, ranked[0].1, host) ==> sources.len() == 1
            && is_source_of(sources[0], ranked[0].0, ranked[0].1, host),
        ranked.len() == 1 && !is_advertised(ranked[0].0, ranked[0].1, host) ==> sources.len() == 0,
{
    lemma_advertised_count(ranked, host);
    reveal_with_fuel(advertised, 2);
    if ranked.len() == 1 {
        assert(ranked.drop_last() =~= Seq::empty());
    }
}

proof fn lemma_advertised_count(ranked: Seq<(u32, EngineCoreReadyResponse)>, host: Seq<char>)
    ensures
        advertised(ranked, host).len() <= ranked.len(),
    decreases ranked.len(),
{
    if ranked.len() > 0 {
        lemma_advertised_count(ranked.drop_last(), host);
    }
}

} // verus!
