//! The OpenEngine service: which requests it takes and what it answers.

use std::sync::Arc;

use vstd::prelude::*;

use crate::admission::AdmissionGuard;
use crate::admission::AdmissionState;
use crate::endpoints::is_wildcard;
use crate::endpoints::unbracketed;
use crate::engine_rpc::service::AbortStatus;
use crate::events::DecodedTextEvent;
use crate::foreign::fresh_uuid;
use crate::foreign::is_random_uuid;
use crate::foreign::metadata_entries;
use crate::lora::RegisteredLora;
use crate::openengine::convert::complete_text_request;
use crate::openengine::convert::completes;
use crate::openengine::convert::conversion_refusal;
use crate::openengine::convert::entry_of;
use crate::openengine::convert::is_served;
use crate::openengine::convert::metadata_options;
use crate::openengine::convert::model_not_found;
use crate::openengine::convert::requested_options;
use crate::openengine::convert::role_from_kv_role;
use crate::openengine::convert::role_of;
use crate::openengine::convert::sampling_refusal;
use crate::openengine::convert::text_view;
use crate::openengine::convert::to_text_request;
use crate::openengine::convert::validate_model;
use crate::openengine::convert::TextConversion;
use crate::openengine::convert::PRIORITY;
use crate::openengine::convert::TARGET_DP_RANK;
use crate::openengine::endpoints::advertised_host;
use crate::openengine::endpoints::connectable_uri_reads_back;
use crate::openengine::endpoints::connectable_zmq_uri;
use crate::openengine::endpoints::is_tcp_endpoint;
use crate::openengine::endpoints::offset_endpoint_port;
use crate::openengine::endpoints::parse_zmq_endpoint;
use crate::openengine::endpoints::rank_endpoint;
use crate::openengine::endpoints::rank_moves_the_port;
use crate::openengine::endpoints::routable_host;
use crate::openengine::endpoints::tcp_address;
use crate::openengine::endpoints::tcp_uri;
use crate::openengine::info::all_support_lora;
use crate::openengine::info::capacity_fits;
use crate::openengine::info::describes_connector;
use crate::openengine::info::get_model_info;
use crate::openengine::info::kv_connector_info;
use crate::openengine::info::server_info;
use crate::openengine::info::supports_lora;
use crate::openengine::info::KvConnectorInfo;
use crate::openengine::info::ModelInfo;
use crate::openengine::info::ServerInfo;
use crate::openengine::load::load_info;
use crate::openengine::load::rank_loads;
use crate::openengine::load::reports_load;
use crate::openengine::load::sums_fit;
use crate::openengine::load::AbortCleanupTasks;
use crate::openengine::load::ConnectorSessionGuard;
use crate::openengine::load::ConnectorSessions;
use crate::openengine::load::LoadInfo;
use crate::openengine::messages::EngineRole;
use crate::openengine::messages::ErrorCode;
use crate::openengine::messages::GenerateRequest;
use crate::openengine::messages::GenerateResponse;
use crate::openengine::messages::KvEndpoint;
use crate::openengine::output::engine_error;
use crate::openengine::output::event_to_responses;
use crate::openengine::output::reports_event;
use crate::openengine::output::reports_failure;
use crate::probe::checks;
use crate::probe::health_check;
use crate::probe::is_probe;
use crate::probe::judge_probe;
use crate::probe::probe_request;
use crate::probe::probe_result;
use crate::probe::HealthCheck;
use crate::probe::HealthResponse;
use crate::probe::HealthState;
use crate::probe::ProbeOutcome;
use crate::protocol::handshake::EngineCoreReadyResponse;
use crate::request::TextDecodeOptions;
use crate::request::TextRequest;
use crate::state::cap;
use crate::state::capped;
use crate::state::copy_or_empty;
use crate::state::text_or_empty;
use crate::state::AppState;
use crate::state::EngineLoad;
use crate::status::Code;
use crate::status::Status;
use crate::text::contains;
use crate::text::join3;
use crate::text::join4;
use crate::text::occurs_in;
use crate::text::same;

verus! {

/// An OpenEngine server in front of one or more engine ranks.
pub struct OpenEngineService {
    pub state: Arc<AppState>,
    pub instance_id: String,
    pub advertise_host: String,
    pub schema_release: String,
    pub role: EngineRole,
}

/// The complaint about a KV role that is not supported.
pub open spec fn unsupported_role(kv_role: Option<String>) -> Seq<char> {
    "vLLM OpenEngine does not support KV role `"@ + text_or_empty(kv_role) + "`"@
}

/// The first complaint about the KV roles of the ranks behind the first, up to `n` ranks in all.
pub open spec fn rank_role_fault(
    ready: Seq<EngineCoreReadyResponse>,
    role: EngineRole,
    n: nat,
) -> Option<Seq<char>>
    decreases n,
{
    if n <= 1 {
        None
    } else {
        let before = rank_role_fault(ready, role, (n - 1) as nat);
        if before is Some {
            before
        } else {
            match role_of(text_view(ready[n - 1].kv_role)) {
                None => Some(unsupported_role(ready[n - 1].kv_role)),
                Some(rank_role) => if rank_role == role {
                    None
                } else {
                    Some("OpenEngine requires a uniform KV role across local engine ranks"@)
                },
            }
        }
    }
}

/// The ranks agree on the data-parallel size.
pub open spec fn sizes_agree(ready: Seq<EngineCoreReadyResponse>) -> bool {
    forall|i: int|
        0 <= i < ready.len() ==> (#[trigger] ready[i]).data_parallel_size
            == ready[0].data_parallel_size
}

/// The rank transfers KV blocks with NIXL.
pub open spec fn uses_nixl(response: EngineCoreReadyResponse) -> bool {
    response.kv_connector matches Some(connector) && occurs_in(connector@, "Nixl"@)
}

/// The complaint about ranks that cannot be served together: the first of these that applies.
pub open spec fn topology_fault(ready: Seq<EngineCoreReadyResponse>) -> Option<Seq<char>> {
    if ready.len() == 0 {
        Some("OpenEngine requires at least one engine rank"@)
    } else {
        match role_of(text_view(ready[0].kv_role)) {
            None => Some(unsupported_role(ready[0].kv_role)),
            Some(role) => if rank_role_fault(ready, role, ready.len()) is Some {
                rank_role_fault(ready, role, ready.len())
            } else if !sizes_agree(ready) {
                Some("OpenEngine requires consistent data-parallel discovery across ranks"@)
            } else if role != EngineRole::Aggregated && !(forall|i: int|
                0 <= i < ready.len() ==> uses_nixl(#[trigger] ready[i])) {
                Some("vLLM OpenEngine disaggregation requires NixlConnector"@)
            } else {
                None
            },
        }
    }
}

fn unsupported_role_text(kv_role: &Option<String>) -> (text: String)
    ensures
        text@ == unsupported_role(*kv_role),
{
    join3(
        "vLLM OpenEngine does not support KV role `",
        copy_or_empty(kv_role).as_str(),
        "`",
    )
}

/// Finds the role that all ranks share, or a complaint about the ranks.
fn find_role(ready: &Vec<EngineCoreReadyResponse>) -> (role: Result<EngineRole, String>)
    ensures
        match role {
            Ok(role) => topology_fault(ready@) is None && role_of(text_view(ready@[0].kv_role))
                == Some(role),
            Err(fault) => topology_fault(ready@) == Some(fault@),
        },
{
    if ready.len() == 0 {
        return Err("OpenEngine requires at least one engine rank".to_string());
    }
    let role = match role_from_kv_role(&ready[0].kv_role) {
        Some(role) => role,
        None => {
            return Err(unsupported_role_text(&ready[0].kv_role));
        },
    };
    let mut i: usize = 1;
    while i < ready.len()
        invariant
            1 <= i <= ready@.len(),
            role_of(text_view(ready@[0].kv_role)) == Some(role),
            rank_role_fault(ready@, role, i as nat) is None,
        decreases ready@.len() - i,
    {
        match role_from_kv_role(&ready[i].kv_role) {
            None => {
                let fault = unsupported_role_text(&ready[i].kv_role);
                proof {
                    lemma_fault_stays(ready@, role, (i + 1) as nat);
                }
                return Err(fault);
            },
            Some(rank_role) => {
                if rank_role != role {
                    proof {
                        lemma_fault_stays(ready@, role, (i + 1) as nat);
                    }
                    return Err(
                        "OpenEngine requires a uniform KV role across local engine ranks".to_string(),
                    );
                }
            },
        }
        i += 1;
    }
    let mut k: usize = 0;
    while k < ready.len()
        invariant
            k <= ready@.len(),
            ready@.len() > 0,
            role_of(text_view(ready@[0].kv_role)) == Some(role),
            rank_role_fault(ready@, role, ready@.len()) is None,
            forall|j: int|
                0 <= j < k ==> (#[trigger] ready@[j]).data_parallel_size
                    == ready@[0].data_parallel_size,
        decreases ready@.len() - k,
    {
        if ready[k].data_parallel_size != ready[0].data_parallel_size {
            assert(!sizes_agree(ready@));
            return Err(
                "OpenEngine requires consistent data-parallel discovery across ranks".to_string(),
            );
        }
        k += 1;
    }
    if role != EngineRole::Aggregated {
        let mut n: usize = 0;
        while n < ready.len()
            invariant
                n <= ready@.len(),
                ready@.len() > 0,
                role != EngineRole::Aggregated,
                sizes_agree(ready@),
                role_of(text_view(ready@[0].kv_role)) == Some(role),
                rank_role_fault(ready@, role, ready@.len()) is None,
                forall|j: int| 0 <= j < n ==> uses_nixl(#[trigger] ready@[j]),
            decreases ready@.len() - n,
        {
            let nixl: bool = match &ready[n].kv_connector {
                Some(connector) => contains(connector.as_str(), "Nixl"),
                None => false,
            };
            if !nixl {
                assert(!uses_nixl(ready@[n as int]));
                return Err("vLLM OpenEngine disaggregation requires NixlConnector".to_string());
            }
            n += 1;
        }
    }
    Ok(role)
}

proof fn lemma_fault_stays(ready: Seq<EngineCoreReadyResponse>, role: EngineRole, n: nat)
    requires
        n <= ready.len(),
        rank_role_fault(ready, role, n) is Some,
    ensures
        rank_role_fault(ready, role, ready.len()) == rank_role_fault(ready, role, n),
    decreases ready.len() - n,
{
    if n < ready.len() {
        lemma_fault_stays(ready, role, n + 1);
    }
}

/// A request that was taken and is on its way to the engine.
#[derive(Debug)]
pub struct StartedGenerate {
    pub conversion: TextConversion,
    pub lora_name: String,
    pub handoff_dp_rank: u32,
}

/// A request that was converted. Its adapter is activated before the engine is asked.
#[derive(Debug)]
pub struct ConvertedGenerate<F> {
    pub text: TextRequest<F>,
    pub lora_name: String,
    pub handoff_dp_rank: u32,
}

/// Why an adapter could not be used for a request.
#[derive(Debug)]
pub enum ActivateLoraError {
    NotFound { lora_name: String },
    Engine(String),
    NotLoaded { lora_name: String },
}

/// The refusal for an adapter that could not be used.
pub open spec fn activation_refusal(error: ActivateLoraError) -> (Code, Seq<char>) {
    match error {
        ActivateLoraError::NotFound { lora_name } => (
            Code::NotFound,
            "LoRA adapter `"@ + lora_name@ + "` is not registered"@,
        ),
        ActivateLoraError::Engine(error) => (Code::Internal, error@),
        ActivateLoraError::NotLoaded { lora_name } => (
            Code::Internal,
            "vLLM rejected LoRA adapter `"@ + lora_name@ + "`"@,
        ),
    }
}

/// Refuses a request whose adapter could not be used.
pub fn activate_lora_status(error: ActivateLoraError) -> (status: Status)
    ensures
        status@ == activation_refusal(error),
{
    match error {
        ActivateLoraError::NotFound { lora_name } => Status::not_found(
            join3("LoRA adapter `", lora_name.as_str(), "` is not registered").as_str(),
        ),
        ActivateLoraError::Engine(error) => Status::internal(error.as_str()),
        ActivateLoraError::NotLoaded { lora_name } => Status::internal(
            join3("vLLM rejected LoRA adapter `", lora_name.as_str(), "`").as_str(),
        ),
    }
}

/// What a stream sends for one event, and whether it ends there.
#[derive(Debug)]
pub struct StreamStep {
    pub responses: Vec<GenerateResponse>,
    pub last: bool,
}

/// A request for the health of the server.
#[derive(Debug)]
pub struct HealthRequest {
    pub role: EngineRole,
    pub model: String,
    pub include_inference_probe: bool,
}

/// The name of a role.
pub open spec fn role_name(role: EngineRole) -> Seq<char> {
    match role {
        EngineRole::Unspecified => "Unspecified"@,
        EngineRole::Aggregated => "Aggregated"@,
        EngineRole::Prefill => "Prefill"@,
        EngineRole::Decode => "Decode"@,
    }
}

fn role_text(role: EngineRole) -> (name: &'static str)
    ensures
        name@ == role_name(role),
{
    match role {
        EngineRole::Unspecified => "Unspecified",
        EngineRole::Aggregated => "Aggregated",
        EngineRole::Prefill => "Prefill",
        EngineRole::Decode => "Decode",
    }
}

/// A health report that may still wait for a probe.
#[derive(Debug)]
pub struct HealthReport {
    pub response: HealthResponse,
    pub probe: bool,
}

/// How a probe begins: it is decided without one, or the engine is asked.
#[derive(Debug)]
pub enum ProbeStart<F> {
    Decided(HealthState, String),
    Run(TextRequest<F>, AdmissionGuard),
}

/// What is aborted.
#[derive(Debug)]
pub enum AbortTarget {
    Unset,
    RequestId(String),
    KvSession { session_id: String },
    AllRequests,
}

/// How an abort goes on: it is answered at once, or the engine is asked to abort requests.
#[derive(Debug)]
pub enum AbortStep {
    Answer { status: AbortStatus, message: String },
    Abort { ids: Vec<String> },
}

/// A source of KV events.
#[derive(Debug)]
pub struct KvEventSource {
    pub transport: String,
    pub endpoint_addr: KvEndpoint,
    pub topic: String,
    pub replay_endpoint: String,
    pub data_parallel_rank: Option<u32>,
    pub encoding: String,
    pub schema_version: Option<u32>,
    pub buffer_steps: Option<u32>,
    pub hwm: Option<u32>,
    pub max_queue_size: Option<u32>,
}

/// How far a server has drained, as its stream tells.
#[derive(Clone, Copy, Debug, PartialEq, Eq, Structural)]
pub enum DrainUpdate {
    Started { in_flight: u64 },
    Complete,
}

/// The address that the events of a rank can be had at.
pub open spec fn event_address(response: EngineCoreReadyResponse, host: Seq<char>) -> Option<
    (Seq<char>, u32),
> {
    match response.kv_events_endpoint {
        Some(endpoint) => tcp_address(
            rank_endpoint(endpoint@, response.data_parallel_rank),
            host,
        ),
        None => None,
    }
}

/// The URI that the events of a rank can be replayed from; empty where there is none.
pub open spec fn replay_uri(response: EngineCoreReadyResponse, host: Seq<char>) -> Seq<char> {
    match response.kv_events_replay_endpoint {
        Some(endpoint) => match tcp_address(
            rank_endpoint(endpoint@, response.data_parallel_rank),
            host,
        ) {
            Some(address) => tcp_uri(address),
            None => ""@,
        },
        None => ""@,
    }
}

/// The source is that of the rank.
pub open spec fn is_source_of(
    source: KvEventSource,
    response: EngineCoreReadyResponse,
    host: Seq<char>,
) -> bool {
    &&& source.transport@ == "zmq"@
    &&& event_address(response, host) matches Some(address) && is_tcp_endpoint(
        source.endpoint_addr,
        address,
    )
    &&& source.topic@ == text_or_empty(response.kv_events_topic)
    &&& source.replay_endpoint@ == replay_uri(response, host)
    &&& source.data_parallel_rank == Some(response.data_parallel_rank)
    &&& source.encoding@ == "msgpack"@
    &&& source.schema_version == Some(1u32)
    &&& source.buffer_steps == Some(capped(response.kv_events_buffer_steps))
    &&& source.hwm == Some(capped(response.kv_events_hwm))
    &&& source.max_queue_size == Some(capped(response.kv_events_max_queue_size))
}

/// The rank is asked for and publishes KV events that can be reached.
pub open spec fn is_advertised(
    response: EngineCoreReadyResponse,
    requested: Seq<u32>,
    host: Seq<char>,
) -> bool {
    &&& requested.len() == 0 || requested.contains(response.data_parallel_rank)
    &&& response.kv_events_publisher matches Some(publisher) && publisher@ == "zmq"@
    &&& event_address(response, host) is Some
}

/// The ranks whose KV events are advertised, in order.
pub open spec fn advertised(
    ready: Seq<EngineCoreReadyResponse>,
    requested: Seq<u32>,
    host: Seq<char>,
) -> Seq<EngineCoreReadyResponse>
    decreases ready.len(),
{
    if ready.len() == 0 {
        Seq::empty()
    } else {
        let before = advertised(ready.drop_last(), requested, host);
        if is_advertised(ready.last(), requested, host) {
            before.push(ready.last())
        } else {
            before
        }
    }
}

fn asked_for(requested: &Vec<u32>, rank: u32) -> (asked: bool)
    ensures
        asked == (requested@.len() == 0 || requested@.contains(rank)),
{
    let mut i: usize = 0;
    while i < requested.len()
        invariant
            i <= requested@.len(),
            forall|j: int| 0 <= j < i ==> requested@[j] != rank,
        decreases requested@.len() - i,
    {
        if requested[i] == rank {
            assert(requested@[i as int] == rank);
            return true;
        }
        i += 1;
    }
    requested.len() == 0
}

/// The abort is refused, since it names nothing.
pub open spec fn refuses_abort(outcome: Result<AbortStep, Status>) -> bool {
    outcome matches Err(status) && status@ == (Code::InvalidArgument, "abort target is required"@)
}

impl OpenEngineService {
    /// An engine is connected, and all ranks play the role of the service.
    pub open spec fn well_formed(self) -> bool {
        &&& self.state.ready_responses@.len() > 0
        &&& topology_fault(self.state.ready_responses@) is None
        &&& role_of(text_view(self.state.first_ready().kv_role)) == Some(self.role)
    }

    /// Sets a service up in front of the connected engines, with a random id of its own.
    pub fn new(state: Arc<AppState>, advertise_host: String, schema_release: String) -> (outcome:
        Result<OpenEngineService, String>)
        ensures
            match outcome {
                Ok(service) => {
                    &&& topology_fault(state.ready_responses@) is None
                    &&& service.well_formed()
                    &&& service.state == state
                    &&& service.advertise_host == advertise_host
                    &&& service.schema_release == schema_release
                    &&& is_random_uuid(service.instance_id@)
                },
                Err(fault) => topology_fault(state.ready_responses@) == Some(fault@),
            },
    {
        match find_role(&state.ready_responses) {
            Ok(role) => Ok(
                OpenEngineService {
                    state,
                    instance_id: fresh_uuid(),
                    advertise_host,
                    schema_release,
                    role,
                },
            ),
            Err(fault) => Err(fault),
        }
    }

    /// What the first engine reported.
    pub fn ready(&self) -> (ready: &EngineCoreReadyResponse)
        requires
            self.well_formed(),
        ensures
            *ready == self.state.first_ready(),
    {
        &self.state.ready_responses[0]
    }

    /// Whether every engine can load adapters.
    pub fn supports_lora(&self) -> (supported: bool)
        ensures
            supported == all_support_lora(self.state.ready_responses@),
    {
        supports_lora(&self.state.ready_responses)
    }

    /// Describes how KV blocks are transferred.
    pub fn kv_connector_info(&self) -> (info: KvConnectorInfo)
        requires
            self.well_formed(),
        ensures
            describes_connector(info, self.state.first_ready().kv_connector is Some),
    {
        kv_connector_info(self.ready())
    }

    /// The refusal for a request, or what it asks of the engine.
    pub open spec fn start_refusal(
        self,
        drains: bool,
        rank: Option<Option<Seq<char>>>,
        priority: Option<Option<Seq<char>>>,
        request: GenerateRequest,
    ) -> Option<(Code, Seq<char>)> {
        if drains {
            Some((Code::Unavailable, "engine is draining"@))
        } else {
            match requested_options(rank, priority) {
                Err(refusal) => Some(refusal),
                Ok((rank, _)) => conversion_refusal(
                    request,
                    self.role,
                    rank,
                    self.state.first_ready().data_parallel_size,
                    self.state.model_id@,
                    self.state.served_model_names@,
                ),
            }
        }
    }

    /// Takes a request to generate text: admits it, reads the options in its metadata and begins
    /// to convert it. A refused request is not in flight; one that was taken is until the guard is
    /// released.
    pub fn generate(
        &self,
        admission: &mut AdmissionState,
        metadata: &tonic::metadata::MetadataMap,
        request: GenerateRequest,
    ) -> (outcome: Result<(StartedGenerate, AdmissionGuard), Status>)
        requires
            self.well_formed(),
            old(admission).load() < u64::MAX,
        ensures
            ({
                let rank = entry_of(metadata_entries(*metadata), TARGET_DP_RANK@);
                let priority = entry_of(metadata_entries(*metadata), PRIORITY@);
                match outcome {
                    Err(status) => {
                        &&& self.start_refusal(
                            old(admission).drains(),
                            rank,
                            priority,
                            request,
                        ) == Some(status@)
                        &&& final(admission).load() == old(admission).load()
                    },
                    Ok((started, _)) => {
                        &&& self.start_refusal(
                            old(admission).drains(),
                            rank,
                            priority,
                            request,
                        ) is None
                        &&& final(admission).load() == old(admission).load() + 1
                        &&& requested_options(rank, priority) == Ok::<
                            (Option<u32>, i32),
                            (Code, Seq<char>),
                        >((started.conversion.target_dp_rank, started.conversion.priority))
                        &&& started.conversion.role == self.role
                        &&& started.conversion.request == (GenerateRequest {
                            input: None,
                            ..request
                        })
                        &&& started.conversion.prompt == (match request.input->Some_0 {
                            crate::openengine::messages::GenerateInput::Prompt(text) =>
                                crate::events::Prompt::Text(text),
                            crate::openengine::messages::GenerateInput::TokenIds(ids) =>
                                crate::events::Prompt::TokenIds(ids),
                        })
                        &&& started.conversion.is_checked()
                        &&& started.lora_name == request.lora_name
                        &&& started.handoff_dp_rank == (match started.conversion.target_dp_rank {
                            Some(rank) => rank,
                            None => self.state.first_ready().data_parallel_rank,
                        })
                    },
                }
            }),
            final(admission).drains() == old(admission).drains(),
    {
        let guard = match admission.try_admit() {
            Some(guard) => guard,
            None => {
                return Err(Status::unavailable("engine is draining"));
            },
        };
        let (target_dp_rank, priority) = match metadata_options(metadata) {
            Ok(options) => options,
            Err(status) => {
                admission.release(guard);
                return Err(status);
            },
        };
        let lora_name = request.lora_name.clone();
        let handoff_dp_rank: u32 = match target_dp_rank {
            Some(rank) => rank,
            None => self.ready().data_parallel_rank,
        };
        match to_text_request(
            request,
            self.role,
            target_dp_rank,
            priority,
            self.ready().data_parallel_size,
            self.state.model_id.as_str(),
            &self.state.served_model_names,
        ) {
            Ok(conversion) => Ok(
                (StartedGenerate { conversion, lora_name, handoff_dp_rank }, guard),
            ),
            Err(status) => {
                admission.release(guard);
                Err(status)
            },
        }
    }

    /// Decides whether the adapter of a request has to be activated.
    pub fn needs_lora(&self, lora_name: &str) -> (outcome: Result<bool, Status>)
        ensures
            match outcome {
                Ok(needed) => needed == (lora_name@.len() > 0) && (needed ==> all_support_lora(
                    self.state.ready_responses@,
                )),
                Err(status) => lora_name@.len() > 0 && !all_support_lora(
                    self.state.ready_responses@,
                ) && status@ == (
                    Code::FailedPrecondition,
                    "vLLM was not started with dynamic LoRA support"@,
                ),
            },
    {
        if lora_name.is_empty() {
            return Ok(false);
        }
        if !self.supports_lora() {
            return Err(
                Status::failed_precondition("vLLM was not started with dynamic LoRA support"),
            );
        }
        Ok(true)
    }

    /// Puts the adapter of a request in place, given what its activation came to.
    pub fn attach_lora<F>(
        &self,
        text: TextRequest<F>,
        activated: Result<RegisteredLora, ActivateLoraError>,
    ) -> (outcome: Result<TextRequest<F>, Status>)
        ensures
            match (outcome, activated) {
                (Ok(with_lora), Ok(adapter)) => with_lora == (TextRequest {
                    lora_request: Some(adapter),
                    ..text
                }),
                (Err(status), Err(error)) => status@ == activation_refusal(error),
                _ => false,
            },
    {
        match activated {
            Ok(adapter) => {
                let mut text = text;
                text.lora_request = Some(adapter);
                Ok(text)
            },
            Err(error) => Err(activate_lora_status(error)),
        }
    }

    /// Converts a request whose media are prepared, and decides whether its adapter can be used.
    /// The adapter is activated next, where there is one.
    pub fn convert_request<F>(&self, started: StartedGenerate, mm_features: Option<F>) -> (outcome:
        Result<ConvertedGenerate<F>, Status>)
        requires
            started.conversion.takes(mm_features),
        ensures
            ({
                let refusal = sampling_refusal(started.conversion.request);
                let unsupported = started.lora_name@.len() > 0 && !all_support_lora(
                    self.state.ready_responses@,
                );
                match outcome {
                    Ok(converted) => {
                        &&& !unsupported
                        &&& completes(converted.text, started.conversion, mm_features)
                        &&& converted.lora_name == started.lora_name
                        &&& converted.handoff_dp_rank == started.handoff_dp_rank
                    },
                    Err(status) => if refusal is Some {
                        refusal == Some(status@)
                    } else {
                        unsupported && status@ == (
                            Code::FailedPrecondition,
                            "vLLM was not started with dynamic LoRA support"@,
                        )
                    },
                }
            }),
    {
        let text = match complete_text_request(started.conversion, mm_features) {
            Ok(text) => text,
            Err(status) => {
                return Err(status);
            },
        };
        if let Err(status) = self.needs_lora(started.lora_name.as_str()) {
            return Err(status);
        }
        Ok(
            ConvertedGenerate {
                text,
                lora_name: started.lora_name,
                handoff_dp_rank: started.handoff_dp_rank,
            },
        )
    }

    /// The request that the engine is asked for, given what the activation of its adapter came
    /// to. A request that names no adapter has none.
    pub fn finish_generate<F>(
        &self,
        converted: ConvertedGenerate<F>,
        activated: Option<Result<RegisteredLora, ActivateLoraError>>,
    ) -> (outcome: Result<TextRequest<F>, Status>)
        requires
            activated is Some <==> converted.lora_name@.len() > 0,
        ensures
            match (outcome, activated) {
                (Ok(text), None) => text == converted.text,
                (Ok(text), Some(Ok(adapter))) => text == (TextRequest {
                    lora_request: Some(adapter),
                    ..converted.text
                }),
                (Err(status), Some(Err(error))) => status@ == activation_refusal(error),
                _ => false,
            },
    {
        match activated {
            None => Ok(converted.text),
            Some(activated) => self.attach_lora(converted.text, activated),
        }
    }

    /// Counts the stream of a request that begins, where the engine hands KV blocks over.
    pub fn begin_session(&self, sessions: &mut ConnectorSessions) -> (guard: Option<
        ConnectorSessionGuard,
    >)
        requires
            old(sessions).count() < u64::MAX,
        ensures
            guard is Some == (self.role != EngineRole::Aggregated),
            final(sessions).count() == old(sessions).count() + (if guard is Some {
                1int
            } else {
                0
            }),
    {
        if self.role == EngineRole::Aggregated {
            None
        } else {
            Some(ConnectorSessionGuard::new(sessions))
        }
    }

    /// Turns what the engine reports of a running request into responses. A failure is the last
    /// thing that a stream sends.
    pub fn stream_step(
        &self,
        event: Result<DecodedTextEvent, String>,
        request_id: &str,
        handoff_dp_rank: u32,
    ) -> (step: StreamStep)
        ensures
            match event {
                Ok(event) => !step.last && reports_event(
                    step.responses@,
                    event,
                    request_id@,
                    self.role,
                    handoff_dp_rank,
                ),
                Err(error) => step.last && step.responses@.len() == 1 && reports_failure(
                    step.responses@[0],
                    request_id@,
                    ErrorCode::Internal,
                    error@,
                    None,
                ),
            },
    {
        match event {
            Ok(event) => StreamStep {
                responses: event_to_responses(event, request_id, self.role, handoff_dp_rank),
                last: false,
            },
            Err(error) => {
                let mut responses: Vec<GenerateResponse> = Vec::new();
                responses.push(
                    engine_error(request_id, ErrorCode::Internal, error.as_str(), None),
                );
                StreamStep { responses, last: true }
            },
        }
    }

    /// Describes the server.
    pub fn get_server_info(&self) -> (info: ServerInfo)
        requires
            self.well_formed(),
            capacity_fits(self.state.ready_responses@),
        ensures
            info.engine_role == self.role,
            info.instance_id == self.instance_id,
            info.schema_release == self.schema_release,
            info.supported_models@ == seq![self.state.model_id],
            info.engine_version == self.state.first_ready().vllm_version,
            info.schema_revision == crate::openengine::info::SCHEMA_REVISION,
            info.minimum_client_revision == crate::openengine::info::MINIMUM_CLIENT_REVISION,
            info.engine_name@ == "vllm"@,
            describes_connector(info.kv_connector, self.state.first_ready().kv_connector is Some),
            crate::openengine::info::describes_topology(
                info.parallelism,
                info.capacity,
                self.state.ready_responses@,
            ),
    {
        server_info(&self.state, self.role, &self.instance_id, &self.schema_release)
    }

    /// Describes the model that a client asks for.
    pub fn get_model_info(&self, requested: &str) -> (outcome: Result<ModelInfo, Status>)
        requires
            self.state.well_formed(),
        ensures
            match outcome {
                Ok(info) => is_served(
                    requested@,
                    self.state.model_id@,
                    self.state.served_model_names@,
                ) && crate::openengine::info::describes_model(info, *self.state),
                Err(status) => !is_served(
                    requested@,
                    self.state.model_id@,
                    self.state.served_model_names@,
                ) && status@ == (Code::NotFound, model_not_found(requested@)),
            },
    {
        get_model_info(&self.state, requested)
    }

    /// Reports the load of the engines.
    pub fn get_load(
        &self,
        indices: &Vec<u32>,
        loads: &Vec<EngineLoad>,
        server_load: u64,
        sessions: &ConnectorSessions,
        cleanups: &AbortCleanupTasks,
        include_per_rank: bool,
        now: Option<u64>,
    ) -> (info: LoadInfo)
        requires
            sums_fit(
                self.state.ready_responses@,
                rank_loads(indices@, self.state.ready_responses@, loads@),
            ),
        ensures
            info.instance_id == self.instance_id,
            info.timestamp_unix_nanos == now,
            reports_load(
                info,
                self.role,
                self.state.ready_responses@,
                rank_loads(indices@, self.state.ready_responses@, loads@),
                server_load,
                sessions.count(),
                cleanups.count(),
                include_per_rank,
            ),
    {
        load_info(
            &self.instance_id,
            self.role,
            &self.state.ready_responses,
            indices,
            loads,
            server_load,
            sessions.active(),
            cleanups.pending(),
            include_per_rank,
            now,
        )
    }

    /// The health of the server before any probe.
    pub open spec fn health_before_probe(
        self,
        role: EngineRole,
        healthy: bool,
        drains: bool,
    ) -> HealthState {
        if !healthy || !self.expects(role) {
            HealthState::NotReady
        } else if drains {
            HealthState::Draining
        } else {
            HealthState::Ready
        }
    }

    /// The service plays the role that a client expects.
    pub open spec fn expects(self, role: EngineRole) -> bool {
        role == EngineRole::Unspecified || role == self.role
    }

    /// Reports the health of the server, given how the engine and the admission are. Where the
    /// client asks for a probe and the server is ready, the report waits for it.
    pub fn health(
        &self,
        request: &HealthRequest,
        engine_healthy: bool,
        engine_error: Option<String>,
        draining: bool,
    ) -> (report: HealthReport)
        ensures
            report.response.state == self.health_before_probe(
                request.role,
                engine_healthy,
                draining,
            ),
            report.probe == (request.include_inference_probe && report.response.state
                == HealthState::Ready),
            report.response.checks@.len() == 2,
            checks(
                report.response.checks@[0],
                "engine"@,
                if engine_healthy {
                    HealthState::Ready
                } else {
                    HealthState::NotReady
                },
                text_or_empty(engine_error),
            ),
            checks(
                report.response.checks@[1],
                "role"@,
                if self.expects(request.role) {
                    HealthState::Ready
                } else {
                    HealthState::NotReady
                },
                if self.expects(request.role) {
                    ""@
                } else {
                    "expected "@ + role_name(request.role) + ", serving "@ + role_name(self.role)
                },
            ),
    {
        let role_matches: bool = request.role == EngineRole::Unspecified || request.role
            == self.role;
        let state = if !engine_healthy || !role_matches {
            HealthState::NotReady
        } else if draining {
            HealthState::Draining
        } else {
            HealthState::Ready
        };
        let mut checks: Vec<HealthCheck> = Vec::new();
        checks.push(
            health_check(
                "engine",
                if engine_healthy {
                    HealthState::Ready
                } else {
                    HealthState::NotReady
                },
                engine_error,
            ),
        );
        let message: Option<String> = if role_matches {
            None
        } else {
            Some(
                join4("expected ", role_text(request.role), ", serving ", role_text(self.role)),
            )
        };
        checks.push(
            health_check(
                "role",
                if role_matches {
                    HealthState::Ready
                } else {
                    HealthState::NotReady
                },
                message,
            ),
        );
        HealthReport {
            probe: request.include_inference_probe && state == HealthState::Ready,
            response: HealthResponse { state, checks },
        }
    }

    /// Begins a probe. A model that is not served, a role that needs a peer and an engine that
    /// takes no work decide it without asking the engine; a probe that runs is in flight.
    /// `decode_options` are those that the text engine has by default.
    pub fn run_inference_probe<F>(
        &self,
        admission: &mut AdmissionState,
        model: &str,
        decode_options: TextDecodeOptions,
    ) -> (start: ProbeStart<F>)
        requires
            old(admission).load() < u64::MAX,
        ensures
            final(admission).drains() == old(admission).drains(),
            ({
                let served = is_served(
                    model@,
                    self.state.model_id@,
                    self.state.served_model_names@,
                );
                match start {
                    ProbeStart::Run(request, _) => {
                        &&& served
                        &&& self.role == EngineRole::Aggregated
                        &&& !old(admission).drains()
                        &&& is_probe(request, "openengine-health-"@, decode_options)
                        &&& final(admission).load() == old(admission).load() + 1
                    },
                    ProbeStart::Decided(state, message) => {
                        &&& final(admission).load() == old(admission).load()
                        &&& if !served {
                            state == HealthState::Degraded && message@ == model_not_found(model@)
                        } else if self.role != EngineRole::Aggregated {
                            state == HealthState::Ready && message@
                                == "engine-core readiness used because a disaggregated probe requires its peer"@
                        } else {
                            &&& old(admission).drains()
                            &&& state == HealthState::NotReady
                            &&& message@ == "inference probe rejected by engine admission"@
                        }
                    },
                }
            }),
    {
        if let Err(status) = validate_model(
            model,
            self.state.model_id.as_str(),
            &self.state.served_model_names,
        ) {
            return ProbeStart::Decided(HealthState::Degraded, status.message);
        }
        if self.role != EngineRole::Aggregated {
            return ProbeStart::Decided(
                HealthState::Ready,
                "engine-core readiness used because a disaggregated probe requires its peer".to_string(),
            );
        }
        match admission.try_admit() {
            Some(guard) => ProbeStart::Run(
                probe_request("openengine-health-", decode_options),
                guard,
            ),
            None => ProbeStart::Decided(
                HealthState::NotReady,
                "inference probe rejected by engine admission".to_string(),
            ),
        }
    }

    /// Adds what a probe came to. Anything but a ready engine is what the server reports.
    pub fn finish_health(&self, report: HealthReport, state: HealthState, message: String) -> (response:
        HealthResponse)
        ensures
            response.state == (if state == HealthState::Ready {
                report.response.state
            } else {
                state
            }),
            response.checks@.len() == report.response.checks@.len() + 1,
            response.checks@.drop_last() == report.response.checks@,
            checks(response.checks@.last(), "inference_probe"@, state, message@),
    {
        let mut response = report.response;
        response.checks.push(health_check("inference_probe", state, Some(message)));
        assert(response.checks@.drop_last() =~= report.response.checks@);
        if state != HealthState::Ready {
            response.state = state;
        }
        response
    }

    /// How the server is after a probe ran, and what is said of it.
    pub fn finish_probe(&self, outcome: ProbeOutcome) -> (result: (HealthState, String))
        ensures
            result.0 == probe_result(outcome).0,
            result.1@ == (match probe_result(outcome).1 {
                Some(message) => message,
                None => ""@,
            }),
    {
        let (state, message) = judge_probe(outcome);
        (
            state,
            match message {
                Some(message) => message,
                None => "".to_string(),
            },
        )
    }

    /// Decides how an abort goes on. All requests at once cannot be aborted, since their ids are
    /// not kept.
    pub fn abort(&self, target: AbortTarget) -> (outcome: Result<AbortStep, Status>)
        ensures
            match target {
                AbortTarget::AllRequests => outcome matches Ok(AbortStep::Answer { status, message })
                    && status == AbortStatus::Unsupported && message@
                    == "abort_all is not supported"@,
                AbortTarget::Unset => refuses_abort(outcome),
                AbortTarget::RequestId(id) => if id@.len() > 0 {
                    outcome matches Ok(AbortStep::Abort { ids }) && ids@ == seq![id]
                } else {
                    refuses_abort(outcome)
                },
                AbortTarget::KvSession { session_id } => if session_id@.len() > 0 {
                    outcome matches Ok(AbortStep::Abort { ids }) && ids@ == seq![session_id]
                } else {
                    refuses_abort(outcome)
                },
            },
    {
        let id = match target {
            AbortTarget::RequestId(id) => id,
            AbortTarget::KvSession { session_id } => session_id,
            AbortTarget::AllRequests => {
                return Ok(
                    AbortStep::Answer {
                        status: AbortStatus::Unsupported,
                        message: "abort_all is not supported".to_string(),
                    },
                );
            },
            AbortTarget::Unset => {
                return Err(Status::invalid_argument("abort target is required"));
            },
        };
        if id.as_str().is_empty() {
            return Err(Status::invalid_argument("abort target is required"));
        }
        let mut ids: Vec<String> = Vec::new();
        ids.push(id);
        assert(ids@ =~= seq![id]);
        Ok(AbortStep::Abort { ids })
    }

    /// Answers an abort, given what the engine made of it. A request that is not in flight is
    /// aborted too.
    pub fn finish_abort(&self, aborted: Result<(), String>) -> (outcome: Result<
        (AbortStatus, String),
        Status,
    >)
        ensures
            match (outcome, aborted) {
                (Ok((status, message)), Ok(())) => status == AbortStatus::Aborted && message@
                    == ""@,
                (Err(status), Err(error)) => status@ == (Code::Internal, error@),
                _ => false,
            },
    {
        match aborted {
            Ok(()) => Ok((AbortStatus::Aborted, "".to_string())),
            Err(error) => Err(Status::internal(error.as_str())),
        }
    }

    /// Begins to drain: new work is refused from now on. Tells the first updates of the stream.
    pub fn drain(&self, admission: &mut AdmissionState) -> (updates: Vec<DrainUpdate>)
        ensures
            final(admission).drains(),
            final(admission).load() == old(admission).load(),
            updates@ == (if old(admission).load() == 0 {
                seq![DrainUpdate::Started { in_flight: 0 }, DrainUpdate::Complete]
            } else {
                seq![DrainUpdate::Started { in_flight: old(admission).load() }]
            }),
    {
        admission.begin_drain();
        let in_flight: u64 = admission.in_flight();
        let mut updates: Vec<DrainUpdate> = Vec::new();
        updates.push(DrainUpdate::Started { in_flight });
        if let Some(update) = self.drain_progress(admission) {
            updates.push(update);
        }
        updates
    }

    /// The update that ends the stream of a drain, once no work is in flight.
    pub fn drain_progress(&self, admission: &AdmissionState) -> (update: Option<DrainUpdate>)
        ensures
            update == (if admission.load() == 0 {
                Some(DrainUpdate::Complete)
            } else {
                None
            }),
    {
        if admission.in_flight() == 0 {
            Some(DrainUpdate::Complete)
        } else {
            None
        }
    }

    /// Describes where the KV events of a rank can be had, with `host` in place of a host that
    /// stands for every address.
    pub fn kv_event_source(&self, ready: &EngineCoreReadyResponse, host: &str) -> (source: Option<
        KvEventSource,
    >)
        ensures
            match source {
                Some(source) => is_source_of(source, *ready, host@),
                None => event_address(*ready, host@) is None,
            },
    {
        let endpoint = match &ready.kv_events_endpoint {
            Some(endpoint) => offset_endpoint_port(endpoint.as_str(), ready.data_parallel_rank),
            None => {
                return None;
            },
        };
        let endpoint_addr = match parse_zmq_endpoint(endpoint.as_str(), host) {
            Some(address) => address,
            None => {
                return None;
            },
        };
        let replay_endpoint = match &ready.kv_events_replay_endpoint {
            Some(endpoint) => {
                let endpoint = offset_endpoint_port(endpoint.as_str(), ready.data_parallel_rank);
                match connectable_zmq_uri(endpoint.as_str(), host) {
                    Some(uri) => uri,
                    None => "".to_string(),
                }
            },
            None => "".to_string(),
        };
        Some(
            KvEventSource {
                transport: "zmq".to_string(),
                endpoint_addr,
                topic: copy_or_empty(&ready.kv_events_topic),
                replay_endpoint,
                data_parallel_rank: Some(ready.data_parallel_rank),
                encoding: "msgpack".to_string(),
                schema_version: Some(1),
                buffer_steps: Some(cap(ready.kv_events_buffer_steps)),
                hwm: Some(cap(ready.kv_events_hwm)),
                max_queue_size: Some(cap(ready.kv_events_max_queue_size)),
            },
        )
    }

    /// Describes where KV events can be had, for the ranks that are asked for or for all of them.
    /// `discovered_host` is advertised where no address is configured.
    pub fn get_kv_event_sources(&self, requested: &Vec<u32>, discovered_host: &str) -> (sources: Vec<
        KvEventSource,
    >)
        ensures
            ({
                let host = advertised_host(self.advertise_host@, discovered_host@);
                let ranks = advertised(self.state.ready_responses@, requested@, host);
                &&& sources@.len() == ranks.len()
                &&& forall|i: int|
                    0 <= i < sources@.len() ==> is_source_of(
                        #[trigger] sources@[i],
                        ranks[i],
                        host,
                    )
            }),
    {
        let host = routable_host(self.advertise_host.as_str(), discovered_host);
        let ready = &self.state.ready_responses;
        let mut sources: Vec<KvEventSource> = Vec::new();
        let mut i: usize = 0;
        while i < ready.len()
            invariant
                i <= ready@.len(),
                sources@.len() == advertised(ready@.take(i as int), requested@, host@).len(),
                forall|j: int|
                    0 <= j < sources@.len() ==> is_source_of(
                        #[trigger] sources@[j],
                        advertised(ready@.take(i as int), requested@, host@)[j],
                        host@,
                    ),
            decreases ready@.len() - i,
        {
            assert(ready@.take(i + 1).drop_last() == ready@.take(i as int));
            let response = &ready[i];
            let published: bool = match &response.kv_events_publisher {
                Some(publisher) => same(publisher.as_str(), "zmq"),
                None => false,
            };
            if asked_for(requested, response.data_parallel_rank) && published {
                if let Some(source) = self.kv_event_source(response, host.as_str()) {
                    sources.push(source);
                }
            }
            i += 1;
        }
        assert(ready@.take(i as int) == ready@);
        sources
    }

    /// KV events are not streamed here.
    pub fn subscribe_kv_events(&self) -> (status: Status)
        ensures
            status@ == (
                Code::Unimplemented,
                "vLLM advertises direct ZMQ/msgpack KV event sources"@,
            ),
    {
        Status::unimplemented("vLLM advertises direct ZMQ/msgpack KV event sources")
    }

    /// Runtime events are not streamed.
    pub fn subscribe_runtime_events(&self) -> (status: Status)
        ensures
            status@ == (Code::Unimplemented, "vLLM does not stream runtime events"@),
    {
        Status::unimplemented("vLLM does not stream runtime events")
    }
}

/// The source of a rank names the host of the endpoint that its engine is configured with, and as
/// port the configured one plus the rank, where that fits in 32 bits.
pub proof fn source_ports_follow_the_rank(
    source: KvEventSource,
    response: EngineCoreReadyResponse,
    host: Seq<char>,
)
    requires
        is_source_of(source, response, host),
        response.kv_events_endpoint matches Some(endpoint) && tcp_address(endpoint@, host)
            matches Some((_, port)) && port + response.data_parallel_rank <= u32::MAX,
    ensures
        ({
            let (name, port) = tcp_address(response.kv_events_endpoint->Some_0@, host)->Some_0;
            &&& source.endpoint_addr.host@ == name
            &&& source.endpoint_addr.port == port + response.data_parallel_rank
            &&& source.data_parallel_rank == Some(response.data_parallel_rank)
        }),
{
    rank_moves_the_port(
        response.kv_events_endpoint->Some_0@,
        host,
        response.data_parallel_rank,
    );
}

/// Two ranks with the same configured endpoint never name the same host and port as their source:
/// their ports are as far apart as their ranks.
pub proof fn sources_of_ranks_stand_apart(
    one: KvEventSource,
    other: KvEventSource,
    first: EngineCoreReadyResponse,
    second: EngineCoreReadyResponse,
    host: Seq<char>,
)
    requires
        is_source_of(one, first, host),
        is_source_of(other, second, host),
        first.kv_events_endpoint is Some,
        second.kv_events_endpoint is Some,
        first.kv_events_endpoint->Some_0@ == second.kv_events_endpoint->Some_0@,
        tcp_address(first.kv_events_endpoint->Some_0@, host) matches Some((_, port)) && port
            + first.data_parallel_rank <= u32::MAX && port + second.data_parallel_rank <= u32::MAX,
    ensures
        one.endpoint_addr.port - other.endpoint_addr.port == first.data_parallel_rank
            - second.data_parallel_rank,
        first.data_parallel_rank != second.data_parallel_rank ==> one.endpoint_addr.port
            != other.endpoint_addr.port,
{
    source_ports_follow_the_rank(one, first, host);
    source_ports_follow_the_rank(other, second, host);
}

/// The events of a rank are replayed from the URI of the configured replay endpoint with the rank
/// added to its port, which a subscriber reads as that host and that port.
pub proof fn replay_ports_follow_the_rank(
    source: KvEventSource,
    response: EngineCoreReadyResponse,
    host: Seq<char>,
    other_host: Seq<char>,
)
    requires
        is_source_of(source, response, host),
        !is_wildcard(host),
        unbracketed(host) == host,
    ensures
        response.kv_events_replay_endpoint is None ==> source.replay_endpoint@.len() == 0,
        response.kv_events_replay_endpoint matches Some(endpoint) ==> (tcp_address(endpoint@, host)
            matches Some((name, port)) ==> port + response.data_parallel_rank <= u32::MAX
            ==> tcp_address(source.replay_endpoint@, other_host) == Some(
            (name, (port + response.data_parallel_rank) as u32),
        )),
{
    reveal_strlit("");
    if let Some(endpoint) = response.kv_events_replay_endpoint {
        if tcp_address(endpoint@, host) is Some {
            rank_moves_the_port(endpoint@, host, response.data_parallel_rank);
            connectable_uri_reads_back(
                rank_endpoint(endpoint@, response.data_parallel_rank),
                host,
                other_host,
            );
        }
    }
}

/// A source tells how the engine publishes: over ZeroMQ, as MessagePack, on the configured topic,
/// with the configured limits cut to 32 bits from above.
pub proof fn sources_tell_how_events_are_published(
    source: KvEventSource,
    response: EngineCoreReadyResponse,
    host: Seq<char>,
)
    requires
        is_source_of(source, response, host),
    ensures
        source.transport@ == seq!['z', 'm', 'q'],
        source.encoding@ == seq!['m', 's', 'g', 'p', 'a', 'c', 'k'],
        source.endpoint_addr.protocol@ == seq!['t', 'c', 'p'],
        response.kv_events_topic matches Some(topic) ==> source.topic@ == topic@,
        response.kv_events_topic is None ==> source.topic@.len() == 0,
        source.buffer_steps is Some,
        response.kv_events_buffer_steps <= u32::MAX ==> source.buffer_steps->Some_0
            == response.kv_events_buffer_steps,
        response.kv_events_buffer_steps > u32::MAX ==> source.buffer_steps->Some_0 == u32::MAX,
        source.hwm is Some,
        response.kv_events_hwm <= u32::MAX ==> source.hwm->Some_0 == response.kv_events_hwm,
        response.kv_events_hwm > u32::MAX ==> source.hwm->Some_0 == u32::MAX,
        source.max_queue_size is Some,
        response.kv_events_max_queue_size <= u32::MAX ==> source.max_queue_size->Some_0
            == response.kv_events_max_queue_size,
        response.kv_events_max_queue_size > u32::MAX ==> source.max_queue_size->Some_0 == u32::MAX,
{
    reveal_strlit("zmq");
    reveal_strlit("msgpack");
    reveal_strlit("tcp");
    reveal_strlit("");
    assert("zmq"@ == seq!['z', 'm', 'q']);
    assert("msgpack"@ == seq!['m', 's', 'g', 'p', 'a', 'c', 'k']);
    assert("tcp"@ == seq!['t', 'c', 'p']);
}

/// The sources of engines are those of each engine, one behind the other, whatever engines stand
/// beside it. An engine has one if and only if its rank is asked for, or none in particular is, and
/// it publishes over ZeroMQ on a TCP endpoint.
pub proof fn each_engine_is_advertised_by_itself(
    front: Seq<EngineCoreReadyResponse>,
    back: Seq<EngineCoreReadyResponse>,
    response: EngineCoreReadyResponse,
    requested: Seq<u32>,
    host: Seq<char>,
)
    ensures
        advertised(front + back, requested, host) == advertised(front, requested, host)
            + advertised(back, requested, host),
        (requested.len() == 0 || requested.contains(response.data_parallel_rank))
            && response.kv_events_publisher is Some && response.kv_events_publisher->Some_0@
            == "zmq"@ && response.kv_events_endpoint is Some && tcp_address(
            response.kv_events_endpoint->Some_0@,
            host,
        ) is Some ==> advertised(seq![response], requested, host) == seq![response],
        (requested.len() > 0 && !requested.contains(response.data_parallel_rank))
            || response.kv_events_publisher is None || response.kv_events_publisher->Some_0@
            != "zmq"@ || response.kv_events_endpoint is None || !"tcp://"@.is_prefix_of(
            response.kv_events_endpoint->Some_0@,
        ) ==> advertised(seq![response], requested, host).len() == 0,
    decreases back.len(),
{
    if back.len() == 0 {
        assert(front + back == front);
        assert(advertised(front, requested, host) + advertised(back, requested, host)
            =~= advertised(front, requested, host));
    } else {
        each_engine_is_advertised_by_itself(
            front,
            back.drop_last(),
            response,
            requested,
            host,
        );
        assert((front + back).drop_last() == front + back.drop_last());
        assert(advertised(front + back, requested, host) =~= advertised(front, requested, host)
            + advertised(back, requested, host));
    }
    assert(seq![response].drop_last() == Seq::<EngineCoreReadyResponse>::empty());
    reveal_with_fuel(advertised, 2);
    if let Some(endpoint) = response.kv_events_endpoint {
        if tcp_address(endpoint@, host) is Some {
            rank_moves_the_port(endpoint@, host, response.data_parallel_rank);
        }
        if !"tcp://"@.is_prefix_of(endpoint@) {
            lemma_other_scheme_has_no_address(endpoint@, host, response.data_parallel_rank);
        }
    }
    assert(is_advertised(response, requested, host) ==> advertised(
        seq![response],
        requested,
        host,
    ) =~= seq![response]);
}

proof fn lemma_other_scheme_has_no_address(endpoint: Seq<char>, host: Seq<char>, rank: u32)
    requires
        !"tcp://"@.is_prefix_of(endpoint),
    ensures
        tcp_address(rank_endpoint(endpoint, rank), host) is None,
{
    reveal_strlit("tcp://");
    reveal_strlit("inproc://");
    let moved = rank_endpoint(endpoint, rank);
    if "inproc://"@.is_prefix_of(endpoint) {
        assert(endpoint[0] == "inproc://"@[0]);
        assert(moved[0] == endpoint[0]);
        if "tcp://"@.is_prefix_of(moved) {
            assert(moved[0] == "tcp://"@[0]);
        }
    }
}

proof fn lemma_roles_agree(ready: Seq<EngineCoreReadyResponse>, role: EngineRole, n: nat)
    requires
        n <= ready.len(),
        role_of(text_view(ready[0].kv_role)) == Some(role),
    ensures
        rank_role_fault(ready, role, n) is None <==> forall|i: int|
            #![trigger ready[i]]
            0 <= i < n ==> role_of(text_view(ready[i].kv_role)) == Some(role),
    decreases n,
{
    if n > 1 {
        lemma_roles_agree(ready, role, (n - 1) as nat);
        let last = ready[n - 1];
        if rank_role_fault(ready, role, n) is None {
            assert forall|i: int| #![trigger ready[i]] 0 <= i < n implies role_of(
                text_view(ready[i].kv_role),
            ) == Some(role) by {
                if i == n - 1 {
                    assert(ready[i] == last);
                }
            }
        }
    }
}

/// Engines are served together if and only if there is one, all have the same supported part, all
/// agree on the number of ranks, and, where they work for one another, all transfer with NIXL.
pub proof fn ranks_are_served_when_they_agree(ready: Seq<EngineCoreReadyResponse>)
    ensures
        topology_fault(ready) is None <==> {
            &&& ready.len() > 0
            &&& role_of(text_view(ready[0].kv_role)) is Some
            &&& forall|i: int, j: int|
                #![trigger ready[i], ready[j]]
                0 <= i < ready.len() && 0 <= j < ready.len() ==> role_of(
                    text_view(ready[i].kv_role),
                ) == role_of(text_view(ready[j].kv_role)) && ready[i].data_parallel_size
                    == ready[j].data_parallel_size
            &&& ready[0].kv_role is Some ==> forall|i: int|
                #![trigger ready[i]]
                0 <= i < ready.len() ==> ready[i].kv_connector is Some && occurs_in(
                    ready[i].kv_connector->Some_0@,
                    "Nixl"@,
                )
        },
{
    if ready.len() > 0 {
        let first = ready[0];
        if let Some(role) = role_of(text_view(ready[0].kv_role)) {
            lemma_roles_agree(ready, role, ready.len());
            if topology_fault(ready) is None {
                assert forall|i: int, j: int|
                    #![trigger ready[i], ready[j]]
                    0 <= i < ready.len() && 0 <= j < ready.len() implies role_of(
                    text_view(ready[i].kv_role),
                ) == role_of(text_view(ready[j].kv_role)) && ready[i].data_parallel_size
                    == ready[j].data_parallel_size by {}
                if ready[0].kv_role is Some {
                    assert forall|i: int| #![trigger ready[i]] 0 <= i
                        < ready.len() implies ready[i].kv_connector is Some && occurs_in(
                        ready[i].kv_connector->Some_0@,
                        "Nixl"@,
                    ) by {
                        assert(uses_nixl(ready[i]));
                    }
                }
            }
            if (forall|i: int, j: int|
                #![trigger ready[i], ready[j]]
                0 <= i < ready.len() && 0 <= j < ready.len() ==> role_of(
                    text_view(ready[i].kv_role),
                ) == role_of(text_view(ready[j].kv_role)) && ready[i].data_parallel_size
                    == ready[j].data_parallel_size) && (ready[0].kv_role is Some ==> forall|i: int|
                #![trigger ready[i]]
                0 <= i < ready.len() ==> ready[i].kv_connector is Some && occurs_in(
                    ready[i].kv_connector->Some_0@,
                    "Nixl"@,
                )) {
                assert forall|i: int| #![trigger ready[i]] 0 <= i < ready.len() implies role_of(
                    text_view(ready[i].kv_role),
                ) == Some(role) && ready[i].data_parallel_size == first.data_parallel_size by {
                    let (a, b) = (ready[i], ready[0]);
                }
                assert(sizes_agree(ready));
                if role != EngineRole::Aggregated {
                    assert forall|i: int| 0 <= i < ready.len() implies uses_nixl(
                        #[trigger] ready[i],
                    ) by {}
                }
                assert(topology_fault(ready) is None);
            }
        }
    }
}

/// A request is taken if and only if the server does not drain, the options of the call can be
/// read, and the request can be converted. A server that drains is unavailable, whatever is asked.
pub proof fn requests_are_taken_unless_draining(
    service: OpenEngineService,
    drains: bool,
    rank: Option<Option<Seq<char>>>,
    priority: Option<Option<Seq<char>>>,
    request: GenerateRequest,
)
    ensures
        service.start_refusal(drains, rank, priority, request) is None <==> {
            &&& !drains
            &&& requested_options(rank, priority) is Ok
            &&& conversion_refusal(
                request,
                service.role,
                requested_options(rank, priority)->Ok_0.0,
                service.state.ready_responses@[0].data_parallel_size,
                service.state.model_id@,
                service.state.served_model_names@,
            ) is None
        },
        drains ==> service.start_refusal(drains, rank, priority, request)->Some_0.0
            == Code::Unavailable,
        !drains ==> (service.start_refusal(drains, rank, priority, request) matches Some((code, _))
            ==> code != Code::Unavailable),
{
}

/// The server is ready if and only if its engine is healthy, it plays the part that the client
/// expects and it takes work; it drains if and only if only the last fails. A client that expects
/// no part in particular expects every part.
pub proof fn health_tells_what_fails(
    service: OpenEngineService,
    role: EngineRole,
    healthy: bool,
    drains: bool,
)
    ensures
        service.health_before_probe(role, healthy, drains) is Ready <==> healthy && !drains && (role
            == service.role || role == EngineRole::Unspecified),
        service.health_before_probe(role, healthy, drains) is Draining <==> healthy && drains && (
        role == service.role || role == EngineRole::Unspecified),
        service.health_before_probe(role, healthy, drains) is NotReady <==> !healthy || (role
            != service.role && role != EngineRole::Unspecified),
{
}

/// An adapter that nobody registered is not found, and an engine that cannot use one has failed.
pub proof fn adapters_fail_by_their_cause(error: ActivateLoraError)
    ensures
        activation_refusal(error).0 == Code::NotFound <==> error is NotFound,
        activation_refusal(error).0 == Code::Internal <==> error !is NotFound,
{
}

/// The name of a role tells it from every other by its first letter.
pub proof fn roles_are_named_apart(role: EngineRole)
    ensures
        role_name(role).len() > 0,
        role_name(role)[0] == 'U' <==> role is Unspecified,
        role_name(role)[0] == 'A' <==> role is Aggregated,
        role_name(role)[0] == 'P' <==> role is Prefill,
        role_name(role)[0] == 'D' <==> role is Decode,
{
    reveal_strlit("Unspecified");
    reveal_strlit("Aggregated");
    reveal_strlit("Prefill");
    reveal_strlit("Decode");
}

/// An abort without a target is an invalid argument.
pub proof fn aborts_need_a_target(outcome: Result<AbortStep, Status>)
    requires
        refuses_abort(outcome),
    ensures
        outcome is Err,
        outcome->Err_0@.0 is InvalidArgument,
        outcome->Err_0@.1.len() > 0,
{
    reveal_strlit("abort target is required");
}

} // verus!
