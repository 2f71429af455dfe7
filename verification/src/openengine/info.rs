//! What an OpenEngine server tells of itself and its model.

use vstd::prelude::*;

use crate::openengine::convert::model_refusal;
use crate::openengine::convert::sampling_refusal;
use crate::openengine::convert::selection_refusal;
use crate::openengine::convert::validate_model;
use crate::openengine::convert::HANDOFF_PROFILE;
use crate::openengine::convert::TRANSFER_BACKEND;
use crate::openengine::load::lemma_blocks_total;
use crate::openengine::load::lemma_total_push;
use crate::openengine::load::sum_of_blocks;
use crate::openengine::load::total_of;
use crate::openengine::messages::CandidateTokenSelection;
use crate::openengine::messages::EngineRole;
use crate::openengine::messages::KvEndpoint;
use crate::protocol::handshake::EngineCoreReadyResponse;
use crate::state::cap;
use crate::state::capped;
use crate::state::copy_or_empty;
use crate::state::text_or_empty;
use crate::state::AppState;
use crate::status::Status;

verus! {

/// The revision of the protocol that this server speaks.
pub const SCHEMA_REVISION: u32 = 3;

/// The oldest revision that a client may speak.
pub const MINIMUM_CLIENT_REVISION: u32 = 1;

/// How the engines share the work.
#[derive(Clone, Copy, Debug, PartialEq, Eq, Structural)]
pub struct ParallelismInfo {
    pub tensor_parallel_size: Option<u32>,
    pub pipeline_parallel_size: Option<u32>,
    pub data_parallel_size: Option<u32>,
    pub data_parallel_rank: Option<u32>,
    pub data_parallel_start_rank: Option<u32>,
    pub decode_context_parallel_size: Option<u32>,
}

/// How KV blocks are transferred.
#[derive(Debug)]
pub struct KvConnectorInfo {
    pub enabled: Option<bool>,
    pub transfer_backend: String,
    pub local_endpoints: Vec<KvEndpoint>,
    pub supported_protocols: Vec<String>,
    pub supports_remote_prefill: Option<bool>,
    pub supports_decode_pull: Option<bool>,
    pub supports_abort_cleanup: Option<bool>,
    pub schema_version: Option<u32>,
    pub handoff_profile: String,
}

/// How much work the engines take.
#[derive(Clone, Copy, Debug, PartialEq, Eq, Structural)]
pub struct DeploymentCapacity {
    pub kv_block_size: Option<u32>,
    pub total_kv_blocks: Option<u64>,
    pub max_running_requests: Option<u64>,
    pub max_batched_tokens: Option<u64>,
    pub max_loras: Option<u32>,
}

/// What a server tells of itself.
#[derive(Debug)]
pub struct ServerInfo {
    pub engine_name: String,
    pub engine_version: String,
    pub engine_role: EngineRole,
    pub instance_id: String,
    pub supported_models: Vec<String>,
    pub parallelism: ParallelismInfo,
    pub kv_connector: KvConnectorInfo,
    pub schema_revision: u32,
    pub minimum_client_revision: u32,
    pub schema_release: String,
    pub capacity: DeploymentCapacity,
}

/// The sequences that all engines run at once.
pub open spec fn sum_of_seqs(ready: Seq<EngineCoreReadyResponse>) -> nat
    decreases ready.len(),
{
    if ready.len() == 0 {
        0
    } else {
        sum_of_seqs(ready.drop_last()) + ready.last().max_num_seqs as nat
    }
}

/// The tokens that all engines batch in one step.
pub open spec fn sum_of_batched(ready: Seq<EngineCoreReadyResponse>) -> nat
    decreases ready.len(),
{
    if ready.len() == 0 {
        0
    } else {
        sum_of_batched(ready.drop_last()) + ready.last().max_num_batched_tokens as nat
    }
}

/// The lowest data-parallel rank.
pub open spec fn lowest_rank(ready: Seq<EngineCoreReadyResponse>) -> u32
    decreases ready.len(),
{
    if ready.len() <= 1 {
        ready[0].data_parallel_rank
    } else {
        let before = lowest_rank(ready.drop_last());
        if ready.last().data_parallel_rank < before {
            ready.last().data_parallel_rank
        } else {
            before
        }
    }
}

/// The shortest context length.
pub open spec fn shortest_context(ready: Seq<EngineCoreReadyResponse>) -> u64
    decreases ready.len(),
{
    if ready.len() <= 1 {
        ready[0].max_model_len
    } else {
        let before = shortest_context(ready.drop_last());
        if ready.last().max_model_len < before {
            ready.last().max_model_len
        } else {
            before
        }
    }
}

/// Every engine can load adapters.
pub open spec fn all_support_lora(ready: Seq<EngineCoreReadyResponse>) -> bool {
    forall|i: int| 0 <= i < ready.len() ==> (#[trigger] ready[i]).supports_lora
}

/// The capacities of all engines together fit in 64 bits.
pub open spec fn capacity_fits(ready: Seq<EngineCoreReadyResponse>) -> bool {
    &&& sum_of_blocks(ready) <= u64::MAX
    &&& sum_of_seqs(ready) <= u64::MAX
    &&& sum_of_batched(ready) <= u64::MAX
}

/// Whether every engine can load adapters.
pub fn supports_lora(ready: &Vec<EngineCoreReadyResponse>) -> (supported: bool)
    ensures
        supported == all_support_lora(ready@),
{
    let mut i: usize = 0;
    while i < ready.len()
        invariant
            i <= ready@.len(),
            forall|j: int| 0 <= j < i ==> (#[trigger] ready@[j]).supports_lora,
        decreases ready@.len() - i,
    {
        if !ready[i].supports_lora {
            return false;
        }
        i += 1;
    }
    true
}

proof fn lemma_capacity_grows(ready: Seq<EngineCoreReadyResponse>, n: int)
    requires
        0 <= n <= ready.len(),
    ensures
        sum_of_blocks(ready.take(n)) <= sum_of_blocks(ready),
        sum_of_seqs(ready.take(n)) <= sum_of_seqs(ready),
        sum_of_batched(ready.take(n)) <= sum_of_batched(ready),
    decreases ready.len() - n,
{
    if n == ready.len() {
        assert(ready.take(n) == ready);
    } else {
        assert(ready.take(n + 1).drop_last() == ready.take(n));
        lemma_capacity_grows(ready, n + 1);
    }
}

/// Adds up what the engines can hold and run, and finds the lowest rank.
fn add_capacity(ready: &Vec<EngineCoreReadyResponse>) -> (sums: (u64, u64, u64, u32))
    requires
        ready@.len() > 0,
        capacity_fits(ready@),
    ensures
        sums.0 == sum_of_blocks(ready@),
        sums.1 == sum_of_seqs(ready@),
        sums.2 == sum_of_batched(ready@),
        sums.3 == lowest_rank(ready@),
{
    let mut blocks: u64 = ready[0].num_gpu_blocks;
    let mut seqs: u64 = ready[0].max_num_seqs;
    let mut batched: u64 = ready[0].max_num_batched_tokens;
    let mut rank: u32 = ready[0].data_parallel_rank;
    let mut i: usize = 1;
    proof {
        let first = ready@.take(1);
        assert(first.drop_last() == Seq::<EngineCoreReadyResponse>::empty());
        assert(first.last() == ready@[0]);
        assert(sum_of_blocks(first.drop_last()) == 0);
        assert(sum_of_seqs(first.drop_last()) == 0);
        assert(sum_of_batched(first.drop_last()) == 0);
    }
    while i < ready.len()
        invariant
            1 <= i <= ready@.len(),
            capacity_fits(ready@),
            blocks == sum_of_blocks(ready@.take(i as int)),
            seqs == sum_of_seqs(ready@.take(i as int)),
            batched == sum_of_batched(ready@.take(i as int)),
            rank == lowest_rank(ready@.take(i as int)),
        decreases ready@.len() - i,
    {
        proof {
            assert(ready@.take(i + 1).drop_last() == ready@.take(i as int));
            lemma_capacity_grows(ready@, i + 1);
        }
        blocks = blocks + ready[i].num_gpu_blocks;
        seqs = seqs + ready[i].max_num_seqs;
        batched = batched + ready[i].max_num_batched_tokens;
        if ready[i].data_parallel_rank < rank {
            rank = ready[i].data_parallel_rank;
        }
        i += 1;
    }
    assert(ready@.take(i as int) == ready@);
    (blocks, seqs, batched, rank)
}

/// The connector is described: enabled where the engine has one.
pub open spec fn describes_connector(info: KvConnectorInfo, enabled: bool) -> bool {
    &&& info.enabled == Some(enabled)
    &&& info.transfer_backend@ == (if enabled {
        TRANSFER_BACKEND@
    } else {
        ""@
    })
    &&& info.local_endpoints@.len() == 0
    &&& if enabled {
        info.supported_protocols@.len() == 1 && info.supported_protocols@[0]@ == TRANSFER_BACKEND@
    } else {
        info.supported_protocols@.len() == 0
    }
    &&& info.supports_remote_prefill == Some(enabled)
    &&& info.supports_decode_pull == Some(enabled)
    &&& info.supports_abort_cleanup == Some(enabled)
    &&& info.schema_version == (if enabled {
        Some(1u32)
    } else {
        None
    })
    &&& info.handoff_profile@ == (if enabled {
        HANDOFF_PROFILE@
    } else {
        ""@
    })
}

/// Describes how KV blocks are transferred.
pub fn kv_connector_info(ready: &EngineCoreReadyResponse) -> (info: KvConnectorInfo)
    ensures
        describes_connector(info, ready.kv_connector is Some),
{
    let enabled: bool = ready.kv_connector.is_some();
    let mut supported_protocols: Vec<String> = Vec::new();
    if enabled {
        supported_protocols.push(TRANSFER_BACKEND.to_string());
    }
    KvConnectorInfo {
        enabled: Some(enabled),
        transfer_backend: if enabled {
            TRANSFER_BACKEND.to_string()
        } else {
            "".to_string()
        },
        local_endpoints: Vec::new(),
        supported_protocols,
        supports_remote_prefill: Some(enabled),
        supports_decode_pull: Some(enabled),
        supports_abort_cleanup: Some(enabled),
        schema_version: if enabled {
            Some(1)
        } else {
            None
        },
        handoff_profile: if enabled {
            HANDOFF_PROFILE.to_string()
        } else {
            "".to_string()
        },
    }
}

/// The engines are described: how they share the work, and how much they take together.
pub open spec fn describes_topology(
    parallelism: ParallelismInfo,
    capacity: DeploymentCapacity,
    ready: Seq<EngineCoreReadyResponse>,
) -> bool {
    let first = ready[0];
    &&& parallelism == (ParallelismInfo {
        tensor_parallel_size: Some(first.tensor_parallel_size),
        pipeline_parallel_size: Some(first.pipeline_parallel_size),
        data_parallel_size: Some(capped(first.data_parallel_size)),
        data_parallel_rank: (if ready.len() == 1 {
            Some(first.data_parallel_rank)
        } else {
            None
        }),
        data_parallel_start_rank: Some(lowest_rank(ready)),
        decode_context_parallel_size: Some(1),
    })
    &&& capacity == (DeploymentCapacity {
        kv_block_size: Some(capped(first.block_size)),
        total_kv_blocks: Some(sum_of_blocks(ready) as u64),
        max_running_requests: Some(sum_of_seqs(ready) as u64),
        max_batched_tokens: Some(sum_of_batched(ready) as u64),
        max_loras: (if all_support_lora(ready) {
            Some(first.max_loras)
        } else {
            None
        }),
    })
}

/// Describes the server. Capacities are those of all engines together.
pub fn server_info(
    state: &AppState,
    role: EngineRole,
    instance_id: &String,
    schema_release: &String,
) -> (info: ServerInfo)
    requires
        state.ready_responses@.len() > 0,
        capacity_fits(state.ready_responses@),
    ensures
        ({
            let ready = state.ready_responses@;
            let first = state.first_ready();
            &&& info.engine_name@ == "vllm"@
            &&& info.engine_version == first.vllm_version
            &&& info.engine_role == role
            &&& info.instance_id == *instance_id
            &&& info.supported_models@ == seq![state.model_id]
            &&& describes_topology(info.parallelism, info.capacity, ready)
            &&& describes_connector(info.kv_connector, first.kv_connector is Some)
            &&& info.schema_revision == SCHEMA_REVISION
            &&& info.minimum_client_revision == MINIMUM_CLIENT_REVISION
            &&& info.schema_release == *schema_release
        }),
{
    let ready = &state.ready_responses;
    let first = &ready[0];
    let (blocks, seqs, batched, rank) = add_capacity(ready);
    let mut supported_models: Vec<String> = Vec::new();
    supported_models.push(state.model_id.clone());
    assert(supported_models@ =~= seq![state.model_id]);
    ServerInfo {
        engine_name: "vllm".to_string(),
        engine_version: first.vllm_version.clone(),
        engine_role: role,
        instance_id: instance_id.clone(),
        supported_models,
        parallelism: ParallelismInfo {
            tensor_parallel_size: Some(first.tensor_parallel_size),
            pipeline_parallel_size: Some(first.pipeline_parallel_size),
            data_parallel_size: Some(cap(first.data_parallel_size)),
            data_parallel_rank: if ready.len() == 1 {
                Some(first.data_parallel_rank)
            } else {
                None
            },
            data_parallel_start_rank: Some(rank),
            decode_context_parallel_size: Some(1),
        },
        kv_connector: kv_connector_info(first),
        schema_revision: SCHEMA_REVISION,
        minimum_client_revision: MINIMUM_CLIENT_REVISION,
        schema_release: schema_release.clone(),
        capacity: DeploymentCapacity {
            kv_block_size: Some(cap(first.block_size)),
            total_kv_blocks: Some(blocks),
            max_running_requests: Some(seqs),
            max_batched_tokens: Some(batched),
            max_loras: if supports_lora(ready) {
                Some(first.max_loras)
            } else {
                None
            },
        },
    }
}

/// A way to pick candidate tokens.
#[derive(Clone, Copy, Debug, PartialEq, Eq, Structural)]
pub enum CandidateTokenSelectionMode {
    TopN,
    All,
    TokenIds,
}

/// A kind of constraint on the output.
#[derive(Clone, Copy, Debug, PartialEq, Eq, Structural)]
pub enum GuidedDecodingMode {
    JsonSchema,
    Regex,
    EbnfGrammar,
    StructuralTag,
    Choice,
    JsonObject,
}

/// What is reported of token probabilities.
#[derive(Debug)]
pub struct LogprobCapabilities {
    pub supported: Option<bool>,
    pub candidate_selection_modes: Vec<CandidateTokenSelectionMode>,
    pub max_top_n: Option<u32>,
}

/// Which constraints on the output are supported.
#[derive(Debug)]
pub struct GuidedDecodingCapabilities {
    pub supported: Option<bool>,
    pub modes: Vec<GuidedDecodingMode>,
}

/// What requests can ask for.
#[derive(Debug)]
pub struct GenerationCapabilities {
    pub prompt_logprobs: LogprobCapabilities,
    pub output_logprobs: LogprobCapabilities,
    pub guided_decoding: GuidedDecodingCapabilities,
    pub max_num_sequences: Option<u32>,
    pub supports_priority: Option<bool>,
    pub supports_stop_in_output: Option<bool>,
    pub supports_cache_salt: Option<bool>,
    pub supports_prefix_cache_bypass: Option<bool>,
}

/// Where the tokenizer comes from.
#[derive(Debug)]
pub struct TokenizerInfo {
    pub source: String,
    pub mode: String,
}

/// What a server tells of its model.
#[derive(Debug)]
pub struct ModelInfo {
    pub model_id: String,
    pub served_model_name: String,
    pub served_model_aliases: Vec<String>,
    pub max_context_length: Option<u32>,
    pub max_output_tokens: Option<u32>,
    pub tokenizer: TokenizerInfo,
    pub tokenizer_modes: Vec<String>,
    pub supports_text_input: Option<bool>,
    pub supports_token_ids_input: Option<bool>,
    pub generation: GenerationCapabilities,
    pub supports_lora: Option<bool>,
    pub supports_multimodal: Option<bool>,
    pub reasoning_parser: String,
    pub tool_call_parser: String,
}

/// What requests can ask for of every model.
pub open spec fn offers_generation(capabilities: GenerationCapabilities) -> bool {
    &&& capabilities.prompt_logprobs.supported == Some(true)
    &&& capabilities.prompt_logprobs.candidate_selection_modes@ == seq![
        CandidateTokenSelectionMode::TopN,
        CandidateTokenSelectionMode::All,
    ]
    &&& capabilities.prompt_logprobs.max_top_n is None
    &&& capabilities.output_logprobs.supported == Some(true)
    &&& capabilities.output_logprobs.candidate_selection_modes@ == seq![
        CandidateTokenSelectionMode::TopN,
        CandidateTokenSelectionMode::All,
        CandidateTokenSelectionMode::TokenIds,
    ]
    &&& capabilities.output_logprobs.max_top_n is None
    &&& capabilities.guided_decoding.supported == Some(true)
    &&& capabilities.guided_decoding.modes@ == seq![
        GuidedDecodingMode::JsonSchema,
        GuidedDecodingMode::Regex,
        GuidedDecodingMode::EbnfGrammar,
        GuidedDecodingMode::StructuralTag,
        GuidedDecodingMode::Choice,
        GuidedDecodingMode::JsonObject,
    ]
    &&& capabilities.max_num_sequences == Some(1u32)
    &&& capabilities.supports_priority == Some(true)
    &&& capabilities.supports_stop_in_output == Some(true)
    &&& capabilities.supports_cache_salt == Some(true)
    &&& capabilities.supports_prefix_cache_bypass == Some(true)
}

/// Describes what requests can ask for.
pub fn generation_capabilities() -> (capabilities: GenerationCapabilities)
    ensures
        offers_generation(capabilities),
{
    let prompt_modes: Vec<CandidateTokenSelectionMode> = vec![
        CandidateTokenSelectionMode::TopN,
        CandidateTokenSelectionMode::All,
    ];
    let output_modes: Vec<CandidateTokenSelectionMode> = vec![
        CandidateTokenSelectionMode::TopN,
        CandidateTokenSelectionMode::All,
        CandidateTokenSelectionMode::TokenIds,
    ];
    let modes: Vec<GuidedDecodingMode> = vec![
        GuidedDecodingMode::JsonSchema,
        GuidedDecodingMode::Regex,
        GuidedDecodingMode::EbnfGrammar,
        GuidedDecodingMode::StructuralTag,
        GuidedDecodingMode::Choice,
        GuidedDecodingMode::JsonObject,
    ];
    GenerationCapabilities {
        prompt_logprobs: LogprobCapabilities {
            supported: Some(true),
            candidate_selection_modes: prompt_modes,
            max_top_n: None,
        },
        output_logprobs: LogprobCapabilities {
            supported: Some(true),
            candidate_selection_modes: output_modes,
            max_top_n: None,
        },
        guided_decoding: GuidedDecodingCapabilities { supported: Some(true), modes },
        max_num_sequences: Some(1),
        supports_priority: Some(true),
        supports_stop_in_output: Some(true),
        supports_cache_salt: Some(true),
        supports_prefix_cache_bypass: Some(true),
    }
}

fn find_shortest_context(ready: &Vec<EngineCoreReadyResponse>) -> (length: u64)
    requires
        ready@.len() > 0,
    ensures
        length == shortest_context(ready@),
{
    let mut length: u64 = ready[0].max_model_len;
    let mut i: usize = 1;
    while i < ready.len()
        invariant
            1 <= i <= ready@.len(),
            length == shortest_context(ready@.take(i as int)),
        decreases ready@.len() - i,
    {
        assert(ready@.take(i + 1).drop_last() == ready@.take(i as int));
        if ready[i].max_model_len < length {
            length = ready[i].max_model_len;
        }
        i += 1;
    }
    assert(ready@.take(i as int) == ready@);
    length
}

/// The model is described.
pub open spec fn describes_model(info: ModelInfo, state: AppState) -> bool {
    let ready = state.ready_responses@;
    let context = Some(capped(shortest_context(ready)));
    &&& info.model_id == state.model_id
    &&& info.served_model_name@ == state.served_model_names@[0]@
    &&& info.served_model_aliases@ == state.served_model_names@.skip(1)
    &&& info.max_context_length == context
    &&& info.max_output_tokens == context
    &&& info.tokenizer.source == state.model_id
    &&& info.tokenizer.mode == state.tokenizer_mode
    &&& info.tokenizer_modes@ == seq![state.tokenizer_mode]
    &&& info.supports_text_input == Some(true)
    &&& info.supports_token_ids_input == Some(true)
    &&& offers_generation(info.generation)
    &&& info.supports_lora == Some(all_support_lora(ready))
    &&& info.supports_multimodal == Some(state.supports_image)
    &&& info.reasoning_parser@ == text_or_empty(state.reasoning_parser)
    &&& info.tool_call_parser@ == text_or_empty(state.tool_call_parser)
}

/// Describes the model that a client asks for, by no name or one under which it is served.
pub fn get_model_info(state: &AppState, requested: &str) -> (outcome: Result<ModelInfo, Status>)
    requires
        state.well_formed(),
    ensures
        match outcome {
            Ok(info) => model_refusal(
                requested@,
                state.model_id@,
                state.served_model_names@,
            ) is None && describes_model(info, *state),
            Err(status) => model_refusal(requested@, state.model_id@, state.served_model_names@)
                == Some(status@),
        },
{
    if let Err(status) = validate_model(
        requested,
        state.model_id.as_str(),
        &state.served_model_names,
    ) {
        return Err(status);
    }
    let context: u32 = cap(find_shortest_context(&state.ready_responses));
    let mut tokenizer_modes: Vec<String> = Vec::new();
    tokenizer_modes.push(state.tokenizer_mode.clone());
    assert(tokenizer_modes@ =~= seq![state.tokenizer_mode]);
    Ok(
        ModelInfo {
            model_id: state.model_id.clone(),
            served_model_name: state.primary_model_name().to_string(),
            served_model_aliases: state.model_aliases(),
            max_context_length: Some(context),
            max_output_tokens: Some(context),
            tokenizer: TokenizerInfo {
                source: state.model_id.clone(),
                mode: state.tokenizer_mode.clone(),
            },
            tokenizer_modes,
            supports_text_input: Some(true),
            supports_token_ids_input: Some(true),
            generation: generation_capabilities(),
            supports_lora: Some(supports_lora(&state.ready_responses)),
            supports_multimodal: Some(state.supports_image),
            reasoning_parser: copy_or_empty(&state.reasoning_parser),
            tool_call_parser: copy_or_empty(&state.tool_call_parser),
        },
    )
}

proof fn lemma_capacity_totals(ready: Seq<EngineCoreReadyResponse>)
    ensures
        sum_of_seqs(ready) == total_of(
            Seq::new(ready.len(), |i: int| ready[i].max_num_seqs as nat),
        ),
        sum_of_batched(ready) == total_of(
            Seq::new(ready.len(), |i: int| ready[i].max_num_batched_tokens as nat),
        ),
    decreases ready.len(),
{
    let seqs = Seq::new(ready.len(), |i: int| ready[i].max_num_seqs as nat);
    let batched = Seq::new(ready.len(), |i: int| ready[i].max_num_batched_tokens as nat);
    if ready.len() > 0 {
        let shorter = ready.drop_last();
        lemma_capacity_totals(shorter);
        let fewer = Seq::new(shorter.len(), |i: int| shorter[i].max_num_seqs as nat);
        let less = Seq::new(shorter.len(), |i: int| shorter[i].max_num_batched_tokens as nat);
        assert(seqs =~= fewer.push(ready.last().max_num_seqs as nat));
        assert(batched =~= less.push(ready.last().max_num_batched_tokens as nat));
        lemma_total_push(fewer, ready.last().max_num_seqs as nat);
        lemma_total_push(less, ready.last().max_num_batched_tokens as nat);
    }
}

/// The server can hold and run what its engines can, added up: its blocks are theirs, its running
/// requests theirs and its batched tokens theirs.
pub proof fn capacities_add_up(
    parallelism: ParallelismInfo,
    capacity: DeploymentCapacity,
    ready: Seq<EngineCoreReadyResponse>,
)
    requires
        describes_topology(parallelism, capacity, ready),
        capacity_fits(ready),
    ensures
        capacity.total_kv_blocks is Some,
        capacity.total_kv_blocks->Some_0 == total_of(
            Seq::new(ready.len(), |i: int| ready[i].num_gpu_blocks as nat),
        ),
        capacity.max_running_requests is Some,
        capacity.max_running_requests->Some_0 == total_of(
            Seq::new(ready.len(), |i: int| ready[i].max_num_seqs as nat),
        ),
        capacity.max_batched_tokens is Some,
        capacity.max_batched_tokens->Some_0 == total_of(
            Seq::new(ready.len(), |i: int| ready[i].max_num_batched_tokens as nat),
        ),
{
    lemma_blocks_total(ready);
    lemma_capacity_totals(ready);
}

proof fn lemma_lowest_rank(ready: Seq<EngineCoreReadyResponse>)
    requires
        ready.len() > 0,
    ensures
        forall|i: int|
            0 <= i < ready.len() ==> lowest_rank(ready) <= (#[trigger] ready[i]).data_parallel_rank,
        exists|i: int|
            0 <= i < ready.len() && (#[trigger] ready[i]).data_parallel_rank == lowest_rank(ready),
    decreases ready.len(),
{
    if ready.len() == 1 {
        assert(ready[0].data_parallel_rank == lowest_rank(ready));
    } else {
        let shorter = ready.drop_last();
        lemma_lowest_rank(shorter);
        let k = choose|i: int|
            0 <= i < shorter.len() && (#[trigger] shorter[i]).data_parallel_rank == lowest_rank(
                shorter,
            );
        assert(ready[k] == shorter[k]);
        assert(ready[ready.len() - 1] == ready.last());
        assert forall|i: int| 0 <= i < ready.len() implies lowest_rank(ready) <= (
        #[trigger] ready[i]).data_parallel_rank by {
            if i < ready.len() - 1 {
                assert(shorter[i] == ready[i]);
            }
        }
    }
}

proof fn lemma_shortest_context(ready: Seq<EngineCoreReadyResponse>)
    requires
        ready.len() > 0,
    ensures
        forall|i: int|
            0 <= i < ready.len() ==> shortest_context(ready) <= (#[trigger] ready[i]).max_model_len,
        exists|i: int|
            0 <= i < ready.len() && (#[trigger] ready[i]).max_model_len == shortest_context(ready),
    decreases ready.len(),
{
    if ready.len() == 1 {
        assert(ready[0].max_model_len == shortest_context(ready));
    } else {
        let shorter = ready.drop_last();
        lemma_shortest_context(shorter);
        let k = choose|i: int|
            0 <= i < shorter.len() && (#[trigger] shorter[i]).max_model_len == shortest_context(
                shorter,
            );
        assert(ready[k] == shorter[k]);
        assert(ready[ready.len() - 1] == ready.last());
        assert forall|i: int| 0 <= i < ready.len() implies shortest_context(ready) <= (
        #[trigger] ready[i]).max_model_len by {
            if i < ready.len() - 1 {
                assert(shorter[i] == ready[i]);
            }
        }
    }
}

/// The ranks of the server begin at the lowest of its engines, and a rank of its own is told only
/// where there is one engine. Sizes are those of the first engine, and adapters are counted only
/// where every engine can load them.
pub proof fn topology_begins_at_the_lowest_rank(
    parallelism: ParallelismInfo,
    capacity: DeploymentCapacity,
    ready: Seq<EngineCoreReadyResponse>,
)
    requires
        describes_topology(parallelism, capacity, ready),
        ready.len() > 0,
    ensures
        parallelism.data_parallel_start_rank is Some,
        forall|i: int|
            0 <= i < ready.len() ==> parallelism.data_parallel_start_rank->Some_0 <= (
            #[trigger] ready[i]).data_parallel_rank,
        exists|i: int|
            0 <= i < ready.len() && (#[trigger] ready[i]).data_parallel_rank
                == parallelism.data_parallel_start_rank->Some_0,
        ready.len() == 1 ==> parallelism.data_parallel_rank == Some(ready[0].data_parallel_rank),
        ready.len() > 1 ==> parallelism.data_parallel_rank is None,
        parallelism.tensor_parallel_size == Some(ready[0].tensor_parallel_size),
        parallelism.pipeline_parallel_size == Some(ready[0].pipeline_parallel_size),
        parallelism.data_parallel_size is Some,
        ready[0].data_parallel_size <= u32::MAX ==> parallelism.data_parallel_size->Some_0
            == ready[0].data_parallel_size,
        capacity.kv_block_size is Some,
        ready[0].block_size <= u32::MAX ==> capacity.kv_block_size->Some_0 == ready[0].block_size,
        capacity.max_loras is Some <==> forall|i: int|
            0 <= i < ready.len() ==> (#[trigger] ready[i]).supports_lora,
        capacity.max_loras is Some ==> capacity.max_loras == Some(ready[0].max_loras),
{
    lemma_lowest_rank(ready);
}

/// A prompt that fits the context that is told fits every engine, and no shorter context is told
/// than the shortest that an engine has. Adapters are offered if and only if every engine can load
/// them, and media if and only if images can be taken.
pub proof fn every_engine_holds_the_context(info: ModelInfo, state: AppState)
    requires
        describes_model(info, state),
        state.well_formed(),
    ensures
        info.max_context_length is Some,
        info.max_output_tokens == info.max_context_length,
        forall|i: int|
            0 <= i < state.ready_responses@.len() ==> info.max_context_length->Some_0 <= (
            #[trigger] state.ready_responses@[i]).max_model_len,
        info.max_context_length->Some_0 == u32::MAX || exists|i: int|
            0 <= i < state.ready_responses@.len() && (
            #[trigger] state.ready_responses@[i]).max_model_len
                == info.max_context_length->Some_0,
        info.supports_lora is Some,
        info.supports_lora->Some_0 <==> forall|i: int|
            0 <= i < state.ready_responses@.len() ==> (
            #[trigger] state.ready_responses@[i]).supports_lora,
        info.supports_multimodal == Some(state.supports_image),
        info.model_id@ == state.model_id@,
        info.served_model_name@ == state.served_model_names@[0]@,
        info.served_model_aliases@.len() + 1 == state.served_model_names@.len(),
        forall|i: int|
            0 <= i < info.served_model_aliases@.len() ==> (#[trigger] info.served_model_aliases@[i])
                == state.served_model_names@[i + 1],
        info.tokenizer.source@ == state.model_id@,
        info.tokenizer.mode@ == state.tokenizer_mode@,
        state.reasoning_parser matches Some(parser) ==> info.reasoning_parser@ == parser@,
        state.tool_call_parser matches Some(parser) ==> info.tool_call_parser@ == parser@,
{
    lemma_shortest_context(state.ready_responses@);
    let k = choose|i: int|
        0 <= i < state.ready_responses@.len() && (
        #[trigger] state.ready_responses@[i]).max_model_len == shortest_context(
            state.ready_responses@,
        );
    assert(state.ready_responses@[k].max_model_len == shortest_context(state.ready_responses@));
}

/// What is offered is what is accepted: candidates can be picked by their ids for the output and
/// not for the prompt, and in every other way for both; one sequence is offered, and one is
/// accepted.
pub proof fn offers_match_what_is_accepted(
    capabilities: GenerationCapabilities,
    ids: Vec<u32>,
    n: u32,
    request: crate::openengine::messages::GenerateRequest,
)
    requires
        offers_generation(capabilities),
    ensures
        capabilities.prompt_logprobs.candidate_selection_modes@.contains(
            CandidateTokenSelectionMode::TokenIds,
        ) <==> selection_refusal(Some(CandidateTokenSelection::TokenIds(ids)), true, false) is None,
        capabilities.output_logprobs.candidate_selection_modes@.contains(
            CandidateTokenSelectionMode::TokenIds,
        ) <==> selection_refusal(Some(CandidateTokenSelection::TokenIds(ids)), true, true) is None,
        capabilities.prompt_logprobs.candidate_selection_modes@.contains(
            CandidateTokenSelectionMode::All,
        ) <==> selection_refusal(Some(CandidateTokenSelection::All), true, false) is None,
        capabilities.output_logprobs.candidate_selection_modes@.contains(
            CandidateTokenSelectionMode::All,
        ) <==> selection_refusal(Some(CandidateTokenSelection::All), true, true) is None,
        n <= i32::MAX ==> (capabilities.prompt_logprobs.candidate_selection_modes@.contains(
            CandidateTokenSelectionMode::TopN,
        ) <==> selection_refusal(Some(CandidateTokenSelection::TopN(n)), true, false) is None),
        n <= i32::MAX ==> (capabilities.output_logprobs.candidate_selection_modes@.contains(
            CandidateTokenSelectionMode::TopN,
        ) <==> selection_refusal(Some(CandidateTokenSelection::TopN(n)), true, true) is None),
        request.sampling matches Some(sampling) ==> (sampling.num_sequences matches Some(count)
            ==> (capabilities.max_num_sequences is Some && count
            != capabilities.max_num_sequences->Some_0 ==> sampling_refusal(request) is Some)),
        capabilities.max_num_sequences == Some(1u32),
        capabilities.guided_decoding.modes@.len() == 6,
        forall|mode: GuidedDecodingMode| #[trigger]
            capabilities.guided_decoding.modes@.contains(mode),
{
    let prompt = capabilities.prompt_logprobs.candidate_selection_modes@;
    let output = capabilities.output_logprobs.candidate_selection_modes@;
    let modes = capabilities.guided_decoding.modes@;
    assert(prompt[0] == CandidateTokenSelectionMode::TopN);
    assert(prompt[1] == CandidateTokenSelectionMode::All);
    assert(output[0] == CandidateTokenSelectionMode::TopN);
    assert(output[1] == CandidateTokenSelectionMode::All);
    assert(output[2] == CandidateTokenSelectionMode::TokenIds);
    assert forall|mode: GuidedDecodingMode| #[trigger] modes.contains(mode) by {
        assert(modes[0] == GuidedDecodingMode::JsonSchema);
        assert(modes[1] == GuidedDecodingMode::Regex);
        assert(modes[2] == GuidedDecodingMode::EbnfGrammar);
        assert(modes[3] == GuidedDecodingMode::StructuralTag);
        assert(modes[4] == GuidedDecodingMode::Choice);
        assert(modes[5] == GuidedDecodingMode::JsonObject);
    }
}

/// A connector is described as enabled if and only if the engine has one, and only then with a
/// backend, a profile, a version and what it supports.
pub proof fn connectors_are_described_when_enabled(info: KvConnectorInfo, enabled: bool)
    requires
        describes_connector(info, enabled),
    ensures
        info.enabled == Some(enabled),
        info.supports_remote_prefill == Some(enabled),
        info.supports_decode_pull == Some(enabled),
        info.supports_abort_cleanup == Some(enabled),
        info.local_endpoints@.len() == 0,
        enabled <==> info.transfer_backend@.len() > 0,
        enabled <==> info.handoff_profile@.len() > 0,
        enabled <==> info.schema_version is Some,
        enabled <==> info.supported_protocols@.len() == 1,
        enabled ==> info.supported_protocols@[0]@ == info.transfer_backend@,
        enabled ==> info.transfer_backend@ == seq!['n', 'i', 'x', 'l'],
{
    reveal_strlit("");
    reveal_strlit("nixl");
    reveal_strlit("vllm.kv_transfer_params.v1");
    assert("nixl"@ =~= seq!['n', 'i', 'x', 'l']);
}

/// A model is described under the names that it is served by, with everything that a request can
/// ask of it, and with adapters and images as the engines have them.
pub proof fn models_are_described_as_served(info: ModelInfo, state: AppState)
    requires
        describes_model(info, state),
        state.served_model_names@.len() > 0,
    ensures
        info.served_model_aliases@.len() + 1 == state.served_model_names@.len(),
        info.served_model_name@ == state.served_model_names@[0]@,
        forall|i: int|
            0 < i < state.served_model_names@.len() ==> info.served_model_aliases@[i - 1]
                == #[trigger] state.served_model_names@[i],
        info.model_id == state.model_id,
        info.tokenizer.source == state.model_id,
        info.tokenizer.mode == state.tokenizer_mode,
        info.tokenizer_modes@.len() == 1,
        info.tokenizer_modes@[0] == state.tokenizer_mode,
        info.max_output_tokens == info.max_context_length,
        offers_generation(info.generation),
        info.generation.output_logprobs.supported == Some(true),
        info.generation.prompt_logprobs.supported == Some(true),
        info.generation.guided_decoding.supported == Some(true),
        info.supports_text_input == Some(true),
        info.supports_token_ids_input == Some(true),
        info.supports_multimodal == Some(state.supports_image),
        info.supports_lora == Some(true) <==> forall|i: int|
            0 <= i < state.ready_responses@.len() ==> (
            #[trigger] state.ready_responses@[i]).supports_lora,
        state.reasoning_parser is Some ==> info.reasoning_parser@ == state.reasoning_parser->Some_0@,
        state.tool_call_parser is Some ==> info.tool_call_parser@ == state.tool_call_parser->Some_0@,
{
}

} // verus!
