//! The startup handshake between the frontend and an engine.

use std::collections::BTreeMap;

use vstd::prelude::*;

use crate::binary64::Binary64;
use crate::protocol::lora::OpaqueValue;

verus! {

/// What an engine sends on the handshake socket.
#[derive(Clone, Debug)]
pub struct ReadyMessage {
    pub status: Option<String>,
    pub local: Option<bool>,
    pub headless: Option<bool>,
    pub parallel_config_hash: Option<String>,
}

impl Default for ReadyMessage {
    fn default() -> (message: ReadyMessage)
        ensures
            message.status is None,
            message.local is None,
            message.headless is None,
            message.parallel_config_hash is None,
    {
        ReadyMessage { status: None, local: None, headless: None, parallel_config_hash: None }
    }
}

/// How an engine publishes changes of its KV cache.
#[derive(Clone, Debug)]
pub struct KvEventsConfig {
    pub enable_kv_cache_events: bool,
    pub publisher: String,
    pub endpoint: String,
    pub replay_endpoint: Option<String>,
    pub topic: String,
    pub buffer_steps: u32,
    pub hwm: u32,
    pub max_queue_size: u32,
}

/// The configuration that an engine reports once it is initialized. It can differ from what the
/// engine was started with.
#[derive(Clone, Debug)]
pub struct EngineCoreReadyResponse {
    /// The maximum model context length.
    pub max_model_len: u64,
    /// The number of GPU blocks for the KV cache of this engine.
    pub num_gpu_blocks: u64,
    /// The tokens per KV cache block.
    pub block_size: u64,
    /// Where the data-parallel coordinator publishes its statistics.
    pub dp_stats_address: Option<String>,
    /// The effective data type of the model.
    pub dtype: String,
    /// The version of the engine.
    pub vllm_version: String,
    /// The identity of the engine process.
    pub instance_id: String,
    /// Tensor-parallel size times pipeline-parallel size.
    pub world_size: u64,
    /// The data-parallel size.
    pub data_parallel_size: u64,
    /// The KV cache capacity in tokens.
    pub kv_cache_size_tokens: Option<u64>,
    /// How many requests the KV cache can hold at once.
    pub kv_cache_max_concurrency: Option<Binary64>,
    /// The tensor-parallel size.
    pub tensor_parallel_size: u32,
    /// The pipeline-parallel size.
    pub pipeline_parallel_size: u32,
    /// The decode-context-parallel size.
    pub decode_context_parallel_size: u32,
    /// The data-parallel rank of this engine.
    pub data_parallel_rank: u32,
    /// How many sequences run at once.
    pub max_num_seqs: u64,
    /// How many tokens are batched in one step.
    pub max_num_batched_tokens: u64,
    /// The name of the KV connector.
    pub kv_connector: Option<String>,
    /// The role in a KV transfer.
    pub kv_role: Option<String>,
    /// The identity of the engine in a KV transfer.
    pub kv_engine_id: Option<String>,
    /// The backend that publishes KV events.
    pub kv_events_publisher: Option<String>,
    /// The endpoint that KV events are published on.
    pub kv_events_endpoint: Option<String>,
    /// The endpoint that KV events are replayed on.
    pub kv_events_replay_endpoint: Option<String>,
    /// The topic of KV events.
    pub kv_events_topic: Option<String>,
    /// How many event batches are kept for replay.
    pub kv_events_buffer_steps: u64,
    /// The high-water mark of the publisher.
    pub kv_events_hwm: u64,
    /// The maximum queue size of the publisher.
    pub kv_events_max_queue_size: u64,
    /// The publisher of KV events as it was configured.
    pub kv_events_config: Option<KvEventsConfig>,
    /// Whether adapters can be loaded while the engine runs.
    pub supports_lora: bool,
    /// How many adapters can be active at once.
    pub max_loras: u32,
}

/// The parallel size of an engine that does not report one.
pub fn one_u32() -> (one: u32)
    ensures
        one == 1,
{
    1
}

/// The addresses that the frontend sends to an engine.
#[derive(Clone, Debug)]
pub struct HandshakeAddresses {
    pub inputs: Vec<String>,
    pub outputs: Vec<String>,
    pub coordinator_input: Option<String>,
    pub coordinator_output: Option<String>,
    pub frontend_stats_publish_address: Option<String>,
}

/// What the frontend sends to an engine to initialize it.
#[derive(Clone, Debug)]
pub struct HandshakeInitMessage {
    pub addresses: HandshakeAddresses,
    pub parallel_config: BTreeMap<String, OpaqueValue>,
}

} // verus!
