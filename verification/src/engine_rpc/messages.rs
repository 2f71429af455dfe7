//! The messages of the engine RPC protocol.

use vstd::prelude::*;

use crate::binary64::Binary64;
use crate::json::ProtoStruct;
use crate::openengine::messages::GenerateInput;
use crate::openengine::messages::MediaSource;
use crate::openengine::messages::StopCondition;

verus! {

/// How output tokens are sampled.
#[derive(Debug)]
pub struct SamplingOptions {
    pub temperature: Option<Binary64>,
    pub top_p: Option<Binary64>,
    pub top_k: Option<u32>,
    pub seed: Option<i64>,
    pub min_tokens: Option<u32>,
}

impl Default for SamplingOptions {
    fn default() -> (options: SamplingOptions)
        ensures
            options.temperature is None,
            options.top_p is None,
            options.top_k is None,
            options.seed is None,
            options.min_tokens is None,
    {
        SamplingOptions {
            temperature: None,
            top_p: None,
            top_k: None,
            seed: None,
            min_tokens: None,
        }
    }
}

/// A KV cache that a prefill engine holds for a decode engine.
#[derive(Debug)]
pub struct KvSessionRef {
    pub session_id: String,
    pub transfer_backend: String,
    pub dp_rank: u32,
    pub attributes_struct: Option<ProtoStruct>,
}

impl Default for KvSessionRef {
    fn default() -> (session: KvSessionRef)
        ensures
            session.session_id@ == ""@,
            session.transfer_backend@ == ""@,
            session.dp_rank == 0,
            session.attributes_struct is None,
    {
        KvSessionRef {
            session_id: "".to_string(),
            transfer_backend: "".to_string(),
            dp_rank: 0,
            attributes_struct: None,
        }
    }
}

/// The kind of a media item: one that has a name here, or a number that has none.
#[derive(Debug)]
pub enum Modality {
    Unspecified,
    Image,
    Other { name: String },
    Unknown { number: i32 },
}

/// A media item that goes with a prompt.
#[derive(Debug)]
pub struct MediaItem {
    pub modality: Modality,
    pub uuid: String,
    pub mime_type: String,
    pub source: Option<MediaSource>,
}

impl Default for MediaItem {
    fn default() -> (item: MediaItem)
        ensures
            item.modality is Unspecified,
            item.uuid@ == ""@,
            item.mime_type@ == ""@,
            item.source is None,
    {
        MediaItem {
            modality: Modality::Unspecified,
            uuid: "".to_string(),
            mime_type: "".to_string(),
            source: None,
        }
    }
}

/// A request to generate text.
#[derive(Debug)]
pub struct GenerateRequest {
    pub request_id: String,
    pub model: String,
    pub input: Option<GenerateInput>,
    pub sampling: Option<SamplingOptions>,
    pub stop: Vec<StopCondition>,
    pub priority: Option<i32>,
    pub data_parallel_rank: Option<u32>,
    pub lora_name: String,
    pub kv_session: Option<KvSessionRef>,
    pub media: Vec<MediaItem>,
}

impl Default for GenerateRequest {
    fn default() -> (request: GenerateRequest)
        ensures
            request.request_id@ == ""@,
            request.model@ == ""@,
            request.input is None,
            request.sampling is None,
            request.stop@.len() == 0,
            request.priority is None,
            request.data_parallel_rank is None,
            request.lora_name@ == ""@,
            request.kv_session is None,
            request.media@.len() == 0,
    {
        GenerateRequest {
            request_id: "".to_string(),
            model: "".to_string(),
            input: None,
            sampling: None,
            stop: Vec::new(),
            priority: None,
            data_parallel_rank: None,
            lora_name: "".to_string(),
            kv_session: None,
            media: Vec::new(),
        }
    }
}

/// How many tokens a request took.
#[derive(Clone, Copy, Debug, PartialEq, Eq, Structural)]
pub struct Usage {
    pub prompt_tokens: u32,
    pub completion_tokens: u32,
    pub total_tokens: u32,
}

/// The kind of a failure in an output stream.
#[derive(Clone, Copy, Debug, PartialEq, Eq, Structural)]
pub enum ErrorCode {
    Internal,
    KvTransferFailed,
}

/// A failure in an output stream.
#[derive(Debug)]
pub struct EngineError {
    pub code: ErrorCode,
    pub message: String,
    pub retry_hint: String,
}

/// Why an output ended.
#[derive(Clone, Copy, Debug, PartialEq, Eq, Structural)]
pub enum GenerationEnd {
    Stop,
    Length,
    Cancelled,
    Error,
}

/// One report in an output stream.
#[derive(Debug)]
pub enum GenerateEvent {
    Token { token_ids: Vec<u32>, text: String },
    PrefillReady { kv_session: KvSessionRef },
    Finished { reason: GenerationEnd, message: String },
    Error(EngineError),
}

/// One message of an output stream.
#[derive(Debug)]
pub struct GenerateResponse {
    pub request_id: String,
    pub event: GenerateEvent,
    pub usage: Option<Usage>,
}

} // verus!
