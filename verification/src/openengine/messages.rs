//! The messages of the OpenEngine protocol.

use vstd::prelude::*;

use crate::binary64::Binary64;
use crate::json::ProtoStruct;

verus! {

/// The part that an engine plays in a deployment.
#[derive(Clone, Copy, Debug, PartialEq, Eq, Structural)]
pub enum EngineRole {
    Unspecified,
    Aggregated,
    Prefill,
    Decode,
}

/// The prompt of a request.
#[derive(Debug)]
pub enum GenerateInput {
    Prompt(String),
    TokenIds(Vec<u32>),
}

/// How output tokens are sampled.
#[derive(Debug)]
pub struct SamplingOptions {
    pub temperature: Option<Binary64>,
    pub top_p: Option<Binary64>,
    pub top_k: Option<i32>,
    pub min_p: Option<Binary64>,
    pub frequency_penalty: Option<Binary64>,
    pub presence_penalty: Option<Binary64>,
    pub repetition_penalty: Option<Binary64>,
    pub seed: Option<u64>,
    pub num_sequences: Option<u32>,
}

/// A text or a token that ends the output.
#[derive(Debug)]
pub enum StopCondition {
    Unset,
    StopText(String),
    StopTokenId(u32),
}

/// When the output ends.
#[derive(Debug)]
pub struct StoppingOptions {
    pub max_tokens: Option<u32>,
    pub min_tokens: Option<u32>,
    pub conditions: Vec<StopCondition>,
    pub include_stop_in_output: Option<bool>,
    pub ignore_eos: Option<bool>,
}

/// Which candidate tokens are reported.
#[derive(Debug)]
pub enum CandidateTokenSelection {
    Unset,
    TopN(u32),
    All,
    TokenIds(Vec<u32>),
}

/// What is reported of the tokens.
#[derive(Debug)]
pub struct ResponseOptions {
    pub prompt_logprob_start: Option<u32>,
    pub return_prompt_logprobs: Option<bool>,
    pub prompt_candidates: Option<CandidateTokenSelection>,
    pub return_output_logprobs: Option<bool>,
    pub output_candidates: Option<CandidateTokenSelection>,
}

/// Where KV blocks can be fetched.
#[derive(Debug)]
pub struct KvEndpoint {
    pub host: String,
    pub port: u32,
    pub protocol: String,
}

/// A KV cache that a prefill engine holds for a decode engine.
#[derive(Debug)]
pub struct KvSessionRef {
    pub session_id: String,
    pub transfer_backend: String,
    pub endpoints: Vec<KvEndpoint>,
    pub dp_rank: u32,
    pub attributes_struct: Option<ProtoStruct>,
    pub handoff_profile: String,
}

/// How the KV cache is used.
#[derive(Debug)]
pub struct KvOptions {
    pub session: Option<KvSessionRef>,
    pub bypass_prefix_cache: Option<bool>,
    pub cache_salt: Option<String>,
}

/// What the output has to conform to.
#[derive(Debug)]
pub enum Guide {
    JsonSchema(String),
    Regex(String),
    EbnfGrammar(String),
    StructuralTag(String),
    Choice(Vec<String>),
    JsonObject,
}

/// A constraint on the output and the backend that enforces it.
#[derive(Debug)]
pub struct GuidedDecoding {
    pub guide: Option<Guide>,
    pub backend: String,
}

/// The kind of a media item.
#[derive(Clone, Copy, Debug, PartialEq, Eq, Structural)]
pub enum Modality {
    Unspecified,
    Image,
    Audio,
    Video,
    Unrecognized,
}

/// Where a media item comes from.
#[derive(Debug)]
pub enum MediaSource {
    Url(String),
    DataUri(String),
    RawBytes(Vec<u8>),
}

/// A media item that goes with a prompt.
#[derive(Debug)]
pub struct MediaItem {
    pub modality: Modality,
    pub uuid: String,
    pub mime_type: String,
    pub source: Option<MediaSource>,
}

/// A request to generate text.
#[derive(Debug)]
pub struct GenerateRequest {
    pub request_id: String,
    pub model: String,
    pub input: Option<GenerateInput>,
    pub sampling: Option<SamplingOptions>,
    pub stopping: Option<StoppingOptions>,
    pub response: Option<ResponseOptions>,
    pub kv: Option<KvOptions>,
    pub guided: Option<GuidedDecoding>,
    pub media: Vec<MediaItem>,
    pub media_options: Option<ProtoStruct>,
    pub lora_name: String,
    pub extra: Option<ProtoStruct>,
}

impl Default for GenerateRequest {
    fn default() -> (request: GenerateRequest)
        ensures
            request.request_id@ == ""@,
            request.model@ == ""@,
            request.input is None,
            request.sampling is None,
            request.stopping is None,
            request.response is None,
            request.kv is None,
            request.guided is None,
            request.media@.len() == 0,
            request.media_options is None,
            request.lora_name@ == ""@,
            request.extra is None,
    {
        GenerateRequest {
            request_id: "".to_string(),
            model: "".to_string(),
            input: None,
            sampling: None,
            stopping: None,
            response: None,
            kv: None,
            guided: None,
            media: Vec::new(),
            media_options: None,
            lora_name: "".to_string(),
            extra: None,
        }
    }
}

impl Default for SamplingOptions {
    fn default() -> (options: SamplingOptions)
        ensures
            options.temperature is None,
            options.top_p is None,
            options.top_k is None,
            options.min_p is None,
            options.frequency_penalty is None,
            options.presence_penalty is None,
            options.repetition_penalty is None,
            options.seed is None,
            options.num_sequences is None,
    {
        SamplingOptions {
            temperature: None,
            top_p: None,
            top_k: None,
            min_p: None,
            frequency_penalty: None,
            presence_penalty: None,
            repetition_penalty: None,
            seed: None,
            num_sequences: None,
        }
    }
}

impl Default for StoppingOptions {
    fn default() -> (options: StoppingOptions)
        ensures
            options.max_tokens is None,
            options.min_tokens is None,
            options.conditions@.len() == 0,
            options.include_stop_in_output is None,
            options.ignore_eos is None,
    {
        StoppingOptions {
            max_tokens: None,
            min_tokens: None,
            conditions: Vec::new(),
            include_stop_in_output: None,
            ignore_eos: None,
        }
    }
}

impl Default for ResponseOptions {
    fn default() -> (options: ResponseOptions)
        ensures
            options.prompt_logprob_start is None,
            options.return_prompt_logprobs is None,
            options.prompt_candidates is None,
            options.return_output_logprobs is None,
            options.output_candidates is None,
    {
        ResponseOptions {
            prompt_logprob_start: None,
            return_prompt_logprobs: None,
            prompt_candidates: None,
            return_output_logprobs: None,
            output_candidates: None,
        }
    }
}

impl Default for KvSessionRef {
    fn default() -> (session: KvSessionRef)
        ensures
            session.session_id@ == ""@,
            session.transfer_backend@ == ""@,
            session.endpoints@.len() == 0,
            session.dp_rank == 0,
            session.attributes_struct is None,
            session.handoff_profile@ == ""@,
    {
        KvSessionRef {
            session_id: "".to_string(),
            transfer_backend: "".to_string(),
            endpoints: Vec::new(),
            dp_rank: 0,
            attributes_struct: None,
            handoff_profile: "".to_string(),
        }
    }
}

/// A candidate token.
#[derive(Debug)]
pub struct LogProb {
    pub token_id: u32,
    pub logprob: Binary64,
    pub token: String,
    pub rank: Option<u32>,
}

/// A token with what is known of it.
#[derive(Debug)]
pub struct TokenInfo {
    pub token_id: u32,
    pub token: String,
    pub logprob: Option<Binary64>,
    pub rank: Option<u32>,
    pub candidates: Vec<LogProb>,
}

/// How many tokens a request took.
#[derive(Clone, Copy, Debug, PartialEq, Eq, Structural)]
pub struct Usage {
    pub prompt_tokens: u32,
    pub completion_tokens: u32,
    pub total_tokens: u32,
    pub cached_prompt_tokens: Option<u32>,
    pub reasoning_tokens: Option<u32>,
}

/// The kind of a failure in an output stream.
#[derive(Clone, Copy, Debug, PartialEq, Eq, Structural)]
pub enum ErrorCode {
    Internal,
    Cancelled,
    KvTransferFailed,
}

/// A failure in an output stream.
#[derive(Debug)]
pub struct EngineError {
    pub code: ErrorCode,
    pub message: String,
    pub retryable: bool,
}

/// Why an output ended.
#[derive(Clone, Copy, Debug, PartialEq, Eq, Structural)]
pub enum GenerationEnd {
    Stop,
    Length,
    Cancelled,
}

/// The stop condition that an output met.
#[derive(Debug)]
pub enum StopMatch {
    StopTokenId(u32),
    StopText(String),
}

/// The end of an output.
#[derive(Debug)]
pub struct GenerationFinished {
    pub output_index: Option<u32>,
    pub reason: GenerationEnd,
    pub message: String,
    pub stop_match: Option<StopMatch>,
}

/// New output of a request.
#[derive(Debug)]
pub struct TokenOutput {
    pub output_index: Option<u32>,
    pub tokens: Vec<TokenInfo>,
    pub text: String,
}

/// One report in an output stream.
#[derive(Debug)]
pub enum GenerateEvent {
    Prompt { tokens: Vec<TokenInfo> },
    Token(TokenOutput),
    PrefillReady { kv_session: KvSessionRef },
    Finished(GenerationFinished),
    Error(EngineError),
}

/// One message of an output stream.
#[derive(Debug)]
pub struct GenerateResponse {
    pub request_id: String,
    pub event: GenerateEvent,
    pub usage: Option<Usage>,
}

} // verus!
