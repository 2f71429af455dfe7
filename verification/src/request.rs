//! What the text engine is asked for.

use vstd::prelude::*;

use crate::binary64::Binary64;
use crate::events::Prompt;
use crate::json::JsonMember;
use crate::lora::RegisteredLora;

verus! {

/// The library that enforces a constraint on the output.
#[derive(Clone, Copy, Debug, PartialEq, Eq, Structural)]
pub enum StructuredOutputBackend {
    Guidance,
    Xgrammar,
    Outlines,
    LmFormatEnforcer,
}

/// A constraint on the output.
#[derive(Debug)]
pub enum StructuredConstraint {
    Json(serde_json::Value),
    Regex(String),
    Grammar(String),
    StructuralTag(String),
    Choice(Vec<String>),
    JsonObject,
}

/// A constraint on the output and the backend that enforces it.
#[derive(Debug)]
pub struct StructuredOutputsParams {
    pub constraint: StructuredConstraint,
    pub backend: StructuredOutputBackend,
}

/// How output tokens are sampled.
#[derive(Debug)]
pub struct SamplingParams {
    pub temperature: Option<Binary64>,
    pub top_p: Option<Binary64>,
    pub top_k: Option<u32>,
    pub seed: Option<i64>,
    pub max_tokens: Option<u32>,
    pub min_tokens: Option<u32>,
    pub logprobs: Option<i32>,
    pub prompt_logprobs: Option<i32>,
    pub min_p: Option<Binary64>,
    pub frequency_penalty: Option<Binary64>,
    pub presence_penalty: Option<Binary64>,
    pub repetition_penalty: Option<Binary64>,
    pub stop_token_ids: Option<Vec<u32>>,
    pub ignore_eos: bool,
    pub logprob_token_ids: Option<Vec<u32>>,
    pub structured_outputs: Option<StructuredOutputsParams>,
    pub skip_reading_prefix_cache: Option<bool>,
    pub vllm_xargs: Option<Vec<JsonMember>>,
}

impl SamplingParams {
    /// No option is set.
    pub open spec fn is_default(self) -> bool {
        &&& self.temperature is None
        &&& self.top_p is None
        &&& self.top_k is None
        &&& self.seed is None
        &&& self.max_tokens is None
        &&& self.min_tokens is None
        &&& self.logprobs is None
        &&& self.prompt_logprobs is None
        &&& self.min_p is None
        &&& self.frequency_penalty is None
        &&& self.presence_penalty is None
        &&& self.repetition_penalty is None
        &&& self.stop_token_ids is None
        &&& !self.ignore_eos
        &&& self.logprob_token_ids is None
        &&& self.structured_outputs is None
        &&& self.skip_reading_prefix_cache is None
        &&& self.vllm_xargs is None
    }
}

impl Default for SamplingParams {
    fn default() -> (params: SamplingParams)
        ensures
            params.is_default(),
    {
        SamplingParams {
            temperature: None,
            top_p: None,
            top_k: None,
            seed: None,
            max_tokens: None,
            min_tokens: None,
            logprobs: None,
            prompt_logprobs: None,
            min_p: None,
            frequency_penalty: None,
            presence_penalty: None,
            repetition_penalty: None,
            stop_token_ids: None,
            ignore_eos: false,
            logprob_token_ids: None,
            structured_outputs: None,
            skip_reading_prefix_cache: None,
            vllm_xargs: None,
        }
    }
}

/// How output tokens are turned into text.
#[derive(Debug)]
pub struct TextDecodeOptions {
    pub skip_special_tokens: bool,
    pub include_stop_str_in_output: bool,
    pub stop_strings: Option<Vec<String>>,
    pub min_tokens: u32,
}

/// A request to the text engine. Prepared media features of type `F` pass through unread.
#[derive(Debug)]
pub struct TextRequest<F> {
    pub request_id: String,
    pub prompt: Prompt,
    pub mm_features: Option<F>,
    pub sampling_params: SamplingParams,
    pub decode_options: TextDecodeOptions,
    pub intermediate: bool,
    pub priority: i32,
    pub cache_salt: Option<String>,
    pub add_special_tokens: bool,
    pub data_parallel_rank: Option<u32>,
    pub lora_request: Option<RegisteredLora>,
}

} // verus!
