//! What the services know of the engines and the model that they serve.

use vstd::prelude::*;

use crate::binary64::Binary64;
use crate::protocol::handshake::EngineCoreReadyResponse;

verus! {

/// The model and the engines behind the services.
#[derive(Debug)]
pub struct AppState {
    /// The canonical id of the model.
    pub model_id: String,
    /// The public names of the model. The first is the primary one, the others are aliases.
    pub served_model_names: Vec<String>,
    /// The mode of the tokenizer.
    pub tokenizer_mode: String,
    /// Whether prompts can carry media.
    pub supports_multimodal: bool,
    /// Whether prompts can carry images.
    pub supports_image: bool,
    /// The parser of reasoning output.
    pub reasoning_parser: Option<String>,
    /// The parser of tool calls.
    pub tool_call_parser: Option<String>,
    /// The context length that every engine supports.
    pub max_model_len: u32,
    /// The KV cache blocks of all engines.
    pub total_num_gpu_blocks: u64,
    /// What each connected engine reported when it was ready.
    pub ready_responses: Vec<EngineCoreReadyResponse>,
}

impl AppState {
    /// There is a model name, and an engine is connected.
    pub open spec fn well_formed(self) -> bool {
        &&& self.served_model_names@.len() > 0
        &&& self.ready_responses@.len() > 0
    }

    /// What the first engine reported.
    pub open spec fn first_ready(self) -> EngineCoreReadyResponse {
        self.ready_responses@[0]
    }

    /// What the first engine reported.
    pub fn ready_response(&self) -> (ready: &EngineCoreReadyResponse)
        requires
            self.well_formed(),
        ensures
            *ready == self.first_ready(),
    {
        &self.ready_responses[0]
    }

    /// The primary name of the model.
    pub fn primary_model_name(&self) -> (name: &str)
        requires
            self.well_formed(),
        ensures
            name@ == self.served_model_names@[0]@,
    {
        self.served_model_names[0].as_str()
    }

    /// The names of the model behind the primary one.
    pub fn model_aliases(&self) -> (aliases: Vec<String>)
        requires
            self.well_formed(),
        ensures
            aliases@ == self.served_model_names@.skip(1),
    {
        let mut aliases: Vec<String> = Vec::new();
        let mut i: usize = 1;
        while i < self.served_model_names.len()
            invariant
                1 <= i <= self.served_model_names@.len(),
                aliases@ == self.served_model_names@.subrange(1, i as int),
            decreases self.served_model_names@.len() - i,
        {
            aliases.push(self.served_model_names[i].clone());
            i += 1;
        }
        aliases
    }
}

/// The load that an engine last reported.
#[derive(Clone, Copy, Debug, PartialEq, Eq, Structural)]
pub struct EngineLoad {
    pub engine_index: u32,
    /// Grows with each report.
    pub update_generation: u64,
    /// Requests that the frontend has sent and not seen the end of.
    pub frontend_inflight: u64,
    pub running_requests: u64,
    pub queued_requests: u64,
    pub kv_cache_usage: Option<Binary64>,
}

/// A number cut to 32 bits from above.
pub open spec fn capped(n: u64) -> u32 {
    if n > u32::MAX {
        u32::MAX
    } else {
        n as u32
    }
}

/// Cuts a number to 32 bits from above.
pub fn cap(n: u64) -> (m: u32)
    ensures
        m == capped(n),
{
    if n > 0xffff_ffff {
        0xffff_ffff
    } else {
        n as u32
    }
}

/// A text, or the empty text where there is none.
pub open spec fn text_or_empty(text: Option<String>) -> Seq<char> {
    match text {
        Some(text) => text@,
        None => ""@,
    }
}

/// Copies a text, or the empty text where there is none.
pub fn copy_or_empty(text: &Option<String>) -> (copy: String)
    ensures
        copy@ == text_or_empty(*text),
{
    match text {
        Some(text) => text.clone(),
        None => "".to_string(),
    }
}

/// A count is told as it is where 32 bits hold it, and as the largest that they hold otherwise; so
/// a larger count is never told as a smaller one.
pub proof fn counts_are_cut_from_above(a: u64, b: u64)
    ensures
        a <= 0xffff_ffff ==> capped(a) == a,
        a > 0xffff_ffff ==> capped(a) == 0xffff_ffff,
        a <= b ==> capped(a) <= capped(b),
{
}

/// A missing text is told as one without characters, and every other text as it is.
pub proof fn missing_texts_are_empty(text: String)
    ensures
        text_or_empty(None).len() == 0,
        text_or_empty(Some(text)) == text@,
{
    reveal_strlit("");
}

} // verus!
