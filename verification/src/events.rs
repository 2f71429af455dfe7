//! What the text engine reports of a running request.

use vstd::prelude::*;

use crate::binary64::Binary64;
use crate::json::JsonValue;

verus! {

/// A token with its log probability and its rank among the candidates.
#[derive(Debug)]
pub struct DecodedTokenLogprob {
    pub token_id: u32,
    pub token: String,
    pub logprob: Binary64,
    pub rank: u32,
}

/// The candidates at one position.
#[derive(Debug)]
pub struct DecodedPositionLogprobs {
    pub entries: Vec<DecodedTokenLogprob>,
}

/// The candidates at each generated position.
#[derive(Debug)]
pub struct DecodedLogprobs {
    pub positions: Vec<DecodedPositionLogprobs>,
}

/// The candidates at each prompt position but the first, which has none.
#[derive(Debug)]
pub struct DecodedPromptLogprobs {
    pub first_token: String,
    pub scored_positions: Vec<DecodedPositionLogprobs>,
}

/// What a stop condition matched.
#[derive(Debug)]
pub enum StopReason {
    TokenId(u32),
    Text(String),
}

/// Why a request ended.
#[derive(Debug)]
pub enum FinishReason {
    Stop(Option<StopReason>),
    Length,
    Abort,
    Error,
    Repetition(Option<StopReason>),
}

/// How many tokens a request took.
#[derive(Clone, Copy, Debug, PartialEq, Eq, Structural)]
pub struct TokenUsage {
    pub prompt_token_count: usize,
    pub output_token_count: usize,
    pub cached_token_count: usize,
}

/// The end of a request.
#[derive(Debug)]
pub struct Finished {
    pub usage: TokenUsage,
    pub finish_reason: FinishReason,
    pub kv_transfer_params: Option<JsonValue>,
    pub ec_transfer_params: Option<JsonValue>,
}

/// One report of a running request.
#[derive(Debug)]
pub enum DecodedTextEvent {
    Start { prompt_token_ids: Vec<u32>, prompt_logprobs: Option<DecodedPromptLogprobs> },
    TextDelta {
        delta: String,
        token_ids: Vec<u32>,
        logprobs: Option<DecodedLogprobs>,
        finished: Option<Finished>,
    },
}

/// A prompt as text or as token ids.
#[derive(Debug)]
pub enum Prompt {
    Text(String),
    TokenIds(Vec<u32>),
}

/// How closely an image is looked at.
#[derive(Clone, Copy, Debug, PartialEq, Eq, Structural)]
pub enum ImageDetail {
    Auto,
    Low,
    High,
}

/// A part of a prompt that is not plain text, or text beside such parts.
#[derive(Debug)]
pub enum MediaContentPart {
    Text { text: String },
    ImageUrl { url: String, detail: Option<ImageDetail>, uuid: Option<String> },
    ImageData {
        data: Vec<u8>,
        mime_type: Option<String>,
        uuid: Option<String>,
        detail: Option<ImageDetail>,
    },
    ImageEmbeds { uuid: Option<String> },
    VideoUrl { url: String, uuid: Option<String> },
    VideoData { data: Vec<u8>, mime_type: Option<String>, uuid: Option<String> },
    AudioUrl { url: String, uuid: Option<String> },
    AudioData { data: Vec<u8>, mime_type: Option<String>, uuid: Option<String> },
}

/// Copies a list of token ids.
pub fn copy_ids(ids: &Vec<u32>) -> (copy: Vec<u32>)
    ensures
        copy@ == ids@,
{
    let mut copy: Vec<u32> = Vec::new();
    let mut i: usize = 0;
    while i < ids.len()
        invariant
            i <= ids@.len(),
            copy@ == ids@.take(i as int),
        decreases ids@.len() - i,
    {
        copy.push(ids[i]);
        i += 1;
    }
    copy
}

/// Copies a list of bytes.
pub fn copy_bytes(bytes: &Vec<u8>) -> (copy: Vec<u8>)
    ensures
        copy@ == bytes@,
{
    let mut copy: Vec<u8> = Vec::new();
    let mut i: usize = 0;
    while i < bytes.len()
        invariant
            i <= bytes@.len(),
            copy@ == bytes@.take(i as int),
        decreases bytes@.len() - i,
    {
        copy.push(bytes[i]);
        i += 1;
    }
    copy
}

/// Copies a list of texts.
pub fn copy_texts(texts: &Vec<String>) -> (copy: Vec<String>)
    ensures
        copy@ == texts@,
{
    let mut copy: Vec<String> = Vec::new();
    let mut i: usize = 0;
    while i < texts.len()
        invariant
            i <= texts@.len(),
            copy@ == texts@.take(i as int),
        decreases texts@.len() - i,
    {
        copy.push(texts[i].clone());
        i += 1;
    }
    copy
}

/// Copies an optional text.
pub fn copy_text(text: &Option<String>) -> (copy: Option<String>)
    ensures
        copy == *text,
{
    match text {
        Some(text) => Some(text.clone()),
        None => None,
    }
}

} // verus!
