//! The single-token generation that a health check can ask for.

use vstd::prelude::*;

use crate::binary64::Binary64;
use crate::events::Prompt;
use crate::foreign::fresh_uuid;
use crate::foreign::is_random_uuid;
use crate::request::SamplingParams;
use crate::request::TextDecodeOptions;
use crate::request::TextRequest;
use crate::text::join2;

verus! {

/// How a server or one of its parts is.
#[derive(Clone, Copy, Debug, PartialEq, Eq, Structural)]
pub enum HealthState {
    Ready,
    NotReady,
    Degraded,
    Draining,
}

/// How one part of a server is.
#[derive(Debug)]
pub struct HealthCheck {
    pub name: String,
    pub state: HealthState,
    pub message: String,
}

/// How a server is.
#[derive(Debug)]
pub struct HealthResponse {
    pub state: HealthState,
    pub checks: Vec<HealthCheck>,
}

/// The check says this of the part with this name.
pub open spec fn checks(
    check: HealthCheck,
    name: Seq<char>,
    state: HealthState,
    message: Seq<char>,
) -> bool {
    &&& check.name@ == name
    &&& check.state == state
    &&& check.message@ == message
}

/// Says how one part of a server is.
pub fn health_check(name: &str, state: HealthState, message: Option<String>) -> (check: HealthCheck)
    ensures
        checks(check, name@, state, crate::state::text_or_empty(message)),
{
    HealthCheck {
        name: name.to_string(),
        state,
        message: match message {
            Some(message) => message,
            None => "".to_string(),
        },
    }
}

/// What a probe came to.
#[derive(Debug)]
pub enum ProbeOutcome {
    Completed,
    Failed(String),
    TimedOut,
}

/// The request asks for one token at temperature zero, under an id with a prefix and a random
/// UUID. The text of the token is made by these options, and nothing else is asked for.
pub open spec fn is_probe<F>(
    request: TextRequest<F>,
    prefix: Seq<char>,
    decode_options: TextDecodeOptions,
) -> bool {
    let params = request.sampling_params;
    &&& prefix.is_prefix_of(request.request_id@)
    &&& is_random_uuid(request.request_id@.skip(prefix.len() as int))
    &&& request.prompt matches Prompt::Text(text) && text@ == "hi"@
    &&& request.mm_features is None
    &&& params.temperature matches Some(temperature) && temperature.denotes(0)
    &&& params.max_tokens == Some(1u32)
    &&& (SamplingParams { temperature: None, max_tokens: None, ..params }).is_default()
    &&& request.decode_options == decode_options
    &&& !request.intermediate
    &&& request.priority == 0
    &&& request.cache_salt is None
    &&& request.add_special_tokens
    &&& request.data_parallel_rank is None
    &&& request.lora_request is None
}

/// Makes a request for one token. `decode_options` are those that the text engine has by default.
pub fn probe_request<F>(prefix: &str, decode_options: TextDecodeOptions) -> (request: TextRequest<
    F,
>)
    ensures
        is_probe(request, prefix@, decode_options),
{
    let id = fresh_uuid();
    let request_id = join2(prefix, id.as_str());
    proof {
        assert(request_id@.skip(prefix@.len() as int) == id@);
    }
    let mut sampling_params = SamplingParams::default();
    sampling_params.temperature = Some(Binary64::from_integer(0));
    sampling_params.max_tokens = Some(1);
    TextRequest {
        request_id,
        prompt: Prompt::Text("hi".to_string()),
        mm_features: None,
        sampling_params,
        decode_options,
        intermediate: false,
        priority: 0,
        cache_salt: None,
        add_special_tokens: true,
        data_parallel_rank: None,
        lora_request: None,
    }
}

/// How the server is after a probe, and what is said of it.
pub open spec fn probe_result(outcome: ProbeOutcome) -> (HealthState, Option<Seq<char>>) {
    match outcome {
        ProbeOutcome::Completed => (HealthState::Ready, None),
        ProbeOutcome::Failed(error) => (HealthState::Degraded, Some(error@)),
        ProbeOutcome::TimedOut => (
            HealthState::Degraded,
            Some("inference probe timed out after 10s"@),
        ),
    }
}

/// Judges a probe.
pub fn judge_probe(outcome: ProbeOutcome) -> (result: (HealthState, Option<String>))
    ensures
        (result.0, crate::openengine::convert::text_view(result.1)) == probe_result(outcome),
{
    match outcome {
        ProbeOutcome::Completed => (HealthState::Ready, None),
        ProbeOutcome::Failed(error) => (HealthState::Degraded, Some(error)),
        ProbeOutcome::TimedOut => (
            HealthState::Degraded,
            Some("inference probe timed out after 10s".to_string()),
        ),
    }
}

/// A server is ready after a probe if and only if the probe completed. A probe that failed or ran
/// out of time leaves it degraded, with the failure as the reason.
pub proof fn only_completed_probes_are_ready(outcome: ProbeOutcome)
    ensures
        probe_result(outcome).0 is Ready <==> outcome is Completed,
        probe_result(outcome).0 is Degraded <==> outcome !is Completed,
        probe_result(outcome).1 is None <==> outcome is Completed,
        outcome matches ProbeOutcome::Failed(error) ==> probe_result(outcome).1 == Some(error@),
{
}

/// A probe asks for exactly one token, chosen without chance, of a short text, and for nothing that
/// an engine may lack: no adapter, no media, no constraint, no rank.
pub proof fn probes_ask_for_one_token<F>(
    request: TextRequest<F>,
    prefix: Seq<char>,
    decode_options: TextDecodeOptions,
)
    requires
        is_probe(request, prefix, decode_options),
    ensures
        request.sampling_params.max_tokens == Some(1u32),
        request.sampling_params.temperature is Some,
        request.sampling_params.temperature->Some_0.denotes(0),
        request.sampling_params.min_tokens is None,
        request.sampling_params.structured_outputs is None,
        request.sampling_params.stop_token_ids is None,
        request.sampling_params.top_k is None,
        request.sampling_params.top_p is None,
        request.sampling_params.min_p is None,
        request.sampling_params.seed is None,
        request.sampling_params.logprobs is None,
        request.sampling_params.prompt_logprobs is None,
        request.sampling_params.logprob_token_ids is None,
        request.sampling_params.frequency_penalty is None,
        request.sampling_params.presence_penalty is None,
        request.sampling_params.repetition_penalty is None,
        request.sampling_params.skip_reading_prefix_cache is None,
        request.sampling_params.vllm_xargs is None,
        !request.sampling_params.ignore_eos,
        request.prompt is Text,
        request.prompt->Text_0@ == seq!['h', 'i'],
        request.decode_options == decode_options,
        request.mm_features is None,
        request.lora_request is None,
        request.data_parallel_rank is None,
        request.cache_salt is None,
        request.priority == 0,
        request.add_special_tokens,
        !request.intermediate,
        request.request_id@.len() >= prefix.len(),
        request.request_id@.take(prefix.len() as int) == prefix,
{
    reveal_strlit("hi");
    assert("hi"@ =~= seq!['h', 'i']);
    assert(request.request_id@.take(prefix.len() as int) =~= prefix);
}

/// A check tells the part that was looked at, how it is and why.
pub proof fn checks_tell_the_part_and_its_state(
    check: HealthCheck,
    name: Seq<char>,
    state: HealthState,
    message: Seq<char>,
)
    requires
        checks(check, name, state, message),
    ensures
        check.name@ == name,
        check.state == state,
        check.message@ == message,
{
}

} // verus!
