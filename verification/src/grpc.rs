//! The gRPC generate service and its control service.

use std::sync::Arc;

use vstd::prelude::*;

use crate::admission::drain_response;
use crate::admission::reports_drain;
use crate::admission::AdmissionGuard;
use crate::admission::AdmissionState;
use crate::admission::DrainResponse;
use crate::engine_rpc::service::fewest_blocks;
use crate::engine_rpc::service::per_rank_kv_blocks;
use crate::events::MediaContentPart;
use crate::events::Prompt;
use crate::protocol::handshake::EngineCoreReadyResponse;
use crate::request::TextRequest;
use crate::state::cap;
use crate::state::capped;
use crate::state::copy_or_empty;
use crate::state::text_or_empty;
use crate::state::AppState;
use crate::status::Code;
use crate::status::Status;

verus! {

/// The version of the interface.
pub const GRPC_API_VERSION: &'static str = "vllm";

/// The service that generates text.
pub struct GenerateServiceImpl {
    pub state: Arc<AppState>,
    pub admission: AdmissionState,
}

/// The service that controls the engines.
pub struct ControlServiceImpl {
    pub state: Arc<AppState>,
}

/// A failure of the text engine: what is reported of it, and whether the request is at fault.
#[derive(Debug)]
pub struct TextFailure {
    pub report: String,
    pub invalid_request: bool,
}

/// The answer to a failure of the text engine.
pub open spec fn failure_answer(failure: TextFailure) -> (Code, Seq<char>) {
    if failure.invalid_request {
        (Code::InvalidArgument, failure.report@)
    } else {
        (Code::Internal, failure.report@)
    }
}

/// Answers a failure of the text engine.
pub fn text_error_to_status(failure: TextFailure) -> (status: Status)
    ensures
        status@ == failure_answer(failure),
{
    if failure.invalid_request {
        Status::invalid_argument(failure.report.as_str())
    } else {
        Status::internal(failure.report.as_str())
    }
}

/// One message to a client: what is known of the prompt, and output.
#[derive(Debug)]
pub struct GenerateResponse<P, O> {
    pub prompt_info: Option<P>,
    pub outputs: Option<O>,
}

/// One report of the text engine: of the prompt, or of output.
#[derive(Debug)]
pub enum StreamEvent<P, O> {
    Start(P),
    TextDelta(O),
}

/// A converted request, with the media that have to be prepared for it.
#[derive(Debug)]
pub struct PreparedRequest<F> {
    pub text: TextRequest<F>,
    pub media: Vec<MediaContentPart>,
}

impl GenerateServiceImpl {
    pub fn new(state: Arc<AppState>) -> (service: GenerateServiceImpl)
        ensures
            service.state == state,
            !service.admission.drains(),
            service.admission.load() == 0,
    {
        GenerateServiceImpl { state, admission: AdmissionState::default() }
    }

    /// The service that controls the engines.
    pub fn control_service(&self) -> (service: ControlServiceImpl)
        ensures
            service.state == self.state,
    {
        ControlServiceImpl { state: self.state.clone() }
    }

    /// Whether new requests are refused.
    pub fn is_draining(&self) -> (draining: bool)
        ensures
            draining == self.admission.drains(),
    {
        self.admission.is_draining()
    }

    /// Takes a request, unless the service drains.
    pub fn try_admit(&mut self) -> (guard: Option<AdmissionGuard>)
        requires
            old(self).admission.load() < u64::MAX,
        ensures
            guard is Some == !old(self).admission.drains(),
            final(self).admission.drains() == old(self).admission.drains(),
            final(self).admission.load() == old(self).admission.load() + (if guard is Some {
                1int
            } else {
                0
            }),
            final(self).state == old(self).state,
    {
        self.admission.try_admit()
    }

    /// Takes a request, or tells that the service drains.
    pub fn enter(&mut self) -> (outcome: Result<AdmissionGuard, Status>)
        requires
            old(self).admission.load() < u64::MAX,
        ensures
            match outcome {
                Ok(_) => !old(self).admission.drains() && final(self).admission.load() == old(
                    self,
                ).admission.load() + 1,
                Err(status) => old(self).admission.drains() && final(self).admission.load() == old(
                    self,
                ).admission.load() && status@ == (
                    Code::Unavailable,
                    "gRPC service is draining"@,
                ),
            },
            final(self).admission.drains() == old(self).admission.drains(),
            final(self).state == old(self).state,
    {
        match self.try_admit() {
            Some(guard) => Ok(guard),
            None => Err(Status::unavailable("gRPC service is draining")),
        }
    }

    /// Checks a request, given what its media and the request itself were converted to. A prompt
    /// with media consists of tokens, which hold the places of the media.
    pub fn prepare_request<F>(
        &self,
        lora_name: &str,
        media: Result<Vec<MediaContentPart>, Status>,
        converted: Result<TextRequest<F>, Status>,
    ) -> (outcome: Result<PreparedRequest<F>, Status>)
        ensures
            match outcome {
                Ok(prepared) => {
                    &&& lora_name@.len() == 0
                    &&& media == Ok::<Vec<MediaContentPart>, Status>(prepared.media)
                    &&& converted == Ok::<TextRequest<F>, Status>(prepared.text)
                    &&& prepared.media@.len() > 0 ==> prepared.text.prompt is TokenIds
                },
                Err(status) => if lora_name@.len() > 0 {
                    status@ == (Code::Unimplemented, "LoRA request selection"@)
                } else if media is Err {
                    media == Err::<Vec<MediaContentPart>, Status>(status)
                } else if converted is Err {
                    converted == Err::<TextRequest<F>, Status>(status)
                } else {
                    &&& media->Ok_0@.len() > 0
                    &&& converted->Ok_0.prompt is Text
                    &&& status@ == (
                        Code::InvalidArgument,
                        "multimodal gRPC requests must provide token_ids input"@,
                    )
                },
            },
    {
        if !lora_name.is_empty() {
            return Err(Status::unimplemented("LoRA request selection"));
        }
        let media = match media {
            Ok(media) => media,
            Err(status) => {
                return Err(status);
            },
        };
        let text = match converted {
            Ok(text) => text,
            Err(status) => {
                return Err(status);
            },
        };
        if media.len() > 0 {
            if let Prompt::Text(_) = &text.prompt {
                return Err(
                    Status::invalid_argument(
                        "multimodal gRPC requests must provide token_ids input",
                    ),
                );
            }
        }
        Ok(PreparedRequest { text, media })
    }

    /// Ends the preparation of a request. `media` is what preparing its media came to: the tokens
    /// with the places of the media filled, and the features.
    pub fn finish_request<F>(
        &self,
        prepared: PreparedRequest<F>,
        media: Option<Result<(Vec<u32>, Option<F>), String>>,
    ) -> (outcome: Result<TextRequest<F>, Status>)
        requires
            media is Some <==> prepared.media@.len() > 0,
            media is Some ==> prepared.text.prompt is TokenIds,
        ensures
            match (outcome, media) {
                (Ok(text), None) => text == prepared.text,
                (Ok(text), Some(Ok((ids, features)))) => text == (TextRequest {
                    prompt: Prompt::TokenIds(ids),
                    mm_features: features,
                    ..prepared.text
                }),
                (Err(status), Some(Err(error))) => status@ == (Code::Internal, error@),
                _ => false,
            },
    {
        match media {
            None => Ok(prepared.text),
            Some(Ok((ids, features))) => {
                let mut text = prepared.text;
                text.prompt = Prompt::TokenIds(ids);
                text.mm_features = features;
                Ok(text)
            },
            Some(Err(error)) => Err(Status::internal(error.as_str())),
        }
    }

    /// Turns one report of the text engine into a message of the stream.
    pub fn generate_stream<P, O>(&self, event: Result<StreamEvent<P, O>, TextFailure>) -> (response:
        Result<GenerateResponse<P, O>, Status>)
        ensures
            match (response, event) {
                (Ok(response), Ok(StreamEvent::Start(info))) => response == (GenerateResponse {
                    prompt_info: Some(info),
                    outputs: None::<O>,
                }),
                (Ok(response), Ok(StreamEvent::TextDelta(output))) => response
                    == (GenerateResponse { prompt_info: None::<P>, outputs: Some(output) }),
                (Err(status), Err(failure)) => status@ == failure_answer(failure),
                _ => false,
            },
    {
        match event {
            Ok(StreamEvent::Start(info)) => Ok(
                GenerateResponse { prompt_info: Some(info), outputs: None },
            ),
            Ok(StreamEvent::TextDelta(output)) => Ok(
                GenerateResponse { prompt_info: None, outputs: Some(output) },
            ),
            Err(failure) => Err(text_error_to_status(failure)),
        }
    }

    /// Answers a request whose output was collected: what is known of the prompt together with all
    /// of the output.
    pub fn generate<P, O>(&self, collected: Result<(P, O), TextFailure>) -> (response: Result<
        GenerateResponse<P, O>,
        Status,
    >)
        ensures
            match (response, collected) {
                (Ok(response), Ok((info, output))) => response == (GenerateResponse {
                    prompt_info: Some(info),
                    outputs: Some(output),
                }),
                (Err(status), Err(failure)) => status@ == failure_answer(failure),
                _ => false,
            },
    {
        match collected {
            Ok((info, output)) => Ok(
                GenerateResponse { prompt_info: Some(info), outputs: Some(output) },
            ),
            Err(failure) => Err(text_error_to_status(failure)),
        }
    }
}

/// How the engines share the work.
#[derive(Clone, Copy, Debug, PartialEq, Eq, Structural)]
pub struct ParallelismInfo {
    pub tensor_parallel_size: u32,
    pub pipeline_parallel_size: u32,
    pub data_parallel_size: u32,
    pub data_parallel_rank: u32,
    pub data_parallel_start_rank: u32,
    pub decode_context_parallel_size: u32,
}

/// What a server tells of itself.
#[derive(Debug)]
pub struct ServerInfo {
    pub engine_version: String,
    pub api_version: String,
    pub instance_id: String,
    pub parallelism: ParallelismInfo,
    pub max_model_len: u32,
    pub kv_block_size: u32,
    pub total_kv_blocks: u64,
    pub max_running_requests: u64,
    pub max_batched_tokens: u64,
    pub max_loras: u32,
}

/// What a server tells of its model.
#[derive(Debug)]
pub struct ModelInfo {
    pub model_id: String,
    pub served_model_name: String,
    pub served_model_aliases: Vec<String>,
    pub tokenizer_modes: Vec<String>,
    pub supports_text_input: bool,
    pub supports_token_ids_input: bool,
    pub supports_lora: bool,
    pub supports_multimodal: bool,
    pub reasoning_parser: String,
    pub tool_call_parser: String,
}

/// A call that the control service does not take.
#[derive(Clone, Copy, Debug, PartialEq, Eq, Structural)]
pub enum UnsupportedCall {
    LoadLora,
    UnloadLora,
    ListLoras,
    GetKvEventSources,
}

/// The name of a call that the control service does not take.
pub open spec fn call_name(call: UnsupportedCall) -> Seq<char> {
    match call {
        UnsupportedCall::LoadLora => "LoadLora"@,
        UnsupportedCall::UnloadLora => "UnloadLora"@,
        UnsupportedCall::ListLoras => "ListLoras"@,
        UnsupportedCall::GetKvEventSources => "GetKvEventSources"@,
    }
}

impl ControlServiceImpl {
    /// What the first engine reported.
    pub fn ready(&self) -> (ready: &EngineCoreReadyResponse)
        requires
            self.state.well_formed(),
        ensures
            *ready == self.state.first_ready(),
    {
        self.state.ready_response()
    }

    /// The KV blocks that are advertised for each engine.
    pub fn per_rank_kv_blocks(&self) -> (blocks: u64)
        ensures
            blocks == fewest_blocks(self.state.ready_responses@),
    {
        per_rank_kv_blocks(&self.state.ready_responses)
    }

    /// How the engines share the work.
    pub open spec fn parallelism(self) -> ParallelismInfo {
        let ready = self.state.first_ready();
        ParallelismInfo {
            tensor_parallel_size: ready.tensor_parallel_size,
            pipeline_parallel_size: ready.pipeline_parallel_size,
            data_parallel_size: capped(ready.data_parallel_size),
            data_parallel_rank: ready.data_parallel_rank,
            data_parallel_start_rank: ready.data_parallel_rank,
            decode_context_parallel_size: ready.decode_context_parallel_size,
        }
    }

    /// Describes how the engines share the work.
    pub fn parallelism_info(&self) -> (info: ParallelismInfo)
        requires
            self.state.well_formed(),
        ensures
            info == self.parallelism(),
    {
        let ready = self.ready();
        ParallelismInfo {
            tensor_parallel_size: ready.tensor_parallel_size,
            pipeline_parallel_size: ready.pipeline_parallel_size,
            data_parallel_size: cap(ready.data_parallel_size),
            data_parallel_rank: ready.data_parallel_rank,
            data_parallel_start_rank: ready.data_parallel_rank,
            decode_context_parallel_size: ready.decode_context_parallel_size,
        }
    }

    /// Describes the server.
    pub fn get_server_info(&self) -> (info: ServerInfo)
        requires
            self.state.well_formed(),
        ensures
            ({
                let ready = self.state.first_ready();
                &&& info.engine_version == ready.vllm_version
                &&& info.api_version@ == GRPC_API_VERSION@
                &&& info.instance_id == ready.instance_id
                &&& info.parallelism == self.parallelism()
                &&& info.max_model_len == capped(ready.max_model_len)
                &&& info.kv_block_size == capped(ready.block_size)
                &&& info.total_kv_blocks == fewest_blocks(self.state.ready_responses@)
                &&& info.max_running_requests == ready.max_num_seqs
                &&& info.max_batched_tokens == ready.max_num_batched_tokens
                &&& info.max_loras == 0
            }),
    {
        let ready = self.ready();
        ServerInfo {
            engine_version: ready.vllm_version.clone(),
            api_version: GRPC_API_VERSION.to_string(),
            instance_id: ready.instance_id.clone(),
            parallelism: self.parallelism_info(),
            max_model_len: cap(ready.max_model_len),
            kv_block_size: cap(ready.block_size),
            total_kv_blocks: self.per_rank_kv_blocks(),
            max_running_requests: ready.max_num_seqs,
            max_batched_tokens: ready.max_num_batched_tokens,
            max_loras: 0,
        }
    }

    /// Describes the model.
    pub fn get_model_info(&self) -> (info: ModelInfo)
        requires
            self.state.well_formed(),
        ensures
            info.model_id == self.state.model_id,
            info.served_model_name@ == self.state.served_model_names@[0]@,
            info.served_model_aliases@ == self.state.served_model_names@.skip(1),
            info.tokenizer_modes@.len() == 0,
            info.supports_text_input,
            info.supports_token_ids_input,
            !info.supports_lora,
            info.supports_multimodal == self.state.supports_multimodal,
            info.reasoning_parser@ == text_or_empty(self.state.reasoning_parser),
            info.tool_call_parser@ == text_or_empty(self.state.tool_call_parser),
    {
        ModelInfo {
            model_id: self.state.model_id.clone(),
            served_model_name: self.state.primary_model_name().to_string(),
            served_model_aliases: self.state.model_aliases(),
            tokenizer_modes: Vec::new(),
            supports_text_input: true,
            supports_token_ids_input: true,
            supports_lora: false,
            supports_multimodal: self.state.supports_multimodal,
            reasoning_parser: copy_or_empty(&self.state.reasoning_parser),
            tool_call_parser: copy_or_empty(&self.state.tool_call_parser),
        }
    }

    /// Checks a request to abort.
    pub fn abort(&self, request_ids: &Vec<String>) -> (outcome: Result<(), Status>)
        ensures
            match outcome {
                Ok(()) => request_ids@.len() > 0,
                Err(status) => request_ids@.len() == 0 && status@ == (
                    Code::InvalidArgument,
                    "request_ids is required"@,
                ),
            },
    {
        if request_ids.len() == 0 {
            return Err(Status::invalid_argument("request_ids is required"));
        }
        Ok(())
    }

    /// Answers a request to abort, given what the engine made of it.
    pub fn finish_abort(&self, aborted: Result<(), String>) -> (outcome: Result<(), Status>)
        ensures
            match (outcome, aborted) {
                (Ok(()), Ok(())) => true,
                (Err(status), Err(error)) => status@ == (Code::Internal, error@),
                _ => false,
            },
    {
        match aborted {
            Ok(()) => Ok(()),
            Err(error) => Err(Status::internal(error.as_str())),
        }
    }

    /// Refuses new requests from now on, and tells how many are in flight.
    pub fn drain(&self, admission: &mut AdmissionState) -> (response: DrainResponse)
        ensures
            final(admission).drains(),
            final(admission).load() == old(admission).load(),
            reports_drain(response, old(admission).load()),
    {
        admission.begin_drain();
        drain_response(admission.in_flight())
    }

    /// Refuses a call that the control service does not take.
    pub fn unsupported(&self, call: UnsupportedCall) -> (status: Status)
        ensures
            status@ == (Code::Unimplemented, call_name(call)),
    {
        match call {
            UnsupportedCall::LoadLora => Status::unimplemented("LoadLora"),
            UnsupportedCall::UnloadLora => Status::unimplemented("UnloadLora"),
            UnsupportedCall::ListLoras => Status::unimplemented("ListLoras"),
            UnsupportedCall::GetKvEventSources => Status::unimplemented("GetKvEventSources"),
        }
    }
}

/// A failure is the client's if and only if its request is at fault, and is told in its own words
/// either way.
pub proof fn failures_blame_the_request_or_the_engine(failure: TextFailure)
    ensures
        failure_answer(failure).0 == Code::InvalidArgument <==> failure.invalid_request,
        failure_answer(failure).0 == Code::Internal <==> !failure.invalid_request,
        failure_answer(failure).1 == failure.report@,
{
}

/// The ranks are described by the first engine: its sizes under their own names, and its rank both
/// as its own and as the first.
pub proof fn parallelism_is_that_of_the_first_engine(service: ControlServiceImpl)
    ensures
        ({
            let info = service.parallelism();
            let ready = service.state.ready_responses@[0];
            &&& info.tensor_parallel_size == ready.tensor_parallel_size
            &&& info.pipeline_parallel_size == ready.pipeline_parallel_size
            &&& info.decode_context_parallel_size == ready.decode_context_parallel_size
            &&& info.data_parallel_rank == ready.data_parallel_rank
            &&& info.data_parallel_start_rank == ready.data_parallel_rank
            &&& ready.data_parallel_size <= u32::MAX ==> info.data_parallel_size
                == ready.data_parallel_size
            &&& ready.data_parallel_size > u32::MAX ==> info.data_parallel_size == u32::MAX
        }),
{
}

/// The name of a call that is not taken tells it from every other by its first two letters.
pub proof fn calls_are_named_apart(call: UnsupportedCall)
    ensures
        call_name(call).len() > 1,
        call_name(call)[0] == 'G' <==> call is GetKvEventSources,
        call_name(call)[0] == 'U' <==> call is UnloadLora,
        call_name(call)[1] == 'o' <==> call is LoadLora,
        call_name(call)[1] == 'i' <==> call is ListLoras,
{
    reveal_strlit("LoadLora");
    reveal_strlit("UnloadLora");
    reveal_strlit("ListLoras");
    reveal_strlit("GetKvEventSources");
}

} // verus!
