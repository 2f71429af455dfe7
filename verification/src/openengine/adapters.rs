//! Adapters of an OpenEngine server: which are loaded, and what is answered.

use vstd::prelude::*;
use vstd::utf8::encode_utf8;

use crate::foreign::holds_object;
use crate::foreign::is_json_object;
use crate::foreign::json_document_in;
use crate::foreign::lossy;
use crate::foreign::lossy_text;
use crate::foreign::parse_json_bytes;
use crate::lora::RegisteredLora;
use crate::openengine::info::all_support_lora;
use crate::openengine::service::OpenEngineService;
use crate::paths::below;
use crate::paths::join_path;
use crate::status::Code;
use crate::status::Status;
use crate::text::decimal;
use crate::text::decimal_text;
use crate::text::is_blank;
use crate::text::is_blank_text;
use crate::text::join3;
use crate::text::join4;
use crate::text::join7;

verus! {

/// An adapter as clients know it.
#[derive(Debug)]
pub struct LoraAdapter {
    pub lora_id: i64,
    pub lora_name: String,
    pub source_path: String,
}

/// The configuration of an adapter, below its directory.
pub const ADAPTER_CONFIG: &'static str = "adapter_config.json";

/// The weights of an adapter, below its directory.
pub const SAFETENSORS_WEIGHTS: &'static str = "adapter_model.safetensors";

/// The weights of an adapter in the older format, below its directory.
pub const BIN_WEIGHTS: &'static str = "adapter_model.bin";

/// What was found where the adapter is said to be.
#[derive(Debug)]
pub struct LoraSource {
    /// The canonical path.
    pub path: Vec<u8>,
    /// Whether it is a directory.
    pub is_dir: bool,
    /// The bytes of the configuration, or why they could not be read.
    pub config: Result<Vec<u8>, String>,
    /// Whether the directory holds a file of weights.
    pub has_safetensors: bool,
    /// Whether the directory holds a file of weights in the older format.
    pub has_bin: bool,
}

/// The path of the configuration, as it is shown.
pub open spec fn shown_config_path(path: Seq<u8>) -> Seq<char> {
    lossy(below(path, encode_utf8(ADAPTER_CONFIG@)))
}

/// The answer to a request to load an adapter.
#[derive(Debug)]
pub struct LoadLoraResponse {
    pub adapter: LoraAdapter,
    pub already_loaded: bool,
}

/// Why an adapter with a given identity was not registered.
#[derive(Debug)]
pub enum RegisterLoraError {
    BaseModelName { lora_name: String },
    Conflict { existing: RegisteredLora },
}

/// Why an adapter was not unregistered.
#[derive(Debug)]
pub enum UnregisterLoraError {
    NotFound { lora_name: String },
    IntIdMismatch { lora_name: String, expected: u64, actual: u64 },
    Engine(String),
    NotRemoved { lora_name: String },
}

/// An id as clients know it.
pub open spec fn client_id(id: u64) -> i64 {
    if id > i64::MAX {
        i64::MAX
    } else {
        id as i64
    }
}

/// The adapter is that of the registry.
pub open spec fn is_client_adapter(adapter: LoraAdapter, request: RegisteredLora) -> bool {
    &&& adapter.lora_id == client_id(request.lora_int_id)
    &&& adapter.lora_name == request.lora_name
    &&& adapter.source_path == request.lora_path
}

/// Describes an adapter of the registry to clients.
pub fn lora_adapter(request: &RegisteredLora) -> (adapter: LoraAdapter)
    ensures
        is_client_adapter(adapter, *request),
{
    LoraAdapter {
        lora_id: if request.lora_int_id > 0x7fff_ffff_ffff_ffff {
            0x7fff_ffff_ffff_ffff
        } else {
            request.lora_int_id as i64
        },
        lora_name: request.lora_name.clone(),
        source_path: request.lora_path.clone(),
    }
}

/// The refusal for the place where an adapter is said to be, given whether its configuration is a
/// JSON object: the first of these that applies.
pub open spec fn source_refusal(
    source_path: Seq<char>,
    source: Result<LoraSource, String>,
    object: Result<bool, Seq<char>>,
) -> Option<(Code, Seq<char>)> {
    match source {
        Err(error) => Some(
            (
                Code::InvalidArgument,
                "adapter source_path `"@ + source_path + "` is not accessible: "@ + error@,
            ),
        ),
        Ok(source) => if !source.is_dir {
            Some((Code::InvalidArgument, "adapter source_path must be a directory"@))
        } else if source.config is Err {
            Some(
                (
                    Code::InvalidArgument,
                    "LoRA directory is missing readable adapter_config.json at `"@
                        + shown_config_path(source.path@) + "`: "@ + source.config->Err_0@,
                ),
            )
        } else if object is Err {
            Some(
                (
                    Code::InvalidArgument,
                    "LoRA adapter_config.json at `"@ + shown_config_path(source.path@) + "` is invalid: "@
                        + object->Err_0,
                ),
            )
        } else if object->Ok_0 == false {
            Some(
                (
                    Code::InvalidArgument,
                    "LoRA adapter_config.json at `"@ + shown_config_path(source.path@)
                        + "` must contain a JSON object"@,
                ),
            )
        } else if !source.has_safetensors && !source.has_bin {
            Some(
                (
                    Code::InvalidArgument,
                    "LoRA directory `"@ + lossy(source.path@)
                        + "` is missing adapter_model.safetensors or adapter_model.bin"@,
                ),
            )
        } else {
            None
        },
    }
}

/// Whether `serde_json` reads the configuration of an adapter as an object.
pub open spec fn config_object(source: Result<LoraSource, String>) -> Result<bool, Seq<char>> {
    match source {
        Ok(source) => match source.config {
            Ok(bytes) => match json_document_in(bytes@) {
                Ok(document) => Ok(is_json_object(document)),
                Err(error) => Err(error),
            },
            Err(_) => Ok(false),
        },
        Err(_) => Ok(false),
    }
}

/// The characters of the error of a read.
pub open spec fn object_view(object: Result<bool, String>) -> Result<bool, Seq<char>> {
    match object {
        Ok(found) => Ok(found),
        Err(error) => Err(error@),
    }
}

/// Checks the place where an adapter is said to be, given whether its configuration was read as a
/// JSON object.
pub fn validate_read_source(
    source_path: &str,
    source: &Result<LoraSource, String>,
    object: Result<bool, String>,
) -> (outcome: Result<String, Status>)
    ensures
        match outcome {
            Ok(path) => source_refusal(source_path@, *source, object_view(object)) is None && path@
                == lossy(source->Ok_0.path@),
            Err(status) => source_refusal(source_path@, *source, object_view(object)) == Some(
                status@,
            ),
        },
{
    let source = match source {
        Ok(source) => source,
        Err(error) => {
            return Err(
                Status::invalid_argument(
                    join4(
                        "adapter source_path `",
                        source_path,
                        "` is not accessible: ",
                        error.as_str(),
                    ).as_str(),
                ),
            );
        },
    };
    if !source.is_dir {
        return Err(Status::invalid_argument("adapter source_path must be a directory"));
    }
    let config_path = lossy_text(join_path(&source.path, ADAPTER_CONFIG).as_slice());
    if let Err(error) = &source.config {
        return Err(
            Status::invalid_argument(
                join4(
                    "LoRA directory is missing readable adapter_config.json at `",
                    config_path.as_str(),
                    "`: ",
                    error.as_str(),
                ).as_str(),
            ),
        );
    }
    match object {
        Err(error) => {
            return Err(
                Status::invalid_argument(
                    join4(
                        "LoRA adapter_config.json at `",
                        config_path.as_str(),
                        "` is invalid: ",
                        error.as_str(),
                    ).as_str(),
                ),
            );
        },
        Ok(found) => {
            if !found {
                return Err(
                    Status::invalid_argument(
                        join3(
                            "LoRA adapter_config.json at `",
                            config_path.as_str(),
                            "` must contain a JSON object",
                        ).as_str(),
                    ),
                );
            }
        },
    }
    if !source.has_safetensors && !source.has_bin {
        return Err(
            Status::invalid_argument(
                join3(
                    "LoRA directory `",
                    lossy_text(source.path.as_slice()).as_str(),
                    "` is missing adapter_model.safetensors or adapter_model.bin",
                ).as_str(),
            ),
        );
    }
    Ok(lossy_text(source.path.as_slice()))
}

/// Checks the place where an adapter is said to be, and gives its canonical path.
pub fn validate_lora_source(source_path: &str, source: &Result<LoraSource, String>) -> (outcome:
    Result<String, Status>)
    ensures
        match outcome {
            Ok(path) => source_refusal(source_path@, *source, config_object(*source)) is None
                && path@ == lossy(source->Ok_0.path@),
            Err(status) => source_refusal(source_path@, *source, config_object(*source)) == Some(
                status@,
            ),
        },
{
    let object: Result<bool, String> = match source {
        Ok(source) => match &source.config {
            Ok(bytes) => match parse_json_bytes(bytes.as_slice()) {
                Ok(document) => Ok(holds_object(&document)),
                Err(error) => Err(error),
            },
            Err(_) => Ok(false),
        },
        Err(_) => Ok(false),
    };
    validate_read_source(source_path, source, object)
}

/// The refusal for an adapter that was not registered.
pub open spec fn register_refusal(error: RegisterLoraError) -> (Code, Seq<char>) {
    match error {
        RegisterLoraError::BaseModelName { lora_name } => (
            Code::AlreadyExists,
            "LoRA adapter name `"@ + lora_name@ + "` conflicts with a base model name"@,
        ),
        RegisterLoraError::Conflict { existing } => (
            Code::AlreadyExists,
            "LoRA identity conflicts with existing adapter `"@ + existing.lora_name@ + "` (id "@
                + decimal(existing.lora_int_id as nat) + ", path `"@ + existing.lora_path@ + "`)"@,
        ),
    }
}

/// Refuses an adapter that was not registered.
pub fn load_exact_status(error: RegisterLoraError) -> (status: Status)
    ensures
        status@ == register_refusal(error),
{
    match error {
        RegisterLoraError::BaseModelName { lora_name } => Status::already_exists(
            join3(
                "LoRA adapter name `",
                lora_name.as_str(),
                "` conflicts with a base model name",
            ).as_str(),
        ),
        RegisterLoraError::Conflict { existing } => Status::already_exists(
            join7(
                "LoRA identity conflicts with existing adapter `",
                existing.lora_name.as_str(),
                "` (id ",
                decimal_text(existing.lora_int_id).as_str(),
                ", path `",
                existing.lora_path.as_str(),
                "`)",
            ).as_str(),
        ),
    }
}

/// The refusal for an adapter that was not unregistered. `described` spells the error out.
pub open spec fn unregister_refusal(error: UnregisterLoraError, described: Seq<char>) -> (
    Code,
    Seq<char>,
) {
    match error {
        UnregisterLoraError::NotFound { lora_name } => (
            Code::NotFound,
            "LoRA adapter `"@ + lora_name@ + "` is not registered"@,
        ),
        _ => (Code::Internal, described),
    }
}

/// Refuses to unregister an adapter. `described` spells the error out.
pub fn unload_status(error: &UnregisterLoraError, described: &str) -> (status: Status)
    ensures
        status@ == unregister_refusal(*error, described@),
{
    match error {
        UnregisterLoraError::NotFound { lora_name } => Status::not_found(
            join3("LoRA adapter `", lora_name.as_str(), "` is not registered").as_str(),
        ),
        _ => Status::internal(described),
    }
}

/// The refusal for a request to load an adapter, before its source is looked at.
pub open spec fn adapter_refusal(supported: bool, adapter: Option<LoraAdapter>) -> Option<
    (Code, Seq<char>),
> {
    if !supported {
        Some((Code::FailedPrecondition, "vLLM was not started with dynamic LoRA support"@))
    } else {
        match adapter {
            None => Some((Code::InvalidArgument, "adapter is required"@)),
            Some(adapter) => if adapter.lora_id <= 0 || is_blank_text(adapter.lora_name@)
                || adapter.source_path@.len() == 0 {
                Some(
                    (
                        Code::InvalidArgument,
                        "adapter id, name, and source_path are required; id must be positive"@,
                    ),
                )
            } else {
                None
            },
        }
    }
}

impl OpenEngineService {
    /// Checks a request to load an adapter. Its source is looked at next.
    pub fn load_lora(&self, adapter: Option<LoraAdapter>) -> (outcome: Result<LoraAdapter, Status>)
        ensures
            match outcome {
                Ok(checked) => adapter_refusal(
                    all_support_lora(self.state.ready_responses@),
                    adapter,
                ) is None && adapter == Some(checked),
                Err(status) => adapter_refusal(
                    all_support_lora(self.state.ready_responses@),
                    adapter,
                ) == Some(status@),
            },
    {
        if !self.supports_lora() {
            return Err(
                Status::failed_precondition("vLLM was not started with dynamic LoRA support"),
            );
        }
        let adapter = match adapter {
            Some(adapter) => adapter,
            None => {
                return Err(Status::invalid_argument("adapter is required"));
            },
        };
        if adapter.lora_id <= 0 || is_blank(adapter.lora_name.as_str())
            || adapter.source_path.as_str().is_empty() {
            return Err(
                Status::invalid_argument(
                    "adapter id, name, and source_path are required; id must be positive",
                ),
            );
        }
        Ok(adapter)
    }

    /// Makes the request that registers an adapter, given what was found at its source.
    pub fn lora_request(&self, adapter: LoraAdapter, source: &Result<LoraSource, String>) -> (outcome:
        Result<RegisteredLora, Status>)
        requires
            adapter.lora_id > 0,
        ensures
            match outcome {
                Ok(request) => {
                    &&& source_refusal(adapter.source_path@, *source, config_object(*source)) is None
                    &&& request.lora_name == adapter.lora_name
                    &&& request.lora_int_id == adapter.lora_id
                    &&& request.lora_path@ == lossy(source->Ok_0.path@)
                    &&& !request.load_inplace
                    &&& !request.is_3d_lora_weight
                },
                Err(status) => source_refusal(
                    adapter.source_path@,
                    *source,
                    config_object(*source),
                ) == Some(status@),
            },
    {
        match validate_lora_source(adapter.source_path.as_str(), source) {
            Ok(path) => Ok(
                RegisteredLora::new(adapter.lora_name, adapter.lora_id as u64, path, false, false),
            ),
            Err(status) => Err(status),
        }
    }

    /// Answers a request to load an adapter, given what registering it came to.
    pub fn finish_load_lora(
        &self,
        registered: Result<(RegisteredLora, bool), RegisterLoraError>,
    ) -> (outcome: Result<LoadLoraResponse, Status>)
        ensures
            match (outcome, registered) {
                (Ok(response), Ok((request, already_loaded))) => is_client_adapter(
                    response.adapter,
                    request,
                ) && response.already_loaded == already_loaded,
                (Err(status), Err(error)) => status@ == register_refusal(error),
                _ => false,
            },
    {
        match registered {
            Ok((request, already_loaded)) => Ok(
                LoadLoraResponse { adapter: lora_adapter(&request), already_loaded },
            ),
            Err(error) => Err(load_exact_status(error)),
        }
    }

    /// Checks a request to unload an adapter.
    pub fn unload_lora(&self, lora_name: &str) -> (outcome: Result<(), Status>)
        ensures
            match outcome {
                Ok(()) => lora_name@.len() > 0,
                Err(status) => lora_name@.len() == 0 && status@ == (
                    Code::InvalidArgument,
                    "lora_name is required"@,
                ),
            },
    {
        if lora_name.is_empty() {
            return Err(Status::invalid_argument("lora_name is required"));
        }
        Ok(())
    }

    /// Describes the adapters of the registry, in their order.
    pub fn list_loras(&self, served: &Vec<RegisteredLora>) -> (adapters: Vec<LoraAdapter>)
        ensures
            adapters@.len() == served@.len(),
            forall|i: int|
                0 <= i < adapters@.len() ==> is_client_adapter(
                    #[trigger] adapters@[i],
                    served@[i],
                ),
    {
        let mut adapters: Vec<LoraAdapter> = Vec::new();
        let mut i: usize = 0;
        while i < served.len()
            invariant
                i <= served@.len(),
                adapters@.len() == i,
                forall|j: int|
                    0 <= j < i ==> is_client_adapter(#[trigger] adapters@[j], served@[j]),
            decreases served@.len() - i,
        {
            adapters.push(lora_adapter(&served[i]));
            i += 1;
        }
        adapters
    }
}

/// A client is told of an adapter under its own name, id and path. An id that is too large for a
/// client is told as the largest.
pub proof fn clients_know_adapters_by_identity(adapter: LoraAdapter, request: RegisteredLora)
    requires
        is_client_adapter(adapter, request),
    ensures
        adapter.lora_name@ == request.lora_name@,
        adapter.source_path@ == request.lora_path@,
        request.lora_int_id <= 0x7fff_ffff_ffff_ffff ==> adapter.lora_id == request.lora_int_id,
        request.lora_int_id > 0x7fff_ffff_ffff_ffff ==> adapter.lora_id == 0x7fff_ffff_ffff_ffff,
{
}

/// A place holds an adapter if and only if it can be read, is a directory, holds a configuration
/// that is a JSON object, and weights in one of two formats. What holds none is an invalid
/// argument.
pub proof fn adapters_need_a_config_and_weights(
    source_path: Seq<char>,
    source: Result<LoraSource, String>,
    object: Result<bool, Seq<char>>,
)
    ensures
        source_refusal(source_path, source, object) is None <==> {
            &&& source is Ok
            &&& source->Ok_0.is_dir
            &&& source->Ok_0.config is Ok
            &&& object == Ok::<bool, Seq<char>>(true)
            &&& source->Ok_0.has_safetensors || source->Ok_0.has_bin
        },
        source_refusal(source_path, source, object) matches Some((code, _)) ==> code
            == Code::InvalidArgument,
{
}

/// Whether a configuration is an object is what is read from its own bytes.
pub proof fn configs_are_read_from_their_bytes(source: LoraSource)
    ensures
        source.config is Ok && json_document_in(source.config->Ok_0@) is Ok ==> config_object(
            Ok(source),
        ) == Ok::<bool, Seq<char>>(is_json_object(json_document_in(source.config->Ok_0@)->Ok_0)),
        source.config is Ok && json_document_in(source.config->Ok_0@) is Err ==> config_object(
            Ok(source),
        ) == Err::<bool, Seq<char>>(json_document_in(source.config->Ok_0@)->Err_0),
{
}

/// A request to load an adapter is accepted if and only if every engine can load adapters and the
/// adapter has a positive id, a name that shows and a path. Engines that cannot are the wrong time;
/// all else is an invalid argument.
pub proof fn adapters_are_accepted_when_named(supported: bool, adapter: Option<LoraAdapter>)
    ensures
        adapter_refusal(supported, adapter) is None <==> {
            &&& supported
            &&& adapter is Some
            &&& adapter->Some_0.lora_id > 0
            &&& exists|i: int|
                0 <= i < adapter->Some_0.lora_name@.len() && !crate::text::is_white_space(
                    #[trigger] adapter->Some_0.lora_name@[i],
                )
            &&& adapter->Some_0.source_path@.len() > 0
        },
        adapter_refusal(supported, adapter) matches Some((code, _)) ==> (code
            == Code::FailedPrecondition <==> !supported),
        adapter_refusal(supported, adapter) matches Some((code, _)) ==> (code
            == Code::InvalidArgument <==> supported),
{
}

/// An adapter whose name or identity is taken exists already. An adapter that is not registered is
/// not found, and every other failure to unregister one is the engines'.
pub proof fn registrations_fail_by_their_cause(
    registering: RegisterLoraError,
    unregistering: UnregisterLoraError,
    described: Seq<char>,
)
    ensures
        register_refusal(registering).0 == Code::AlreadyExists,
        unregister_refusal(unregistering, described).0 == Code::NotFound <==> unregistering
            is NotFound,
        unregistering !is NotFound ==> unregister_refusal(unregistering, described) == (
            Code::Internal,
            described,
        ),
{
}

} // verus!
