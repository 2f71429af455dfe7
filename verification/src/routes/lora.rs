//! The handlers that load and unload adapters.

use vstd::prelude::*;

use crate::lora::RegisteredLora;
use crate::text::decimal;
use crate::text::decimal_text;
use crate::text::join3;
use crate::text::join4;
use crate::text::join7;

verus! {

/// The request to load an adapter.
#[derive(Debug)]
pub struct LoadLoraAdapterRequest {
    pub lora_name: String,
    pub lora_path: String,
    pub load_inplace: bool,
    pub is_3d_lora_weight: bool,
}

/// The request to unload an adapter.
#[derive(Debug)]
pub struct UnloadLoraAdapterRequest {
    pub lora_name: String,
    pub lora_int_id: Option<u64>,
}

/// The answer to a request that failed.
#[derive(Debug)]
pub enum ApiError {
    InvalidRequest { message: String, param: Option<&'static str> },
    ModelNotFound { model: String },
    ServerError { message: String },
}

/// An answer, by its contents.
pub ghost enum Refusal {
    InvalidRequest(Seq<char>, Option<Seq<char>>),
    ModelNotFound(Seq<char>),
    ServerError(Seq<char>),
}

impl View for ApiError {
    type V = Refusal;

    open spec fn view(&self) -> Refusal {
        match *self {
            ApiError::InvalidRequest { message, param } => Refusal::InvalidRequest(
                message@,
                match param {
                    Some(param) => Some(param@),
                    None => None,
                },
            ),
            ApiError::ModelNotFound { model } => Refusal::ModelNotFound(model@),
            ApiError::ServerError { message } => Refusal::ServerError(message@),
        }
    }
}

/// Why an adapter may not be loaded from where it is.
#[derive(Debug)]
pub enum LoraPathAccessError {
    InvalidRequest(String),
    InvalidConfiguration(String),
}

/// Why an adapter was not loaded.
#[derive(Debug)]
pub enum LoadFailure {
    InvalidRequest(String),
    PathAccess(LoraPathAccessError),
    AlreadyLoaded { lora_name: String },
    BaseModelName { lora_name: String },
    Engine(String),
    NotLoaded { lora_name: String },
}

/// Why an adapter was not unloaded.
#[derive(Debug)]
pub enum UnloadFailure {
    NotFound { lora_name: String },
    IntIdMismatch { lora_name: String, expected: u64, actual: u64 },
    Engine(String),
    NotRemoved { lora_name: String, lora_int_id: u64 },
}

/// The answer to a request to load an adapter that failed.
pub open spec fn load_refusal(requested: Seq<char>, failure: LoadFailure) -> Refusal {
    match failure {
        LoadFailure::InvalidRequest(error) => Refusal::InvalidRequest(error@, None),
        LoadFailure::PathAccess(LoraPathAccessError::InvalidRequest(message)) =>
            Refusal::InvalidRequest(message@, Some("lora_path"@)),
        LoadFailure::PathAccess(LoraPathAccessError::InvalidConfiguration(message)) =>
            Refusal::ServerError(message@),
        LoadFailure::AlreadyLoaded { lora_name } => Refusal::InvalidRequest(
            "The lora adapter '"@ + lora_name@
                + "' has already been loaded. If you want to load the adapter in place, set 'load_inplace' to true."@,
            Some("lora_name"@),
        ),
        LoadFailure::BaseModelName { lora_name } => Refusal::InvalidRequest(
            "The lora adapter name '"@ + lora_name@ + "' conflicts with a served base model."@,
            Some("lora_name"@),
        ),
        LoadFailure::Engine(report) => Refusal::ServerError(
            "failed to load LoRA adapter '"@ + requested + "': "@ + report@,
        ),
        LoadFailure::NotLoaded { lora_name } => Refusal::ServerError(
            "failed to load LoRA adapter '"@ + lora_name@ + "': engine rejected the adapter"@,
        ),
    }
}

/// Answers a request to load an adapter, given what came of it.
pub fn load_lora_adapter(request: &LoadLoraAdapterRequest, loaded: Result<(), LoadFailure>) -> (answer:
    Result<String, ApiError>)
    ensures
        match (answer, loaded) {
            (Ok(text), Ok(())) => text@ == "Success: LoRA adapter '"@ + request.lora_name@
                + "' added successfully."@,
            (Err(error), Err(failure)) => error@ == load_refusal(request.lora_name@, failure),
            _ => false,
        },
{
    let failure = match loaded {
        Ok(()) => {
            return Ok(
                join3(
                    "Success: LoRA adapter '",
                    request.lora_name.as_str(),
                    "' added successfully.",
                ),
            );
        },
        Err(failure) => failure,
    };
    Err(
        match failure {
            LoadFailure::InvalidRequest(error) => ApiError::InvalidRequest {
                message: error,
                param: None,
            },
            LoadFailure::PathAccess(LoraPathAccessError::InvalidRequest(message)) =>
                ApiError::InvalidRequest { message, param: Some("lora_path") },
            LoadFailure::PathAccess(LoraPathAccessError::InvalidConfiguration(message)) =>
                ApiError::ServerError { message },
            LoadFailure::AlreadyLoaded { lora_name } => ApiError::InvalidRequest {
                message: join3(
                    "The lora adapter '",
                    lora_name.as_str(),
                    "' has already been loaded. If you want to load the adapter in place, set 'load_inplace' to true.",
                ),
                param: Some("lora_name"),
            },
            LoadFailure::BaseModelName { lora_name } => ApiError::InvalidRequest {
                message: join3(
                    "The lora adapter name '",
                    lora_name.as_str(),
                    "' conflicts with a served base model.",
                ),
                param: Some("lora_name"),
            },
            LoadFailure::Engine(report) => ApiError::ServerError {
                message: join4(
                    "failed to load LoRA adapter '",
                    request.lora_name.as_str(),
                    "': ",
                    report.as_str(),
                ),
            },
            LoadFailure::NotLoaded { lora_name } => ApiError::ServerError {
                message: join3(
                    "failed to load LoRA adapter '",
                    lora_name.as_str(),
                    "': engine rejected the adapter",
                ),
            },
        },
    )
}

/// Checks a request to unload an adapter before the engines are asked.
pub fn unload_lora_adapter(request: &UnloadLoraAdapterRequest) -> (checked: Result<(), ApiError>)
    ensures
        match checked {
            Ok(()) => request.lora_name@.len() > 0,
            Err(error) => request.lora_name@.len() == 0 && error@ == Refusal::InvalidRequest(
                "'lora_name' needs to be provided to unload a LoRA adapter."@,
                Some("lora_name"@),
            ),
        },
{
    if request.lora_name.as_str().is_empty() {
        return Err(
            ApiError::InvalidRequest {
                message: "'lora_name' needs to be provided to unload a LoRA adapter.".to_string(),
                param: Some("lora_name"),
            },
        );
    }
    Ok(())
}

/// The answer to a request to unload an adapter that failed.
pub open spec fn unload_refusal(requested: Seq<char>, failure: UnloadFailure) -> Refusal {
    match failure {
        UnloadFailure::NotFound { lora_name } => Refusal::ModelNotFound(lora_name@),
        UnloadFailure::IntIdMismatch { lora_name, expected, actual } => Refusal::InvalidRequest(
            "The requested lora_int_id "@ + decimal(actual as nat)
                + " does not match loaded adapter '"@ + lora_name@ + "' with id "@ + decimal(
                expected as nat,
            ) + "."@,
            Some("lora_int_id"@),
        ),
        UnloadFailure::Engine(report) => Refusal::ServerError(
            "failed to unload LoRA adapter '"@ + requested + "': "@ + report@,
        ),
        UnloadFailure::NotRemoved { lora_name, lora_int_id } => Refusal::ServerError(
            "failed to unload LoRA adapter '"@ + lora_name@ + "' with id "@ + decimal(
                lora_int_id as nat,
            ),
        ),
    }
}

/// Answers a request to unload an adapter, given what came of it.
pub fn finish_unload_lora_adapter(
    request: &UnloadLoraAdapterRequest,
    unloaded: Result<RegisteredLora, UnloadFailure>,
) -> (answer: Result<String, ApiError>)
    ensures
        match (answer, unloaded) {
            (Ok(text), Ok(removed)) => text@ == "Success: LoRA adapter '"@ + removed.lora_name@
                + "' removed successfully."@,
            (Err(error), Err(failure)) => error@ == unload_refusal(request.lora_name@, failure),
            _ => false,
        },
{
    let failure = match unloaded {
        Ok(removed) => {
            return Ok(
                join3(
                    "Success: LoRA adapter '",
                    removed.lora_name.as_str(),
                    "' removed successfully.",
                ),
            );
        },
        Err(failure) => failure,
    };
    Err(
        match failure {
            UnloadFailure::NotFound { lora_name } => ApiError::ModelNotFound { model: lora_name },
            UnloadFailure::IntIdMismatch { lora_name, expected, actual } =>
                ApiError::InvalidRequest {
                message: join7(
                    "The requested lora_int_id ",
                    decimal_text(actual).as_str(),
                    " does not match loaded adapter '",
                    lora_name.as_str(),
                    "' with id ",
                    decimal_text(expected).as_str(),
                    ".",
                ),
                param: Some("lora_int_id"),
            },
            UnloadFailure::Engine(report) => ApiError::ServerError {
                message: join4(
                    "failed to unload LoRA adapter '",
                    request.lora_name.as_str(),
                    "': ",
                    report.as_str(),
                ),
            },
            UnloadFailure::NotRemoved { lora_name, lora_int_id } => ApiError::ServerError {
                message: join4(
                    "failed to unload LoRA adapter '",
                    lora_name.as_str(),
                    "' with id ",
                    decimal_text(lora_int_id).as_str(),
                ),
            },
        },
    )
}

/// A load fails by the fault of the client if its request, its path or the name of the adapter is
/// at fault, and says which; every other failure is the server's.
pub proof fn loads_blame_the_client_or_the_server(requested: Seq<char>, failure: LoadFailure)
    ensures
        load_refusal(requested, failure) is InvalidRequest <==> failure is InvalidRequest || failure
            is AlreadyLoaded || failure is BaseModelName || (failure is PathAccess
            && failure->PathAccess_0 is InvalidRequest),
        load_refusal(requested, failure) is ServerError <==> failure is Engine || failure
            is NotLoaded || (failure is PathAccess && failure->PathAccess_0
            is InvalidConfiguration),
        load_refusal(requested, failure) !is ModelNotFound,
        failure matches LoadFailure::InvalidRequest(error) ==> load_refusal(requested, failure)
            == Refusal::InvalidRequest(error@, None),
        failure matches LoadFailure::PathAccess(LoraPathAccessError::InvalidRequest(message))
            ==> load_refusal(requested, failure) == Refusal::InvalidRequest(
            message@,
            Some("lora_path"@),
        ),
        failure matches LoadFailure::PathAccess(LoraPathAccessError::InvalidConfiguration(message))
            ==> load_refusal(requested, failure) == Refusal::ServerError(message@),
        failure is AlreadyLoaded || failure is BaseModelName ==> load_refusal(
            requested,
            failure,
        )->InvalidRequest_1 == Some("lora_name"@),
{
}

/// An unload of an adapter that is not loaded finds no model of that name; an id that is not the
/// adapter's is the client's fault; every other failure is the server's.
pub proof fn unloads_blame_the_client_or_the_server(requested: Seq<char>, failure: UnloadFailure)
    ensures
        failure matches UnloadFailure::NotFound { lora_name } ==> unload_refusal(requested, failure)
            == Refusal::ModelNotFound(lora_name@),
        unload_refusal(requested, failure) is ModelNotFound <==> failure is NotFound,
        unload_refusal(requested, failure) is InvalidRequest <==> failure is IntIdMismatch,
        unload_refusal(requested, failure) is ServerError <==> failure is Engine || failure
            is NotRemoved,
        failure is IntIdMismatch ==> unload_refusal(requested, failure)->InvalidRequest_1 == Some(
            "lora_int_id"@,
        ),
{
}

} // verus!
