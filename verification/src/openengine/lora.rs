//! The service that loads and unloads adapters on every engine rank.

use std::sync::Arc;

use vstd::prelude::*;

use crate::foreign::lossy;
use crate::foreign::lossy_text;
use crate::lora::all_true;
use crate::lora_path::is_absolute;
use crate::lora_path::is_absolute_path;
use crate::openengine::adapters::LoadLoraResponse;
use crate::openengine::adapters::LoraAdapter;
use crate::protocol::lora::descriptor_fault;
use crate::protocol::lora::same_adapter;
use crate::protocol::lora::LoraRequest;
use crate::state::AppState;
use crate::status::answers;
use crate::status::Code;
use crate::status::Status;
use crate::text::is_blank;
use crate::text::is_blank_text;
use crate::text::join2;
use crate::text::join3;
use crate::text::join5;
use crate::text::signed_decimal;
use crate::text::signed_decimal_text;

verus! {

/// The service that loads and unloads adapters.
pub struct LoraManagerServiceImpl {
    pub state: Arc<AppState>,
}

/// What was found at the path of an adapter: its canonical form, and whether a directory stands
/// there.
#[derive(Debug)]
pub struct AdapterPath {
    pub canonical: Result<Vec<u8>, String>,
    pub directory: Result<bool, String>,
}

/// The refusal for an adapter, given what was found at its path: the first of these that applies.
pub open spec fn path_refusal(adapter: LoraAdapter, path: AdapterPath) -> Option<
    (Code, Seq<char>),
> {
    if adapter.lora_id <= 0 {
        Some((Code::InvalidArgument, "lora_id must be positive"@))
    } else if is_blank_text(adapter.lora_name@) {
        Some((Code::InvalidArgument, "lora_name is required"@))
    } else if !is_absolute_path(adapter.source_path@) {
        Some((Code::InvalidArgument, "source_path must be absolute"@))
    } else if path.canonical is Err {
        Some((Code::InvalidArgument, "invalid source_path: "@ + path.canonical->Err_0@))
    } else if path.directory is Err {
        Some((Code::InvalidArgument, "invalid source_path: "@ + path.directory->Err_0@))
    } else if !path.directory->Ok_0 {
        Some((Code::InvalidArgument, "source_path must be a directory"@))
    } else {
        None
    }
}

/// The descriptor says what the adapter is and where.
pub open spec fn describes_adapter(
    request: LoraRequest,
    adapter: LoraAdapter,
    path: AdapterPath,
) -> bool {
    &&& request.lora_name == adapter.lora_name
    &&& request.lora_int_id == adapter.lora_id
    &&& request.lora_path@ == lossy(path.canonical->Ok_0@)
    &&& request.base_model_name is None
    &&& request.tensorizer_config_dict is None
    &&& !request.load_inplace
    &&& !request.is_3d_lora_weight
}

/// Checks an adapter, and describes it by its canonical path.
pub fn normalize_adapter(adapter: LoraAdapter, path: AdapterPath) -> (outcome: Result<
    LoraRequest,
    Status,
>)
    ensures
        match outcome {
            Ok(request) => {
                &&& path_refusal(adapter, path) is None
                &&& lossy(path.canonical->Ok_0@).len() > 0
                &&& describes_adapter(request, adapter, path)
                &&& descriptor_fault(request) is None
            },
            Err(status) => if path_refusal(adapter, path) is Some {
                path_refusal(adapter, path) == Some(status@)
            } else {
                lossy(path.canonical->Ok_0@).len() == 0 && status@ == (
                    Code::InvalidArgument,
                    "lora_path is required"@,
                )
            },
        },
{
    if adapter.lora_id <= 0 {
        return Err(Status::invalid_argument("lora_id must be positive"));
    }
    if is_blank(adapter.lora_name.as_str()) {
        return Err(Status::invalid_argument("lora_name is required"));
    }
    if !is_absolute(adapter.source_path.as_str()) {
        return Err(Status::invalid_argument("source_path must be absolute"));
    }
    let canonical = match path.canonical {
        Ok(canonical) => canonical,
        Err(error) => {
            return Err(
                Status::invalid_argument(join2("invalid source_path: ", error.as_str()).as_str()),
            );
        },
    };
    match path.directory {
        Ok(directory) => {
            if !directory {
                return Err(Status::invalid_argument("source_path must be a directory"));
            }
        },
        Err(error) => {
            return Err(
                Status::invalid_argument(join2("invalid source_path: ", error.as_str()).as_str()),
            );
        },
    }
    let request = LoraRequest {
        lora_name: adapter.lora_name,
        lora_int_id: adapter.lora_id,
        lora_path: lossy_text(canonical.as_slice()),
        base_model_name: None,
        tensorizer_config_dict: None,
        load_inplace: false,
        is_3d_lora_weight: false,
    };
    match request.validate() {
        Ok(()) => Ok(request),
        Err(fault) => Err(Status::invalid_argument(fault)),
    }
}

/// The adapter is the one of the descriptor.
pub open spec fn is_adapter_of(adapter: LoraAdapter, request: LoraRequest) -> bool {
    &&& adapter.lora_id == request.lora_int_id
    &&& adapter.lora_name == request.lora_name
    &&& adapter.source_path == request.lora_path
}

/// Describes an adapter to clients.
pub fn to_proto(request: &LoraRequest) -> (adapter: LoraAdapter)
    ensures
        is_adapter_of(adapter, *request),
{
    LoraAdapter {
        lora_id: request.lora_int_id,
        lora_name: request.lora_name.clone(),
        source_path: request.lora_path.clone(),
    }
}

/// The refusal for an adapter that conflicts with a loaded one.
pub open spec fn conflict_refusal(existing: LoraRequest) -> (Code, Seq<char>) {
    (
        Code::AlreadyExists,
        "conflicts with loaded LoRA `"@ + existing.lora_name@ + "` (id "@ + signed_decimal(
            existing.lora_int_id as int,
        ) + ")"@,
    )
}

/// Refuses an adapter that conflicts with a loaded one.
pub fn conflict(existing: &LoraRequest) -> (status: Status)
    ensures
        status@ == conflict_refusal(*existing),
{
    Status::already_exists(
        join5(
            "conflicts with loaded LoRA `",
            existing.lora_name.as_str(),
            "` (id ",
            signed_decimal_text(existing.lora_int_id).as_str(),
            ")",
        ).as_str(),
    )
}

/// How a load begins: the adapter is there already, or every rank is asked to add it.
#[derive(Debug)]
pub enum LoadStart {
    AlreadyLoaded(LoadLoraResponse),
    AddLora(LoraRequest),
}

/// How a call to every rank ends: all ranks did as asked, or they are asked to go back and the
/// caller gets a refusal.
#[derive(Debug)]
pub enum RankResult<T> {
    Done(T),
    RollBack(Status),
}

/// Every rank did as asked.
pub open spec fn all_done(results: Result<Vec<bool>, String>) -> bool {
    results matches Ok(replies) && forall|i: int|
        0 <= i < replies@.len() ==> #[trigger] replies@[i]
}

/// The refusal for ranks that did not do as asked. `rejected` is said where a rank refused.
pub open spec fn rank_refusal(results: Result<Vec<bool>, String>, rejected: Seq<char>) -> (
    Code,
    Seq<char>,
) {
    match results {
        Ok(_) => (Code::Internal, rejected),
        Err(error) => (Code::Internal, error@),
    }
}

impl LoraManagerServiceImpl {
    pub fn new(state: Arc<AppState>) -> (service: LoraManagerServiceImpl)
        ensures
            service.state == state,
    {
        LoraManagerServiceImpl { state }
    }

    /// The refusal where adapters cannot be loaded.
    pub open spec fn disabled(self) -> Option<(Code, Seq<char>)> {
        if self.state.first_ready().supports_lora {
            None
        } else {
            Some((Code::FailedPrecondition, "engine was not started with LoRA enabled"@))
        }
    }

    /// Checks that adapters can be loaded.
    pub fn ensure_enabled(&self) -> (outcome: Result<(), Status>)
        requires
            self.state.well_formed(),
        ensures
            answers(outcome, self.disabled()),
    {
        if self.state.ready_response().supports_lora {
            Ok(())
        } else {
            Err(Status::failed_precondition("engine was not started with LoRA enabled"))
        }
    }

    /// Checks a request to load an adapter. Its path is looked at next.
    pub fn check_load(&self, adapter: Option<LoraAdapter>) -> (outcome: Result<
        LoraAdapter,
        Status,
    >)
        requires
            self.state.well_formed(),
        ensures
            match outcome {
                Ok(checked) => self.disabled() is None && adapter == Some(checked),
                Err(status) => if self.disabled() is Some {
                    self.disabled() == Some(status@)
                } else {
                    adapter is None && status@ == (Code::InvalidArgument, "adapter is required"@)
                },
            },
    {
        if let Err(status) = self.ensure_enabled() {
            return Err(status);
        }
        match adapter {
            Some(adapter) => Ok(adapter),
            None => Err(Status::invalid_argument("adapter is required")),
        }
    }

    /// Begins to load an adapter that was checked before. `existing` is the loaded adapter with
    /// the same name, and `conflicting` one that it cannot be loaded beside.
    pub fn load_lora(
        &self,
        adapter: LoraRequest,
        existing: Option<&LoraRequest>,
        conflicting: Option<&LoraRequest>,
    ) -> (outcome: Result<LoadStart, Status>)
        ensures
            match (existing, conflicting) {
                (Some(existing), _) => if same_adapter(*existing, adapter) {
                    outcome matches Ok(LoadStart::AlreadyLoaded(response)) && is_adapter_of(
                        response.adapter,
                        *existing,
                    ) && response.already_loaded
                } else {
                    outcome matches Err(status) && status@ == conflict_refusal(*existing)
                },
                (None, Some(conflicting)) => outcome matches Err(status) && status@
                    == conflict_refusal(*conflicting),
                (None, None) => outcome == Ok::<LoadStart, Status>(LoadStart::AddLora(adapter)),
            },
    {
        if let Some(existing) = existing {
            if existing.equals(&adapter) {
                return Ok(
                    LoadStart::AlreadyLoaded(
                        LoadLoraResponse { adapter: to_proto(existing), already_loaded: true },
                    ),
                );
            }
            return Err(conflict(existing));
        }
        if let Some(conflicting) = conflicting {
            return Err(conflict(conflicting));
        }
        Ok(LoadStart::AddLora(adapter))
    }

    /// Ends a load when every rank was asked to add the adapter. Where a rank did not, all are
    /// asked to remove it again; otherwise it is registered.
    pub fn finish_load(&self, adapter: &LoraRequest, results: Result<Vec<bool>, String>) -> (end:
        RankResult<LoadLoraResponse>)
        ensures
            match end {
                RankResult::Done(response) => all_done(results) && is_adapter_of(
                    response.adapter,
                    *adapter,
                ) && !response.already_loaded,
                RankResult::RollBack(status) => !all_done(results) && status@ == rank_refusal(
                    results,
                    "one or more engine ranks rejected the LoRA"@,
                ),
            },
    {
        match results {
            Ok(replies) => if all_true(&replies) {
                RankResult::Done(
                    LoadLoraResponse { adapter: to_proto(adapter), already_loaded: false },
                )
            } else {
                RankResult::RollBack(Status::internal("one or more engine ranks rejected the LoRA"))
            },
            Err(error) => RankResult::RollBack(Status::internal(error.as_str())),
        }
    }

    /// Begins to unload an adapter. `existing` is the loaded adapter with that name.
    pub fn unload_lora<'a>(&self, name: &str, existing: Option<&'a LoraRequest>) -> (outcome: Result<
        &'a LoraRequest,
        Status,
    >)
        requires
            self.state.well_formed(),
        ensures
            match outcome {
                Ok(adapter) => self.disabled() is None && !is_blank_text(name@) && existing
                    == Some(adapter),
                Err(status) => if self.disabled() is Some {
                    self.disabled() == Some(status@)
                } else if is_blank_text(name@) {
                    status@ == (Code::InvalidArgument, "lora_name is required"@)
                } else {
                    existing is None && status@ == (
                        Code::NotFound,
                        "LoRA adapter `"@ + name@ + "` is not loaded"@,
                    )
                },
            },
    {
        if let Err(status) = self.ensure_enabled() {
            return Err(status);
        }
        if is_blank(name) {
            return Err(Status::invalid_argument("lora_name is required"));
        }
        match existing {
            Some(adapter) => Ok(adapter),
            None => Err(
                Status::not_found(join3("LoRA adapter `", name, "` is not loaded").as_str()),
            ),
        }
    }

    /// Ends an unload when every rank was asked to remove the adapter. Where a rank did not, all
    /// are asked to add it again; otherwise it is unregistered.
    pub fn finish_unload(&self, adapter: &LoraRequest, results: Result<Vec<bool>, String>) -> (end:
        RankResult<LoraAdapter>)
        ensures
            match end {
                RankResult::Done(removed) => all_done(results) && is_adapter_of(removed, *adapter),
                RankResult::RollBack(status) => !all_done(results) && status@ == rank_refusal(
                    results,
                    "one or more engine ranks rejected the LoRA unload"@,
                ),
            },
    {
        match results {
            Ok(replies) => if all_true(&replies) {
                RankResult::Done(to_proto(adapter))
            } else {
                RankResult::RollBack(
                    Status::internal("one or more engine ranks rejected the LoRA unload"),
                )
            },
            Err(error) => RankResult::RollBack(Status::internal(error.as_str())),
        }
    }

    /// Describes the loaded adapters, in their order.
    pub fn list_loras(&self, loaded: &Vec<LoraRequest>) -> (outcome: Result<
        Vec<LoraAdapter>,
        Status,
    >)
        requires
            self.state.well_formed(),
        ensures
            match outcome {
                Ok(adapters) => {
                    &&& self.disabled() is None
                    &&& adapters@.len() == loaded@.len()
                    &&& forall|i: int|
                        0 <= i < adapters@.len() ==> is_adapter_of(
                            #[trigger] adapters@[i],
                            loaded@[i],
                        )
                },
                Err(status) => self.disabled() == Some(status@),
            },
    {
        if let Err(status) = self.ensure_enabled() {
            return Err(status);
        }
        let mut adapters: Vec<LoraAdapter> = Vec::new();
        let mut i: usize = 0;
        while i < loaded.len()
            invariant
                i <= loaded@.len(),
                adapters@.len() == i,
                forall|j: int| 0 <= j < i ==> is_adapter_of(#[trigger] adapters@[j], loaded@[j]),
            decreases loaded@.len() - i,
        {
            adapters.push(to_proto(&loaded[i]));
            i += 1;
        }
        Ok(adapters)
    }
}

/// An adapter is accepted if and only if it has a positive id, a name that shows, an absolute path
/// and a directory there. What is refused is an invalid argument.
pub proof fn adapters_need_an_identity_and_a_directory(adapter: LoraAdapter, path: AdapterPath)
    ensures
        path_refusal(adapter, path) is None <==> {
            &&& adapter.lora_id > 0
            &&& exists|i: int|
                0 <= i < adapter.lora_name@.len() && !crate::text::is_white_space(
                    #[trigger] adapter.lora_name@[i],
                )
            &&& adapter.source_path@.len() > 0
            &&& adapter.source_path@[0] == '/'
            &&& path.canonical is Ok
            &&& path.directory == Ok::<bool, String>(true)
        },
        path_refusal(adapter, path) matches Some((code, _)) ==> code == Code::InvalidArgument,
{
}

/// A descriptor keeps the identity of the adapter and names the place where it was found; and the
/// adapter that a client is told of is that of the descriptor.
pub proof fn descriptors_keep_the_identity(
    request: LoraRequest,
    adapter: LoraAdapter,
    path: AdapterPath,
    told: LoraAdapter,
)
    requires
        describes_adapter(request, adapter, path),
        is_adapter_of(told, request),
    ensures
        request.lora_name@ == adapter.lora_name@,
        request.lora_int_id == adapter.lora_id,
        request.base_model_name is None,
        request.tensorizer_config_dict is None,
        !request.load_inplace,
        !request.is_3d_lora_weight,
        told.lora_id == adapter.lora_id,
        told.lora_name@ == adapter.lora_name@,
        told.source_path@ == request.lora_path@,
        path.canonical is Ok ==> told.source_path@ == lossy(path.canonical->Ok_0@),
{
}

/// Ranks did as asked if and only if none refused and none failed. A failure is told in its own
/// words.
pub proof fn one_rank_is_enough_to_fail(
    results: Result<Vec<bool>, String>,
    rejected: Seq<char>,
    existing: LoraRequest,
)
    ensures
        all_done(results) <==> results is Ok && !results->Ok_0@.contains(false),
        results is Ok ==> rank_refusal(results, rejected) == (Code::Internal, rejected),
        results matches Err(error) ==> rank_refusal(results, rejected) == (Code::Internal, error@),
        conflict_refusal(existing).0 == Code::AlreadyExists,
{
    if let Ok(replies) = results {
        if !replies@.contains(false) {
            assert forall|i: int| 0 <= i < replies@.len() implies #[trigger] replies@[i] by {
                if !replies@[i] {
                    assert(replies@.contains(false));
                }
            }
        }
    }
}

/// Adapters can be loaded if and only if the engine was started with them.
pub proof fn adapters_are_enabled_by_the_engine(service: LoraManagerServiceImpl)
    ensures
        service.disabled() is None <==> service.state.ready_responses@[0].supports_lora,
        service.disabled() matches Some((code, _)) ==> code == Code::FailedPrecondition,
{
}

} // verus!
