//! Adapters of an engine: which are loaded, and what is answered.

use vstd::prelude::*;

use crate::admission::AdmissionGuard;
use crate::admission::AdmissionState;
use crate::foreign::lossy;
use crate::foreign::lossy_text;
use crate::lora::RegisteredLora;
use crate::lora::UnloadLoraError;
use crate::lora_path::is_absolute;
use crate::names::order_by_name;
use crate::names::ordered_by_name;
use crate::openengine::adapters::is_client_adapter;
use crate::openengine::adapters::lora_adapter;
use crate::openengine::adapters::LoadLoraResponse;
use crate::openengine::adapters::LoraAdapter;
use crate::openengine::lora::path_refusal;
use crate::openengine::lora::AdapterPath;
use crate::state::AppState;
use crate::status::answers;
use crate::status::Code;
use crate::status::Status;
use crate::text::decimal;
use crate::text::decimal_text;
use crate::text::is_blank;
use crate::text::is_blank_text;
use crate::text::join2;
use crate::text::join3;
use crate::text::join5;
use crate::text::same;

verus! {

/// Why an adapter with a given identity was not loaded.
#[derive(Debug)]
pub enum LoadExactLoraError {
    Inconsistent,
    BaseModelName { lora_name: String },
    Conflict { existing: RegisteredLora },
    Engine(String),
    NotLoaded { lora_name: String },
}

/// The refusal where adapters cannot be used: the engine was started without them, or its ranks
/// no longer agree on them.
pub open spec fn lora_refusal(state: AppState, consistent: bool) -> Option<(Code, Seq<char>)> {
    if !state.first_ready().supports_lora {
        Some((Code::FailedPrecondition, "engine was not started with LoRA enabled"@))
    } else if !consistent {
        Some(
            (
                Code::FailedPrecondition,
                "LoRA state differs across engine ranks; restart the engine"@,
            ),
        )
    } else {
        None
    }
}

/// Checks that adapters can be used.
pub fn ensure_usable(state: &AppState, consistent: bool) -> (outcome: Result<(), Status>)
    requires
        state.well_formed(),
    ensures
        answers(outcome, lora_refusal(*state, consistent)),
{
    if !state.ready_response().supports_lora {
        return Err(Status::failed_precondition("engine was not started with LoRA enabled"));
    }
    if !consistent {
        return Err(
            Status::failed_precondition(
                "LoRA state differs across engine ranks; restart the engine",
            ),
        );
    }
    Ok(())
}

/// Checks a request to load an adapter. Its path is looked at next.
pub fn load_lora(state: &AppState, consistent: bool, adapter: Option<LoraAdapter>) -> (outcome:
    Result<LoraAdapter, Status>)
    requires
        state.well_formed(),
    ensures
        match outcome {
            Ok(checked) => lora_refusal(*state, consistent) is None && adapter == Some(checked),
            Err(status) => if lora_refusal(*state, consistent) is Some {
                lora_refusal(*state, consistent) == Some(status@)
            } else {
                adapter is None && status@ == (Code::InvalidArgument, "adapter is required"@)
            },
        },
{
    if let Err(status) = ensure_usable(state, consistent) {
        return Err(status);
    }
    match adapter {
        Some(adapter) => Ok(adapter),
        None => Err(Status::invalid_argument("adapter is required")),
    }
}

/// The request loads the adapter from its canonical path.
pub open spec fn is_request_for(
    request: RegisteredLora,
    adapter: LoraAdapter,
    path: AdapterPath,
) -> bool {
    &&& request.lora_name == adapter.lora_name
    &&& request.lora_int_id == adapter.lora_id
    &&& request.lora_path@ == lossy(path.canonical->Ok_0@)
    &&& !request.load_inplace
    &&& !request.is_3d_lora_weight
}

/// Checks an adapter, and makes the request that loads it from its canonical path.
pub fn normalize_adapter(adapter: LoraAdapter, path: AdapterPath) -> (outcome: Result<
    RegisteredLora,
    Status,
>)
    ensures
        match outcome {
            Ok(request) => {
                &&& path_refusal(adapter, path) is None
                &&& is_request_for(request, adapter, path)
            },
            Err(status) => path_refusal(adapter, path) == Some(status@),
        },
{
    if adapter.lora_id <= 0 {
        return Err(Status::invalid_argument("lora_id must be positive"));
    }
    if is_blank(adapter.lora_name.as_str()) {
        return Err(Status::invalid_argument("lora_name is required"));
    }
    if !is_absolute(adapter.source_path.as_str()) {
        return Err(Status::invalid_argument("source_path must be absolute"));
    }
    let canonical = match path.canonical {
        Ok(canonical) => canonical,
        Err(error) => {
            return Err(
                Status::invalid_argument(join2("invalid source_path: ", error.as_str()).as_str()),
            );
        },
    };
    match path.directory {
        Ok(directory) => {
            if !directory {
                return Err(Status::invalid_argument("source_path must be a directory"));
            }
        },
        Err(error) => {
            return Err(
                Status::invalid_argument(join2("invalid source_path: ", error.as_str()).as_str()),
            );
        },
    }
    Ok(
        RegisteredLora::new(
            adapter.lora_name,
            adapter.lora_id as u64,
            lossy_text(canonical.as_slice()),
            false,
            false,
        ),
    )
}

/// Takes a change of adapters as engine work, unless the engine drains.
pub fn begin_engine_work(admission: &mut AdmissionState) -> (outcome: Result<
    AdmissionGuard,
    Status,
>)
    requires
        old(admission).load() < u64::MAX,
    ensures
        final(admission).drains() == old(admission).drains(),
        match outcome {
            Ok(_) => !old(admission).drains() && final(admission).load() == old(admission).load()
                + 1,
            Err(status) => old(admission).drains() && final(admission).load() == old(
                admission,
            ).load() && status@ == (Code::Unavailable, "engine is draining"@),
        },
{
    match admission.try_admit() {
        Some(guard) => Ok(guard),
        None => Err(Status::unavailable("engine is draining")),
    }
}

/// Begins to load an adapter whose path was looked at: every rank is asked to add it.
pub fn start_load(adapter: LoraAdapter, path: AdapterPath, admission: &mut AdmissionState) -> (outcome:
    Result<(RegisteredLora, AdmissionGuard), Status>)
    requires
        old(admission).load() < u64::MAX,
    ensures
        final(admission).drains() == old(admission).drains(),
        match outcome {
            Ok((request, _)) => {
                &&& path_refusal(adapter, path) is None
                &&& !old(admission).drains()
                &&& final(admission).load() == old(admission).load() + 1
                &&& is_request_for(request, adapter, path)
            },
            Err(status) => {
                &&& final(admission).load() == old(admission).load()
                &&& if path_refusal(adapter, path) is Some {
                    path_refusal(adapter, path) == Some(status@)
                } else {
                    old(admission).drains() && status@ == (
                        Code::Unavailable,
                        "engine is draining"@,
                    )
                }
            },
        },
{
    let request = match normalize_adapter(adapter, path) {
        Ok(request) => request,
        Err(status) => {
            return Err(status);
        },
    };
    match begin_engine_work(admission) {
        Ok(guard) => Ok((request, guard)),
        Err(status) => Err(status),
    }
}

/// The refusal for an adapter that was not loaded.
pub open spec fn load_refusal(error: LoadExactLoraError) -> (Code, Seq<char>) {
    match error {
        LoadExactLoraError::Inconsistent => (
            Code::FailedPrecondition,
            "LoRA state differs across engine ranks; restart the engine"@,
        ),
        LoadExactLoraError::BaseModelName { lora_name } => (
            Code::AlreadyExists,
            "LoRA adapter `"@ + lora_name@ + "` conflicts with a served base model"@,
        ),
        LoadExactLoraError::Conflict { existing } => (
            Code::AlreadyExists,
            "conflicts with loaded LoRA `"@ + existing.lora_name@ + "` (id "@ + decimal(
                existing.lora_int_id as nat,
            ) + ")"@,
        ),
        LoadExactLoraError::Engine(report) => (Code::Internal, report@),
        LoadExactLoraError::NotLoaded { lora_name } => (
            Code::Internal,
            "one or more engine ranks rejected LoRA adapter `"@ + lora_name@ + "`"@,
        ),
    }
}

/// Answers a request to load an adapter, given what loading it came to.
pub fn finish_load(loaded: Result<(RegisteredLora, bool), LoadExactLoraError>) -> (outcome: Result<
    LoadLoraResponse,
    Status,
>)
    ensures
        match (outcome, loaded) {
            (Ok(response), Ok((request, already_loaded))) => is_client_adapter(
                response.adapter,
                request,
            ) && response.already_loaded == already_loaded,
            (Err(status), Err(error)) => status@ == load_refusal(error),
            _ => false,
        },
{
    match loaded {
        Ok((request, already_loaded)) => Ok(
            LoadLoraResponse { adapter: lora_adapter(&request), already_loaded },
        ),
        Err(LoadExactLoraError::Inconsistent) => Err(
            Status::failed_precondition(
                "LoRA state differs across engine ranks; restart the engine",
            ),
        ),
        Err(LoadExactLoraError::BaseModelName { lora_name }) => Err(
            Status::already_exists(
                join3(
                    "LoRA adapter `",
                    lora_name.as_str(),
                    "` conflicts with a served base model",
                ).as_str(),
            ),
        ),
        Err(LoadExactLoraError::Conflict { existing }) => Err(
            Status::already_exists(
                join5(
                    "conflicts with loaded LoRA `",
                    existing.lora_name.as_str(),
                    "` (id ",
                    decimal_text(existing.lora_int_id).as_str(),
                    ")",
                ).as_str(),
            ),
        ),
        Err(LoadExactLoraError::Engine(report)) => Err(Status::internal(report.as_str())),
        Err(LoadExactLoraError::NotLoaded { lora_name }) => Err(
            Status::internal(
                join3(
                    "one or more engine ranks rejected LoRA adapter `",
                    lora_name.as_str(),
                    "`",
                ).as_str(),
            ),
        ),
    }
}

/// The id of the first adapter with a name.
pub open spec fn id_of(served: Seq<RegisteredLora>, name: Seq<char>) -> Option<u64>
    decreases served.len(),
{
    if served.len() == 0 {
        None
    } else if id_of(served.drop_last(), name) is Some {
        id_of(served.drop_last(), name)
    } else if served.last().lora_name@ == name {
        Some(served.last().lora_int_id)
    } else {
        None
    }
}

proof fn lemma_id_stays(served: Seq<RegisteredLora>, name: Seq<char>, n: int)
    requires
        0 <= n <= served.len(),
        id_of(served.take(n), name) is Some,
    ensures
        id_of(served, name) == id_of(served.take(n), name),
    decreases served.len() - n,
{
    if n == served.len() {
        assert(served.take(n) == served);
    } else {
        assert(served.take(n + 1).drop_last() == served.take(n));
        lemma_id_stays(served, name, n + 1);
    }
}

/// Finds the id of the first adapter with a name.
fn find_id(served: &Vec<RegisteredLora>, name: &str) -> (id: Option<u64>)
    ensures
        id == id_of(served@, name@),
{
    let mut i: usize = 0;
    while i < served.len()
        invariant
            i <= served@.len(),
            id_of(served@.take(i as int), name@) is None,
        decreases served@.len() - i,
    {
        assert(served@.take(i + 1).drop_last() == served@.take(i as int));
        if same(served[i].lora_name.as_str(), name) {
            proof {
                lemma_id_stays(served@, name@, i + 1);
            }
            return Some(served[i].lora_int_id);
        }
        i += 1;
    }
    assert(served@.take(i as int) == served@);
    None
}

/// Begins to unload an adapter: finds the id that every rank is asked to remove.
pub fn unload_lora(
    state: &AppState,
    consistent: bool,
    name: &str,
    served: &Vec<RegisteredLora>,
    admission: &mut AdmissionState,
) -> (outcome: Result<(u64, AdmissionGuard), Status>)
    requires
        state.well_formed(),
        old(admission).load() < u64::MAX,
    ensures
        final(admission).drains() == old(admission).drains(),
        match outcome {
            Ok((id, _)) => {
                &&& lora_refusal(*state, consistent) is None
                &&& !is_blank_text(name@)
                &&& id_of(served@, name@) == Some(id)
                &&& !old(admission).drains()
                &&& final(admission).load() == old(admission).load() + 1
            },
            Err(status) => {
                &&& final(admission).load() == old(admission).load()
                &&& if lora_refusal(*state, consistent) is Some {
                    lora_refusal(*state, consistent) == Some(status@)
                } else if is_blank_text(name@) {
                    status@ == (Code::InvalidArgument, "lora_name is required"@)
                } else if id_of(served@, name@) is None {
                    status@ == (Code::NotFound, "LoRA adapter `"@ + name@ + "` is not loaded"@)
                } else {
                    old(admission).drains() && status@ == (
                        Code::Unavailable,
                        "engine is draining"@,
                    )
                }
            },
        },
{
    if let Err(status) = ensure_usable(state, consistent) {
        return Err(status);
    }
    if is_blank(name) {
        return Err(Status::invalid_argument("lora_name is required"));
    }
    let id: u64 = match find_id(served, name) {
        Some(id) => id,
        None => {
            return Err(
                Status::not_found(join3("LoRA adapter `", name, "` is not loaded").as_str()),
            );
        },
    };
    match begin_engine_work(admission) {
        Ok(guard) => Ok((id, guard)),
        Err(status) => Err(status),
    }
}

/// The refusal for an adapter that was not unloaded.
pub open spec fn unload_refusal(error: UnloadLoraError) -> (Code, Seq<char>) {
    match error {
        UnloadLoraError::Inconsistent => (
            Code::FailedPrecondition,
            "LoRA state differs across engine ranks; restart the engine"@,
        ),
        UnloadLoraError::NotFound { lora_name } => (
            Code::NotFound,
            "LoRA adapter `"@ + lora_name@ + "` is not loaded"@,
        ),
        UnloadLoraError::IntIdMismatch { .. } => (
            Code::Internal,
            "LoRA registry changed during unload"@,
        ),
        UnloadLoraError::Engine(failure) => (Code::Internal, failure.report_text()),
    }
}

/// Answers a request to unload an adapter, given what unloading it came to.
pub fn finish_unload(unloaded: Result<RegisteredLora, UnloadLoraError>) -> (outcome: Result<
    LoraAdapter,
    Status,
>)
    ensures
        match (outcome, unloaded) {
            (Ok(adapter), Ok(request)) => is_client_adapter(adapter, request),
            (Err(status), Err(error)) => status@ == unload_refusal(error),
            _ => false,
        },
{
    match unloaded {
        Ok(request) => Ok(lora_adapter(&request)),
        Err(UnloadLoraError::Inconsistent) => Err(
            Status::failed_precondition(
                "LoRA state differs across engine ranks; restart the engine",
            ),
        ),
        Err(UnloadLoraError::NotFound { lora_name }) => Err(
            Status::not_found(
                join3("LoRA adapter `", lora_name.as_str(), "` is not loaded").as_str(),
            ),
        ),
        Err(UnloadLoraError::IntIdMismatch { .. }) => Err(
            Status::internal("LoRA registry changed during unload"),
        ),
        Err(UnloadLoraError::Engine(failure)) => Err(Status::internal(failure.report())),
    }
}

/// The adapters are those of the registry, in the order of their names.
pub open spec fn lists_adapters(adapters: Seq<LoraAdapter>, served: Seq<RegisteredLora>) -> bool {
    exists|ordered: Seq<RegisteredLora>|
        {
            &&& #[trigger] ordered_by_name(ordered)
            &&& ordered.to_multiset() == served.to_multiset()
            &&& adapters.len() == ordered.len()
            &&& forall|i: int|
                0 <= i < adapters.len() ==> is_client_adapter(#[trigger] adapters[i], ordered[i])
        }
}

/// Describes the adapters of the registry, in the order of their names.
pub fn list_loras(state: &AppState, consistent: bool, served: Vec<RegisteredLora>) -> (outcome:
    Result<Vec<LoraAdapter>, Status>)
    requires
        state.well_formed(),
    ensures
        match outcome {
            Ok(adapters) => lora_refusal(*state, consistent) is None && lists_adapters(
                adapters@,
                served@,
            ),
            Err(status) => lora_refusal(*state, consistent) == Some(status@),
        },
{
    if let Err(status) = ensure_usable(state, consistent) {
        return Err(status);
    }
    let ordered = order_by_name(served);
    let mut adapters: Vec<LoraAdapter> = Vec::new();
    let mut i: usize = 0;
    while i < ordered.len()
        invariant
            i <= ordered@.len(),
            adapters@.len() == i,
            forall|j: int|
                0 <= j < i ==> is_client_adapter(#[trigger] adapters@[j], ordered@[j]),
        decreases ordered@.len() - i,
    {
        adapters.push(lora_adapter(&ordered[i]));
        i += 1;
    }
    assert(lists_adapters(adapters@, served@)) by {
        assert(ordered_by_name(ordered@));
    }
    Ok(adapters)
}

/// Adapters can be used if and only if the engine was started with them and its ranks agree on
/// them; what cannot be used is refused as a call that comes at the wrong time.
pub proof fn adapters_are_usable_when_ranks_agree(state: AppState, consistent: bool)
    ensures
        lora_refusal(state, consistent) is None <==> state.ready_responses@[0].supports_lora
            && consistent,
        lora_refusal(state, consistent) matches Some((code, _)) ==> code
            == Code::FailedPrecondition,
{
}

/// The engines are asked for the adapter that the client asks for: under its name and its id, from
/// the place where it was found, and not in place of another.
pub proof fn requests_keep_the_identity(
    request: RegisteredLora,
    adapter: LoraAdapter,
    path: AdapterPath,
)
    requires
        is_request_for(request, adapter, path),
        path_refusal(adapter, path) is None,
    ensures
        request.lora_name@ == adapter.lora_name@,
        request.lora_int_id == adapter.lora_id,
        request.lora_int_id > 0,
        path.canonical is Ok,
        request.lora_path@ == lossy(path.canonical->Ok_0@),
        !request.load_inplace,
        !request.is_3d_lora_weight,
{
}

/// An adapter whose name or identity is taken exists already; ranks that do not agree are the wrong
/// time; all else is a failure of the engines.
pub proof fn loads_fail_by_their_cause(error: LoadExactLoraError)
    ensures
        load_refusal(error).0 == Code::AlreadyExists <==> error is BaseModelName || error
            is Conflict,
        load_refusal(error).0 == Code::FailedPrecondition <==> error is Inconsistent,
        load_refusal(error).0 == Code::Internal <==> error is Engine || error is NotLoaded,
        error matches LoadExactLoraError::Engine(report) ==> load_refusal(error).1 == report@,
{
}

/// An adapter that is not loaded is not found; ranks that do not agree are the wrong time; all else
/// is a failure of the engines.
pub proof fn unloads_fail_by_their_cause(error: UnloadLoraError)
    ensures
        unload_refusal(error).0 == Code::NotFound <==> error is NotFound,
        unload_refusal(error).0 == Code::FailedPrecondition <==> error is Inconsistent,
        unload_refusal(error).0 == Code::Internal <==> error is Engine || error is IntIdMismatch,
{
}

/// An adapter is unloaded by the id that the first adapter of its name has; a name that no adapter
/// has has no id.
pub proof fn ids_are_found_by_name(served: Seq<RegisteredLora>, name: Seq<char>, i: int)
    ensures
        0 <= i < served.len() && served[i].lora_name@ == name && (forall|k: int|
            0 <= k < i ==> (#[trigger] served[k]).lora_name@ != name) ==> id_of(served, name)
            == Some(served[i].lora_int_id),
        (forall|k: int| 0 <= k < served.len() ==> (#[trigger] served[k]).lora_name@ != name)
            ==> id_of(served, name) is None,
    decreases served.len(),
{
    if served.len() > 0 {
        let shorter = served.drop_last();
        ids_are_found_by_name(shorter, name, i);
        if 0 <= i < served.len() && served[i].lora_name@ == name && (forall|k: int|
            0 <= k < i ==> (#[trigger] served[k]).lora_name@ != name) {
            assert forall|k: int| 0 <= k < i && k < shorter.len() implies (
            #[trigger] shorter[k]).lora_name@ != name by {
                assert(served[k].lora_name@ != name);
            }
        }
        if forall|k: int| 0 <= k < served.len() ==> (#[trigger] served[k]).lora_name@ != name {
            assert forall|k: int| 0 <= k < shorter.len() implies (
            #[trigger] shorter[k]).lora_name@ != name by {
                assert(served[k].lora_name@ != name);
            }
            assert(served[served.len() - 1].lora_name@ != name);
        }
    }
}

/// A list shows as many adapters as are loaded, each loaded one among them, in the order of their
/// names.
pub proof fn lists_show_every_adapter(
    adapters: Seq<LoraAdapter>,
    served: Seq<RegisteredLora>,
    i: int,
    j: int,
)
    requires
        lists_adapters(adapters, served),
    ensures
        adapters.len() == served.len(),
        0 <= i < served.len() ==> exists|k: int|
            0 <= k < adapters.len() && (#[trigger] adapters[k]).lora_name@ == served[i].lora_name@
                && adapters[k].source_path@ == served[i].lora_path@ && (served[i].lora_int_id
                <= i64::MAX ==> adapters[k].lora_id == served[i].lora_int_id),
        0 <= i < j < adapters.len() ==> !crate::names::stands_before(
            adapters[j].lora_name@,
            adapters[i].lora_name@,
        ),
{
    let ordered = choose|ordered: Seq<RegisteredLora>|
        {
            &&& #[trigger] ordered_by_name(ordered)
            &&& ordered.to_multiset() == served.to_multiset()
            &&& adapters.len() == ordered.len()
            &&& forall|i: int|
                0 <= i < adapters.len() ==> is_client_adapter(#[trigger] adapters[i], ordered[i])
        };
    ordered.to_multiset_ensures();
    served.to_multiset_ensures();
    assert(ordered.len() == ordered.to_multiset().len());
    if 0 <= i < served.len() {
        assert(served.contains(served[i]));
        assert(served.to_multiset().count(served[i]) > 0);
        assert(ordered.contains(served[i]));
        let k = choose|k: int| 0 <= k < ordered.len() && ordered[k] == served[i];
        assert(is_client_adapter(adapters[k], ordered[k]));
    }
    if 0 <= i < j < adapters.len() {
        assert(is_client_adapter(adapters[i], ordered[i]));
        assert(is_client_adapter(adapters[j], ordered[j]));
    }
}

} // verus!
