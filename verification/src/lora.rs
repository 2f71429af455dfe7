//! The registry of LoRA adapters that are loaded while the server runs.
//!
//! A change of the registry goes with a call to every engine rank. The registry decides what is
//! called, and from what came back what it holds afterwards; the caller makes the calls and lets
//! only one change run at a time.

use vstd::prelude::*;

use crate::text::listed;

verus! {

#[verifier::external_type_specification]
#[verifier::external_body]
#[verifier::reject_recursive_types(K)]
#[verifier::reject_recursive_types(V)]
#[verifier::reject_recursive_types(S)]
pub struct ExIndexMap<K, V, S>(indexmap::IndexMap<K, V, S>);

/// An adapter as the engines are asked to load it.
#[derive(Debug)]
pub struct RegisteredLora {
    pub lora_name: String,
    pub lora_int_id: u64,
    pub lora_path: String,
    pub load_inplace: bool,
    pub is_3d_lora_weight: bool,
}

impl RegisteredLora {
    pub fn new(
        lora_name: String,
        lora_int_id: u64,
        lora_path: String,
        load_inplace: bool,
        is_3d_lora_weight: bool,
    ) -> (request: RegisteredLora)
        ensures
            request == (RegisteredLora {
                lora_name,
                lora_int_id,
                lora_path,
                load_inplace,
                is_3d_lora_weight,
            }),
    {
        RegisteredLora { lora_name, lora_int_id, lora_path, load_inplace, is_3d_lora_weight }
    }

    /// The same adapter once more.
    pub fn copy(&self) -> (copy: RegisteredLora)
        ensures
            copy == *self,
    {
        RegisteredLora {
            lora_name: self.lora_name.clone(),
            lora_int_id: self.lora_int_id,
            lora_path: self.lora_path.clone(),
            load_inplace: self.load_inplace,
            is_3d_lora_weight: self.is_3d_lora_weight,
        }
    }
}

/// The entries of an `indexmap::IndexMap`, each with its key, in their order.
pub uninterp spec fn lora_entries(map: indexmap::IndexMap<String, RegisteredLora>) -> Seq<
    (Seq<char>, RegisteredLora),
>;

/// The position of a name among entries, or -1.
pub open spec fn position_of(entries: Seq<(Seq<char>, RegisteredLora)>, name: Seq<char>) -> int
    decreases entries.len(),
{
    if entries.len() == 0 {
        -1
    } else if entries.last().0 == name {
        entries.len() - 1
    } else {
        position_of(entries.drop_last(), name)
    }
}

/// The adapter with a name.
pub open spec fn adapter_of(entries: Seq<(Seq<char>, RegisteredLora)>, name: Seq<char>) -> Option<
    RegisteredLora,
> {
    if position_of(entries, name) < 0 {
        None
    } else {
        Some(entries[position_of(entries, name)].1)
    }
}

/// Entries with one adapter set: in its place where its name is known, behind the others where
/// it is new.
pub open spec fn with_adapter(
    entries: Seq<(Seq<char>, RegisteredLora)>,
    name: Seq<char>,
    request: RegisteredLora,
) -> Seq<(Seq<char>, RegisteredLora)> {
    if position_of(entries, name) < 0 {
        entries.push((name, request))
    } else {
        entries.update(position_of(entries, name), (name, request))
    }
}

/// Entries without the adapter of a name; the others keep their order.
pub open spec fn without_adapter(
    entries: Seq<(Seq<char>, RegisteredLora)>,
    name: Seq<char>,
) -> Seq<(Seq<char>, RegisteredLora)> {
    if position_of(entries, name) < 0 {
        entries
    } else {
        entries.remove(position_of(entries, name))
    }
}

/// Calls `indexmap::IndexMap::new`: the map is empty.
#[verifier::external_body]
fn new_map() -> (map: indexmap::IndexMap<String, RegisteredLora>)
    ensures
        lora_entries(map) == Seq::<(Seq<char>, RegisteredLora)>::empty(),
{
    indexmap::IndexMap::new()
}

/// Calls `indexmap::IndexMap::get`: the value that is stored for the key, where it is present.
#[verifier::external_body]
fn map_get<'a>(map: &'a indexmap::IndexMap<String, RegisteredLora>, name: &str) -> (found: Option<
    &'a RegisteredLora,
>)
    ensures
        match found {
            Some(request) => adapter_of(lora_entries(*map), name@) == Some(*request),
            None => adapter_of(lora_entries(*map), name@) is None,
        },
{
    map.get(name)
}

/// Calls `indexmap::IndexMap::insert`: a key that is present keeps its place and gets the new
/// value, and a key that is not comes last.
#[verifier::external_body]
fn map_insert(
    map: &mut indexmap::IndexMap<String, RegisteredLora>,
    name: String,
    request: RegisteredLora,
)
    ensures
        lora_entries(*final(map)) == with_adapter(lora_entries(*old(map)), name@, request),
{
    map.insert(name, request);
}

/// Calls `indexmap::IndexMap::shift_remove`: the pair of the key leaves and its value is returned,
/// and the pairs behind it keep their relative order.
#[verifier::external_body]
fn map_remove(map: &mut indexmap::IndexMap<String, RegisteredLora>, name: &str) -> (removed: Option<
    RegisteredLora,
>)
    ensures
        lora_entries(*final(map)) == without_adapter(lora_entries(*old(map)), name@),
        removed == adapter_of(lora_entries(*old(map)), name@),
{
    map.shift_remove(name)
}

/// Calls `indexmap::IndexMap::values`: the values of the map, in their order.
#[verifier::external_body]
fn map_values(map: &indexmap::IndexMap<String, RegisteredLora>) -> (values: Vec<&RegisteredLora>)
    ensures
        values@.len() == lora_entries(*map).len(),
        forall|i: int|
            0 <= i < values@.len() ==> *(#[trigger] values@[i]) == lora_entries(*map)[i].1,
{
    map.values().collect()
}

/// Calls `indexmap::IndexMap::keys`: the keys of the map, in their order.
#[verifier::external_body]
fn map_keys(map: &indexmap::IndexMap<String, RegisteredLora>) -> (keys: Vec<&String>)
    ensures
        keys@.len() == lora_entries(*map).len(),
        forall|i: int| 0 <= i < keys@.len() ==> (#[trigger] keys@[i])@ == lora_entries(*map)[i].0,
{
    map.keys().collect()
}

/// Whether a change of the engines is known to have ended in a definite state.
pub struct MutationGuard {
    pub final_state_proven: bool,
}

impl MutationGuard {
    /// A change that has just begun.
    pub fn new() -> (guard: MutationGuard)
        ensures
            !guard.final_state_proven,
    {
        MutationGuard { final_state_proven: false }
    }

    /// Records that the state of every engine is known.
    pub fn prove_final_state(&mut self)
        ensures
            final(self).final_state_proven,
    {
        self.final_state_proven = true;
    }
}

/// A call that goes to every engine rank.
#[derive(Debug)]
pub enum EngineCall {
    AddLora(RegisteredLora),
    RemoveLora(u64),
}

/// A call that did not come back with replies.
#[derive(Debug)]
pub enum EngineFailure {
    TimedOut { report: String },
    Failed { report: String },
}

impl EngineFailure {
    /// What is reported of the failure.
    pub open spec fn report_text(self) -> Seq<char> {
        match self {
            EngineFailure::TimedOut { report } => report@,
            EngineFailure::Failed { report } => report@,
        }
    }

    /// What is reported of the failure.
    pub fn report(&self) -> (report: &str)
        ensures
            report@ == self.report_text(),
    {
        match self {
            EngineFailure::TimedOut { report } => report.as_str(),
            EngineFailure::Failed { report } => report.as_str(),
        }
    }
}

/// What came back from the engine ranks: their replies, or a failure.
pub type CallOutcome = Result<Vec<bool>, EngineFailure>;

/// Every rank replied, and every reply is true.
pub open spec fn all_accepted(outcome: CallOutcome) -> bool {
    outcome matches Ok(replies) && forall|i: int|
        0 <= i < replies@.len() ==> #[trigger] replies@[i]
}

/// No rank replied in time.
pub open spec fn timed_out(outcome: CallOutcome) -> bool {
    outcome matches Err(EngineFailure::TimedOut { .. })
}

/// Whether every rank replied that it did as asked.
pub(crate) fn all_true(replies: &Vec<bool>) -> (all: bool)
    ensures
        all == forall|i: int| 0 <= i < replies@.len() ==> #[trigger] replies@[i],
{
    let mut i: usize = 0;
    while i < replies.len()
        invariant
            i <= replies@.len(),
            forall|j: int| 0 <= j < i ==> #[trigger] replies@[j],
        decreases replies@.len() - i,
    {
        if !replies[i] {
            return false;
        }
        i += 1;
    }
    true
}

/// The names of the served models and, where the asked-for name is that of an adapter, the
/// adapter.
#[derive(Debug)]
pub struct LoraModelResolution {
    pub model_names: Vec<String>,
    pub lora_request: Option<RegisteredLora>,
}

/// Why an adapter was not loaded.
#[derive(Debug)]
pub enum LoadLoraError {
    Inconsistent,
    AlreadyLoaded { lora_name: String },
    BaseModelName { lora_name: String },
    Engine(EngineFailure),
    NotLoaded { lora_name: String },
}

/// Why an adapter was not unloaded.
#[derive(Debug)]
pub enum UnloadLoraError {
    Inconsistent,
    NotFound { lora_name: String },
    IntIdMismatch { lora_name: String, expected: u64, actual: u64 },
    Engine(EngineFailure),
}

/// A load that waits for the engines: they are asked to add `request`. `previous` is the adapter
/// that it replaces.
pub struct PendingLoad {
    pub request: RegisteredLora,
    pub previous: Option<RegisteredLora>,
    pub mutation: MutationGuard,
}

/// An unload that waits for the engines: they are asked to remove the id of `request`.
pub struct PendingUnload {
    pub request: RegisteredLora,
    pub mutation: MutationGuard,
}

/// A load that failed and waits for the engines to go back: they are asked for `call`.
pub struct LoadRollback {
    pub call: EngineCall,
    pub error: LoadLoraError,
    pub late: bool,
    pub mutation: MutationGuard,
}

/// An unload that failed and waits for the engines to go back: they are asked to add `request`.
pub struct UnloadRollback {
    pub request: RegisteredLora,
    pub error: EngineFailure,
    pub late: bool,
    pub mutation: MutationGuard,
}

/// How a load goes on after the engines were asked.
pub enum LoadStep {
    Loaded(RegisteredLora),
    Rollback(LoadRollback),
}

/// How an unload goes on after the engines were asked.
pub enum UnloadStep {
    Unloaded(RegisteredLora),
    Rollback(UnloadRollback),
}

/// The registry of loaded adapters.
pub struct LoraManager {
    requests: indexmap::IndexMap<String, RegisteredLora>,
    id_counter: u64,
    consistent: bool,
}

/// The call that takes a failed load back: the replaced adapter is loaded in place again, or the
/// new one is removed.
pub open spec fn rolls_back(
    call: EngineCall,
    attempted: RegisteredLora,
    previous: Option<RegisteredLora>,
) -> bool {
    match previous {
        Some(previous) => call == EngineCall::AddLora(
            (RegisteredLora { load_inplace: true, ..previous }),
        ),
        None => call == EngineCall::RemoveLora(attempted.lora_int_id),
    }
}

/// The engines went back: a removal only has to be answered, an addition has to be accepted.
pub open spec fn restored(call: EngineCall, outcome: CallOutcome) -> bool {
    match call {
        EngineCall::AddLora(_) => all_accepted(outcome),
        EngineCall::RemoveLora(_) => outcome is Ok,
    }
}

impl LoraManager {
    /// The adapters, each with its name, in load order.
    pub closed spec fn entries(self) -> Seq<(Seq<char>, RegisteredLora)> {
        lora_entries(self.requests)
    }

    /// The last id that was given out.
    pub closed spec fn last_id(self) -> u64 {
        self.id_counter
    }

    /// No change has left the engines in an unknown state.
    pub closed spec fn consistent(self) -> bool {
        self.consistent
    }

    /// Names are distinct, each adapter stands under its own name, and ids are distinct numbers
    /// from one up to the last that was given out.
    pub open spec fn well_formed(self) -> bool {
        registry_well_formed(self.entries(), self.last_id())
    }

    /// A load that was begun on this registry, which has not changed since.
    pub open spec fn awaits_load(self, pending: PendingLoad) -> bool {
        &&& !pending.mutation.final_state_proven
        &&& pending.previous == adapter_of(self.entries(), pending.request.lora_name@)
        &&& 1 <= pending.request.lora_int_id <= self.last_id()
        &&& pending.previous matches Some(previous)
            ==> pending.request.lora_int_id == previous.lora_int_id
        &&& pending.previous is None ==> forall|i: int|
            0 <= i < self.entries().len() ==> (#[trigger] self.entries()[i]).1.lora_int_id
                != pending.request.lora_int_id
    }

    /// An unload that was begun on this registry, which has not changed since.
    pub open spec fn awaits_unload(self, pending: PendingUnload) -> bool {
        &&& !pending.mutation.final_state_proven
        &&& adapter_of(self.entries(), pending.request.lora_name@) == Some(pending.request)
    }
}

/// What holds of the entries of a registry and the last id that was given out.
pub open spec fn registry_well_formed(
    entries: Seq<(Seq<char>, RegisteredLora)>,
    last_id: u64,
) -> bool {
    &&& forall|i: int, j: int|
        0 <= i < j < entries.len() ==> (#[trigger] entries[i]).0 != (#[trigger] entries[j]).0
    &&& forall|i: int, j: int|
        0 <= i < j < entries.len() ==> (#[trigger] entries[i]).1.lora_int_id != (
        #[trigger] entries[j]).1.lora_int_id
    &&& forall|i: int|
        0 <= i < entries.len() ==> {
            &&& (#[trigger] entries[i]).1.lora_name@ == entries[i].0
            &&& 1 <= entries[i].1.lora_int_id <= last_id
        }
}

proof fn lemma_position(entries: Seq<(Seq<char>, RegisteredLora)>, name: Seq<char>)
    ensures
        -1 <= position_of(entries, name) < entries.len(),
        position_of(entries, name) >= 0 ==> entries[position_of(entries, name)].0 == name,
        position_of(entries, name) < 0 ==> forall|i: int|
            0 <= i < entries.len() ==> (#[trigger] entries[i]).0 != name,
    decreases entries.len(),
{
    if entries.len() > 0 {
        lemma_position(entries.drop_last(), name);
        if entries.last().0 != name && position_of(entries, name) < 0 {
            assert forall|i: int| 0 <= i < entries.len() implies (#[trigger] entries[i]).0
                != name by {
                if i < entries.len() - 1 {
                    assert(entries.drop_last()[i].0 != name);
                }
            }
        }
    }
}

proof fn lemma_position_is(entries: Seq<(Seq<char>, RegisteredLora)>, name: Seq<char>, at: int)
    requires
        0 <= at < entries.len(),
        entries[at].0 == name,
        forall|i: int, j: int|
            0 <= i < j < entries.len() ==> (#[trigger] entries[i]).0 != (#[trigger] entries[j]).0,
    ensures
        position_of(entries, name) == at,
{
    lemma_position(entries, name);
}

proof fn lemma_replaced(
    entries: Seq<(Seq<char>, RegisteredLora)>,
    last_id: u64,
    request: RegisteredLora,
)
    requires
        registry_well_formed(entries, last_id),
        1 <= request.lora_int_id <= last_id,
        match adapter_of(entries, request.lora_name@) {
            Some(previous) => request.lora_int_id == previous.lora_int_id,
            None => forall|i: int|
                0 <= i < entries.len() ==> (#[trigger] entries[i]).1.lora_int_id
                    != request.lora_int_id,
        },
    ensures
        registry_well_formed(with_adapter(entries, request.lora_name@, request), last_id),
{
    lemma_position(entries, request.lora_name@);
    let at = position_of(entries, request.lora_name@);
    let changed = with_adapter(entries, request.lora_name@, request);
    if at >= 0 {
        assert forall|i: int, j: int| 0 <= i < j < changed.len() implies (
        #[trigger] changed[i]).1.lora_int_id != (#[trigger] changed[j]).1.lora_int_id by {
            assert(entries[i].1.lora_int_id != entries[j].1.lora_int_id);
        }
        assert forall|i: int, j: int| 0 <= i < j < changed.len() implies (
        #[trigger] changed[i]).0 != (#[trigger] changed[j]).0 by {
            assert(entries[i].0 != entries[j].0);
        }
    }
}

proof fn lemma_removed(
    entries: Seq<(Seq<char>, RegisteredLora)>,
    last_id: u64,
    name: Seq<char>,
)
    requires
        registry_well_formed(entries, last_id),
    ensures
        registry_well_formed(without_adapter(entries, name), last_id),
{
    lemma_position(entries, name);
    let at = position_of(entries, name);
    let changed = without_adapter(entries, name);
    if at >= 0 {
        assert forall|i: int| 0 <= i < changed.len() implies (#[trigger] changed[i])
            == entries[if i < at { i } else { i + 1 }] by {}
        assert forall|i: int, j: int| 0 <= i < j < changed.len() implies (
        #[trigger] changed[i]).1.lora_int_id != (#[trigger] changed[j]).1.lora_int_id by {
            let a = if i < at { i } else { i + 1 };
            let b = if j < at { j } else { j + 1 };
            assert(entries[a].1.lora_int_id != entries[b].1.lora_int_id);
        }
        assert forall|i: int, j: int| 0 <= i < j < changed.len() implies (
        #[trigger] changed[i]).0 != (#[trigger] changed[j]).0 by {
            let a = if i < at { i } else { i + 1 };
            let b = if j < at { j } else { j + 1 };
            assert(entries[a].0 != entries[b].0);
        }
    }
}

/// An adapter that was set is found under its name, and every other name finds what it found
/// before.
pub proof fn set_adapter_is_found(
    entries: Seq<(Seq<char>, RegisteredLora)>,
    last_id: u64,
    request: RegisteredLora,
    other: Seq<char>,
)
    requires
        registry_well_formed(entries, last_id),
    ensures
        adapter_of(with_adapter(entries, request.lora_name@, request), request.lora_name@) == Some(
            request,
        ),
        other != request.lora_name@ ==> adapter_of(
            with_adapter(entries, request.lora_name@, request),
            other,
        ) == adapter_of(entries, other),
{
    let name = request.lora_name@;
    let changed = with_adapter(entries, name, request);
    lemma_position(entries, name);
    let at = position_of(entries, name);
    let place = if at >= 0 {
        at
    } else {
        entries.len() as int
    };
    assert(changed[place] == (name, request));
    assert forall|i: int, j: int| 0 <= i < j < changed.len() implies (#[trigger] changed[i]).0 != (
    #[trigger] changed[j]).0 by {
        if j < entries.len() {
            assert(entries[i].0 != entries[j].0);
        }
    }
    lemma_position_is(changed, name, place);
    lemma_position(entries, other);
    lemma_position(changed, other);
    if other != name {
        let was = position_of(entries, other);
        if was >= 0 {
            assert(changed[was] == entries[was]);
            lemma_position_is(changed, other, was);
        } else {
            let now = position_of(changed, other);
            if now >= 0 {
                assert(changed[now] == entries[now]);
            }
        }
    }
}

/// An adapter that was removed is not found any more, and every other name finds what it found
/// before.
pub proof fn removed_adapter_is_not_found(
    entries: Seq<(Seq<char>, RegisteredLora)>,
    last_id: u64,
    name: Seq<char>,
    other: Seq<char>,
)
    requires
        registry_well_formed(entries, last_id),
    ensures
        adapter_of(without_adapter(entries, name), name) is None,
        other != name ==> adapter_of(without_adapter(entries, name), other) == adapter_of(
            entries,
            other,
        ),
{
    let changed = without_adapter(entries, name);
    lemma_removed(entries, last_id, name);
    lemma_position(entries, name);
    lemma_position(changed, name);
    lemma_position(entries, other);
    lemma_position(changed, other);
    let at = position_of(entries, name);
    if at >= 0 {
        assert forall|i: int| 0 <= i < changed.len() implies (#[trigger] changed[i])
            == entries[if i < at { i } else { i + 1 }] by {}
        assert forall|i: int| 0 <= i < changed.len() implies (#[trigger] changed[i]).0 != name by {
            let a = if i < at { i } else { i + 1 };
            assert(entries[a].0 != entries[at].0);
        }
        if other != name {
            let was = position_of(entries, other);
            if was >= 0 {
                let now = if was < at { was } else { was - 1 };
                assert(changed[now] == entries[was]);
                lemma_position_is(changed, other, now);
            }
        }
    }
}

/// An adapter that is loaded under a new name and unloaded again leaves the registry as it was.
pub proof fn unload_takes_load_back(
    entries: Seq<(Seq<char>, RegisteredLora)>,
    last_id: u64,
    request: RegisteredLora,
)
    requires
        registry_well_formed(entries, last_id),
        adapter_of(entries, request.lora_name@) is None,
    ensures
        without_adapter(
            with_adapter(entries, request.lora_name@, request),
            request.lora_name@,
        ) == entries,
{
    let changed = entries.push((request.lora_name@, request));
    assert(position_of(changed, request.lora_name@) == entries.len());
    assert(changed.remove(entries.len() as int) == entries);
}

/// An adapter that is replaced keeps its place: the names stand in the same order as before.
pub proof fn replacement_keeps_order(
    entries: Seq<(Seq<char>, RegisteredLora)>,
    request: RegisteredLora,
)
    requires
        adapter_of(entries, request.lora_name@) is Some,
    ensures
        with_adapter(entries, request.lora_name@, request).map_values(
            |entry: (Seq<char>, RegisteredLora)| entry.0,
        ) == entries.map_values(|entry: (Seq<char>, RegisteredLora)| entry.0),
{
    lemma_position(entries, request.lora_name@);
}

impl LoraManager {
    /// A registry without adapters.
    pub fn new() -> (manager: LoraManager)
        ensures
            manager.well_formed(),
            manager.entries().len() == 0,
            manager.last_id() == 0,
            manager.consistent(),
    {
        LoraManager { requests: new_map(), id_counter: 0, consistent: true }
    }

    /// Whether no change has left the engines in an unknown state.
    pub fn is_consistent(&self) -> (consistent: bool)
        ensures
            consistent == self.consistent(),
    {
        self.consistent
    }

    /// Whether a further adapter can get an id of its own.
    pub fn has_free_id(&self) -> (free: bool)
        ensures
            free == (self.last_id() < u64::MAX),
    {
        self.id_counter < u64::MAX
    }

    /// The loaded adapters, in load order.
    pub fn served_lora_requests(&self) -> (requests: Vec<RegisteredLora>)
        ensures
            requests@.len() == self.entries().len(),
            forall|i: int|
                0 <= i < requests@.len() ==> (#[trigger] requests@[i]) == self.entries()[i].1,
    {
        let values = map_values(&self.requests);
        let mut requests: Vec<RegisteredLora> = Vec::new();
        let mut i: usize = 0;
        while i < values.len()
            invariant
                i <= values@.len(),
                requests@.len() == i,
                forall|j: int| 0 <= j < i ==> (#[trigger] requests@[j]) == *values@[j],
            decreases values@.len() - i,
        {
            requests.push(values[i].copy());
            i += 1;
        }
        requests
    }

    /// Looks a model name up in the registry. The names of the base models come first, then those
    /// of the adapters in load order.
    pub fn resolve_model(&self, base_model_names: &Vec<String>, model_name: Option<&str>) -> (resolution:
        LoraModelResolution)
        ensures
            resolution.model_names@.len() == base_model_names@.len() + self.entries().len(),
            forall|i: int|
                0 <= i < base_model_names@.len() ==> (#[trigger] resolution.model_names@[i])@
                    == base_model_names@[i]@,
            forall|i: int|
                base_model_names@.len() <= i < resolution.model_names@.len() ==> (
                #[trigger] resolution.model_names@[i])@ == self.entries()[i
                    - base_model_names@.len()].0,
            resolution.lora_request == (match model_name {
                Some(name) => adapter_of(self.entries(), name@),
                None => None,
            }),
    {
        let mut model_names: Vec<String> = Vec::new();
        let mut i: usize = 0;
        while i < base_model_names.len()
            invariant
                i <= base_model_names@.len(),
                model_names@.len() == i,
                forall|j: int|
                    0 <= j < i ==> (#[trigger] model_names@[j])@ == base_model_names@[j]@,
            decreases base_model_names@.len() - i,
        {
            model_names.push(base_model_names[i].clone());
            i += 1;
        }
        let keys = map_keys(&self.requests);
        let mut k: usize = 0;
        while k < keys.len()
            invariant
                k <= keys@.len(),
                model_names@.len() == base_model_names@.len() + k,
                keys@.len() == self.entries().len(),
                forall|j: int|
                    0 <= j < keys@.len() ==> (#[trigger] keys@[j])@ == self.entries()[j].0,
                forall|j: int|
                    0 <= j < base_model_names@.len() ==> (#[trigger] model_names@[j])@
                        == base_model_names@[j]@,
                forall|j: int|
                    base_model_names@.len() <= j < model_names@.len() ==> (
                    #[trigger] model_names@[j])@ == self.entries()[j - base_model_names@.len()].0,
            decreases keys@.len() - k,
        {
            model_names.push(keys[k].clone());
            k += 1;
        }
        let lora_request = match model_name {
            Some(name) => match map_get(&self.requests, name) {
                Some(request) => Some(request.copy()),
                None => None,
            },
            None => None,
        };
        LoraModelResolution { model_names, lora_request }
    }

    /// Begins to load an adapter: decides whether it may be loaded and which id it gets. The
    /// engines are then asked to add the pending request.
    pub fn load_lora(
        &mut self,
        base_model_names: &Vec<String>,
        lora_name: String,
        lora_path: String,
        load_inplace: bool,
        is_3d_lora_weight: bool,
    ) -> (outcome: Result<PendingLoad, LoadLoraError>)
        requires
            old(self).well_formed(),
            adapter_of(old(self).entries(), lora_name@) is None ==> old(self).last_id() < u64::MAX,
        ensures
            final(self).well_formed(),
            final(self).entries() == old(self).entries(),
            final(self).consistent() == old(self).consistent(),
            ({
                let base = exists|i: int|
                    0 <= i < base_model_names@.len() && (#[trigger] base_model_names@[i])@
                        == lora_name@;
                let previous = adapter_of(old(self).entries(), lora_name@);
                if !old(self).consistent() {
                    outcome == Err::<PendingLoad, LoadLoraError>(LoadLoraError::Inconsistent)
                } else if base {
                    outcome == Err::<PendingLoad, LoadLoraError>(
                        LoadLoraError::BaseModelName { lora_name },
                    )
                } else if previous is Some && !load_inplace {
                    outcome == Err::<PendingLoad, LoadLoraError>(
                        LoadLoraError::AlreadyLoaded { lora_name },
                    )
                } else {
                    outcome matches Ok(pending) && pending.previous == previous
                        && pending.request == (RegisteredLora {
                        lora_name,
                        lora_int_id: (if previous is Some {
                            previous->Some_0.lora_int_id
                        } else {
                            (old(self).last_id() + 1) as u64
                        }),
                        lora_path,
                        load_inplace,
                        is_3d_lora_weight,
                    }) && final(self).awaits_load(pending)
                }
            }),
            final(self).last_id() == (if outcome is Ok && outcome->Ok_0.previous is None {
                old(self).last_id() + 1
            } else {
                old(self).last_id() as int
            }),
    {
        if !self.consistent {
            return Err(LoadLoraError::Inconsistent);
        }
        if listed(base_model_names, lora_name.as_str()) {
            return Err(LoadLoraError::BaseModelName { lora_name });
        }
        let previous = match map_get(&self.requests, lora_name.as_str()) {
            Some(request) => Some(request.copy()),
            None => None,
        };
        if previous.is_some() && !load_inplace {
            return Err(LoadLoraError::AlreadyLoaded { lora_name });
        }
        proof {
            lemma_position(self.entries(), lora_name@);
        }
        let lora_int_id: u64 = match &previous {
            Some(request) => request.lora_int_id,
            None => {
                self.id_counter = self.id_counter + 1;
                self.id_counter
            },
        };
        let request = RegisteredLora::new(
            lora_name,
            lora_int_id,
            lora_path,
            load_inplace,
            is_3d_lora_weight,
        );
        Ok(PendingLoad { request, previous, mutation: MutationGuard::new() })
    }

    /// Goes on with a load when the engines were asked to add the adapter: registers it where
    /// every rank accepted it, and has the engines go back otherwise.
    pub fn apply_load(&mut self, pending: PendingLoad, outcome: CallOutcome) -> (step: LoadStep)
        requires
            old(self).well_formed(),
            old(self).awaits_load(pending),
        ensures
            final(self).well_formed(),
            final(self).last_id() == old(self).last_id(),
            final(self).consistent() == old(self).consistent(),
            match step {
                LoadStep::Loaded(request) => all_accepted(outcome) && request == pending.request
                    && final(self).entries() == with_adapter(
                    old(self).entries(),
                    request.lora_name@,
                    request,
                ),
                LoadStep::Rollback(rollback) => !all_accepted(outcome) && final(self).entries()
                    == old(self).entries() && rolls_back(
                    rollback.call,
                    pending.request,
                    pending.previous,
                ) && rollback.late == timed_out(outcome) && !rollback.mutation.final_state_proven
                    && rollback.error == (match outcome {
                    Ok(_) => LoadLoraError::NotLoaded { lora_name: pending.request.lora_name },
                    Err(failure) => LoadLoraError::Engine(failure),
                }),
            },
    {
        let mut mutation = pending.mutation;
        let request = pending.request;
        let previous = pending.previous;
        let error = match outcome {
            Ok(replies) => {
                if all_true(&replies) {
                    proof {
                        lemma_replaced(self.entries(), self.last_id(), request);
                    }
                    map_insert(&mut self.requests, request.lora_name.clone(), request.copy());
                    mutation.prove_final_state();
                    self.settle(mutation);
                    return LoadStep::Loaded(request);
                }
                LoadLoraError::NotLoaded { lora_name: request.lora_name.clone() }
            },
            Err(failure) => LoadLoraError::Engine(failure),
        };
        let late: bool = matches!(error, LoadLoraError::Engine(EngineFailure::TimedOut { .. }));
        let call = match previous {
            Some(previous) => {
                let mut previous = previous;
                previous.load_inplace = true;
                EngineCall::AddLora(previous)
            },
            None => EngineCall::RemoveLora(request.lora_int_id),
        };
        LoadStep::Rollback(LoadRollback { call, error, late, mutation })
    }

    /// Ends a failed load when the engines were asked to go back. The registry stays as it was;
    /// unless the load came back in time and the engines went back, their state is unknown.
    pub fn finish_load_rollback(&mut self, rollback: LoadRollback, outcome: CallOutcome) -> (error:
        LoadLoraError)
        requires
            old(self).well_formed(),
            !rollback.mutation.final_state_proven,
        ensures
            final(self).well_formed(),
            final(self).entries() == old(self).entries(),
            final(self).last_id() == old(self).last_id(),
            final(self).consistent() == (old(self).consistent() && !rollback.late && restored(
                rollback.call,
                outcome,
            )),
            error == rollback.error,
    {
        let mut mutation = rollback.mutation;
        let accepted: bool = match (&rollback.call, &outcome) {
            (EngineCall::RemoveLora(_), Ok(_)) => true,
            (EngineCall::AddLora(_), Ok(replies)) => all_true(replies),
            (_, Err(_)) => false,
        };
        if !rollback.late && accepted {
            mutation.prove_final_state();
        }
        self.settle(mutation);
        rollback.error
    }

    /// Begins to unload an adapter: decides whether it may be unloaded. The engines are then asked
    /// to remove the id of the pending request.
    pub fn unload_lora(&self, lora_name: &str, requested_lora_int_id: Option<u64>) -> (outcome:
        Result<PendingUnload, UnloadLoraError>)
        requires
            self.well_formed(),
        ensures
            match outcome {
                Err(UnloadLoraError::Inconsistent) => !self.consistent(),
                Err(UnloadLoraError::NotFound { lora_name: name }) => self.consistent()
                    && adapter_of(self.entries(), lora_name@) is None && name@ == lora_name@,
                Err(UnloadLoraError::IntIdMismatch { lora_name: name, expected, actual }) => {
                    &&& self.consistent()
                    &&& adapter_of(self.entries(), lora_name@) matches Some(request)
                        && request.lora_int_id == expected
                    &&& requested_lora_int_id == Some(actual)
                    &&& actual != expected
                    &&& name@ == lora_name@
                },
                Err(UnloadLoraError::Engine(_)) => false,
                Ok(pending) => {
                    &&& self.consistent()
                    &&& adapter_of(self.entries(), lora_name@) == Some(pending.request)
                    &&& requested_lora_int_id matches Some(id) ==> id
                        == pending.request.lora_int_id
                    &&& self.awaits_unload(pending)
                },
            },
    {
        if !self.consistent {
            return Err(UnloadLoraError::Inconsistent);
        }
        proof {
            lemma_position(self.entries(), lora_name@);
        }
        let request = match map_get(&self.requests, lora_name) {
            Some(request) => request.copy(),
            None => {
                return Err(UnloadLoraError::NotFound { lora_name: lora_name.to_string() });
            },
        };
        if let Some(actual) = requested_lora_int_id {
            if actual != request.lora_int_id {
                return Err(
                    UnloadLoraError::IntIdMismatch {
                        lora_name: lora_name.to_string(),
                        expected: request.lora_int_id,
                        actual,
                    },
                );
            }
        }
        Ok(PendingUnload { request, mutation: MutationGuard::new() })
    }

    /// Goes on with an unload when the engines were asked to remove the adapter: takes it out of
    /// the registry where they replied, and has them go back otherwise.
    pub fn apply_unload(&mut self, pending: PendingUnload, outcome: CallOutcome) -> (step:
        UnloadStep)
        requires
            old(self).well_formed(),
            old(self).awaits_unload(pending),
        ensures
            final(self).well_formed(),
            final(self).last_id() == old(self).last_id(),
            final(self).consistent() == old(self).consistent(),
            match step {
                UnloadStep::Unloaded(request) => outcome is Ok && request == pending.request
                    && final(self).entries() == without_adapter(
                    old(self).entries(),
                    request.lora_name@,
                ),
                UnloadStep::Rollback(rollback) => outcome is Err && final(self).entries() == old(
                    self,
                ).entries() && rollback.request == pending.request && rollback.late == timed_out(
                    outcome,
                ) && !rollback.mutation.final_state_proven && outcome == Err::<
                    Vec<bool>,
                    EngineFailure,
                >(rollback.error),
            },
    {
        let mut mutation = pending.mutation;
        let request = pending.request;
        match outcome {
            Ok(_) => {
                proof {
                    lemma_removed(self.entries(), self.last_id(), request.lora_name@);
                }
                let removed = match map_remove(&mut self.requests, request.lora_name.as_str()) {
                    Some(removed) => removed,
                    None => request,
                };
                mutation.prove_final_state();
                self.settle(mutation);
                UnloadStep::Unloaded(removed)
            },
            Err(error) => {
                let late: bool = matches!(error, EngineFailure::TimedOut { .. });
                UnloadStep::Rollback(UnloadRollback { request, error, late, mutation })
            },
        }
    }

    /// Ends a failed unload when the engines were asked to add the adapter again. The registry
    /// stays as it was; unless the removal came back in time and every rank took the adapter
    /// again, the state of the engines is unknown.
    pub fn finish_unload_rollback(&mut self, rollback: UnloadRollback, outcome: CallOutcome) -> (error:
        UnloadLoraError)
        requires
            old(self).well_formed(),
            !rollback.mutation.final_state_proven,
        ensures
            final(self).well_formed(),
            final(self).entries() == old(self).entries(),
            final(self).last_id() == old(self).last_id(),
            final(self).consistent() == (old(self).consistent() && !rollback.late && all_accepted(
                outcome,
            )),
            error == UnloadLoraError::Engine(rollback.error),
    {
        let mut mutation = rollback.mutation;
        let accepted: bool = match &outcome {
            Ok(replies) => all_true(replies),
            Err(_) => false,
        };
        if !rollback.late && accepted {
            mutation.prove_final_state();
        }
        self.settle(mutation);
        UnloadLoraError::Engine(rollback.error)
    }

    /// Ends a change. One that ends before the state of the engines is known, as when its caller
    /// gives up, leaves that state unknown for good.
    pub fn settle(&mut self, mutation: MutationGuard)
        ensures
            final(self).entries() == old(self).entries(),
            final(self).last_id() == old(self).last_id(),
            final(self).consistent() == (old(self).consistent() && mutation.final_state_proven),
    {
        if !mutation.final_state_proven {
            self.consistent = false;
        }
    }
}

/// A call was accepted if and only if every rank replied that it did as asked; a single refusal, a
/// failure or a reply that came too late is enough that it was not.
pub proof fn one_refusal_is_a_refusal(outcome: CallOutcome)
    ensures
        all_accepted(outcome) <==> outcome is Ok && !outcome->Ok_0@.contains(false),
        timed_out(outcome) <==> outcome is Err && outcome->Err_0 is TimedOut,
        outcome matches Err(EngineFailure::TimedOut { report }) ==> outcome->Err_0.report_text()
            == report@,
        outcome matches Err(EngineFailure::Failed { report }) ==> outcome->Err_0.report_text()
            == report@,
{
    if let Ok(replies) = outcome {
        if !replies@.contains(false) {
            assert forall|i: int| 0 <= i < replies@.len() implies #[trigger] replies@[i] by {
                if !replies@[i] {
                    assert(replies@.contains(false));
                }
            }
        }
    }
}

/// A failed load is taken back by the call that undoes it: a new adapter is removed by its id, and
/// one that replaced another makes way for that one, with its own id, path and kind.
pub proof fn rollback_undoes_the_load(
    call: EngineCall,
    attempted: RegisteredLora,
    previous: Option<RegisteredLora>,
)
    requires
        rolls_back(call, attempted, previous),
    ensures
        call is RemoveLora <==> previous is None,
        call matches EngineCall::RemoveLora(id) ==> id == attempted.lora_int_id,
        call matches EngineCall::AddLora(added) ==> {
            &&& previous is Some
            &&& added.lora_name@ == previous->Some_0.lora_name@
            &&& added.lora_int_id == previous->Some_0.lora_int_id
            &&& added.lora_path@ == previous->Some_0.lora_path@
            &&& added.is_3d_lora_weight == previous->Some_0.is_3d_lora_weight
            &&& added.load_inplace
        },
{
}

/// The engines are back where they were if and only if they answered a removal, or all accepted an
/// addition. No failure brings them back.
pub proof fn engines_are_back_when_they_answer(
    id: u64,
    request: RegisteredLora,
    outcome: CallOutcome,
)
    ensures
        restored(EngineCall::RemoveLora(id), outcome) <==> outcome is Ok,
        restored(EngineCall::AddLora(request), outcome) <==> outcome is Ok
            && !outcome->Ok_0@.contains(false),
{
    if let Ok(replies) = outcome {
        if !replies@.contains(false) {
            assert forall|i: int| 0 <= i < replies@.len() implies #[trigger] replies@[i] by {
                if !replies@[i] {
                    assert(replies@.contains(false));
                }
            }
        }
    }
}

/// Where names are distinct, an adapter is found under its own name and under no other.
pub proof fn adapters_are_found_by_name(
    entries: Seq<(Seq<char>, RegisteredLora)>,
    last_id: u64,
    name: Seq<char>,
    i: int,
)
    requires
        registry_well_formed(entries, last_id),
    ensures
        0 <= i < entries.len() && entries[i].0 == name ==> adapter_of(entries, name) == Some(
            entries[i].1,
        ),
        (forall|k: int| 0 <= k < entries.len() ==> (#[trigger] entries[k]).0 != name)
            ==> adapter_of(entries, name) is None,
        adapter_of(entries, name) matches Some(found) ==> found.lora_name@ == name && 1
            <= found.lora_int_id <= last_id,
{
    lemma_position(entries, name);
    if 0 <= i < entries.len() && entries[i].0 == name {
        lemma_position_is(entries, name, i);
    }
}

/// A new adapter comes last and changes no other; one that replaces another takes its place and
/// changes no other; and one that leaves takes no other along.
pub proof fn changes_touch_one_adapter(
    entries: Seq<(Seq<char>, RegisteredLora)>,
    last_id: u64,
    request: RegisteredLora,
    i: int,
)
    requires
        registry_well_formed(entries, last_id),
    ensures
        (forall|k: int| 0 <= k < entries.len() ==> (#[trigger] entries[k]).0
            != request.lora_name@) ==> {
            &&& with_adapter(entries, request.lora_name@, request) == entries.push(
                (request.lora_name@, request),
            )
            &&& without_adapter(entries, request.lora_name@) == entries
        },
        0 <= i < entries.len() && entries[i].0 == request.lora_name@ ==> {
            &&& with_adapter(entries, request.lora_name@, request) == entries.update(
                i,
                (request.lora_name@, request),
            )
            &&& without_adapter(entries, request.lora_name@) == entries.take(i) + entries.skip(
                i + 1,
            )
        },
{
    lemma_position(entries, request.lora_name@);
    if 0 <= i < entries.len() && entries[i].0 == request.lora_name@ {
        lemma_position_is(entries, request.lora_name@, i);
        assert(entries.remove(i) =~= entries.take(i) + entries.skip(i + 1));
    }
}

/// No two adapters of a registry share a name or an id, and every id was given out.
pub proof fn identities_are_distinct(
    entries: Seq<(Seq<char>, RegisteredLora)>,
    last_id: u64,
    i: int,
    j: int,
)
    requires
        registry_well_formed(entries, last_id),
        0 <= i < entries.len(),
        0 <= j < entries.len(),
        i != j,
    ensures
        entries[i].1.lora_name@ != entries[j].1.lora_name@,
        entries[i].1.lora_int_id != entries[j].1.lora_int_id,
        0 < entries[i].1.lora_int_id <= last_id,
{
    if i < j {
        assert(entries[i].0 != entries[j].0);
    } else {
        assert(entries[j].0 != entries[i].0);
    }
}

/// A load that waits keeps the id of the adapter that it replaces, and brings an id of its own
/// where it replaces none.
pub proof fn pending_loads_keep_identities(manager: LoraManager, pending: PendingLoad, i: int)
    requires
        manager.well_formed(),
        manager.awaits_load(pending),
        0 <= i < manager.entries().len(),
    ensures
        manager.entries()[i].0 == pending.request.lora_name@ ==> pending.previous == Some(
            manager.entries()[i].1,
        ) && pending.request.lora_int_id == manager.entries()[i].1.lora_int_id,
        manager.entries()[i].0 != pending.request.lora_name@ ==> pending.request.lora_int_id
            != manager.entries()[i].1.lora_int_id,
        pending.request.lora_int_id <= manager.last_id(),
        !pending.mutation.final_state_proven,
{
    let entries = manager.entries();
    adapters_are_found_by_name(entries, manager.last_id(), pending.request.lora_name@, i);
    lemma_position(entries, pending.request.lora_name@);
    let at = position_of(entries, pending.request.lora_name@);
    if at >= 0 && at != i {
        identities_are_distinct(entries, manager.last_id(), at, i);
    }
}

/// An unload is awaited only of an adapter that is loaded, and only until its end is known.
pub proof fn unloads_are_awaited_while_open(manager: LoraManager, pending: PendingUnload)
    requires
        manager.awaits_unload(pending),
    ensures
        !pending.mutation.final_state_proven,
        adapter_of(manager.entries(), pending.request.lora_name@) is Some,
        adapter_of(manager.entries(), pending.request.lora_name@)->Some_0 == pending.request,
{
}

} // verus!
