//! The load that an OpenEngine server reports, and the cleanup after aborted requests.

use std::collections::BTreeMap;

use vstd::prelude::*;

use crate::binary64::blocks_in_use;
use crate::binary64::used_kv_blocks;
use crate::openengine::messages::EngineRole;
use crate::protocol::handshake::EngineCoreReadyResponse;
use crate::state::cap;
use crate::state::capped;
use crate::state::EngineLoad;

verus! {

/// The value of a key.
pub open spec fn value_of<V>(entries: Map<u32, V>, key: u32) -> Option<V> {
    if entries.contains_key(key) {
        Some(entries[key])
    } else {
        None
    }
}

fn find_value<V: Copy>(entries: &BTreeMap<u32, V>, key: u32) -> (value: Option<V>)
    ensures
        value == value_of(entries@, key),
{
    match entries.get(&key) {
        Some(value) => Some(*value),
        None => None,
    }
}

/// The loads of engines by their index; of two reports of one engine the later counts.
pub open spec fn loads_by_index(loads: Seq<EngineLoad>) -> Map<u32, EngineLoad>
    decreases loads.len(),
{
    if loads.len() == 0 {
        Map::empty()
    } else {
        loads_by_index(loads.drop_last()).insert(loads.last().engine_index, loads.last())
    }
}

/// The engine has work of this or another frontend.
pub open spec fn has_work(load: EngineLoad) -> bool {
    load.frontend_inflight > 0 || load.running_requests > 0 || load.queued_requests > 0
}

/// The engines that have work, with the generation of their last report.
pub open spec fn scheduler_baseline(loads: Seq<EngineLoad>) -> Map<u32, u64>
    decreases loads.len(),
{
    if loads.len() == 0 {
        Map::empty()
    } else if has_work(loads.last()) {
        scheduler_baseline(loads.drop_last()).insert(
            loads.last().engine_index,
            loads.last().update_generation,
        )
    } else {
        scheduler_baseline(loads.drop_last())
    }
}

/// The engine has reported since a baseline, and has no work left.
pub open spec fn is_settled(load: Option<EngineLoad>, generation: u64) -> bool {
    load matches Some(load) && load.update_generation > generation && load.running_requests == 0
        && load.queued_requests == 0
}

/// Every engine of a baseline has reported since, and has no work left.
pub open spec fn all_settled(baseline: Map<u32, u64>, loads: Seq<EngineLoad>) -> bool {
    forall|index: u32| #[trigger]
        baseline.contains_key(index) ==> is_settled(
            value_of(loads_by_index(loads), index),
            baseline[index],
        )
}

/// Orders the loads of engines by their index.
pub fn index_loads(loads: &Vec<EngineLoad>) -> (indexed: BTreeMap<u32, EngineLoad>)
    ensures
        indexed@ == loads_by_index(loads@),
{
    let mut indexed: BTreeMap<u32, EngineLoad> = BTreeMap::new();
    let mut i: usize = 0;
    while i < loads.len()
        invariant
            i <= loads@.len(),
            indexed@ == loads_by_index(loads@.take(i as int)),
        decreases loads@.len() - i,
    {
        assert(loads@.take(i + 1).drop_last() == loads@.take(i as int));
        indexed.insert(loads[i].engine_index, loads[i]);
        i += 1;
    }
    assert(loads@.take(i as int) == loads@);
    indexed
}

/// Picks the engines that have work, with the generation of their last report.
pub fn active_scheduler_baseline(loads: &Vec<EngineLoad>) -> (baseline: BTreeMap<u32, u64>)
    ensures
        baseline@ == scheduler_baseline(loads@),
{
    let mut baseline: BTreeMap<u32, u64> = BTreeMap::new();
    let mut i: usize = 0;
    while i < loads.len()
        invariant
            i <= loads@.len(),
            baseline@ == scheduler_baseline(loads@.take(i as int)),
        decreases loads@.len() - i,
    {
        assert(loads@.take(i + 1).drop_last() == loads@.take(i as int));
        let load = loads[i];
        if load.frontend_inflight > 0 || load.running_requests > 0 || load.queued_requests > 0 {
            baseline.insert(load.engine_index, load.update_generation);
        }
        i += 1;
    }
    assert(loads@.take(i as int) == loads@);
    baseline
}

/// Whether every engine of a baseline has reported since, and has no work left.
pub fn is_cleaned(baseline: &BTreeMap<u32, u64>, loads: &Vec<EngineLoad>) -> (cleaned: bool)
    ensures
        cleaned == all_settled(baseline@, loads@),
{
    let indexed = index_loads(loads);
    for entry in it: baseline.iter()
        invariant
            indexed@ == loads_by_index(loads@),
            forall|i: int|
                0 <= i < it.seq().len() ==> baseline@.contains_key(*(#[trigger] it.seq()[i]).0)
                    && baseline@[*it.seq()[i].0] == *it.seq()[i].1,
            forall|index: u32| #[trigger]
                baseline@.contains_key(index) ==> it.seq().contains((&index, &baseline@[index])),
            forall|i: int|
                0 <= i < it.index() ==> is_settled(
                    value_of(loads_by_index(loads@), *(#[trigger] it.seq()[i]).0),
                    *it.seq()[i].1,
                ),
    {
        let settled: bool = match find_value(&indexed, *entry.0) {
            Some(load) => load.update_generation > *entry.1 && load.running_requests == 0
                && load.queued_requests == 0,
            None => false,
        };
        if !settled {
            assert(baseline@.contains_key(*entry.0));
            return false;
        }
    }
    true
}

/// The cleanups that run after aborted requests. Each waits until the engines that had work when
/// the request was aborted have none left.
pub struct AbortCleanupTasks {
    stopping: bool,
    pending: u64,
}

/// How a cleanup goes on.
#[derive(Clone, Copy, Debug, PartialEq, Eq, Structural)]
pub enum CleanupStep {
    /// The cleanup has ended.
    Done,
    /// The engines are looked at again after a while.
    Wait,
}

impl AbortCleanupTasks {
    /// No cleanup is begun any more.
    pub closed spec fn is_stopping(self) -> bool {
        self.stopping
    }

    /// How many cleanups have not ended.
    pub closed spec fn count(self) -> u64 {
        self.pending
    }

    pub fn new() -> (tasks: AbortCleanupTasks)
        ensures
            !tasks.is_stopping(),
            tasks.count() == 0,
    {
        AbortCleanupTasks { stopping: false, pending: 0 }
    }

    /// How many cleanups have not ended.
    pub fn pending(&self) -> (pending: u64)
        ensures
            pending == self.count(),
    {
        self.pending
    }

    /// Begins a cleanup, unless no engine has work or the server stops. Tells whether it began.
    pub fn track(&mut self, baseline: &BTreeMap<u32, u64>) -> (begun: bool)
        requires
            old(self).count() < u64::MAX,
        ensures
            begun == (!baseline@.is_empty() && !old(self).is_stopping()),
            final(self).is_stopping() == old(self).is_stopping(),
            final(self).count() == old(self).count() + (if begun {
                1int
            } else {
                0
            }),
    {
        if baseline.is_empty() || self.stopping {
            return false;
        }
        self.pending = self.pending + 1;
        true
    }

    /// Decides whether a cleanup has ended: the server stops, or the engines have settled.
    pub fn step(&self, baseline: &BTreeMap<u32, u64>, loads: &Vec<EngineLoad>) -> (step:
        CleanupStep)
        ensures
            step == (if self.is_stopping() || all_settled(baseline@, loads@) {
                CleanupStep::Done
            } else {
                CleanupStep::Wait
            }),
    {
        if self.stopping || is_cleaned(baseline, loads) {
            CleanupStep::Done
        } else {
            CleanupStep::Wait
        }
    }

    /// Ends a cleanup that began.
    pub fn finish(&mut self)
        requires
            old(self).count() > 0,
        ensures
            final(self).count() == old(self).count() - 1,
            final(self).is_stopping() == old(self).is_stopping(),
    {
        self.pending = self.pending - 1;
    }

    /// Lets no further cleanup begin and has those that run end.
    pub fn shutdown(&mut self)
        ensures
            final(self).is_stopping(),
            final(self).count() == old(self).count(),
    {
        self.stopping = true;
    }
}

/// The streams of a prefill or decode engine that have not ended.
pub struct ConnectorSessions {
    active: u64,
}

impl ConnectorSessions {
    /// How many streams have not ended.
    pub closed spec fn count(self) -> u64 {
        self.active
    }

    pub fn new() -> (sessions: ConnectorSessions)
        ensures
            sessions.count() == 0,
    {
        ConnectorSessions { active: 0 }
    }

    /// How many streams have not ended.
    pub fn active(&self) -> (active: u64)
        ensures
            active == self.count(),
    {
        self.active
    }
}

/// Stands for one stream that has not ended.
pub struct ConnectorSessionGuard {
    open: bool,
}

impl ConnectorSessionGuard {
    /// Counts a stream that begins.
    pub fn new(sessions: &mut ConnectorSessions) -> (guard: ConnectorSessionGuard)
        requires
            old(sessions).count() < u64::MAX,
        ensures
            final(sessions).count() == old(sessions).count() + 1,
    {
        sessions.active = sessions.active + 1;
        ConnectorSessionGuard { open: true }
    }

    /// Counts a stream that ends.
    pub fn end(self, sessions: &mut ConnectorSessions)
        requires
            old(sessions).count() > 0,
        ensures
            final(sessions).count() == old(sessions).count() - 1,
    {
        sessions.active = sessions.active - 1;
    }
}

/// The loads of the first `n` ranks: engine and handshake stand in the same order, and an engine
/// that reported no load is passed over.
pub open spec fn loads_by_rank(
    indices: Seq<u32>,
    ready: Seq<EngineCoreReadyResponse>,
    loads: Seq<EngineLoad>,
    n: nat,
) -> Map<u32, EngineLoad>
    decreases n,
{
    if n == 0 {
        Map::empty()
    } else {
        let before = loads_by_rank(indices, ready, loads, (n - 1) as nat);
        match value_of(loads_by_index(loads), indices[n - 1]) {
            Some(load) => before.insert(ready[n - 1].data_parallel_rank, load),
            None => before,
        }
    }
}

/// The loads of all ranks.
pub open spec fn rank_loads(
    indices: Seq<u32>,
    ready: Seq<EngineCoreReadyResponse>,
    loads: Seq<EngineLoad>,
) -> Map<u32, EngineLoad> {
    loads_by_rank(
        indices,
        ready,
        loads,
        if indices.len() < ready.len() {
            indices.len()
        } else {
            ready.len()
        },
    )
}

/// Pairs the loads of engines with their ranks.
pub fn pair_rank_loads(
    indices: &Vec<u32>,
    ready: &Vec<EngineCoreReadyResponse>,
    loads: &Vec<EngineLoad>,
) -> (paired: BTreeMap<u32, EngineLoad>)
    ensures
        paired@ == rank_loads(indices@, ready@, loads@),
{
    let indexed = index_loads(loads);
    let mut paired: BTreeMap<u32, EngineLoad> = BTreeMap::new();
    let mut i: usize = 0;
    while i < indices.len() && i < ready.len()
        invariant
            i <= indices@.len(),
            i <= ready@.len(),
            indexed@ == loads_by_index(loads@),
            paired@ == loads_by_rank(indices@, ready@, loads@, i as nat),
        decreases indices@.len() - i,
    {
        if let Some(load) = find_value(&indexed, indices[i]) {
            paired.insert(ready[i].data_parallel_rank, load);
        }
        i += 1;
    }
    paired
}

/// The blocks of all engines.
pub open spec fn sum_of_blocks(ready: Seq<EngineCoreReadyResponse>) -> nat
    decreases ready.len(),
{
    if ready.len() == 0 {
        0
    } else {
        sum_of_blocks(ready.drop_last()) + ready.last().num_gpu_blocks as nat
    }
}

/// What is counted of every load, added up.
pub open spec fn sum_over(loads: Map<u32, EngineLoad>, count: spec_fn(EngineLoad) -> nat) -> nat
    decreases loads.dom().len(),
{
    if loads.dom().finite() && loads.dom().len() > 0 {
        let rank = loads.dom().choose();
        count(loads[rank]) + sum_over(loads.remove(rank), count)
    } else {
        0
    }
}

/// The requests that run on all ranks.
pub open spec fn sum_of_running(loads: Map<u32, EngineLoad>) -> nat {
    sum_over(loads, |load: EngineLoad| load.running_requests as nat)
}

/// The requests that wait on all ranks.
pub open spec fn sum_of_queued(loads: Map<u32, EngineLoad>) -> nat {
    sum_over(loads, |load: EngineLoad| load.queued_requests as nat)
}

/// The blocks that a rank uses, where its load is known.
pub open spec fn rank_blocks(
    response: EngineCoreReadyResponse,
    loads: Map<u32, EngineLoad>,
) -> Option<u64> {
    match value_of(loads, response.data_parallel_rank) {
        Some(load) => blocks_in_use(response.num_gpu_blocks, load.kv_cache_usage),
        None => None,
    }
}

/// The blocks that all ranks use, where the load of each is known.
pub open spec fn sum_of_used(
    ready: Seq<EngineCoreReadyResponse>,
    loads: Map<u32, EngineLoad>,
) -> Option<nat>
    decreases ready.len(),
{
    if ready.len() == 0 {
        Some(0)
    } else {
        match (sum_of_used(ready.drop_last(), loads), rank_blocks(ready.last(), loads)) {
            (Some(sum), Some(used)) => Some(sum + used as nat),
            _ => None,
        }
    }
}

/// The load is known, with the usage of the KV cache.
pub open spec fn reports_usage(load: Option<EngineLoad>) -> bool {
    load matches Some(load) && load.kv_cache_usage is Some
}

/// Every rank has reported its scheduler.
pub open spec fn is_complete(
    ready: Seq<EngineCoreReadyResponse>,
    loads: Map<u32, EngineLoad>,
) -> bool {
    forall|i: int|
        0 <= i < ready.len() ==> reports_usage(
            value_of(loads, (#[trigger] ready[i]).data_parallel_rank),
        )
}

/// The sums that are reported fit in 64 bits. The requests are added up only where every rank has
/// reported its scheduler.
pub open spec fn sums_fit(
    ready: Seq<EngineCoreReadyResponse>,
    loads: Map<u32, EngineLoad>,
) -> bool {
    &&& sum_of_blocks(ready) <= u64::MAX
    &&& is_complete(ready, loads) ==> sum_of_running(loads) <= u64::MAX && sum_of_queued(loads)
        <= u64::MAX
    &&& sum_of_used(ready, loads) matches Some(used) ==> used <= u64::MAX
}

/// The load of one rank.
#[derive(Clone, Copy, Debug, PartialEq, Eq, Structural)]
pub struct RankLoadInfo {
    pub data_parallel_rank: Option<u32>,
    pub running_requests: Option<u32>,
    pub queued_requests: Option<u32>,
    pub used_kv_blocks: Option<u64>,
    pub total_kv_blocks: Option<u64>,
    pub prefill_batch_size: Option<u32>,
    pub decode_batch_size: Option<u32>,
}

/// The load of a server.
#[derive(Debug)]
pub struct LoadInfo {
    pub instance_id: String,
    pub timestamp_unix_nanos: Option<u64>,
    pub running_requests: Option<u32>,
    pub queued_requests: Option<u32>,
    pub active_kv_sessions: Option<u32>,
    pub used_kv_blocks: Option<u64>,
    pub total_kv_blocks: Option<u64>,
    pub running_tokens: Option<u64>,
    pub waiting_tokens: Option<u64>,
    pub prefill_batch_size: Option<u32>,
    pub decode_batch_size: Option<u32>,
    pub ranks: Vec<RankLoadInfo>,
}

/// What is reported of one rank.
pub open spec fn rank_info(
    response: EngineCoreReadyResponse,
    loads: Map<u32, EngineLoad>,
) -> RankLoadInfo {
    let load = value_of(loads, response.data_parallel_rank);
    RankLoadInfo {
        data_parallel_rank: Some(response.data_parallel_rank),
        running_requests: match load {
            Some(load) => Some(capped(load.running_requests)),
            None => None,
        },
        queued_requests: match load {
            Some(load) => Some(capped(load.queued_requests)),
            None => None,
        },
        used_kv_blocks: rank_blocks(response, loads),
        total_kv_blocks: Some(response.num_gpu_blocks),
        prefill_batch_size: None,
        decode_batch_size: None,
    }
}

/// The larger of two counts.
pub open spec fn larger(a: u32, b: u32) -> u32 {
    if a < b {
        b
    } else {
        a
    }
}

/// The running requests that are reported: those of the schedulers where all are known, but not
/// fewer than the frontend has in flight or the cleanups that have not ended.
pub open spec fn reported_running(
    ready: Seq<EngineCoreReadyResponse>,
    loads: Map<u32, EngineLoad>,
    server_load: u64,
    pending_cleanup: u64,
) -> u32 {
    larger(
        larger(
            if is_complete(ready, loads) {
                capped(sum_of_running(loads) as u64)
            } else {
                capped(server_load)
            },
            capped(server_load),
        ),
        capped(pending_cleanup),
    )
}

/// The KV sessions that are reported: the streams of a prefill or decode engine that have not
/// ended, and the cleanups that have not ended.
pub open spec fn reported_sessions(role: EngineRole, sessions: u64, pending_cleanup: u64) -> u32 {
    if role == EngineRole::Aggregated {
        0
    } else if sessions + pending_cleanup > u32::MAX {
        u32::MAX
    } else {
        (sessions + pending_cleanup) as u32
    }
}

fn add_blocks(ready: &Vec<EngineCoreReadyResponse>) -> (sum: u64)
    requires
        sum_of_blocks(ready@) <= u64::MAX,
    ensures
        sum == sum_of_blocks(ready@),
{
    let mut sum: u64 = 0;
    let mut i: usize = 0;
    while i < ready.len()
        invariant
            i <= ready@.len(),
            sum == sum_of_blocks(ready@.take(i as int)),
            sum_of_blocks(ready@) <= u64::MAX,
        decreases ready@.len() - i,
    {
        proof {
            assert(ready@.take(i + 1).drop_last() == ready@.take(i as int));
            lemma_blocks_grow(ready@, i + 1);
        }
        sum = sum + ready[i].num_gpu_blocks;
        i += 1;
    }
    assert(ready@.take(i as int) == ready@);
    sum
}

proof fn lemma_blocks_grow(ready: Seq<EngineCoreReadyResponse>, n: int)
    requires
        0 <= n <= ready.len(),
    ensures
        sum_of_blocks(ready.take(n)) <= sum_of_blocks(ready),
    decreases ready.len() - n,
{
    if n == ready.len() {
        assert(ready.take(n) == ready);
    } else {
        assert(ready.take(n + 1).drop_last() == ready.take(n));
        lemma_blocks_grow(ready, n + 1);
    }
}

proof fn lemma_sum_without(
    loads: Map<u32, EngineLoad>,
    count: spec_fn(EngineLoad) -> nat,
    rank: u32,
)
    requires
        loads.dom().finite(),
        loads.contains_key(rank),
    ensures
        sum_over(loads, count) == count(loads[rank]) + sum_over(loads.remove(rank), count),
    decreases loads.dom().len(),
{
    let first = loads.dom().choose();
    assert(loads.dom().contains(first));
    if first != rank {
        lemma_sum_without(loads.remove(first), count, rank);
        lemma_sum_without(loads.remove(rank), count, first);
        assert(loads.remove(first).remove(rank) =~= loads.remove(rank).remove(first));
    }
}

fn add_requests(loads: &BTreeMap<u32, EngineLoad>) -> (sums: (u64, u64))
    requires
        sum_of_running(loads@) <= u64::MAX,
        sum_of_queued(loads@) <= u64::MAX,
    ensures
        sums.0 == sum_of_running(loads@),
        sums.1 == sum_of_queued(loads@),
{
    let mut running: u64 = 0;
    let mut queued: u64 = 0;
    let ghost mut rest = loads@;
    for entry in it: loads.iter()
        invariant
            sum_of_running(loads@) <= u64::MAX,
            sum_of_queued(loads@) <= u64::MAX,
            running + sum_of_running(rest) == sum_of_running(loads@),
            queued + sum_of_queued(rest) == sum_of_queued(loads@),
            rest.dom().finite(),
            rest.dom().len() == loads@.dom().len() - it.index(),
            it.seq().len() == loads@.dom().len(),
            it.seq().no_duplicates(),
            forall|i: int|
                0 <= i < it.seq().len() ==> loads@.contains_key(*(#[trigger] it.seq()[i]).0)
                    && loads@[*it.seq()[i].0] == *it.seq()[i].1,
            forall|i: int|
                it.index() <= i < it.seq().len() ==> rest.contains_key(*(#[trigger] it.seq()[i]).0),
            forall|rank: u32| #[trigger]
                rest.contains_key(rank) ==> loads@.contains_key(rank) && rest[rank] == loads@[rank],
    {
        proof {
            lemma_sum_without(rest, |load: EngineLoad| load.running_requests as nat, *entry.0);
            lemma_sum_without(rest, |load: EngineLoad| load.queued_requests as nat, *entry.0);
            rest = rest.remove(*entry.0);
        }
        running = running + entry.1.running_requests;
        queued = queued + entry.1.queued_requests;
    }
    (running, queued)
}

proof fn lemma_used_grows(
    ready: Seq<EngineCoreReadyResponse>,
    loads: Map<u32, EngineLoad>,
    n: int,
)
    requires
        0 <= n <= ready.len(),
    ensures
        sum_of_used(ready, loads) is Some ==> sum_of_used(ready.take(n), loads) is Some
            && sum_of_used(ready.take(n), loads)->Some_0 <= sum_of_used(ready, loads)->Some_0,
    decreases ready.len() - n,
{
    if n == ready.len() {
        assert(ready.take(n) == ready);
    } else {
        assert(ready.take(n + 1).drop_last() == ready.take(n));
        lemma_used_grows(ready, loads, n + 1);
    }
}

fn blocks_of_rank(response: &EngineCoreReadyResponse, loads: &BTreeMap<u32, EngineLoad>) -> (used:
    Option<u64>)
    ensures
        used == rank_blocks(*response, loads@),
{
    match find_value(loads, response.data_parallel_rank) {
        Some(load) => used_kv_blocks(response.num_gpu_blocks, load.kv_cache_usage),
        None => None,
    }
}

fn add_used_blocks(
    ready: &Vec<EngineCoreReadyResponse>,
    loads: &BTreeMap<u32, EngineLoad>,
) -> (used: Option<u64>)
    requires
        sum_of_used(ready@, loads@) matches Some(used) ==> used <= u64::MAX,
    ensures
        match used {
            Some(used) => sum_of_used(ready@, loads@) == Some(used as nat),
            None => sum_of_used(ready@, loads@) is None,
        },
{
    // The sum of the ranks so far may exceed 64 bits where a later rank is unknown.
    let mut sum: Option<u64> = Some(0);
    let mut i: usize = 0;
    while i < ready.len()
        invariant
            i <= ready@.len(),
            sum_of_used(ready@, loads@) matches Some(used) ==> used <= u64::MAX,
            match sum {
                Some(sum) => sum_of_used(ready@.take(i as int), loads@) == Some(sum as nat),
                None => sum_of_used(ready@, loads@) is None,
            },
        decreases ready@.len() - i,
    {
        proof {
            assert(ready@.take(i + 1).drop_last() == ready@.take(i as int));
            lemma_used_grows(ready@, loads@, i + 1);
        }
        let used = blocks_of_rank(&ready[i], loads);
        sum = match (sum, used) {
            (Some(sum), Some(used)) => sum.checked_add(used),
            _ => None,
        };
        i += 1;
    }
    assert(ready@.take(i as int) == ready@);
    sum
}

fn complete(ready: &Vec<EngineCoreReadyResponse>, loads: &BTreeMap<u32, EngineLoad>) -> (known: bool)
    ensures
        known == is_complete(ready@, loads@),
{
    let mut i: usize = 0;
    while i < ready.len()
        invariant
            i <= ready@.len(),
            forall|j: int|
                0 <= j < i ==> reports_usage(
                    value_of(loads@, (#[trigger] ready@[j]).data_parallel_rank),
                ),
        decreases ready@.len() - i,
    {
        let known: bool = match find_value(loads, ready[i].data_parallel_rank) {
            Some(load) => load.kv_cache_usage.is_some(),
            None => false,
        };
        if !known {
            assert(!reports_usage(value_of(loads@, ready@[i as int].data_parallel_rank)));
            return false;
        }
        i += 1;
    }
    true
}

fn rank_infos(
    ready: &Vec<EngineCoreReadyResponse>,
    loads: &BTreeMap<u32, EngineLoad>,
) -> (ranks: Vec<RankLoadInfo>)
    ensures
        ranks@.len() == ready@.len(),
        forall|i: int|
            0 <= i < ranks@.len() ==> (#[trigger] ranks@[i]) == rank_info(ready@[i], loads@),
{
    let mut ranks: Vec<RankLoadInfo> = Vec::new();
    let mut i: usize = 0;
    while i < ready.len()
        invariant
            i <= ready@.len(),
            ranks@.len() == i,
            forall|j: int|
                0 <= j < i ==> (#[trigger] ranks@[j]) == rank_info(ready@[j], loads@),
        decreases ready@.len() - i,
    {
        let response = &ready[i];
        let (running_requests, queued_requests) = match find_value(
            loads,
            response.data_parallel_rank,
        ) {
            Some(load) => (Some(cap(load.running_requests)), Some(cap(load.queued_requests))),
            None => (None, None),
        };
        ranks.push(
            RankLoadInfo {
                data_parallel_rank: Some(response.data_parallel_rank),
                running_requests,
                queued_requests,
                used_kv_blocks: blocks_of_rank(response, loads),
                total_kv_blocks: Some(response.num_gpu_blocks),
                prefill_batch_size: None,
                decode_batch_size: None,
            },
        );
        i += 1;
    }
    ranks
}

/// The report says this of ranks with these loads.
pub open spec fn reports_load(
    info: LoadInfo,
    role: EngineRole,
    ready: Seq<EngineCoreReadyResponse>,
    paired: Map<u32, EngineLoad>,
    server_load: u64,
    sessions: u64,
    pending_cleanup: u64,
    include_per_rank: bool,
) -> bool {
    &&& info.running_requests == Some(
        reported_running(ready, paired, server_load, pending_cleanup),
    )
    &&& info.queued_requests == (if is_complete(ready, paired) {
        Some(capped(sum_of_queued(paired) as u64))
    } else {
        None
    })
    &&& info.active_kv_sessions == Some(reported_sessions(role, sessions, pending_cleanup))
    &&& match info.used_kv_blocks {
        Some(used) => sum_of_used(ready, paired) == Some(used as nat),
        None => sum_of_used(ready, paired) is None,
    }
    &&& info.total_kv_blocks == Some(sum_of_blocks(ready) as u64)
    &&& info.running_tokens is None
    &&& info.waiting_tokens is None
    &&& info.prefill_batch_size is None
    &&& info.decode_batch_size is None
    &&& if include_per_rank {
        &&& info.ranks@.len() == ready.len()
        &&& forall|i: int|
            0 <= i < info.ranks@.len() ==> (#[trigger] info.ranks@[i]) == rank_info(
                ready[i],
                paired,
            )
    } else {
        info.ranks@.len() == 0
    }
}

/// Reports the load of the engines. `now` is the time of the report, `server_load` what this
/// frontend has in flight, and `sessions` and `pending_cleanup` are the streams and the cleanups
/// that have not ended.
pub fn load_info(
    instance_id: &String,
    role: EngineRole,
    ready: &Vec<EngineCoreReadyResponse>,
    indices: &Vec<u32>,
    loads: &Vec<EngineLoad>,
    server_load: u64,
    sessions: u64,
    pending_cleanup: u64,
    include_per_rank: bool,
    now: Option<u64>,
) -> (info: LoadInfo)
    requires
        sums_fit(ready@, rank_loads(indices@, ready@, loads@)),
    ensures
        info.instance_id == *instance_id,
        info.timestamp_unix_nanos == now,
        reports_load(
            info,
            role,
            ready@,
            rank_loads(indices@, ready@, loads@),
            server_load,
            sessions,
            pending_cleanup,
            include_per_rank,
        ),
{
    let paired = pair_rank_loads(indices, ready, loads);
    let load: u32 = cap(server_load);
    let cleanup: u32 = cap(pending_cleanup);
    let (mut running_requests, queued_requests) = if complete(ready, &paired) {
        let (running, queued) = add_requests(&paired);
        (cap(running), Some(cap(queued)))
    } else {
        (load, None)
    };
    if running_requests < load {
        running_requests = load;
    }
    if running_requests < cleanup {
        running_requests = cleanup;
    }
    let active: u32 = if role == EngineRole::Aggregated {
        0
    } else {
        cap(sessions.saturating_add(pending_cleanup))
    };
    LoadInfo {
        instance_id: instance_id.clone(),
        timestamp_unix_nanos: now,
        running_requests: Some(running_requests),
        queued_requests,
        active_kv_sessions: Some(active),
        used_kv_blocks: add_used_blocks(ready, &paired),
        total_kv_blocks: Some(add_blocks(ready)),
        running_tokens: None,
        waiting_tokens: None,
        prefill_batch_size: None,
        decode_batch_size: None,
        ranks: if include_per_rank {
            rank_infos(ready, &paired)
        } else {
            Vec::new()
        },
    }
}

/// While a cleanup has not ended, the server reports running requests, and a prefill or decode
/// engine reports a KV session.
pub proof fn pending_cleanup_shows_load(
    ready: Seq<EngineCoreReadyResponse>,
    loads: Map<u32, EngineLoad>,
    server_load: u64,
    sessions: u64,
    pending_cleanup: u64,
    role: EngineRole,
)
    requires
        pending_cleanup > 0,
    ensures
        reported_running(ready, loads, server_load, pending_cleanup) > 0,
        role != EngineRole::Aggregated ==> reported_sessions(role, sessions, pending_cleanup) > 0,
{
}

/// No two reports are of one engine.
pub open spec fn engines_distinct(loads: Seq<EngineLoad>) -> bool {
    forall|i: int, j: int|
        0 <= i < j < loads.len() ==> (#[trigger] loads[i]).engine_index != (
        #[trigger] loads[j]).engine_index
}

/// With one report of each engine, every engine finds its own report.
proof fn lemma_own_report(loads: Seq<EngineLoad>, k: int)
    requires
        engines_distinct(loads),
        0 <= k < loads.len(),
    ensures
        value_of(loads_by_index(loads), loads[k].engine_index) == Some(loads[k]),
    decreases loads.len(),
{
    if k < loads.len() - 1 {
        lemma_own_report(loads.drop_last(), k);
    }
}

/// Every entry of a baseline is the generation of some report.
proof fn lemma_baseline_entry(loads: Seq<EngineLoad>, index: u32) -> (k: int)
    requires
        scheduler_baseline(loads).contains_key(index),
    ensures
        0 <= k < loads.len(),
        loads[k].engine_index == index,
        scheduler_baseline(loads)[index] == loads[k].update_generation,
    decreases loads.len(),
{
    if has_work(loads.last()) && loads.last().engine_index == index {
        loads.len() - 1
    } else {
        lemma_baseline_entry(loads.drop_last(), index)
    }
}

/// A cleanup does not end on the reports that it began with: each engine that had work has to
/// report anew.
pub proof fn cleanup_waits_for_new_reports(loads: Seq<EngineLoad>, index: u32)
    requires
        engines_distinct(loads),
        scheduler_baseline(loads).contains_key(index),
    ensures
        !all_settled(scheduler_baseline(loads), loads),
{
    let k = lemma_baseline_entry(loads, index);
    lemma_own_report(loads, k);
}

/// Counts, added up.
pub open spec fn total_of(counts: Seq<nat>) -> nat
    decreases counts.len(),
{
    if counts.len() == 0 {
        0
    } else {
        counts[0] + total_of(counts.skip(1))
    }
}

/// One more count adds to the total.
pub proof fn lemma_total_push(counts: Seq<nat>, count: nat)
    ensures
        total_of(counts.push(count)) == total_of(counts) + count,
    decreases counts.len(),
{
    if counts.len() == 0 {
        assert(counts.push(count).skip(1) == Seq::<nat>::empty());
        reveal_with_fuel(total_of, 2);
    } else {
        assert(counts.push(count).skip(1) == counts.skip(1).push(count));
        lemma_total_push(counts.skip(1), count);
    }
}

/// `own` holds the report of each rank: the engine of each has reported, once, and its usage of
/// the KV cache with it; and no two engines have one rank.
pub open spec fn are_reports_of(
    own: Seq<EngineLoad>,
    indices: Seq<u32>,
    ready: Seq<EngineCoreReadyResponse>,
    loads: Seq<EngineLoad>,
) -> bool {
    &&& indices.len() == ready.len()
    &&& own.len() == ready.len()
    &&& forall|i: int, j: int|
        0 <= i < j < loads.len() ==> (#[trigger] loads[i]).engine_index != (
        #[trigger] loads[j]).engine_index
    &&& forall|i: int, j: int|
        0 <= i < j < ready.len() ==> (#[trigger] ready[i]).data_parallel_rank != (
        #[trigger] ready[j]).data_parallel_rank
    &&& forall|i: int|
        #![trigger own[i]]
        0 <= i < own.len() ==> own[i].engine_index == indices[i] && own[i].kv_cache_usage is Some
            && loads.contains(own[i])
}

proof fn lemma_paired_ranks(
    own: Seq<EngineLoad>,
    indices: Seq<u32>,
    ready: Seq<EngineCoreReadyResponse>,
    loads: Seq<EngineLoad>,
    n: nat,
)
    requires
        are_reports_of(own, indices, ready, loads),
        n <= ready.len(),
    ensures
        loads_by_rank(indices, ready, loads, n).dom().finite(),
        forall|rank: u32| #[trigger]
            loads_by_rank(indices, ready, loads, n).contains_key(rank) ==> exists|i: int|
                0 <= i < n && (#[trigger] ready[i]).data_parallel_rank == rank,
        forall|i: int|
            #![trigger ready[i]]
            0 <= i < n ==> value_of(
                loads_by_rank(indices, ready, loads, n),
                ready[i].data_parallel_rank,
            ) == Some(own[i]),
    decreases n,
{
    if n > 0 {
        lemma_paired_ranks(own, indices, ready, loads, (n - 1) as nat);
        let k = choose|k: int| 0 <= k < loads.len() && loads[k] == own[n - 1];
        assert(loads.contains(own[n - 1]));
        lemma_own_report(loads, k);
        let before = loads_by_rank(indices, ready, loads, (n - 1) as nat);
        let after = loads_by_rank(indices, ready, loads, n);
        let last = ready[n - 1].data_parallel_rank;
        assert(after == before.insert(last, own[n - 1]));
        assert forall|rank: u32| #[trigger] after.contains_key(rank) implies exists|i: int|
            0 <= i < n && (#[trigger] ready[i]).data_parallel_rank == rank by {
            if rank != last {
                assert(before.contains_key(rank));
            } else {
                assert(ready[n - 1].data_parallel_rank == rank);
            }
        }
        assert forall|i: int| #![trigger ready[i]] 0 <= i < n implies value_of(
            after,
            ready[i].data_parallel_rank,
        ) == Some(own[i]) by {
            if i < n - 1 {
                assert(ready[i].data_parallel_rank != ready[n - 1].data_parallel_rank);
            }
        }
    }
}

proof fn lemma_sum_of_own(
    own: Seq<EngineLoad>,
    indices: Seq<u32>,
    ready: Seq<EngineCoreReadyResponse>,
    loads: Seq<EngineLoad>,
    count: spec_fn(EngineLoad) -> nat,
    n: nat,
)
    requires
        are_reports_of(own, indices, ready, loads),
        n <= ready.len(),
    ensures
        sum_over(loads_by_rank(indices, ready, loads, n), count) == total_of(
            Seq::new(n, |i: int| count(own[i])),
        ),
    decreases n,
{
    if n > 0 {
        let before = loads_by_rank(indices, ready, loads, (n - 1) as nat);
        let after = loads_by_rank(indices, ready, loads, n);
        let last = ready[n - 1].data_parallel_rank;
        lemma_sum_of_own(own, indices, ready, loads, count, (n - 1) as nat);
        lemma_paired_ranks(own, indices, ready, loads, (n - 1) as nat);
        lemma_paired_ranks(own, indices, ready, loads, n);
        let k = choose|k: int| 0 <= k < loads.len() && loads[k] == own[n - 1];
        assert(loads.contains(own[n - 1]));
        lemma_own_report(loads, k);
        assert(after == before.insert(last, own[n - 1]));
        if before.contains_key(last) {
            let i = choose|i: int|
                0 <= i < n - 1 && (#[trigger] ready[i]).data_parallel_rank == last;
            assert(ready[i].data_parallel_rank != ready[n - 1].data_parallel_rank);
        }
        assert(after.remove(last) =~= before);
        lemma_sum_without(after, count, last);
        let shorter = Seq::new((n - 1) as nat, |i: int| count(own[i]));
        assert(Seq::new(n, |i: int| count(own[i])) =~= shorter.push(count(own[n - 1])));
        lemma_total_push(shorter, count(own[n - 1]));
    } else {
        assert(loads_by_rank(indices, ready, loads, 0).dom() =~= Set::empty());
        assert(Seq::new(0, |i: int| count(own[i])).len() == 0);
    }
}

/// The running requests that the ranks report, added up.
pub open spec fn running_on(own: Seq<EngineLoad>) -> nat {
    total_of(Seq::new(own.len(), |i: int| own[i].running_requests as nat))
}

/// The waiting requests that the ranks report, added up.
pub open spec fn waiting_on(own: Seq<EngineLoad>) -> nat {
    total_of(Seq::new(own.len(), |i: int| own[i].queued_requests as nat))
}

/// Where every rank has reported its scheduler, the server reports as queued the waiting requests
/// of the ranks, added up, and as running their running requests, added up, but not fewer than the
/// frontend has in flight or the cleanups that have not ended. Both are cut to 32 bits from above.
pub proof fn totals_are_those_of_the_ranks(
    info: LoadInfo,
    role: EngineRole,
    own: Seq<EngineLoad>,
    indices: Seq<u32>,
    ready: Seq<EngineCoreReadyResponse>,
    loads: Seq<EngineLoad>,
    server_load: u64,
    sessions: u64,
    pending_cleanup: u64,
    include_per_rank: bool,
)
    requires
        are_reports_of(own, indices, ready, loads),
        sums_fit(ready, rank_loads(indices, ready, loads)),
        reports_load(
            info,
            role,
            ready,
            rank_loads(indices, ready, loads),
            server_load,
            sessions,
            pending_cleanup,
            include_per_rank,
        ),
    ensures
        info.running_requests is Some,
        info.queued_requests is Some,
        waiting_on(own) <= u32::MAX ==> info.queued_requests->Some_0 == waiting_on(own),
        waiting_on(own) > u32::MAX ==> info.queued_requests->Some_0 == u32::MAX,
        running_on(own) <= u32::MAX && server_load <= running_on(own) && pending_cleanup
            <= running_on(own) ==> info.running_requests->Some_0 == running_on(own),
        server_load <= u32::MAX && running_on(own) <= server_load && pending_cleanup
            <= server_load ==> info.running_requests->Some_0 == server_load,
        pending_cleanup <= u32::MAX && running_on(own) <= pending_cleanup && server_load
            <= pending_cleanup ==> info.running_requests->Some_0 == pending_cleanup,
        running_on(own) > u32::MAX || server_load > u32::MAX || pending_cleanup > u32::MAX
            ==> info.running_requests->Some_0 == u32::MAX,
{
    let paired = rank_loads(indices, ready, loads);
    lemma_paired_ranks(own, indices, ready, loads, ready.len());
    lemma_sum_of_own(
        own,
        indices,
        ready,
        loads,
        |load: EngineLoad| load.running_requests as nat,
        ready.len(),
    );
    lemma_sum_of_own(
        own,
        indices,
        ready,
        loads,
        |load: EngineLoad| load.queued_requests as nat,
        ready.len(),
    );
    assert(Seq::new(
        ready.len(),
        |i: int| (|load: EngineLoad| load.running_requests as nat)(own[i]),
    ) =~= Seq::new(own.len(), |i: int| own[i].running_requests as nat));
    assert(Seq::new(
        ready.len(),
        |i: int| (|load: EngineLoad| load.queued_requests as nat)(own[i]),
    ) =~= Seq::new(own.len(), |i: int| own[i].queued_requests as nat));
    assert(sum_of_running(paired) == running_on(own));
    assert(sum_of_queued(paired) == waiting_on(own));
    assert(is_complete(ready, paired)) by {
        assert forall|i: int| 0 <= i < ready.len() implies reports_usage(
            value_of(paired, (#[trigger] ready[i]).data_parallel_rank),
        ) by {
            assert(own[i].kv_cache_usage is Some);
        }
    }
}

/// With one rank the server reports the running and the queued requests of that rank, where the
/// frontend has nothing in flight and no cleanup runs.
pub proof fn one_rank_is_reported_as_it_is(
    info: LoadInfo,
    role: EngineRole,
    own: EngineLoad,
    indices: Seq<u32>,
    ready: Seq<EngineCoreReadyResponse>,
    loads: Seq<EngineLoad>,
    sessions: u64,
    include_per_rank: bool,
)
    requires
        are_reports_of(seq![own], indices, ready, loads),
        own.running_requests <= u32::MAX,
        own.queued_requests <= u32::MAX,
        sums_fit(ready, rank_loads(indices, ready, loads)),
        reports_load(
            info,
            role,
            ready,
            rank_loads(indices, ready, loads),
            0,
            sessions,
            0,
            include_per_rank,
        ),
    ensures
        info.running_requests is Some,
        info.running_requests->Some_0 == own.running_requests,
        info.queued_requests is Some,
        info.queued_requests->Some_0 == own.queued_requests,
{
    totals_are_those_of_the_ranks(
        info,
        role,
        seq![own],
        indices,
        ready,
        loads,
        0,
        sessions,
        0,
        include_per_rank,
    );
    let running = Seq::new(1, |i: int| seq![own][i].running_requests as nat);
    let waiting = Seq::new(1, |i: int| seq![own][i].queued_requests as nat);
    assert(running.skip(1).len() == 0);
    assert(waiting.skip(1).len() == 0);
    reveal_with_fuel(total_of, 2);
}

/// Each rank is reported under its own number, in the order of the ranks, with the running and the
/// queued requests of its own engine, cut to 32 bits from above, and with its own blocks.
pub proof fn ranks_show_their_own_load(
    info: LoadInfo,
    role: EngineRole,
    own: Seq<EngineLoad>,
    indices: Seq<u32>,
    ready: Seq<EngineCoreReadyResponse>,
    loads: Seq<EngineLoad>,
    server_load: u64,
    sessions: u64,
    pending_cleanup: u64,
    i: int,
)
    requires
        are_reports_of(own, indices, ready, loads),
        reports_load(
            info,
            role,
            ready,
            rank_loads(indices, ready, loads),
            server_load,
            sessions,
            pending_cleanup,
            true,
        ),
        0 <= i < ready.len(),
    ensures
        info.ranks@.len() == ready.len(),
        ({
            let shown = info.ranks@[i];
            &&& shown.data_parallel_rank == Some(ready[i].data_parallel_rank)
            &&& shown.running_requests is Some
            &&& own[i].running_requests <= u32::MAX ==> shown.running_requests->Some_0
                == own[i].running_requests
            &&& own[i].running_requests > u32::MAX ==> shown.running_requests->Some_0 == u32::MAX
            &&& shown.queued_requests is Some
            &&& own[i].queued_requests <= u32::MAX ==> shown.queued_requests->Some_0
                == own[i].queued_requests
            &&& own[i].queued_requests > u32::MAX ==> shown.queued_requests->Some_0 == u32::MAX
            &&& shown.total_kv_blocks == Some(ready[i].num_gpu_blocks)
            &&& shown.used_kv_blocks == blocks_in_use(
                ready[i].num_gpu_blocks,
                own[i].kv_cache_usage,
            )
            &&& shown.prefill_batch_size is None
            &&& shown.decode_batch_size is None
        }),
{
    lemma_paired_ranks(own, indices, ready, loads, ready.len());
    assert(value_of(rank_loads(indices, ready, loads), ready[i].data_parallel_rank) == Some(
        own[i],
    ));
    assert(info.ranks@[i] == rank_info(ready[i], rank_loads(indices, ready, loads)));
}

/// Where every rank has reported its scheduler, the frontend has nothing in flight and no cleanup
/// runs, the reported totals of running and of queued requests are the sums of the fields of the
/// same name over the ranks of the same report.
pub proof fn ranks_add_up_to_the_totals(
    info: LoadInfo,
    role: EngineRole,
    own: Seq<EngineLoad>,
    indices: Seq<u32>,
    ready: Seq<EngineCoreReadyResponse>,
    loads: Seq<EngineLoad>,
    sessions: u64,
)
    requires
        are_reports_of(own, indices, ready, loads),
        sums_fit(ready, rank_loads(indices, ready, loads)),
        reports_load(
            info,
            role,
            ready,
            rank_loads(indices, ready, loads),
            0,
            sessions,
            0,
            true,
        ),
        forall|i: int|
            0 <= i < own.len() ==> (#[trigger] own[i]).running_requests <= u32::MAX
                && own[i].queued_requests <= u32::MAX,
        running_on(own) <= u32::MAX,
        waiting_on(own) <= u32::MAX,
    ensures
        info.running_requests is Some,
        info.queued_requests is Some,
        info.running_requests->Some_0 == total_of(
            Seq::new(
                info.ranks@.len(),
                |i: int| info.ranks@[i].running_requests->Some_0 as nat,
            ),
        ),
        info.queued_requests->Some_0 == total_of(
            Seq::new(
                info.ranks@.len(),
                |i: int| info.ranks@[i].queued_requests->Some_0 as nat,
            ),
        ),
{
    totals_are_those_of_the_ranks(info, role, own, indices, ready, loads, 0, sessions, 0, true);
    assert forall|i: int| 0 <= i < ready.len() implies (
    #[trigger] info.ranks@[i]).running_requests->Some_0 == own[i].running_requests
        && info.ranks@[i].queued_requests->Some_0 == own[i].queued_requests by {
        ranks_show_their_own_load(
            info,
            role,
            own,
            indices,
            ready,
            loads,
            0,
            sessions,
            0,
            i,
        );
        assert(own[i].running_requests <= u32::MAX);
    }
    assert(info.ranks@.len() == ready.len());
    assert(Seq::new(
        info.ranks@.len(),
        |i: int| info.ranks@[i].running_requests->Some_0 as nat,
    ) =~= Seq::new(own.len(), |i: int| own[i].running_requests as nat));
    assert(Seq::new(
        info.ranks@.len(),
        |i: int| info.ranks@[i].queued_requests->Some_0 as nat,
    ) =~= Seq::new(own.len(), |i: int| own[i].queued_requests as nat));
}

/// Until every rank has reported its scheduler, no queued requests are reported, and as running
/// requests those that the frontend has in flight or the cleanups that have not ended, whichever
/// are more.
pub proof fn unknown_schedulers_are_not_guessed(
    info: LoadInfo,
    role: EngineRole,
    ready: Seq<EngineCoreReadyResponse>,
    paired: Map<u32, EngineLoad>,
    server_load: u64,
    sessions: u64,
    pending_cleanup: u64,
    include_per_rank: bool,
    i: int,
)
    requires
        reports_load(
            info,
            role,
            ready,
            paired,
            server_load,
            sessions,
            pending_cleanup,
            include_per_rank,
        ),
        0 <= i < ready.len(),
        !paired.contains_key(ready[i].data_parallel_rank)
            || paired[ready[i].data_parallel_rank].kv_cache_usage is None,
    ensures
        info.queued_requests is None,
        info.running_requests is Some,
        server_load <= u32::MAX && pending_cleanup <= server_load
            ==> info.running_requests->Some_0 == server_load,
        pending_cleanup <= u32::MAX && server_load <= pending_cleanup
            ==> info.running_requests->Some_0 == pending_cleanup,
        server_load > u32::MAX || pending_cleanup > u32::MAX ==> info.running_requests->Some_0
            == u32::MAX,
{
    assert(!reports_usage(value_of(paired, ready[i].data_parallel_rank)));
}

/// A server that is neither a prefill nor a decode engine reports no KV session. Another reports
/// its streams and its cleanups that have not ended, cut to 32 bits from above.
pub proof fn sessions_are_streams_and_cleanups(
    info: LoadInfo,
    role: EngineRole,
    ready: Seq<EngineCoreReadyResponse>,
    paired: Map<u32, EngineLoad>,
    server_load: u64,
    sessions: u64,
    pending_cleanup: u64,
    include_per_rank: bool,
)
    requires
        reports_load(
            info,
            role,
            ready,
            paired,
            server_load,
            sessions,
            pending_cleanup,
            include_per_rank,
        ),
    ensures
        info.active_kv_sessions is Some,
        role == EngineRole::Aggregated ==> info.active_kv_sessions == Some(0u32),
        role != EngineRole::Aggregated && sessions + pending_cleanup <= u32::MAX
            ==> info.active_kv_sessions->Some_0 == sessions + pending_cleanup,
        role != EngineRole::Aggregated && sessions + pending_cleanup > u32::MAX
            ==> info.active_kv_sessions->Some_0 == u32::MAX,
{
}

/// The blocks of all engines, added up one by one.
pub proof fn lemma_blocks_total(ready: Seq<EngineCoreReadyResponse>)
    ensures
        sum_of_blocks(ready) == total_of(
            Seq::new(ready.len(), |i: int| ready[i].num_gpu_blocks as nat),
        ),
    decreases ready.len(),
{
    let counts = Seq::new(ready.len(), |i: int| ready[i].num_gpu_blocks as nat);
    if ready.len() > 0 {
        let shorter = ready.drop_last();
        let before = Seq::new(shorter.len(), |i: int| shorter[i].num_gpu_blocks as nat);
        lemma_blocks_total(shorter);
        assert(counts =~= before.push(ready.last().num_gpu_blocks as nat));
        lemma_total_push(before, ready.last().num_gpu_blocks as nat);
    }
}

proof fn lemma_used_total(ready: Seq<EngineCoreReadyResponse>, paired: Map<u32, EngineLoad>)
    ensures
        sum_of_used(ready, paired) is Some <==> forall|i: int|
            0 <= i < ready.len() ==> rank_blocks(#[trigger] ready[i], paired) is Some,
        sum_of_used(ready, paired) is Some ==> sum_of_used(ready, paired)->Some_0 == total_of(
            Seq::new(ready.len(), |i: int| rank_blocks(ready[i], paired)->Some_0 as nat),
        ),
    decreases ready.len(),
{
    if ready.len() > 0 {
        let shorter = ready.drop_last();
        lemma_used_total(shorter, paired);
        let counts = Seq::new(ready.len(), |i: int| rank_blocks(ready[i], paired)->Some_0 as nat);
        let before = Seq::new(
            shorter.len(),
            |i: int| rank_blocks(shorter[i], paired)->Some_0 as nat,
        );
        let last = rank_blocks(ready.last(), paired)->Some_0 as nat;
        assert(counts =~= before.push(last));
        lemma_total_push(before, last);
        if sum_of_used(ready, paired) is Some {
            assert forall|i: int| 0 <= i < ready.len() implies rank_blocks(
                #[trigger] ready[i],
                paired,
            ) is Some by {
                if i < ready.len() - 1 {
                    assert(rank_blocks(shorter[i], paired) is Some);
                }
            }
        }
        if forall|i: int|
            0 <= i < ready.len() ==> rank_blocks(#[trigger] ready[i], paired) is Some {
            assert forall|i: int| 0 <= i < shorter.len() implies rank_blocks(
                #[trigger] shorter[i],
                paired,
            ) is Some by {
                assert(rank_blocks(ready[i], paired) is Some);
            }
            assert(rank_blocks(ready[ready.len() - 1], paired) is Some);
        }
    }
}

/// The blocks of the server are those of its ranks: in all as many as the ranks have, added up,
/// and in use as many as the ranks report, added up; and the blocks in use are reported if and only
/// if every rank reports its own.
pub proof fn blocks_of_the_ranks_add_up(
    info: LoadInfo,
    role: EngineRole,
    ready: Seq<EngineCoreReadyResponse>,
    paired: Map<u32, EngineLoad>,
    server_load: u64,
    sessions: u64,
    pending_cleanup: u64,
)
    requires
        sums_fit(ready, paired),
        reports_load(
            info,
            role,
            ready,
            paired,
            server_load,
            sessions,
            pending_cleanup,
            true,
        ),
    ensures
        info.ranks@.len() == ready.len(),
        info.total_kv_blocks is Some,
        info.total_kv_blocks->Some_0 == total_of(
            Seq::new(ready.len(), |i: int| ready[i].num_gpu_blocks as nat),
        ),
        info.total_kv_blocks->Some_0 == total_of(
            Seq::new(
                info.ranks@.len(),
                |i: int| info.ranks@[i].total_kv_blocks->Some_0 as nat,
            ),
        ),
        info.used_kv_blocks is Some <==> forall|i: int|
            0 <= i < info.ranks@.len() ==> (#[trigger] info.ranks@[i]).used_kv_blocks is Some,
        info.used_kv_blocks is Some ==> info.used_kv_blocks->Some_0 == total_of(
            Seq::new(
                info.ranks@.len(),
                |i: int| info.ranks@[i].used_kv_blocks->Some_0 as nat,
            ),
        ),
{
    lemma_blocks_total(ready);
    lemma_used_total(ready, paired);
    assert forall|i: int| 0 <= i < ready.len() implies (#[trigger] info.ranks@[i]).used_kv_blocks
        == rank_blocks(ready[i], paired) && info.ranks@[i].total_kv_blocks == Some(
        ready[i].num_gpu_blocks,
    ) by {
        assert(info.ranks@[i] == rank_info(ready[i], paired));
    }
    assert(Seq::new(
        info.ranks@.len(),
        |i: int| info.ranks@[i].total_kv_blocks->Some_0 as nat,
    ) =~= Seq::new(ready.len(), |i: int| ready[i].num_gpu_blocks as nat));
    assert(Seq::new(
        info.ranks@.len(),
        |i: int| info.ranks@[i].used_kv_blocks->Some_0 as nat,
    ) =~= Seq::new(ready.len(), |i: int| rank_blocks(ready[i], paired)->Some_0 as nat));
    if info.used_kv_blocks is Some {
        assert forall|i: int| 0 <= i < info.ranks@.len() implies (
        #[trigger] info.ranks@[i]).used_kv_blocks is Some by {
            assert(rank_blocks(ready[i], paired) is Some);
        }
    }
    if forall|i: int|
        0 <= i < info.ranks@.len() ==> (#[trigger] info.ranks@[i]).used_kv_blocks is Some {
        assert forall|i: int| 0 <= i < ready.len() implies rank_blocks(
            #[trigger] ready[i],
            paired,
        ) is Some by {
            assert(info.ranks@[i].used_kv_blocks is Some);
        }
    }
}

/// Of several reports of one engine the last counts, and an engine that sent none has none.
pub proof fn last_report_counts(loads: Seq<EngineLoad>, index: u32)
    ensures
        loads_by_index(loads).contains_key(index) <==> exists|k: int|
            0 <= k < loads.len() && (#[trigger] loads[k]).engine_index == index,
        forall|k: int|
            #![trigger loads[k]]
            0 <= k < loads.len() && loads[k].engine_index == index && (forall|j: int|
                k < j < loads.len() ==> (#[trigger] loads[j]).engine_index != index)
                ==> loads_by_index(loads)[index] == loads[k],
    decreases loads.len(),
{
    if loads.len() > 0 {
        let shorter = loads.drop_last();
        last_report_counts(shorter, index);
        if loads.last().engine_index == index {
            assert(loads[loads.len() - 1].engine_index == index);
        } else {
            if loads_by_index(shorter).contains_key(index) {
                let k = choose|k: int|
                    0 <= k < shorter.len() && (#[trigger] shorter[k]).engine_index == index;
                assert(loads[k].engine_index == index);
            }
            if exists|k: int| 0 <= k < loads.len() && (#[trigger] loads[k]).engine_index == index {
                let k = choose|k: int|
                    0 <= k < loads.len() && (#[trigger] loads[k]).engine_index == index;
                assert(shorter[k].engine_index == index);
            }
        }
        assert forall|k: int|
            #![trigger loads[k]]
            0 <= k < loads.len() && loads[k].engine_index == index && (forall|j: int|
                k < j < loads.len() ==> (#[trigger] loads[j]).engine_index
                    != index) implies loads_by_index(loads)[index] == loads[k] by {
            if k < loads.len() - 1 {
                assert(loads[loads.len() - 1].engine_index != index);
                assert(shorter[k] == loads[k]);
                assert forall|j: int| k < j < shorter.len() implies (
                #[trigger] shorter[j]).engine_index != index by {
                    assert(loads[j].engine_index != index);
                }
            }
        }
    }
}

/// An engine is waited for if and only if it had work when the wait began: requests of this
/// frontend in flight, running ones or queued ones. It has to report after that.
pub proof fn engines_with_work_are_waited_for(loads: Seq<EngineLoad>, k: int)
    requires
        engines_distinct(loads),
        0 <= k < loads.len(),
    ensures
        scheduler_baseline(loads).contains_key(loads[k].engine_index) <==> loads[k].frontend_inflight
            > 0 || loads[k].running_requests > 0 || loads[k].queued_requests > 0,
        scheduler_baseline(loads).contains_key(loads[k].engine_index) ==> scheduler_baseline(
            loads,
        )[loads[k].engine_index] == loads[k].update_generation,
    decreases loads.len(),
{
    let shorter = loads.drop_last();
    if k < loads.len() - 1 {
        engines_with_work_are_waited_for(shorter, k);
        assert(loads[k].engine_index != loads[loads.len() - 1].engine_index);
    } else if scheduler_baseline(shorter).contains_key(loads[k].engine_index) {
        let j = lemma_baseline_entry(shorter, loads[k].engine_index);
        assert(loads[j].engine_index != loads[k].engine_index);
    }
}

/// A wait ends if and only if each engine that is waited for has reported since it began, and has
/// neither running nor queued requests.
pub proof fn waits_end_with_idle_reports(baseline: Map<u32, u64>, loads: Seq<EngineLoad>)
    requires
        engines_distinct(loads),
    ensures
        all_settled(baseline, loads) <==> forall|index: u32| #[trigger]
            baseline.contains_key(index) ==> exists|k: int|
                0 <= k < loads.len() && (#[trigger] loads[k]).engine_index == index
                    && loads[k].update_generation > baseline[index] && loads[k].running_requests
                    == 0 && loads[k].queued_requests == 0,
{
    if all_settled(baseline, loads) {
        assert forall|index: u32| #[trigger] baseline.contains_key(index) implies exists|k: int|
            0 <= k < loads.len() && (#[trigger] loads[k]).engine_index == index
                && loads[k].update_generation > baseline[index] && loads[k].running_requests == 0
                && loads[k].queued_requests == 0 by {
            last_report_counts(loads, index);
            let k = choose|k: int|
                0 <= k < loads.len() && (#[trigger] loads[k]).engine_index == index;
            lemma_own_report(loads, k);
        }
    }
    if forall|index: u32| #[trigger]
        baseline.contains_key(index) ==> exists|k: int|
            0 <= k < loads.len() && (#[trigger] loads[k]).engine_index == index
                && loads[k].update_generation > baseline[index] && loads[k].running_requests == 0
                && loads[k].queued_requests == 0 {
        assert forall|index: u32| #[trigger] baseline.contains_key(index) implies is_settled(
            value_of(loads_by_index(loads), index),
            baseline[index],
        ) by {
            let k = choose|k: int|
                0 <= k < loads.len() && (#[trigger] loads[k]).engine_index == index
                    && loads[k].update_generation > baseline[index] && loads[k].running_requests
                    == 0 && loads[k].queued_requests == 0;
            lemma_own_report(loads, k);
        }
    }
}

} // verus!
