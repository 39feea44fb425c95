use vstd::prelude::*;
use crate::schedule::{PhysicsStep, Render, Stage, State};

verus! {

/// The number of a stage, by which workloads are keyed.
pub open spec fn stage_code(s: Stage) -> u64 {
    match s {
        Stage::State(State::Startup) => 0,
        Stage::State(State::PreUpdate) => 1,
        Stage::State(State::Update) => 2,
        Stage::State(State::PostUpdate) => 3,
        Stage::State(State::Cleanup) => 4,
        Stage::PhysicsStep(_) => 5,
        Stage::Render(_) => 6,
        Stage::Custom(n) => (7 + n) as u64,
    }
}

/// `c` is the number of some stage.
pub open spec fn is_stage_code(c: u64) -> bool {
    c <= 7 + u32::MAX
}

/// The stage numbered `c`, for a stage number `c`.
pub open spec fn code_stage(c: u64) -> Stage {
    if c == 0 {
        Stage::State(State::Startup)
    } else if c == 1 {
        Stage::State(State::PreUpdate)
    } else if c == 2 {
        Stage::State(State::Update)
    } else if c == 3 {
        Stage::State(State::PostUpdate)
    } else if c == 4 {
        Stage::State(State::Cleanup)
    } else if c == 5 {
        Stage::PhysicsStep(PhysicsStep)
    } else if c == 6 {
        Stage::Render(Render)
    } else {
        Stage::Custom((c - 7) as u32)
    }
}

pub fn stage_to_code(s: Stage) -> (r: u64)
    ensures
        r == stage_code(s),
        is_stage_code(r),
        code_stage(r) == s,
{
    match s {
        Stage::State(State::Startup) => 0,
        Stage::State(State::PreUpdate) => 1,
        Stage::State(State::Update) => 2,
        Stage::State(State::PostUpdate) => 3,
        Stage::State(State::Cleanup) => 4,
        Stage::PhysicsStep(_) => 5,
        Stage::Render(_) => 6,
        Stage::Custom(n) => 7 + n as u64,
    }
}

pub fn code_to_stage(c: u64) -> (r: Stage)
    requires
        is_stage_code(c),
    ensures
        r == code_stage(c),
        stage_code(r) == c,
{
    if c == 0 {
        Stage::State(State::Startup)
    } else if c == 1 {
        Stage::State(State::PreUpdate)
    } else if c == 2 {
        Stage::State(State::Update)
    } else if c == 3 {
        Stage::State(State::PostUpdate)
    } else if c == 4 {
        Stage::State(State::Cleanup)
    } else if c == 5 {
        Stage::PhysicsStep(PhysicsStep)
    } else if c == 6 {
        Stage::Render(Render)
    } else {
        Stage::Custom((c - 7) as u32)
    }
}

/// The workloads being built, keyed by stage number: for each, the registration
/// indices of its systems. Held in a `hashbrown` map, whose contents the wrappers
/// below describe.
#[verifier::external_body]
pub struct WorkloadMap {
    map: hashbrown::HashMap<u64, Vec<usize>>,
}

/// What a `WorkloadMap` holds.
pub uninterp spec fn workload_map_contents(m: WorkloadMap) -> Map<u64, Seq<usize>>;

/// A map with no workloads.
pub open spec fn no_workloads() -> Map<u64, Seq<usize>> {
    Map::empty()
}

/// `hashbrown::HashMap::new`: the new map holds nothing.
#[verifier::external_body]
pub(crate) fn workload_map_new() -> (m: WorkloadMap)
    ensures
        workload_map_contents(m) == no_workloads(),
{
    WorkloadMap { map: hashbrown::HashMap::new() }
}

/// `hashbrown::HashMap::insert`: `key` now maps to `value`; the value it mapped
/// to before, if any, is returned.
#[verifier::external_body]
pub(crate) fn workload_map_insert(m: &mut WorkloadMap, key: u64, value: Vec<usize>) -> (r: Option<Vec<usize>>)
    ensures
        workload_map_contents(*final(m)) == workload_map_contents(*old(m)).insert(key, value@),
        match r {
            Some(v) => workload_map_contents(*old(m)).contains_key(key) && v@ == workload_map_contents(*old(m))[key],
            None => !workload_map_contents(*old(m)).contains_key(key),
        },
{
    m.map.insert(key, value)
}

/// `hashbrown::HashMap::remove`: `key` maps to nothing afterwards; the value it
/// mapped to, if any, is returned.
#[verifier::external_body]
pub(crate) fn workload_map_remove(m: &mut WorkloadMap, key: u64) -> (r: Option<Vec<usize>>)
    ensures
        workload_map_contents(*final(m)) == workload_map_contents(*old(m)).remove(key),
        match r {
            Some(v) => workload_map_contents(*old(m)).contains_key(key) && v@ == workload_map_contents(*old(m))[key],
            None => !workload_map_contents(*old(m)).contains_key(key),
        },
{
    m.map.remove(&key)
}

/// `hashbrown::HashMap::drain`, collected: the map is left empty and every entry
/// comes out exactly once, in an order that the map does not promise.
#[verifier::external_body]
pub(crate) fn workload_map_drain(m: &mut WorkloadMap) -> (r: Vec<(u64, Vec<usize>)>)
    ensures
        workload_map_contents(*final(m)) == no_workloads(),
        forall|i: int, j: int| 0 <= i < j < r@.len() ==> r@[i].0 != r@[j].0,
        forall|i: int|
            0 <= i < r@.len() ==> workload_map_contents(*old(m)).contains_key(#[trigger] r@[i].0)
                && r@[i].1@ == workload_map_contents(*old(m))[r@[i].0],
        forall|k: u64|
            workload_map_contents(*old(m)).contains_key(k) ==> exists|i: int|
                0 <= i < r@.len() && #[trigger] r@[i].0 == k,
{
    m.map.drain().collect()
}

} // verus!
