use vstd::prelude::*;
use crate::workloads::{
    code_stage, code_to_stage, is_stage_code, stage_code, stage_to_code, workload_map_contents, workload_map_drain,
    workload_map_insert, workload_map_new, workload_map_remove,
};

verus! {

/// The built-in stages of a frame, in the order in which a new engine runs them.
#[derive(Clone, Copy, Debug, PartialEq, Eq, Structural, Hash)]
pub enum State {
    Startup,
    PreUpdate,
    Update,
    PostUpdate,
    Cleanup,
}

/// Label of the stage that the physics module inserts before `PreUpdate`.
#[derive(Clone, Copy, Debug, PartialEq, Eq, Structural, Hash)]
pub struct PhysicsStep;

/// Label of the stage that the renderer module inserts before `PostUpdate`.
#[derive(Clone, Copy, Debug, PartialEq, Eq, Structural, Hash)]
pub struct Render;

/// A stage of the schedule: one of the built-in states or a stage added by a module.
#[derive(Clone, Copy, Debug, PartialEq, Eq, Structural, Hash)]
pub enum Stage {
    State(State),
    PhysicsStep(PhysicsStep),
    Render(Render),
    /// A stage of the game's own, told apart from the others by its number.
    Custom(u32),
}

/// `p` is the first position of `x` in `s`.
pub open spec fn first_at(s: Seq<Stage>, x: Stage, p: int) -> bool {
    &&& 0 <= p < s.len()
    &&& s[p] == x
    &&& forall|j: int| 0 <= j < p ==> s[j] != x
}

/// The stages that a new engine starts with.
pub open spec fn initial_stages() -> Seq<Stage> {
    seq![
        Stage::State(State::Startup),
        Stage::State(State::PreUpdate),
        Stage::State(State::Update),
        Stage::State(State::PostUpdate),
        Stage::State(State::Cleanup),
    ]
}

/// Stages that run every frame: all but `Startup`, which runs once when the window appears.
pub open spec fn per_frame(s: Seq<Stage>) -> Seq<Stage> {
    s.filter(|x: Stage| x != Stage::State(State::Startup))
}

} // verus!

verus! {

/// Name and version of the application, handed to the graphics driver.
pub struct AppData {
    pub name: String,
    pub version: u32,
}

/// The views of a list of labels.
pub open spec fn label_views(v: Seq<String>) -> Seq<Seq<char>> {
    v.map_values(|s: String| s@)
}

/// A system registered into a stage: the work to run, an optional label by
/// which other systems order themselves, and the labels it runs after and before.
pub struct System<W> {
    pub state: Stage,
    pub workload: W,
    pub label: Option<String>,
    pub after: Vec<String>,
    pub before: Vec<String>,
}

impl<W> System<W> {
    pub open spec fn label_view(&self) -> Option<Seq<char>> {
        match self.label {
            Some(l) => Some(l@),
            None => None,
        }
    }

    /// The system has exactly these parts.
    pub open spec fn is(
        &self,
        state: Stage,
        workload: W,
        label: Option<Seq<char>>,
        before: Seq<Seq<char>>,
        after: Seq<Seq<char>>,
    ) -> bool {
        &&& self.state == state
        &&& self.workload == workload
        &&& self.label_view() == label
        &&& label_views(self.before@) == before
        &&& label_views(self.after@) == after
    }

    /// A system of `state` with no label and no ordering constraints.
    pub fn new(state: Stage, workload: W) -> (s: Self)
        ensures
            s.is(state, workload, None, seq![], seq![]),
    {
        let s = System { state, workload, label: None, after: Vec::new(), before: Vec::new() };
        assert(label_views(s.before@) =~= seq![]);
        assert(label_views(s.after@) =~= seq![]);
        s
    }

    /// The same system, labelled `label` (a previous label is replaced).
    pub fn label(self, label: &str) -> (s: Self)
        ensures
            s.is(
                self.state,
                self.workload,
                Some(label@),
                label_views(self.before@),
                label_views(self.after@),
            ),
    {
        let mut s = self;
        s.label = Some(label.to_owned());
        s
    }

    /// The same system, to run before every system labelled `label`.
    pub fn before(self, label: &str) -> (s: Self)
        ensures
            s.is(
                self.state,
                self.workload,
                self.label_view(),
                label_views(self.before@).push(label@),
                label_views(self.after@),
            ),
    {
        let mut s = self;
        let l = label.to_owned();
        s.before.push(l);
        assert(label_views(s.before@) =~= label_views(self.before@).push(label@));
        s
    }

    /// The same system, to run after every system labelled `label`.
    pub fn after(self, label: &str) -> (s: Self)
        ensures
            s.is(
                self.state,
                self.workload,
                self.label_view(),
                label_views(self.before@),
                label_views(self.after@).push(label@),
            ),
    {
        let mut s = self;
        let l = label.to_owned();
        s.after.push(l);
        assert(label_views(s.after@) =~= label_views(self.after@).push(label@));
        s
    }
}

} // verus!

verus! {

/// The stages of `systems`, in registration order.
pub open spec fn system_stages<W>(systems: Seq<System<W>>) -> Seq<Stage> {
    systems.map_values(|s: System<W>| s.state)
}

/// The positions among the first `n` entries of `st` that hold `x`, in increasing order.
pub open spec fn indices_of(st: Seq<Stage>, x: Stage, n: int) -> Seq<usize>
    decreases n,
{
    if n <= 0 {
        seq![]
    } else {
        indices_of(st, x, n - 1) + if st[n - 1] == x {
            seq![(n - 1) as usize]
        } else {
            seq![]
        }
    }
}

/// One workload of the schedule: a stage and the systems (by registration index) that it runs.
pub struct WorkloadPlan {
    pub stage: Stage,
    pub systems: Vec<usize>,
}

/// Some workload of `plan` is for stage `x`.
pub open spec fn plan_has(plan: Seq<WorkloadPlan>, x: Stage) -> bool {
    exists|i: int| 0 <= i < plan.len() && plan[i].stage == x
}

/// `plan` groups the systems whose stages are `st` into one workload per stage:
/// one workload for each stage of `states` or of a system, none twice, and each
/// holding exactly the systems of its stage in registration order.
pub open spec fn plan_groups(plan: Seq<WorkloadPlan>, states: Seq<Stage>, st: Seq<Stage>) -> bool {
    &&& forall|i: int, j: int| 0 <= i < j < plan.len() ==> plan[i].stage != plan[j].stage
    &&& forall|x: Stage| plan_has(plan, x) <==> (states.contains(x) || st.contains(x))
    &&& forall|i: int|
        0 <= i < plan.len() ==> #[trigger] plan[i].systems@ == indices_of(st, plan[i].stage, st.len() as int)
}

proof fn lemma_indices_absent(st: Seq<Stage>, x: Stage, n: int)
    requires
        0 <= n <= st.len(),
        forall|j: int| 0 <= j < n ==> st[j] != x,
    ensures
        indices_of(st, x, n) == Seq::<usize>::empty(),
    decreases n,
{
    if n > 0 {
        lemma_indices_absent(st, x, n - 1);
        assert(indices_of(st, x, n) =~= Seq::<usize>::empty());
    }
}

proof fn lemma_push_contains(s: Seq<Stage>, a: Stage, x: Stage)
    ensures
        s.push(a).contains(x) <==> (s.contains(x) || x == a),
{
    if s.contains(x) {
        let j = choose|j: int| 0 <= j < s.len() && s[j] == x;
        assert(s.push(a)[j] == x);
    }
    if x == a {
        assert(s.push(a)[s.len() as int] == x);
    }
    if s.push(a).contains(x) {
        let j = choose|j: int| 0 <= j < s.len() + 1 && s.push(a)[j] == x;
        if j < s.len() {
            assert(s[j] == x);
        }
    }
}

/// Position of `x` in `v`, if it occurs.
fn find_stage(v: &Vec<Stage>, x: Stage) -> (r: Option<usize>)
    ensures
        r matches Some(p) ==> first_at(v@, x, p as int),
        r is None ==> !v@.contains(x),
{
    let mut i: usize = 0;
    while i < v.len()
        invariant
            i <= v.len(),
            forall|j: int| 0 <= j < i ==> v@[j] != x,
        decreases v.len() - i,
    {
        if v[i] == x {
            return Some(i);
        }
        i = i + 1;
    }
    None
}

/// The schedule of an engine: the stages in the order in which they run and
/// the systems that modules registered.
pub struct Engine<W> {
    pub app_data: AppData,
    pub systems: Vec<System<W>>,
    pub states: Vec<Stage>,
}

impl<W> Engine<W> {
    /// A new engine with the five built-in stages and no systems.
    pub fn new(name: &str, version: u32) -> (e: Self)
        ensures
            e.app_data.name@ == name@,
            e.app_data.version == version,
            e.systems@.len() == 0,
            e.states@ == initial_stages(),
    {
        let mut states: Vec<Stage> = Vec::new();
        states.push(Stage::State(State::Startup));
        states.push(Stage::State(State::PreUpdate));
        states.push(Stage::State(State::Update));
        states.push(Stage::State(State::PostUpdate));
        states.push(Stage::State(State::Cleanup));
        assert(states@ =~= initial_stages());
        Engine {
            app_data: AppData { name: name.to_owned(), version },
            systems: Vec::new(),
            states,
        }
    }

    /// Inserts `stage` immediately before the first occurrence of `anchor`.
    pub fn insert_state_before(&mut self, anchor: Stage, stage: Stage)
        requires
            old(self).states@.contains(anchor),
        ensures
            exists|p: int|
                first_at(old(self).states@, anchor, p) && final(self).states@ == old(
                    self,
                ).states@.insert(p, stage),
            final(self).systems@ == old(self).systems@,
            final(self).app_data == old(self).app_data,
    {
        let pos = find_stage(&self.states, anchor);
        match pos {
            Some(p) => {
                self.states.insert(p, stage);
            },
            None => {
                assert(false);
            },
        }
    }

    /// The stages run on every frame, in order: every stage but `Startup`.
    pub fn frame_stages(&self) -> (r: Vec<Stage>)
        ensures
            r@ == per_frame(self.states@),
    {
        let mut r: Vec<Stage> = Vec::new();
        let mut i: usize = 0;
        while i < self.states.len()
            invariant
                i <= self.states.len(),
                r@ == per_frame(self.states@.take(i as int)),
            decreases self.states.len() - i,
        {
            let s = self.states[i];
            proof {
                let pred = |x: Stage| x != Stage::State(State::Startup);
                assert(self.states@.take(i as int + 1) =~= self.states@.take(i as int).push(s));
                self.states@.take(i as int).lemma_filter_push(s, pred);
            }
            if s != Stage::State(State::Startup) {
                r.push(s);
            }
            i = i + 1;
        }
        assert(self.states@.take(i as int) =~= self.states@);
        r
    }

    /// The workloads to build: one per stage of the schedule or of a system,
    /// each with the systems registered for that stage in registration order.
    pub fn workload_plan(&self) -> (plan: Vec<WorkloadPlan>)
        ensures
            plan_groups(plan@, self.states@, system_stages(self.systems@)),
    {
        let ghost st = system_stages(self.systems@);
        let mut workloads = workload_map_new();
        // One empty workload per stage of the schedule.
        let mut i: usize = 0;
        while i < self.states.len()
            invariant
                i <= self.states.len(),
                forall|c: u64| #[trigger] workload_map_contents(workloads).contains_key(c) ==> is_stage_code(c),
                forall|x: Stage|
                    #[trigger] workload_map_contents(workloads).contains_key(stage_code(x))
                        <==> self.states@.take(i as int).contains(x),
                forall|c: u64|
                    #[trigger] workload_map_contents(workloads).contains_key(c) ==> workload_map_contents(
                        workloads,
                    )[c] == Seq::<usize>::empty(),
            decreases self.states.len() - i,
        {
            let s = self.states[i];
            proof {
                assert(self.states@.take(i as int + 1) =~= self.states@.take(i as int).push(s));
            }
            let code = stage_to_code(s);
            let _ = workload_map_insert(&mut workloads, code, Vec::new());
            proof {
                assert forall|x: Stage|
                    #[trigger] workload_map_contents(workloads).contains_key(stage_code(x))
                        <==> self.states@.take(i as int + 1).contains(x) by {
                    lemma_push_contains(self.states@.take(i as int), s, x);
                    if stage_code(x) == code {
                        assert(code_stage(stage_code(x)) == x);
                    }
                }
            }
            i = i + 1;
        }
        assert(self.states@.take(i as int) =~= self.states@);
        // Each system joins the workload of its stage, which is made if it is missing.
        let mut k: usize = 0;
        while k < self.systems.len()
            invariant
                k <= self.systems.len(),
                st == system_stages(self.systems@),
                st.len() == self.systems@.len(),
                forall|c: u64| #[trigger] workload_map_contents(workloads).contains_key(c) ==> is_stage_code(c),
                forall|x: Stage|
                    #[trigger] workload_map_contents(workloads).contains_key(stage_code(x))
                        <==> (self.states@.contains(x) || st.take(k as int).contains(x)),
                forall|x: Stage|
                    #[trigger] workload_map_contents(workloads).contains_key(stage_code(x))
                        ==> workload_map_contents(workloads)[stage_code(x)] == indices_of(st, x, k as int),
            decreases self.systems.len() - k,
        {
            let s = self.systems[k].state;
            let code = stage_to_code(s);
            proof {
                assert(st[k as int] == s);
                assert(st.take(k as int + 1) =~= st.take(k as int).push(s));
                if !workload_map_contents(workloads).contains_key(stage_code(s)) {
                    assert forall|j: int| 0 <= j < k implies st[j] != s by {
                        if st[j] == s {
                            assert(st.take(k as int)[j] == s);
                        }
                    }
                    lemma_indices_absent(st, s, k as int);
                }
            }
            let mut group = match workload_map_remove(&mut workloads, code) {
                Some(g) => g,
                None => Vec::new(),
            };
            group.push(k);
            assert(group@ =~= indices_of(st, s, k as int + 1));
            let _ = workload_map_insert(&mut workloads, code, group);
            proof {
                assert forall|x: Stage|
                    #[trigger] workload_map_contents(workloads).contains_key(stage_code(x))
                        <==> (self.states@.contains(x) || st.take(k as int + 1).contains(x)) by {
                    lemma_push_contains(st.take(k as int), s, x);
                    if stage_code(x) == code {
                        assert(code_stage(stage_code(x)) == x);
                    }
                }
                assert forall|x: Stage|
                    #[trigger] workload_map_contents(workloads).contains_key(stage_code(x))
                        implies workload_map_contents(workloads)[stage_code(x)] == indices_of(
                        st,
                        x,
                        k as int + 1,
                    ) by {
                    if stage_code(x) == code {
                        assert(code_stage(stage_code(x)) == x);
                        assert(code_stage(stage_code(s)) == s);
                    } else {
                        assert(x != s);
                        assert(indices_of(st, x, k as int + 1) =~= indices_of(st, x, k as int));
                    }
                }
            }
            k = k + 1;
        }
        assert(st.take(k as int) =~= st);
        let ghost contents = workload_map_contents(workloads);
        let pairs = workload_map_drain(&mut workloads);
        // Name each workload by its stage.
        let mut plan: Vec<WorkloadPlan> = Vec::new();
        let mut q: usize = 0;
        while q < pairs.len()
            invariant
                q <= pairs@.len(),
                plan@.len() == q,
                forall|c: u64| #[trigger] contents.contains_key(c) ==> is_stage_code(c),
                forall|i: int|
                    0 <= i < pairs@.len() ==> contents.contains_key(#[trigger] pairs@[i].0)
                        && pairs@[i].1@ == contents[pairs@[i].0],
                forall|a: int|
                    0 <= a < q ==> #[trigger] plan@[a].stage == code_stage(pairs@[a].0)
                        && stage_code(plan@[a].stage) == pairs@[a].0 && plan@[a].systems@
                        == pairs@[a].1@,
            decreases pairs.len() - q,
        {
            let code = pairs[q].0;
            let stage = code_to_stage(code);
            let systems = pairs[q].1.clone();
            proof {
                assert(systems@ =~= pairs@[q as int].1@);
            }
            plan.push(WorkloadPlan { stage, systems });
            q = q + 1;
        }
        proof {
            assert forall|a: int, b: int| 0 <= a < b < plan@.len() implies plan@[a].stage
                != plan@[b].stage by {
                assert(pairs@[a].0 != pairs@[b].0);
                assert(stage_code(plan@[a].stage) == pairs@[a].0);
                assert(stage_code(plan@[b].stage) == pairs@[b].0);
            }
            assert forall|x: Stage|
                #![trigger plan_has(plan@, x)]
                plan_has(plan@, x) <==> (self.states@.contains(x) || st.contains(x)) by {
                if contents.contains_key(stage_code(x)) {
                    let a = choose|a: int| 0 <= a < pairs@.len() && #[trigger] pairs@[a].0 == stage_code(x);
                    assert(code_stage(stage_code(x)) == x);
                    assert(plan@[a].stage == x);
                }
                if plan_has(plan@, x) {
                    let a = choose|a: int| 0 <= a < plan@.len() && plan@[a].stage == x;
                    assert(contents.contains_key(pairs@[a].0));
                    assert(stage_code(plan@[a].stage) == pairs@[a].0);
                }
            }
            assert forall|a: int| 0 <= a < plan@.len() implies #[trigger] plan@[a].systems@
                == indices_of(st, plan@[a].stage, st.len() as int) by {
                let x = plan@[a].stage;
                assert(stage_code(x) == pairs@[a].0);
                assert(contents.contains_key(stage_code(x)));
            }
        }
        plan
    }
}

} // verus!

verus! {

/// Every stage of the schedule but `Startup` runs on each frame, and `Startup` never does.
pub proof fn lemma_per_frame_stages(s: Seq<Stage>)
    ensures
        !per_frame(s).contains(Stage::State(State::Startup)),
        forall|x: Stage|
            x != Stage::State(State::Startup) ==> (#[trigger] per_frame(s).contains(x) <==> s.contains(x)),
{
    let pred = |x: Stage| x != Stage::State(State::Startup);
    broadcast use vstd::seq_lib::group_filter_ensures;

    assert forall|x: Stage|
        x != Stage::State(State::Startup) implies (#[trigger] per_frame(s).contains(x) <==> s.contains(x)) by {
        if s.contains(x) {
            let i = choose|i: int| 0 <= i < s.len() && s[i] == x;
            assert(pred(s[i]));
        }
        if per_frame(s).contains(x) {
            s.lemma_filter_contains_rev(pred, x);
        }
    }
    if per_frame(s).contains(Stage::State(State::Startup)) {
        let i = choose|i: int|
            0 <= i < per_frame(s).len() && per_frame(s)[i] == Stage::State(State::Startup);
        assert(pred(per_frame(s)[i]));
    }
}

/// The positions gathered by `indices_of` are exactly those before `n` that hold `x`.
pub proof fn lemma_indices_of_contains(st: Seq<Stage>, x: Stage, n: int, k: int)
    requires
        0 <= n <= st.len(),
        st.len() <= usize::MAX,
    ensures
        indices_of(st, x, n).contains(k as usize) && 0 <= k <= usize::MAX <==> (0 <= k < n && st[k] == x),
    decreases n,
{
    if n > 0 {
        lemma_indices_of_contains(st, x, n - 1, k);
        let prev = indices_of(st, x, n - 1);
        let tail = if st[n - 1] == x {
            seq![(n - 1) as usize]
        } else {
            Seq::<usize>::empty()
        };
        assert(indices_of(st, x, n) == prev + tail);
        if (prev + tail).contains(k as usize) && 0 <= k <= usize::MAX {
            let j = choose|j: int| 0 <= j < (prev + tail).len() && (prev + tail)[j] == k as usize;
            if j < prev.len() {
                assert(prev[j] == k as usize);
            } else {
                assert(tail[j - prev.len()] == k as usize);
            }
        }
        if 0 <= k < n && st[k] == x {
            if k < n - 1 {
                let j = choose|j: int| 0 <= j < prev.len() && prev[j] == k as usize;
                assert((prev + tail)[j] == k as usize);
            } else {
                assert((prev + tail)[prev.len() as int] == k as usize);
            }
        }
    }
}

/// Each registered system runs in exactly one workload: the one of its stage.
pub proof fn lemma_each_system_in_one_workload(
    plan: Seq<WorkloadPlan>,
    states: Seq<Stage>,
    st: Seq<Stage>,
    k: int,
)
    requires
        plan_groups(plan, states, st),
        0 <= k < st.len(),
        st.len() <= usize::MAX,
    ensures
        exists|i: int| 0 <= i < plan.len() && plan[i].stage == st[k] && plan[i].systems@.contains(k as usize),
        forall|i: int|
            0 <= i < plan.len() && #[trigger] plan[i].systems@.contains(k as usize) ==> plan[i].stage == st[k],
{
    assert(st.contains(st[k]));
    assert(plan_has(plan, st[k]));
    let i = choose|i: int| 0 <= i < plan.len() && plan[i].stage == st[k];
    assert(plan[i].systems@ == indices_of(st, plan[i].stage, st.len() as int));
    lemma_indices_of_contains(st, st[k], st.len() as int, k);
    assert forall|i2: int|
        0 <= i2 < plan.len() && #[trigger] plan[i2].systems@.contains(k as usize) implies plan[i2].stage
        == st[k] by {
        assert(plan[i2].systems@ == indices_of(st, plan[i2].stage, st.len() as int));
        lemma_indices_of_contains(st, plan[i2].stage, st.len() as int, k);
    }
}

} // verus!
