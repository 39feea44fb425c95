use engine::modules::{CoreModule, PhysicsModule, RendererModule, RendererSystems, WindowModule};
use engine::schedule::{Engine, PhysicsStep, Render, Stage, State, System};

fn stage_list() -> Vec<Stage> {
    vec![
        Stage::State(State::Startup),
        Stage::State(State::PreUpdate),
        Stage::State(State::Update),
        Stage::State(State::PostUpdate),
        Stage::State(State::Cleanup),
    ]
}

fn renderer_systems() -> RendererSystems<&'static str> {
    RendererSystems {
        setup: "setup_renderer",
        start: "render_start",
        record_shadows: "render_record_shadows",
        record_main: "render_record_main",
        record_back: "render_record_back",
        record_imgui: "render_record_imgui",
        submit: "render_submit",
        wait: "render_wait",
        imgui_events: "imgui_handle_events",
        recreate_swapchain: "recreate_swapchain",
        capture_ui: "capture_frame_ui",
    }
}

#[test]
fn new_engine_has_builtin_stages() {
    let e: Engine<u32> = Engine::new("test_game", 1);
    assert_eq!(e.states, stage_list());
    assert!(e.systems.is_empty());
    assert_eq!(e.app_data.name, "test_game");
    assert_eq!(e.app_data.version, 1);
}

#[test]
fn system_builders_record_labels() {
    let s = System::new(Stage::Render(Render), 7u32).label("Record").before("A").after("B").after("C");
    assert_eq!(s.state, Stage::Render(Render));
    assert_eq!(s.workload, 7);
    assert_eq!(s.label.as_deref(), Some("Record"));
    assert_eq!(s.before, vec!["A".to_string()]);
    assert_eq!(s.after, vec!["B".to_string(), "C".to_string()]);
    let relabelled = s.label("Other");
    assert_eq!(relabelled.label.as_deref(), Some("Other"));
}

#[test]
fn insert_state_before_first_anchor() {
    let mut e: Engine<u32> = Engine::new("g", 0);
    e.insert_state_before(Stage::State(State::Update), Stage::Render(Render));
    e.insert_state_before(Stage::State(State::Update), Stage::PhysicsStep(PhysicsStep));
    assert_eq!(
        e.states,
        vec![
            Stage::State(State::Startup),
            Stage::State(State::PreUpdate),
            Stage::Render(Render),
            Stage::PhysicsStep(PhysicsStep),
            Stage::State(State::Update),
            Stage::State(State::PostUpdate),
            Stage::State(State::Cleanup),
        ]
    );
    // A duplicated anchor: the insertion goes before its first occurrence.
    e.states.push(Stage::State(State::Update));
    e.insert_state_before(Stage::State(State::Update), Stage::State(State::Cleanup));
    assert_eq!(e.states[4], Stage::State(State::Cleanup));
    assert_eq!(e.states[5], Stage::State(State::Update));
    assert_eq!(e.states.len(), 9);
}

#[test]
fn modules_order_the_stages() {
    let mut e: Engine<&'static str> = Engine::new("test_game", 1);
    CoreModule::build(&mut e, "startup", "update_time");
    WindowModule::build(&mut e, "move_camera", "read_event");
    PhysicsModule::build(&mut e, "setup_physics", "step");
    RendererModule::build(&mut e, renderer_systems());
    assert_eq!(
        e.states,
        vec![
            Stage::State(State::Startup),
            Stage::PhysicsStep(PhysicsStep),
            Stage::State(State::PreUpdate),
            Stage::State(State::Update),
            Stage::Render(Render),
            Stage::State(State::PostUpdate),
            Stage::State(State::Cleanup),
        ]
    );
    assert_eq!(e.systems.len(), 17);
    assert_eq!(e.systems[0].state, Stage::State(State::Startup));
    assert_eq!(e.systems[1].state, Stage::State(State::Update));
    assert_eq!(e.systems[5].state, Stage::PhysicsStep(PhysicsStep));
    assert_eq!(e.systems[5].workload, "step");
}

#[test]
fn renderer_module_registers_record_ordering() {
    let mut e: Engine<&'static str> = Engine::new("g", 0);
    RendererModule::build(&mut e, renderer_systems());
    let s = &e.systems;
    assert_eq!(s.len(), 11);
    assert_eq!(s[0].state, Stage::State(State::Startup));
    assert_eq!(s[1].workload, "render_start");
    assert_eq!(s[1].before, vec!["Record".to_string()]);
    assert!(s[1].label.is_none());
    for i in 2..6 {
        assert_eq!(s[i].state, Stage::Render(Render));
        assert_eq!(s[i].label.as_deref(), Some("Record"));
    }
    assert_eq!(s[6].workload, "render_submit");
    assert_eq!(s[6].after, vec!["Record".to_string()]);
    assert_eq!(s[7].state, Stage::State(State::Cleanup));
    assert_eq!(s[7].label.as_deref(), Some("Wait idle"));
    assert_eq!(s[8].state, Stage::State(State::PreUpdate));
    assert_eq!(s[9].label.as_deref(), Some("Recreate swapchain"));
    assert_eq!(s[10].state, Stage::State(State::Update));
    assert_eq!(s[10].workload, "capture_frame_ui");
}

#[test]
fn frame_stages_skip_startup() {
    let mut e: Engine<u32> = Engine::new("g", 0);
    PhysicsModule::build(&mut e, 0, 1);
    let f = e.frame_stages();
    assert_eq!(
        f,
        vec![
            Stage::PhysicsStep(PhysicsStep),
            Stage::State(State::PreUpdate),
            Stage::State(State::Update),
            Stage::State(State::PostUpdate),
            Stage::State(State::Cleanup),
        ]
    );
    assert!(!f.contains(&Stage::State(State::Startup)));
}

#[test]
fn workload_plan_groups_by_stage() {
    let mut e: Engine<u32> = Engine::new("g", 0);
    CoreModule::build(&mut e, 10, 11);
    e.systems.push(System::new(Stage::Render(Render), 12));
    e.systems.push(System::new(Stage::State(State::Update), 13));
    let plan = e.workload_plan();
    // Five stages of the schedule and the Render stage only a system names.
    assert_eq!(plan.len(), 6);
    let find = |s: Stage| plan.iter().find(|w| w.stage == s).map(|w| w.systems.clone());
    assert_eq!(find(Stage::State(State::Startup)), Some(vec![0]));
    assert_eq!(find(Stage::State(State::Update)), Some(vec![1, 3]));
    assert_eq!(find(Stage::Render(Render)), Some(vec![2]));
    assert_eq!(find(Stage::State(State::Cleanup)), Some(vec![]));
    assert_eq!(find(Stage::PhysicsStep(PhysicsStep)), None);
    // Each system is in exactly one workload.
    for k in 0..4usize {
        assert_eq!(plan.iter().filter(|w| w.systems.contains(&k)).count(), 1);
    }
}

#[test]
fn workload_plan_with_duplicate_stage() {
    let mut e: Engine<u32> = Engine::new("g", 0);
    e.states.push(Stage::State(State::Update));
    e.systems.push(System::new(Stage::State(State::Update), 1));
    let plan = e.workload_plan();
    assert_eq!(plan.len(), 5);
    let updates: Vec<_> = plan.iter().filter(|w| w.stage == Stage::State(State::Update)).collect();
    assert_eq!(updates.len(), 1);
    assert_eq!(updates[0].systems, vec![0]);
}

#[test]
fn custom_stages_get_workloads() {
    let mut e: Engine<u32> = Engine::new("g", 0);
    e.insert_state_before(Stage::State(State::Update), Stage::Custom(0));
    e.systems.push(System::new(Stage::Custom(0), 1));
    e.systems.push(System::new(Stage::Custom(u32::MAX), 2));
    e.systems.push(System::new(Stage::Custom(0), 3));
    let plan = e.workload_plan();
    assert_eq!(plan.len(), 7);
    let find = |s: Stage| plan.iter().find(|w| w.stage == s).map(|w| w.systems.clone());
    assert_eq!(find(Stage::Custom(0)), Some(vec![0, 2]));
    assert_eq!(find(Stage::Custom(u32::MAX)), Some(vec![1]));
    assert_eq!(find(Stage::Custom(1)), None);
    assert_eq!(
        e.frame_stages(),
        vec![
            Stage::State(State::PreUpdate),
            Stage::Custom(0),
            Stage::State(State::Update),
            Stage::State(State::PostUpdate),
            Stage::State(State::Cleanup),
        ]
    );
}
