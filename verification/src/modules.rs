use vstd::prelude::*;
use crate::schedule::{Engine, PhysicsStep, Render, Stage, State, System};

verus! {

/// Core systems: the clock is set up once and advanced every frame.
pub struct CoreModule;

/// Window input systems.
pub struct WindowModule;

/// Rigid-body physics: a fixed-step simulation stage before `PreUpdate`.
pub struct PhysicsModule;

/// The Vulkan renderer: a `Render` stage before `PostUpdate` and the systems that record and submit a frame.
pub struct RendererModule;

/// The workloads of the renderer's systems, one per system that its module registers.
pub struct RendererSystems<W> {
    pub setup: W,
    pub start: W,
    pub record_shadows: W,
    pub record_main: W,
    pub record_back: W,
    pub record_imgui: W,
    pub submit: W,
    pub wait: W,
    pub imgui_events: W,
    pub recreate_swapchain: W,
    pub capture_ui: W,
}

impl CoreModule {
    /// Registers `startup` in `Startup` and `update_time` in `Update`.
    pub fn build<W>(engine: &mut Engine<W>, startup: W, update_time: W)
        ensures
            final(engine).states@ == old(engine).states@,
            final(engine).app_data == old(engine).app_data,
            final(engine).systems@.len() == old(engine).systems@.len() + 2,
            forall|i: int| 0 <= i < old(engine).systems@.len() ==> final(engine).systems@[i] == old(engine).systems@[i],
            final(engine).systems@[old(engine).systems@.len() as int].is(
                Stage::State(State::Startup),
                startup,
                None,
                seq![],
                seq![],
            ),
            final(engine).systems@[old(engine).systems@.len() as int + 1].is(
                Stage::State(State::Update),
                update_time,
                None,
                seq![],
                seq![],
            ),
    {
        engine.systems.push(System::new(Stage::State(State::Startup), startup));
        engine.systems.push(System::new(Stage::State(State::Update), update_time));
    }
}

impl WindowModule {
    /// Registers the camera-movement and window-event systems in `Update`.
    pub fn build<W>(engine: &mut Engine<W>, move_camera: W, read_event: W)
        ensures
            final(engine).states@ == old(engine).states@,
            final(engine).app_data == old(engine).app_data,
            final(engine).systems@.len() == old(engine).systems@.len() + 2,
            forall|i: int| 0 <= i < old(engine).systems@.len() ==> final(engine).systems@[i] == old(engine).systems@[i],
            final(engine).systems@[old(engine).systems@.len() as int].is(
                Stage::State(State::Update),
                move_camera,
                None,
                seq![],
                seq![],
            ),
            final(engine).systems@[old(engine).systems@.len() as int + 1].is(
                Stage::State(State::Update),
                read_event,
                None,
                seq![],
                seq![],
            ),
    {
        engine.systems.push(System::new(Stage::State(State::Update), move_camera));
        engine.systems.push(System::new(Stage::State(State::Update), read_event));
    }
}

impl PhysicsModule {
    /// Inserts the `PhysicsStep` stage before `PreUpdate`, registers the world
    /// setup in `Startup` and the stepping system in `PhysicsStep`.
    pub fn build<W>(engine: &mut Engine<W>, setup: W, step: W)
        requires
            old(engine).states@.contains(Stage::State(State::PreUpdate)),
        ensures
            exists|p: int|
                crate::schedule::first_at(old(engine).states@, Stage::State(State::PreUpdate), p)
                    && final(engine).states@ == old(engine).states@.insert(
                    p,
                    Stage::PhysicsStep(PhysicsStep),
                ),
            final(engine).app_data == old(engine).app_data,
            final(engine).systems@.len() == old(engine).systems@.len() + 2,
            forall|i: int| 0 <= i < old(engine).systems@.len() ==> final(engine).systems@[i] == old(engine).systems@[i],
            final(engine).systems@[old(engine).systems@.len() as int].is(
                Stage::State(State::Startup),
                setup,
                None,
                seq![],
                seq![],
            ),
            final(engine).systems@[old(engine).systems@.len() as int + 1].is(
                Stage::PhysicsStep(PhysicsStep),
                step,
                None,
                seq![],
                seq![],
            ),
    {
        engine.insert_state_before(Stage::State(State::PreUpdate), Stage::PhysicsStep(PhysicsStep));
        engine.systems.push(System::new(Stage::State(State::Startup), setup));
        engine.systems.push(System::new(Stage::PhysicsStep(PhysicsStep), step));
    }
}

impl RendererModule {
    /// Inserts the `Render` stage before `PostUpdate` and registers the renderer's
    /// systems: setup in `Startup`; in `Render` the frame start before every
    /// `"Record"` system, the four recording systems labelled `"Record"` and the
    /// submission after them; the idle wait in `Cleanup`; input forwarding and
    /// swapchain recreation in `PreUpdate`; the capture button in `Update`.
    pub fn build<W>(engine: &mut Engine<W>, systems: RendererSystems<W>)
        requires
            old(engine).states@.contains(Stage::State(State::PostUpdate)),
        ensures
            exists|p: int|
                crate::schedule::first_at(old(engine).states@, Stage::State(State::PostUpdate), p)
                    && final(engine).states@ == old(engine).states@.insert(p, Stage::Render(Render)),
            final(engine).app_data == old(engine).app_data,
            final(engine).systems@.len() == old(engine).systems@.len() + 11,
            forall|i: int| 0 <= i < old(engine).systems@.len() ==> final(engine).systems@[i] == old(engine).systems@[i],
            ({
                let s = final(engine).systems@;
                let n = old(engine).systems@.len() as int;
                let render = Stage::Render(Render);
                &&& s[n].is(Stage::State(State::Startup), systems.setup, None, seq![], seq![])
                &&& s[n + 1].is(render, systems.start, None, seq!["Record"@], seq![])
                &&& s[n + 2].is(render, systems.record_shadows, Some("Record"@), seq![], seq![])
                &&& s[n + 3].is(render, systems.record_main, Some("Record"@), seq![], seq![])
                &&& s[n + 4].is(render, systems.record_back, Some("Record"@), seq![], seq![])
                &&& s[n + 5].is(render, systems.record_imgui, Some("Record"@), seq![], seq![])
                &&& s[n + 6].is(render, systems.submit, None, seq![], seq!["Record"@])
                &&& s[n + 7].is(Stage::State(State::Cleanup), systems.wait, Some("Wait idle"@), seq![], seq![])
                &&& s[n + 8].is(Stage::State(State::PreUpdate), systems.imgui_events, None, seq![], seq![])
                &&& s[n + 9].is(
                    Stage::State(State::PreUpdate),
                    systems.recreate_swapchain,
                    Some("Recreate swapchain"@),
                    seq![],
                    seq![],
                )
                &&& s[n + 10].is(Stage::State(State::Update), systems.capture_ui, None, seq![], seq![])
            }),
    {
        engine.insert_state_before(Stage::State(State::PostUpdate), Stage::Render(Render));
        let render = Stage::Render(Render);
        let RendererSystems {
            setup,
            start,
            record_shadows,
            record_main,
            record_back,
            record_imgui,
            submit,
            wait,
            imgui_events,
            recreate_swapchain,
            capture_ui,
        } = systems;
        engine.systems.push(System::new(Stage::State(State::Startup), setup));
        engine.systems.push(System::new(render, start).before("Record"));
        engine.systems.push(System::new(render, record_shadows).label("Record"));
        engine.systems.push(System::new(render, record_main).label("Record"));
        engine.systems.push(System::new(render, record_back).label("Record"));
        engine.systems.push(System::new(render, record_imgui).label("Record"));
        engine.systems.push(System::new(render, submit).after("Record"));
        engine.systems.push(System::new(Stage::State(State::Cleanup), wait).label("Wait idle"));
        engine.systems.push(System::new(Stage::State(State::PreUpdate), imgui_events));
        engine.systems.push(
            System::new(Stage::State(State::PreUpdate), recreate_swapchain).label(
                "Recreate swapchain",
            ),
        );
        engine.systems.push(System::new(Stage::State(State::Update), capture_ui));
    }
}

} // verus!
