use vstd::prelude::*;

verus! {

/// The events of one type received during the current frame, oldest first.
pub struct EventQueue<T> {
    pub events: Vec<T>,
}

impl<T> EventQueue<T> {
    /// An empty queue.
    pub fn new() -> (q: Self)
        ensures
            q.events@ == Seq::<T>::empty(),
    {
        EventQueue { events: Vec::new() }
    }

    /// Appends `event` after the events already queued.
    pub fn push(&mut self, event: T)
        ensures
            final(self).events@ == old(self).events@.push(event),
    {
        self.events.push(event);
    }

    /// Drops every queued event; done at the end of each frame.
    pub fn clear(&mut self)
        ensures
            final(self).events@ == Seq::<T>::empty(),
    {
        self.events.clear();
    }
}

impl<T> Default for EventQueue<T> {
    fn default() -> (q: Self)
        ensures
            q.events@ == Seq::<T>::empty(),
    {
        EventQueue::new()
    }
}

/// The functions that clear each registered event queue at the end of a frame.
pub struct EventRegistry<F> {
    clear_fns: Vec<F>,
}

impl<F> EventRegistry<F> {
    pub closed spec fn fns(&self) -> Seq<F> {
        self.clear_fns@
    }

    /// A registry with no functions.
    pub fn new() -> (r: Self)
        ensures
            r.fns() == Seq::<F>::empty(),
    {
        EventRegistry { clear_fns: Vec::new() }
    }

    /// Registers `f` after the functions already registered.
    pub fn push(&mut self, f: F)
        ensures
            final(self).fns() == old(self).fns().push(f),
    {
        self.clear_fns.push(f);
    }

    /// The registered functions, in registration order.
    pub fn clear_fns(&self) -> (r: &[F])
        ensures
            r@ == self.fns(),
    {
        self.clear_fns.as_slice()
    }
}

impl<F> Default for EventRegistry<F> {
    fn default() -> (r: Self)
        ensures
            r.fns() == Seq::<F>::empty(),
    {
        EventRegistry::new()
    }
}

/// The user-interface items to draw in the current frame, in the order they were added.
pub struct UiDrawList<D> {
    pub items: Vec<D>,
}

impl<D> UiDrawList<D> {
    /// An empty list.
    pub fn new() -> (l: Self)
        ensures
            l.items@ == Seq::<D>::empty(),
    {
        UiDrawList { items: Vec::new() }
    }

    /// Takes every item, in the order they were added, and leaves the list empty:
    /// each item is drawn in exactly one frame.
    pub fn drain(&mut self) -> (r: Vec<D>)
        ensures
            r@ == old(self).items@,
            final(self).items@ == Seq::<D>::empty(),
    {
        let mut taken: Vec<D> = Vec::new();
        std::mem::swap(&mut taken, &mut self.items);
        taken
    }
}

impl<D> Default for UiDrawList<D> {
    fn default() -> (l: Self)
        ensures
            l.items@ == Seq::<D>::empty(),
    {
        UiDrawList::new()
    }
}

/// The keys the engine reacts to.
#[derive(Clone, Copy, Debug, PartialEq, Eq, Structural)]
pub enum Key {
    W,
    S,
    A,
    D,
    AltLeft,
    Space,
    ShiftLeft,
    F11,
    Other,
}

/// A window event, reduced to what the engine's decisions read.
#[derive(Clone, Copy, Debug, PartialEq, Eq, Structural)]
pub enum InputEvent {
    Keyboard { key: Key, pressed: bool, repeat: bool },
    Resized { width: u32, height: u32 },
    CloseRequested,
    Other,
}

/// The size of the first resize among `events`, if there is one: the swapchain
/// is recreated once per frame, for that size.
pub fn first_resize(events: &[InputEvent]) -> (r: Option<(u32, u32)>)
    ensures
        r is None <==> forall|i: int| 0 <= i < events@.len() ==> !(#[trigger] events@[i] is Resized),
        r matches Some((w, h)) ==> exists|i: int|
            0 <= i < events@.len() && events@[i] == (InputEvent::Resized { width: w, height: h })
                && forall|j: int| 0 <= j < i ==> !(#[trigger] events@[j] is Resized),
{
    let mut i: usize = 0;
    while i < events.len()
        invariant
            i <= events@.len(),
            forall|j: int| 0 <= j < i ==> !(#[trigger] events@[j] is Resized),
        decreases events.len() - i,
    {
        match events[i] {
            InputEvent::Resized { width, height } => {
                return Some((width, height));
            },
            _ => {},
        }
        i = i + 1;
    }
    None
}

/// A fresh press of F11 switches between windowed and borderless fullscreen.
pub fn toggles_fullscreen(event: &InputEvent) -> (r: bool)
    ensures
        r <==> *event == (InputEvent::Keyboard { key: Key::F11, pressed: true, repeat: false }),
{
    match event {
        InputEvent::Keyboard { key: Key::F11, pressed: true, repeat: false } => true,
        _ => false,
    }
}

/// Closing the window ends the event loop.
pub fn requests_exit(event: &InputEvent) -> (r: bool)
    ensures
        r <==> *event == InputEvent::CloseRequested,
{
    match event {
        InputEvent::CloseRequested => true,
        _ => false,
    }
}

/// What a key event does to the camera: set a component of its velocity
/// (forward on Z, sideways on X, -1, 0 or 1), lock the cursor, or nothing.
#[derive(Clone, Copy, Debug, PartialEq, Eq, Structural)]
pub enum CameraAction {
    SetVelocityZ(i8),
    SetVelocityX(i8),
    GrabCursor,
    Nothing,
}

/// The camera's response to `event`: W and S drive forward and back while held,
/// A and D left and right, releasing left Alt locks and hides the cursor;
/// repeated key events and everything else are ignored.
pub open spec fn camera_action_spec(event: InputEvent) -> CameraAction {
    match event {
        InputEvent::Keyboard { key, pressed, repeat: false } => match key {
            Key::W => CameraAction::SetVelocityZ(if pressed { 1i8 } else { 0i8 }),
            Key::S => CameraAction::SetVelocityZ(if pressed { -1i8 } else { 0i8 }),
            Key::A => CameraAction::SetVelocityX(if pressed { -1i8 } else { 0i8 }),
            Key::D => CameraAction::SetVelocityX(if pressed { 1i8 } else { 0i8 }),
            Key::AltLeft => if pressed { CameraAction::Nothing } else { CameraAction::GrabCursor },
            _ => CameraAction::Nothing,
        },
        _ => CameraAction::Nothing,
    }
}

/// The camera's response to `event`, computed.
pub fn camera_action(event: &InputEvent) -> (r: CameraAction)
    ensures
        r == camera_action_spec(*event),
{
    match event {
        InputEvent::Keyboard { key, pressed, repeat: false } => {
            let p = *pressed;
            match key {
                Key::W => CameraAction::SetVelocityZ(if p { 1 } else { 0 }),
                Key::S => CameraAction::SetVelocityZ(if p { -1 } else { 0 }),
                Key::A => CameraAction::SetVelocityX(if p { -1 } else { 0 }),
                Key::D => CameraAction::SetVelocityX(if p { 1 } else { 0 }),
                Key::AltLeft => if p { CameraAction::Nothing } else { CameraAction::GrabCursor },
                _ => CameraAction::Nothing,
            }
        },
        _ => CameraAction::Nothing,
    }
}

/// The camera's sideways and forward velocity after a frame's key events, and
/// whether the cursor is to be locked.
#[derive(Clone, Copy, Debug, PartialEq, Eq, Structural)]
pub struct CameraKeys {
    pub velocity_x: i8,
    pub velocity_z: i8,
    pub grab_cursor: bool,
}

/// `keys` after the response to `event`.
pub open spec fn apply_camera_action(keys: CameraKeys, event: InputEvent) -> CameraKeys {
    match camera_action_spec(event) {
        CameraAction::SetVelocityZ(v) => CameraKeys { velocity_z: v, ..keys },
        CameraAction::SetVelocityX(v) => CameraKeys { velocity_x: v, ..keys },
        CameraAction::GrabCursor => CameraKeys { grab_cursor: true, ..keys },
        CameraAction::Nothing => keys,
    }
}

/// `keys` after the responses to `events`, in order.
pub open spec fn camera_keys_after(keys: CameraKeys, events: Seq<InputEvent>) -> CameraKeys
    decreases events.len(),
{
    if events.len() == 0 {
        keys
    } else {
        apply_camera_action(camera_keys_after(keys, events.drop_last()), events.last())
    }
}

/// The camera's velocity after the frame's `events`, starting from `velocity_x`
/// and `velocity_z`: the last W/S event decides the forward velocity, the last
/// A/D event the sideways one, and the cursor is locked if left Alt was released.
pub fn camera_keys(events: &[InputEvent], velocity_x: i8, velocity_z: i8) -> (r: CameraKeys)
    ensures
        r == camera_keys_after(CameraKeys { velocity_x, velocity_z, grab_cursor: false }, events@),
{
    let ghost start = CameraKeys { velocity_x, velocity_z, grab_cursor: false };
    let mut keys = CameraKeys { velocity_x, velocity_z, grab_cursor: false };
    let mut i: usize = 0;
    while i < events.len()
        invariant
            i <= events@.len(),
            keys == camera_keys_after(start, events@.take(i as int)),
        decreases events.len() - i,
    {
        proof {
            assert(events@.take(i as int + 1).drop_last() =~= events@.take(i as int));
        }
        match camera_action(&events[i]) {
            CameraAction::SetVelocityZ(v) => {
                keys = CameraKeys { velocity_z: v, ..keys };
            },
            CameraAction::SetVelocityX(v) => {
                keys = CameraKeys { velocity_x: v, ..keys };
            },
            CameraAction::GrabCursor => {
                keys = CameraKeys { grab_cursor: true, ..keys };
            },
            CameraAction::Nothing => {},
        }
        i = i + 1;
    }
    assert(events@.take(i as int) =~= events@);
    keys
}

/// A camera move as multiples of the camera's front, right and up axes.
#[derive(Clone, Copy, Debug, PartialEq, Eq, Structural)]
pub struct MoveAxes {
    pub front: i8,
    pub right: i8,
    pub up: i8,
}

/// The direction a key press moves the camera in: W forward, S back, A along
/// its right axis, D against it, space up, left shift down; releases and other
/// events do not move it.
pub fn movement_axes(event: &InputEvent) -> (r: MoveAxes)
    ensures
        r == (match *event {
            InputEvent::Keyboard { key, pressed: true, .. } => match key {
                Key::W => MoveAxes { front: 1i8, right: 0i8, up: 0i8 },
                Key::S => MoveAxes { front: -1i8, right: 0i8, up: 0i8 },
                Key::A => MoveAxes { front: 0i8, right: 1i8, up: 0i8 },
                Key::D => MoveAxes { front: 0i8, right: -1i8, up: 0i8 },
                Key::Space => MoveAxes { front: 0i8, right: 0i8, up: 1i8 },
                Key::ShiftLeft => MoveAxes { front: 0i8, right: 0i8, up: -1i8 },
                _ => MoveAxes { front: 0i8, right: 0i8, up: 0i8 },
            },
            _ => MoveAxes { front: 0i8, right: 0i8, up: 0i8 },
        }),
{
    match event {
        InputEvent::Keyboard { key, pressed: true, .. } => match key {
            Key::W => MoveAxes { front: 1i8, right: 0i8, up: 0i8 },
            Key::S => MoveAxes { front: -1i8, right: 0i8, up: 0i8 },
            Key::A => MoveAxes { front: 0i8, right: 1i8, up: 0i8 },
            Key::D => MoveAxes { front: 0i8, right: -1i8, up: 0i8 },
            Key::Space => MoveAxes { front: 0i8, right: 0i8, up: 1i8 },
            Key::ShiftLeft => MoveAxes { front: 0i8, right: 0i8, up: -1i8 },
            _ => MoveAxes { front: 0i8, right: 0i8, up: 0i8 },
        },
        _ => MoveAxes { front: 0i8, right: 0i8, up: 0i8 },
    }
}

/// Whether `event` is a fresh (not repeated) event of `key`.
pub open spec fn fresh_key_event(event: InputEvent, key: Key) -> bool {
    event matches InputEvent::Keyboard { key: k, repeat: false, .. } && k == key
}

/// Releasing a movement key stops the motion along its axis: a fresh release
/// of W or S sets the forward velocity to 0, one of A or D the sideways
/// velocity. Pressing one sets that velocity to a unit in its direction: W and
/// S opposite ways forward, A and D opposite ways sideways.
pub proof fn lemma_movement_keys(key: Key)
    ensures
        (key == Key::W || key == Key::S) ==> camera_action_spec(
            InputEvent::Keyboard { key, pressed: false, repeat: false },
        ) == CameraAction::SetVelocityZ(0i8),
        (key == Key::A || key == Key::D) ==> camera_action_spec(
            InputEvent::Keyboard { key, pressed: false, repeat: false },
        ) == CameraAction::SetVelocityX(0i8),
        camera_action_spec(InputEvent::Keyboard { key: Key::W, pressed: true, repeat: false })
            == CameraAction::SetVelocityZ(1i8),
        camera_action_spec(InputEvent::Keyboard { key: Key::S, pressed: true, repeat: false })
            == CameraAction::SetVelocityZ(-1i8),
        camera_action_spec(InputEvent::Keyboard { key: Key::D, pressed: true, repeat: false })
            == CameraAction::SetVelocityX(1i8),
        camera_action_spec(InputEvent::Keyboard { key: Key::A, pressed: true, repeat: false })
            == CameraAction::SetVelocityX(-1i8),
{
}

/// Only fresh W/S events touch the forward velocity, only fresh A/D events the
/// sideways one, and only a fresh release of left Alt locks the cursor: every
/// other event (another key, a repeated key, a resize, a close) does nothing.
pub proof fn lemma_other_events_do_nothing(event: InputEvent)
    ensures
        (camera_action_spec(event) is SetVelocityZ) ==> (fresh_key_event(event, Key::W) || fresh_key_event(
            event,
            Key::S,
        )),
        (camera_action_spec(event) is SetVelocityX) ==> (fresh_key_event(event, Key::A) || fresh_key_event(
            event,
            Key::D,
        )),
        (camera_action_spec(event) is GrabCursor) <==> event == (InputEvent::Keyboard {
            key: Key::AltLeft,
            pressed: false,
            repeat: false,
        }),
        !(fresh_key_event(event, Key::W) || fresh_key_event(event, Key::S) || fresh_key_event(event, Key::A)
            || fresh_key_event(event, Key::D) || fresh_key_event(event, Key::AltLeft)) ==> camera_action_spec(event)
            == CameraAction::Nothing,
{
}

/// Over a frame's events, the forward velocity changes only through fresh W/S
/// events and the sideways one only through fresh A/D events; and when the last
/// such event is a release, the velocity along its axis ends at 0.
pub proof fn lemma_camera_keys_axes(keys: CameraKeys, events: Seq<InputEvent>)
    ensures
        (forall|i: int|
            0 <= i < events.len() ==> !fresh_key_event(#[trigger] events[i], Key::W) && !fresh_key_event(
                events[i],
                Key::S,
            )) ==> camera_keys_after(keys, events).velocity_z == keys.velocity_z,
        (forall|i: int|
            0 <= i < events.len() ==> !fresh_key_event(#[trigger] events[i], Key::A) && !fresh_key_event(
                events[i],
                Key::D,
            )) ==> camera_keys_after(keys, events).velocity_x == keys.velocity_x,
        events.len() > 0 && (events.last() matches InputEvent::Keyboard { key, pressed: false, repeat: false }
            && (key == Key::W || key == Key::S)) ==> camera_keys_after(keys, events).velocity_z == 0,
        events.len() > 0 && (events.last() matches InputEvent::Keyboard { key, pressed: false, repeat: false }
            && (key == Key::A || key == Key::D)) ==> camera_keys_after(keys, events).velocity_x == 0,
        (forall|i: int| 0 <= i < events.len() ==> !fresh_key_event(#[trigger] events[i], Key::AltLeft))
            ==> camera_keys_after(keys, events).grab_cursor == keys.grab_cursor,
    decreases events.len(),
{
    if events.len() > 0 {
        let init = events.drop_last();
        lemma_camera_keys_axes(keys, init);
        lemma_other_events_do_nothing(events.last());
        assert forall|i: int| 0 <= i < init.len() implies #[trigger] init[i] == events[i] by {}
    }
}

} // verus!
