use engine::events::{
    camera_action, camera_keys, first_resize, movement_axes, requests_exit, toggles_fullscreen, CameraAction, EventQueue,
    CameraKeys, EventRegistry, InputEvent, Key, MoveAxes, UiDrawList,
};

#[test]
fn queue_push_and_clear() {
    let mut q: EventQueue<u32> = EventQueue::default();
    assert!(q.events.is_empty());
    q.push(1);
    q.push(2);
    q.push(3);
    assert_eq!(q.events, vec![1, 2, 3]);
    q.clear();
    assert!(q.events.is_empty());
    q.push(4);
    assert_eq!(q.events, vec![4]);
}

#[test]
fn registry_keeps_order() {
    let mut r: EventRegistry<fn(&mut Vec<u32>)> = EventRegistry::default();
    assert!(r.clear_fns().is_empty());
    r.push(|v| v.push(1));
    r.push(|v| v.clear());
    let mut log = vec![9];
    for f in r.clear_fns() {
        f(&mut log);
    }
    assert!(log.is_empty());
    assert_eq!(r.clear_fns().len(), 2);
}

#[test]
fn draw_list_drains_in_order() {
    let mut l: UiDrawList<&str> = UiDrawList::default();
    l.items.push("camera");
    l.items.push("capture");
    assert_eq!(l.drain(), vec!["camera", "capture"]);
    assert!(l.items.is_empty());
    assert!(l.drain().is_empty());
}

fn key(key: Key, pressed: bool, repeat: bool) -> InputEvent {
    InputEvent::Keyboard { key, pressed, repeat }
}

#[test]
fn first_resize_wins() {
    let events = [
        key(Key::W, true, false),
        InputEvent::Resized { width: 800, height: 600 },
        InputEvent::Resized { width: 1024, height: 768 },
    ];
    assert_eq!(first_resize(&events), Some((800, 600)));
    assert_eq!(first_resize(&events[..1]), None);
    assert_eq!(first_resize(&[]), None);
}

#[test]
fn fullscreen_and_exit() {
    assert!(toggles_fullscreen(&key(Key::F11, true, false)));
    assert!(!toggles_fullscreen(&key(Key::F11, true, true)));
    assert!(!toggles_fullscreen(&key(Key::F11, false, false)));
    assert!(!toggles_fullscreen(&key(Key::W, true, false)));
    assert!(requests_exit(&InputEvent::CloseRequested));
    assert!(!requests_exit(&InputEvent::Other));
}

#[test]
fn camera_key_actions() {
    assert_eq!(camera_action(&key(Key::W, true, false)), CameraAction::SetVelocityZ(1));
    assert_eq!(camera_action(&key(Key::W, false, false)), CameraAction::SetVelocityZ(0));
    assert_eq!(camera_action(&key(Key::S, true, false)), CameraAction::SetVelocityZ(-1));
    assert_eq!(camera_action(&key(Key::A, true, false)), CameraAction::SetVelocityX(-1));
    assert_eq!(camera_action(&key(Key::D, true, false)), CameraAction::SetVelocityX(1));
    assert_eq!(camera_action(&key(Key::D, false, false)), CameraAction::SetVelocityX(0));
    assert_eq!(camera_action(&key(Key::AltLeft, false, false)), CameraAction::GrabCursor);
    assert_eq!(camera_action(&key(Key::AltLeft, true, false)), CameraAction::Nothing);
    assert_eq!(camera_action(&key(Key::W, true, true)), CameraAction::Nothing);
    assert_eq!(camera_action(&key(Key::F11, true, false)), CameraAction::Nothing);
    assert_eq!(camera_action(&InputEvent::Resized { width: 1, height: 1 }), CameraAction::Nothing);
}

fn axes(front: i8, right: i8, up: i8) -> MoveAxes {
    MoveAxes { front, right, up }
}

#[test]
fn movement_keys() {
    assert_eq!(movement_axes(&key(Key::W, true, false)), axes(1, 0, 0));
    assert_eq!(movement_axes(&key(Key::S, true, false)), axes(-1, 0, 0));
    assert_eq!(movement_axes(&key(Key::A, true, false)), axes(0, 1, 0));
    assert_eq!(movement_axes(&key(Key::D, true, false)), axes(0, -1, 0));
    assert_eq!(movement_axes(&key(Key::Space, true, false)), axes(0, 0, 1));
    assert_eq!(movement_axes(&key(Key::ShiftLeft, true, false)), axes(0, 0, -1));
    // Held keys keep moving the camera; releases and other events do not.
    assert_eq!(movement_axes(&key(Key::W, true, true)), axes(1, 0, 0));
    assert_eq!(movement_axes(&key(Key::W, false, false)), axes(0, 0, 0));
    assert_eq!(movement_axes(&key(Key::F11, true, false)), axes(0, 0, 0));
    assert_eq!(movement_axes(&InputEvent::CloseRequested), axes(0, 0, 0));
}

#[test]
fn last_key_event_sets_velocity() {
    let keys = |x: i8, z: i8, g: bool| CameraKeys { velocity_x: x, velocity_z: z, grab_cursor: g };
    assert_eq!(camera_keys(&[], 1, -1), keys(1, -1, false));
    let events = [
        key(Key::W, true, false),
        key(Key::A, true, false),
        key(Key::S, true, false),
        key(Key::W, true, true),
        InputEvent::Resized { width: 2, height: 2 },
    ];
    assert_eq!(camera_keys(&events, 0, 0), keys(-1, -1, false));
    let events = [key(Key::D, true, false), key(Key::D, false, false), key(Key::AltLeft, false, false)];
    assert_eq!(camera_keys(&events, 0, 1), keys(0, 1, true));
    assert_eq!(camera_keys(&[key(Key::AltLeft, true, false)], 0, 0), keys(0, 0, false));
}
