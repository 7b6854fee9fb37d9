use invader::events::EventQueue;
use invader::geometry::{PixelSize, WorldDim, WorldVec};
use invader::input::{apply_backend_event, BackendEvent, InputEvent, Key, KeysRes};
use invader::scene::{project, scene_render, CameraRes, SpriteCom, TextCom};
use invader::schedule::{
    check_schedule, clamp_delta, frame_ready, target_period_us, SchedError, SubsystemDecl,
};
use invader::physics::TransformCom;
use invader::world::World;
use invader::{AppState, StateRes};

#[test]
fn key_to_char_follows_shift_state() {
    assert_eq!(Key::H.to_char(false), Some('h'));
    assert_eq!(Key::H.to_char(true), Some('H'));
    assert_eq!(Key::One.to_char(false), Some('1'));
    assert_eq!(Key::One.to_char(true), Some('!'));
    assert_eq!(Key::Space.to_char(true), Some(' '));
    assert_eq!(Key::Backspace.to_char(false), None);
    assert_eq!(Key::Shift.to_char(false), None);
}

#[test]
fn held_keys_are_tracked() {
    let mut keys = KeysRes::new();
    assert!(!keys.pressed(Key::Shift));
    keys.press(Key::Shift);
    keys.press(Key::A);
    keys.press(Key::Shift);
    assert!(keys.pressed(Key::Shift));
    assert!(keys.pressed(Key::A));
    keys.release(Key::Shift);
    assert!(!keys.pressed(Key::Shift));
    assert!(keys.pressed(Key::A));
}

#[test]
fn backend_events_update_resources() {
    let mut state = StateRes::new();
    state.app = AppState::Running;
    let mut screen = PixelSize { w: 800, h: 600 };
    let mut keys = KeysRes::new();
    let mut queue: EventQueue<InputEvent> = EventQueue::new();

    apply_backend_event(
        BackendEvent::Resized(1024, 768),
        &mut state,
        &mut screen,
        &mut keys,
        &mut queue,
    );
    assert_eq!(screen, PixelSize { w: 1024, h: 768 });
    assert_eq!(state.app, AppState::Running);

    apply_backend_event(
        BackendEvent::KeyDown(Key::W),
        &mut state,
        &mut screen,
        &mut keys,
        &mut queue,
    );
    assert!(keys.pressed(Key::W));
    assert_eq!(queue.len(), 1);
    assert_eq!(*queue.get(0), InputEvent::KeyDown(Key::W));

    apply_backend_event(
        BackendEvent::MouseDown(3, 4),
        &mut state,
        &mut screen,
        &mut keys,
        &mut queue,
    );
    assert_eq!(*queue.get(1), InputEvent::MouseDown(3, 4));

    apply_backend_event(BackendEvent::Quit, &mut state, &mut screen, &mut keys, &mut queue);
    assert_eq!(state.app, AppState::Stopping);
    assert!(!state.is_running());

    queue.clear();
    assert_eq!(queue.len(), 0);
}

#[test]
fn stalled_frame_publishes_zero_delta() {
    // at an elapsed time of three target periods the published delta is 0
    let target = target_period_us(60);
    assert_eq!(target, 16_666);
    assert_eq!(clamp_delta(3 * target, target), 0);
    assert_eq!(clamp_delta(target, target), target);
    assert_eq!(clamp_delta(2 * target, target), 2 * target);
    assert_eq!(clamp_delta(2 * target + 1, target), 0);
    assert!(frame_ready(target, target));
    assert!(!frame_ready(target - 1, target));
}

fn decl(
    name: &str,
    reads: Vec<u32>,
    writes: Vec<u32>,
    deps: Vec<usize>,
    pinned: bool,
) -> SubsystemDecl {
    SubsystemDecl { name: name.to_string(), reads, writes, deps, pinned }
}

#[test]
fn valid_schedule_passes() {
    // persistence and network sync run first, physics depends on network
    // sync, and the pinned input / audio / render set comes last
    let systems = vec![
        decl("persist", vec![], vec![1], vec![], false),
        decl("network_sync", vec![], vec![2], vec![], false),
        decl("physics", vec![2], vec![3], vec![1], false),
        decl("input", vec![], vec![4], vec![], true),
        decl("audio", vec![4], vec![], vec![], true),
        decl("render", vec![3, 4], vec![5], vec![], true),
    ];
    assert_eq!(check_schedule(&systems), Ok(()));
}

#[test]
fn conflicting_access_is_rejected() {
    // two concurrent subsystems both write resource 7
    let systems = vec![
        decl("a", vec![], vec![7], vec![], false),
        decl("b", vec![], vec![7], vec![], false),
    ];
    assert_eq!(check_schedule(&systems), Err(SchedError::AccessConflict));
}

#[test]
fn dependency_after_dependent_is_rejected() {
    let systems = vec![
        decl("a", vec![], vec![1], vec![1], false),
        decl("b", vec![], vec![2], vec![], false),
    ];
    assert_eq!(check_schedule(&systems), Err(SchedError::BadOrder));
}

#[test]
fn unpinned_after_pinned_is_rejected() {
    let systems = vec![
        decl("a", vec![], vec![1], vec![], true),
        decl("b", vec![], vec![2], vec![], false),
    ];
    assert_eq!(check_schedule(&systems), Err(SchedError::BadOrder));
}

#[test]
fn entities_come_alive_at_commit() {
    let mut w = World::new();
    let id = w.create_entity();
    assert!(w.attach_transform(id, TransformCom::new(WorldVec::new(10, 20))));
    // deferred: not alive before the commit point
    assert!(!w.slots[id.index].alive);
    w.commit();
    assert!(w.slots[id.index].alive);
    let t = w.get_transform(id).unwrap();
    assert_eq!(t.pos, WorldVec::new(10, 20));
}

#[test]
fn destroyed_entity_goes_stale() {
    let mut w = World::new();
    let id = w.create_entity();
    assert!(w.attach_transform(id, TransformCom::new(WorldVec::new(1, 2))));
    w.commit();
    w.destroy_entity(id);
    // still present until the commit point
    assert!(w.get_transform(id).is_some());
    w.commit();
    // the slot's generation moved on: the identifier is stale
    assert!(w.get_transform(id).is_none());
    assert!(!w.attach_transform(id, TransformCom::new(WorldVec::new(3, 4))));
    assert_eq!(w.slots[id.index].generation, id.generation + 1);
}

#[test]
fn projection_is_exact() {
    let cam = CameraRes::default();
    let r = project(&cam, WorldVec::new(0, 0), WorldDim::new(10, 20)).unwrap();
    assert_eq!((r.pos.x, r.pos.y, r.size.w, r.size.h), (400, 300, 10, 20));

    let zoomed = CameraRes::new(WorldVec::new(100, -50), 2, 1, PixelSize { w: 800, h: 600 });
    let r = project(&zoomed, WorldVec::new(130, -20), WorldDim::new(15, 5)).unwrap();
    assert_eq!((r.pos.x, r.pos.y, r.size.w, r.size.h), (460, 360, 30, 10));

    let half = CameraRes::new(WorldVec::new(0, 0), 1, 2, PixelSize { w: 800, h: 600 });
    let r = project(&half, WorldVec::new(-101, 7), WorldDim::new(9, 9)).unwrap();
    assert_eq!((r.pos.x, r.pos.y, r.size.w, r.size.h), (350, 303, 4, 4));

    let broken = CameraRes::new(WorldVec::new(0, 0), 1, 0, PixelSize { w: 800, h: 600 });
    assert!(project(&broken, WorldVec::new(0, 0), WorldDim::new(1, 1)).is_none());
}

#[test]
fn scene_renders_sprites_then_text() {
    let mut w = World::new();
    let a = w.create_entity();
    assert!(w.attach_transform(a, TransformCom::new(WorldVec::new(0, 0))));
    assert!(w.attach_sprite(a, SpriteCom::new("ship", WorldDim::new(16, 16))));
    let b = w.create_entity();
    assert!(w.attach_transform(b, TransformCom::new(WorldVec::new(5, 5))));
    assert!(w.attach_text(b, TextCom::new("score", "mono", WorldDim::new(64, 8))));
    w.commit();
    let cmds = scene_render(&w, &CameraRes::default());
    assert_eq!(cmds.len(), 2);
    match &cmds[0] {
        invader::layout::RenderCmd::Sprite { key, rect } => {
            assert_eq!(key, "ship");
            assert_eq!((rect.pos.x, rect.pos.y), (400, 300));
        }
        _ => panic!("sprite first"),
    }
    match &cmds[1] {
        invader::layout::RenderCmd::Text { text, font, rect } => {
            assert_eq!(text, "score");
            assert_eq!(font, "mono");
            assert_eq!((rect.pos.x, rect.pos.y), (405, 305));
        }
        _ => panic!("text second"),
    }
}

#[test]
fn detached_component_is_gone() {
    let mut w = World::new();
    let id = w.create_entity();
    assert!(w.attach_transform(id, TransformCom::new(WorldVec::new(4, 4))));
    w.commit();
    assert!(w.get_transform(id).is_some());
    assert!(w.detach_transform(id));
    assert!(w.get_transform(id).is_none());
}
