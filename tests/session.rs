use roblox_browser::frame::Frame;
use roblox_browser::mailbox::Mailbox;
use roblox_browser::pointer::{ButtonState, PointerKind};
use roblox_browser::protocol::{ClientCommand, MouseButton, MouseEvent, ServerCommand};
use roblox_browser::session::{plan_command, CommandAction, FrameSync};

#[test]
fn mailbox_keeps_latest() {
    let mut m = Mailbox::new();
    assert!(m.is_empty());
    m.publish(1);
    m.publish(2);
    m.publish(3);
    assert_eq!(m.take(), Some(3));
    assert_eq!(m.take(), None);
}

#[test]
fn press_then_move_holds_left() {
    let mut s = ButtonState::new();
    let p = s.apply(1, 2, MouseEvent::Pressed(MouseButton::Left));
    assert_eq!(p.kind, PointerKind::Pressed);
    assert_eq!(p.click_count, Some(1));
    assert_eq!(p.buttons, 1);
    let m = s.apply(3, 4, MouseEvent::Move);
    assert_eq!(m.kind, PointerKind::Moved);
    assert_eq!(m.button, Some(MouseButton::Left));
    assert_eq!(m.click_count, None);
    assert_eq!((m.x, m.y), (3, 4));
}

#[test]
fn release_left_leaves_right_held() {
    let mut s = ButtonState::new();
    s.apply(0, 0, MouseEvent::Pressed(MouseButton::Left));
    let both = s.apply(0, 0, MouseEvent::Pressed(MouseButton::Right));
    assert_eq!(both.buttons, 3);
    s.apply(0, 0, MouseEvent::Released(MouseButton::Left));
    let m = s.apply(0, 0, MouseEvent::Move);
    assert_eq!(m.button, Some(MouseButton::Right));
    assert_eq!(m.buttons, 2);
}

#[test]
fn release_without_press_changes_nothing() {
    let mut s = ButtonState::new();
    let r = s.apply(0, 0, MouseEvent::Released(MouseButton::Right));
    assert_eq!(s, ButtonState::new());
    assert_eq!(r.buttons, 0);
    assert_eq!(r.button, Some(MouseButton::Right));
    assert_eq!(s.apply(0, 0, MouseEvent::Move).button, None);
}

#[test]
fn plan_command_maps_each_kind() {
    let mut s = ButtonState::new();
    assert_eq!(plan_command(ClientCommand::Reset, &mut s), CommandAction::Resync);
    assert_eq!(
        plan_command(ClientCommand::Load { url: "a".to_string() }, &mut s),
        CommandAction::Navigate("a".to_string())
    );
    match plan_command(
        ClientCommand::Mouse { x: 5, y: 6, event: MouseEvent::Pressed(MouseButton::Right) },
        &mut s,
    ) {
        CommandAction::Pointer(p) => {
            assert_eq!(p.button, Some(MouseButton::Right));
            assert_eq!(p.buttons, 2);
        }
        _ => panic!("expected pointer input"),
    }
    assert!(s.right && !s.left);
}

#[test]
fn reset_without_frame_is_noop() {
    let mut sync = FrameSync::new();
    assert!(sync.reset(None).is_empty());
    assert!(sync.prev.is_none());
}

#[test]
fn reset_resends_last_frame_in_full() {
    let f = Frame::new(200, 100, vec![1; 200 * 100 * 4]).unwrap();
    let mut sync = FrameSync::new();
    sync.handle_frame(f.clone());
    assert!(sync.handle_frame(f.clone()).is_empty());
    let cmds = sync.reset(None);
    assert_eq!(cmds[0], ServerCommand::Resize { width: 200, height: 100 });
    assert_eq!(cmds.len(), 3);
    assert_eq!(sync.prev, Some(f));
}

#[test]
fn reset_prefers_waiting_frame() {
    let old = Frame::new(1, 1, vec![0; 4]).unwrap();
    let new = Frame::new(2, 1, vec![0; 8]).unwrap();
    let mut sync = FrameSync::new();
    sync.handle_frame(old);
    let cmds = sync.reset(Some(new.clone()));
    assert_eq!(cmds[0], ServerCommand::Resize { width: 2, height: 1 });
    assert_eq!(sync.prev, Some(new));
}
