use std::sync::atomic::{AtomicBool, Ordering};
use std::sync::Arc;
use termix::surface::{FrameGeometry, SurfaceState, ToggleAction};
use termix::term::{launch_command, TermEventHandler, TermEventKind, TerminalBackend};

#[test]
fn new_surface() {
    let s = SurfaceState::new(40);
    assert_eq!(s.screen_width, 1920);
    assert!(!s.configured);
    assert!(!s.visible);
    assert!(!s.keyboard_bound);
    assert_eq!(s.target_height(), 240);
}

#[test]
fn target_heights() {
    assert_eq!(SurfaceState::new(0).target_height(), 0);
    assert_eq!(SurfaceState::new(33).target_height(), 198);
    assert_eq!(SurfaceState::new(100).target_height(), 600);
    assert_eq!(SurfaceState::new(255).target_height(), 1530);
    let mut prev = 0;
    for p in 0..=255u8 {
        let h = SurfaceState::new(p).target_height();
        assert!(h >= prev);
        prev = h;
    }
}

#[test]
fn toggling() {
    let mut s = SurfaceState::new(50);
    assert_eq!(s.apply_toggle(false), ToggleAction::Unchanged);
    assert_eq!(s.apply_toggle(true), ToggleAction::Show);
    assert!(s.visible);
    assert_eq!(s.apply_toggle(true), ToggleAction::Unchanged);
    assert_eq!(s.apply_toggle(false), ToggleAction::Hide);
    assert!(!s.visible);
    let before = s;
    assert_eq!(s.apply_toggle(!!s.visible), ToggleAction::Unchanged);
    assert_eq!(s, before);
}

#[test]
fn configure_and_outputs() {
    let mut s = SurfaceState::new(50);
    assert!(!s.configure(0));
    assert!(s.configured);
    assert_eq!(s.screen_width, 1920);
    s.output_mode(2560);
    assert_eq!(s.screen_width, 2560);
    s.apply_toggle(true);
    assert!(s.configure(1280));
    assert_eq!(s.screen_width, 1280);
}

#[test]
fn frame_geometry() {
    let mut s = SurfaceState::new(50);
    assert_eq!(s.frame_geometry(), None);
    s.configure(1000);
    assert_eq!(
        s.frame_geometry(),
        Some(FrameGeometry { width: 1000, height: 300, stride: 4000, pool_len: 1_200_000 })
    );
    let mut z = SurfaceState::new(0);
    z.configure(0);
    z.output_mode(0);
    assert_eq!(z.frame_geometry(), Some(FrameGeometry { width: 1, height: 1, stride: 4, pool_len: 4 }));
    let mut big = SurfaceState::new(100);
    big.configure(u32::MAX);
    assert_eq!(big.frame_geometry(), None);
}

#[test]
fn keyboard_capability() {
    let mut s = SurfaceState::new(50);
    assert!(!s.capability_added(false));
    assert!(s.capability_added(true));
    assert!(!s.capability_added(true));
    s.capability_removed(false);
    assert!(s.keyboard_bound);
    s.capability_removed(true);
    assert!(!s.keyboard_bound);
    assert!(s.capability_added(true));
}

#[test]
fn events_mark_dirty() {
    let handler = TermEventHandler { dirty: Arc::new(AtomicBool::new(false)) };
    assert!(!handler.send_event(TermEventKind::Other));
    assert!(!handler.dirty.load(Ordering::Relaxed));
    for kind in [TermEventKind::Wakeup, TermEventKind::Bell, TermEventKind::ResetTitle, TermEventKind::Exit] {
        handler.dirty.store(false, Ordering::Relaxed);
        assert!(handler.send_event(kind));
        assert!(handler.dirty.load(Ordering::Relaxed));
    }
}

#[test]
fn launch_commands() {
    let foot = launch_command(TerminalBackend::Foot);
    assert_eq!(foot.program, "foot");
    assert_eq!(foot.args, vec!["--app-id", "termix", "--", "zellij"]);
    let kitty = launch_command(TerminalBackend::Kitty);
    assert_eq!(kitty.program, "kitty");
    assert_eq!(kitty.args, vec!["--class", "termix", "--", "zellij"]);
}
