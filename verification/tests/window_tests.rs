use clipball::window::{
    bottom_right_in_range, get_mode, get_primary_monitor, position_ball_bottom_right, set_mode,
    set_mode_fits, Position, Size, WindowModeState, WorkArea,
};

const BALL: (u32, u32) = (72, 72);
const PANEL: (u32, u32) = (360, 480);
const PANEL_MIN: (u32, u32) = (300, 360);

#[test]
fn starts_in_ball_mode() {
    let state = WindowModeState::new();
    assert_eq!(get_mode(&state), "ball");
}

#[test]
fn panel_mode_keeps_bottom_right_corner() {
    let mut state = WindowModeState::new();
    let pos = Some(Position { x: 1000, y: 800 });
    let size = Some(Size { width: 72, height: 72 });
    assert!(set_mode_fits("panel", pos, size, BALL, PANEL));
    let layout = set_mode(&mut state, "panel", pos, size, BALL, PANEL, PANEL_MIN);
    assert_eq!(get_mode(&state), "panel");
    assert_eq!(layout.size, Size { width: 360, height: 480 });
    assert_eq!(layout.min_size, Size { width: 300, height: 360 });
    assert_eq!(layout.position, Position { x: 712, y: 392 });
    assert_eq!(layout.position.x + layout.size.width as i32, 1072);
    assert_eq!(layout.position.y + layout.size.height as i32, 872);
}

#[test]
fn ball_mode_from_panel() {
    let mut state = WindowModeState::new();
    let pos = Some(Position { x: 712, y: 392 });
    let size = Some(Size { width: 360, height: 480 });
    let layout = set_mode(&mut state, "ball", pos, size, BALL, PANEL, PANEL_MIN);
    assert_eq!(get_mode(&state), "ball");
    assert_eq!(layout.size, Size { width: 72, height: 72 });
    assert_eq!(layout.min_size, Size { width: 72, height: 72 });
    assert_eq!(layout.position, Position { x: 1000, y: 800 });
}

#[test]
fn unknown_modes_mean_ball() {
    let mut state = WindowModeState::new();
    set_mode(&mut state, "panel", None, None, BALL, PANEL, PANEL_MIN);
    set_mode(&mut state, "other", None, None, BALL, PANEL, PANEL_MIN);
    assert_eq!(get_mode(&state), "ball");
}

#[test]
fn unreadable_geometry_uses_origin_and_ball_size() {
    let mut state = WindowModeState::new();
    let layout = set_mode(&mut state, "panel", None, None, BALL, PANEL, PANEL_MIN);
    assert_eq!(layout.position, Position { x: -288, y: -408 });
}

#[test]
fn overflowing_layouts_are_detected() {
    let pos = Some(Position { x: i32::MAX, y: 0 });
    let size = Some(Size { width: 72, height: 72 });
    assert!(!set_mode_fits("panel", pos, size, BALL, PANEL));
    let low = Some(Position { x: i32::MIN, y: 0 });
    let small = Some(Size { width: 0, height: 0 });
    assert!(!set_mode_fits("panel", low, small, BALL, PANEL));
}

#[test]
fn ball_sits_in_bottom_right_corner() {
    let wa = WorkArea { x: 0, y: 0, width: 1920, height: 1040 };
    assert!(bottom_right_in_range(wa, BALL));
    assert_eq!(position_ball_bottom_right(wa, BALL), Position { x: 1816, y: 936 });
    let second = WorkArea { x: -1280, y: 100, width: 1280, height: 984 };
    assert_eq!(position_ball_bottom_right(second, BALL), Position { x: -104, y: 980 });
    let edge = WorkArea { x: i32::MIN, y: 0, width: 0, height: 100 };
    assert!(!bottom_right_in_range(edge, BALL));
}

#[test]
fn primary_monitor_preferred() {
    let a = WorkArea { x: 0, y: 0, width: 10, height: 10 };
    let b = WorkArea { x: 5, y: 5, width: 20, height: 20 };
    assert_eq!(get_primary_monitor(Some(a), &[b]), Some(a));
    assert_eq!(get_primary_monitor(None, &[b, a]), Some(b));
    assert_eq!(get_primary_monitor(None, &[]), None);
}
