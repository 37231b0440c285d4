use clipball::commands::{
    autostart_action, initial_ball_position, menu_action, persists_position, shortcut_action,
    toggle_target, AutostartAction, MenuAction, ShortcutAction,
};
use clipball::monitor::ClipboardWatch;
use clipball::settings::Settings;
use clipball::window::Position;

#[test]
fn toggle_switches_modes() {
    assert_eq!(toggle_target("panel"), "ball");
    assert_eq!(toggle_target("ball"), "panel");
    assert_eq!(toggle_target("anything"), "panel");
    assert_eq!(toggle_target(toggle_target("ball")), "ball");
    assert_eq!(toggle_target(toggle_target("panel")), "panel");
}

#[test]
fn only_ball_mode_saves_the_position() {
    assert!(persists_position("ball"));
    assert!(!persists_position("panel"));
    assert!(!persists_position("Ball"));
}

#[test]
fn autostart_is_synchronised() {
    assert_eq!(autostart_action(true, false), AutostartAction::Enable);
    assert_eq!(autostart_action(false, true), AutostartAction::Disable);
    assert_eq!(autostart_action(true, true), AutostartAction::Keep);
    assert_eq!(autostart_action(false, false), AutostartAction::Keep);
}

#[test]
fn tray_menu_entries() {
    assert_eq!(menu_action("open"), MenuAction::OpenPanel);
    assert_eq!(menu_action("ball"), MenuAction::ShowBall);
    assert_eq!(menu_action("clear"), MenuAction::ClearHistory);
    assert_eq!(menu_action("quit"), MenuAction::Quit);
    assert_eq!(menu_action("other"), MenuAction::Ignore);
    assert_eq!(menu_action(""), MenuAction::Ignore);
}

#[test]
fn shortcuts_act_on_press_only() {
    assert_eq!(shortcut_action(true, true, false), ShortcutAction::TogglePanel);
    assert_eq!(shortcut_action(true, false, true), ShortcutAction::Quit);
    assert_eq!(shortcut_action(false, true, false), ShortcutAction::Ignore);
    assert_eq!(shortcut_action(true, false, false), ShortcutAction::Ignore);
}

#[test]
fn initial_position_uses_remembered_coordinates() {
    let s = Settings {
        last_ball_x: Some(10),
        last_ball_y: Some(20),
        ..Settings::default()
    };
    assert_eq!(initial_ball_position(&s), Some(Position { x: 10, y: 20 }));
    let half = Settings { last_ball_y: None, ..s };
    assert_eq!(initial_ball_position(&half), None);
    let off = Settings { remember_position: false, ..s };
    assert_eq!(initial_ball_position(&off), None);
}

#[test]
fn watcher_records_trimmed_new_text() {
    let mut w = ClipboardWatch::new();
    assert_eq!(w.observe(false, Some("  hello \n")), Some("hello".to_string()));
    assert_eq!(w.observe(false, Some("hello")), None);
    assert_eq!(w.observe(false, Some(" hello ")), None);
    assert_eq!(w.observe(false, Some("world")), Some("world".to_string()));
    assert_eq!(w.observe(false, Some("hello")), Some("hello".to_string()));
}

#[test]
fn watcher_ignores_blank_unreadable_and_paused() {
    let mut w = ClipboardWatch::new();
    assert_eq!(w.observe(false, Some("   ")), None);
    assert_eq!(w.observe(false, None), None);
    assert_eq!(w.observe(true, Some("text")), None);
    assert_eq!(w.observe(false, Some("other")), Some("other".to_string()));
}

#[test]
fn text_copied_while_paused_is_not_recorded_after_the_pause() {
    let mut w = ClipboardWatch::new();
    assert_eq!(w.observe(false, Some("before")), Some("before".to_string()));
    assert_eq!(w.observe(true, Some(" secret ")), None);
    assert_eq!(w.observe(true, Some("secret")), None);
    assert_eq!(w.observe(false, Some("secret")), None);
    assert_eq!(w.observe(false, Some("after")), Some("after".to_string()));
}

#[test]
fn blank_text_while_paused_keeps_the_last_text() {
    let mut w = ClipboardWatch::new();
    assert_eq!(w.observe(false, Some("a")), Some("a".to_string()));
    assert_eq!(w.observe(true, Some("  ")), None);
    assert_eq!(w.observe(true, None), None);
    assert_eq!(w.observe(false, Some("a")), None);
}
