use clipball::settings::{
    default_max_history, default_remember_position, sanitize, Settings, SettingsStore,
};

fn with_max(n: usize) -> Settings {
    Settings {
        max_history: n,
        ..Settings::default()
    }
}

#[test]
fn defaults() {
    let d = Settings::default();
    assert_eq!(d.max_history, 100);
    assert!(!d.paused);
    assert!(!d.autostart);
    assert!(d.remember_position);
    assert_eq!(d.last_ball_x, None);
    assert_eq!(d.last_ball_y, None);
    assert_eq!(default_max_history(), 100);
    assert!(default_remember_position());
}

#[test]
fn sanitize_clamps_history_size() {
    assert_eq!(sanitize(with_max(0)).max_history, 10);
    assert_eq!(sanitize(with_max(9)).max_history, 10);
    assert_eq!(sanitize(with_max(10)).max_history, 10);
    assert_eq!(sanitize(with_max(250)).max_history, 250);
    assert_eq!(sanitize(with_max(500)).max_history, 500);
    assert_eq!(sanitize(with_max(501)).max_history, 500);
    assert_eq!(sanitize(with_max(usize::MAX)).max_history, 500);
}

#[test]
fn sanitize_keeps_other_fields_and_is_idempotent() {
    let s = Settings {
        max_history: 3,
        paused: true,
        autostart: true,
        remember_position: false,
        last_ball_x: Some(-5),
        last_ball_y: Some(7),
    };
    let once = sanitize(s);
    assert_eq!(once, Settings { max_history: 10, ..s });
    assert_eq!(sanitize(once), once);
}

#[test]
fn store_starts_with_defaults() {
    let store = SettingsStore::new();
    assert_eq!(store.get(), Settings::default());
    assert!(!store.is_paused());
    assert_eq!(store.max_history(), 100);
}

#[test]
fn update_stores_and_returns_sanitized_settings() {
    let mut store = SettingsStore::new();
    let saved = store.update(Settings {
        max_history: 2,
        paused: true,
        ..Settings::default()
    });
    assert_eq!(saved.max_history, 10);
    assert!(saved.paused);
    assert_eq!(store.get(), saved);
    assert!(store.is_paused());
    assert_eq!(store.max_history(), 10);
}

#[test]
fn load_sanitizes() {
    let mut store = SettingsStore::new();
    store.load(with_max(9999));
    assert_eq!(store.max_history(), 500);
}

#[test]
fn ball_position_is_remembered_when_enabled() {
    let mut store = SettingsStore::new();
    assert!(store.update_ball_position(12, -34));
    assert_eq!(store.get().last_ball_x, Some(12));
    assert_eq!(store.get().last_ball_y, Some(-34));
}

#[test]
fn ball_position_is_ignored_when_disabled() {
    let mut store = SettingsStore::new();
    store.update(Settings {
        remember_position: false,
        ..Settings::default()
    });
    let before = store.get();
    assert!(!store.update_ball_position(1, 2));
    assert_eq!(store.get(), before);
}
