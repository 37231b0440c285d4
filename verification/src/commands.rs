//! The decisions that the app's commands, tray menu, shortcuts and start-up
//! make; the app performs what they return.
use vstd::prelude::*;

use crate::settings::Settings;
use crate::text::text_eq;
use crate::window::{mode_name, Position};

verus! {

/// What to do with the system's start-with-login entry.
#[derive(Clone, Copy, Debug, PartialEq, Eq, Structural)]
pub enum AutostartAction {
    Enable,
    Disable,
    Keep,
}

/// What a tray menu entry asks for.
#[derive(Clone, Copy, Debug, PartialEq, Eq, Structural)]
pub enum MenuAction {
    OpenPanel,
    ShowBall,
    ClearHistory,
    Quit,
    Ignore,
}

/// What a global shortcut event asks for.
#[derive(Clone, Copy, Debug, PartialEq, Eq, Structural)]
pub enum ShortcutAction {
    TogglePanel,
    Quit,
    Ignore,
}

/// The mode that a toggle switches to from `current`.
pub open spec fn toggle_target_spec(current: Seq<char>) -> Seq<char> {
    if current == "panel"@ {
        "ball"@
    } else {
        "panel"@
    }
}

/// The action that brings the start-with-login entry in line with `wanted`.
pub open spec fn autostart_action_spec(wanted: bool, currently: bool) -> AutostartAction {
    if wanted && !currently {
        AutostartAction::Enable
    } else if !wanted && currently {
        AutostartAction::Disable
    } else {
        AutostartAction::Keep
    }
}

/// The action of the tray menu entry with id `id`.
pub open spec fn menu_action_spec(id: Seq<char>) -> MenuAction {
    if id == "open"@ {
        MenuAction::OpenPanel
    } else if id == "ball"@ {
        MenuAction::ShowBall
    } else if id == "clear"@ {
        MenuAction::ClearHistory
    } else if id == "quit"@ {
        MenuAction::Quit
    } else {
        MenuAction::Ignore
    }
}

/// The position the ball starts at: the remembered one, when positions are
/// remembered and both coordinates are known.
pub open spec fn initial_ball_position_spec(s: Settings) -> Option<Position> {
    if s.remember_position {
        match (s.last_ball_x, s.last_ball_y) {
            (Some(x), Some(y)) => Some(Position { x, y }),
            _ => None,
        }
    } else {
        None
    }
}

/// Whether the start-with-login entry is on after `action` was carried out
/// on an entry that was `currently` on.
pub open spec fn autostart_after(action: AutostartAction, currently: bool) -> bool {
    match action {
        AutostartAction::Enable => true,
        AutostartAction::Disable => false,
        AutostartAction::Keep => currently,
    }
}

/// Carrying out the chosen action leaves the start-with-login entry as the
/// settings want it; nothing is done when it already is.
pub proof fn lemma_autostart_action(wanted: bool, currently: bool)
    ensures
        autostart_after(autostart_action_spec(wanted, currently), currently) == wanted,
        wanted == currently ==> autostart_action_spec(wanted, currently) == AutostartAction::Keep,
{
}

/// Toggling twice from either mode comes back to it.
pub proof fn lemma_toggle_twice(current: Seq<char>)
    requires
        current == "panel"@ || current == "ball"@,
    ensures
        toggle_target_spec(toggle_target_spec(current)) == current,
{
    reveal_strlit("panel");
    reveal_strlit("ball");
    assert("panel"@.len() != "ball"@.len());
}

/// Whatever the window's mode, toggling switches it, and toggling twice
/// brings it back: the panel flag after `set_mode(toggle_target(get_mode()))`
/// is the negation of the one before.
pub proof fn lemma_toggle_mode_twice(is_panel: bool)
    ensures
        (toggle_target_spec(mode_name(is_panel)) == "panel"@) == !is_panel,
        (toggle_target_spec(mode_name((toggle_target_spec(mode_name(is_panel)) == "panel"@)))
            == "panel"@) == is_panel,
{
    reveal_strlit("panel");
    reveal_strlit("ball");
    assert("panel"@.len() != "ball"@.len());
}

/// The ball starts exactly where it was last recorded, at any coordinates:
/// a position recorded while positions are remembered is the one the ball
/// starts at; without a remembered position, or with positions not
/// remembered, the app chooses the place.
pub proof fn lemma_start_at_recorded_position(s: Settings, x: i32, y: i32)
    ensures
        s.remember_position ==> initial_ball_position_spec(
            Settings { last_ball_x: Some(x), last_ball_y: Some(y), ..s },
        ) == Some(Position { x, y }),
        !s.remember_position ==> initial_ball_position_spec(s) is None,
        s.last_ball_x is None || s.last_ball_y is None ==> initial_ball_position_spec(s) is None,
{
}

/// The mode a toggle switches to: `"ball"` from `"panel"`, `"panel"` from
/// anything else.
pub fn toggle_target(current: &str) -> (r: &'static str)
    ensures
        r@ == toggle_target_spec(current@),
{
    if text_eq(current, "panel") {
        "ball"
    } else {
        "panel"
    }
}

/// Whether switching to `mode` is followed by saving the ball's position:
/// exactly when `mode` is `"ball"`.
pub fn persists_position(mode: &str) -> (r: bool)
    ensures
        r == (mode@ == "ball"@),
{
    text_eq(mode, "ball")
}

/// Enable when wanted and off, disable when unwanted and on, else keep.
pub fn autostart_action(wanted: bool, currently: bool) -> (r: AutostartAction)
    ensures
        r == autostart_action_spec(wanted, currently),
{
    if wanted && !currently {
        AutostartAction::Enable
    } else if !wanted && currently {
        AutostartAction::Disable
    } else {
        AutostartAction::Keep
    }
}

/// The action of the tray menu entry `id`.
pub fn menu_action(id: &str) -> (r: MenuAction)
    ensures
        r == menu_action_spec(id@),
{
    if text_eq(id, "open") {
        MenuAction::OpenPanel
    } else if text_eq(id, "ball") {
        MenuAction::ShowBall
    } else if text_eq(id, "clear") {
        MenuAction::ClearHistory
    } else if text_eq(id, "quit") {
        MenuAction::Quit
    } else {
        MenuAction::Ignore
    }
}

/// A pressed shortcut toggles the panel or quits; a release does nothing.
pub fn shortcut_action(pressed: bool, is_toggle: bool, is_quit: bool) -> (r: ShortcutAction)
    ensures
        r == (if !pressed {
            ShortcutAction::Ignore
        } else if is_toggle {
            ShortcutAction::TogglePanel
        } else if is_quit {
            ShortcutAction::Quit
        } else {
            ShortcutAction::Ignore
        }),
{
    if !pressed {
        ShortcutAction::Ignore
    } else if is_toggle {
        ShortcutAction::TogglePanel
    } else if is_quit {
        ShortcutAction::Quit
    } else {
        ShortcutAction::Ignore
    }
}

/// Where the ball starts: the remembered position if there is one to use,
/// else `None` (the app then puts it in the bottom-right corner).
pub fn initial_ball_position(s: &Settings) -> (r: Option<Position>)
    ensures
        r == initial_ball_position_spec(*s),
{
    if s.remember_position {
        match (s.last_ball_x, s.last_ball_y) {
            (Some(x), Some(y)) => Some(Position { x, y }),
            _ => None,
        }
    } else {
        None
    }
}

} // verus!
