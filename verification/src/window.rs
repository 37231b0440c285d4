//! Window geometry: the ball/panel mode, the size and position the window takes
//! when the mode changes, and where the ball sits on a monitor.
use vstd::prelude::*;

use crate::text::text_eq;

verus! {

/// A window position in physical pixels.
#[derive(Clone, Copy, Debug, PartialEq, Eq, Structural)]
pub struct Position {
    pub x: i32,
    pub y: i32,
}

/// A window size in physical pixels.
#[derive(Clone, Copy, Debug, PartialEq, Eq, Structural)]
pub struct Size {
    pub width: u32,
    pub height: u32,
}

/// The usable area of a monitor, in physical pixels.
#[derive(Clone, Copy, Debug, PartialEq, Eq, Structural)]
pub struct WorkArea {
    pub x: i32,
    pub y: i32,
    pub width: u32,
    pub height: u32,
}

/// What the window is set to when its mode changes.
#[derive(Clone, Copy, Debug, PartialEq, Eq, Structural)]
pub struct ModeLayout {
    pub min_size: Size,
    pub size: Size,
    pub position: Position,
}

/// Whether the window shows the panel (otherwise the ball).
pub struct WindowModeState {
    is_panel: bool,
}

impl View for WindowModeState {
    type V = bool;

    closed spec fn view(&self) -> bool {
        self.is_panel
    }
}

impl WindowModeState {
    /// The state at start: ball mode.
    pub fn new() -> (r: Self)
        ensures
            r@ == false,
    {
        WindowModeState { is_panel: false }
    }
}

/// The name of a mode.
pub open spec fn mode_name(is_panel: bool) -> Seq<char> {
    if is_panel {
        "panel"@
    } else {
        "ball"@
    }
}

/// The position the window had, or the origin when it could not be read.
pub open spec fn position_or_origin(p: Option<Position>) -> Position {
    match p {
        Some(p) => p,
        None => Position { x: 0, y: 0 },
    }
}

/// The size the window had, or the ball's size when it could not be read.
pub open spec fn size_or_ball(s: Option<Size>, ball_bounds: (u32, u32)) -> Size {
    match s {
        Some(s) => s,
        None => Size { width: ball_bounds.0, height: ball_bounds.1 },
    }
}

/// `start + grow - shrink`, evaluated left to right, stays within `i32`.
pub open spec fn shift_fits(start: i32, grow: u32, shrink: u32) -> bool {
    let g = grow as i32;
    let s = shrink as i32;
    &&& i32::MIN <= start + g <= i32::MAX
    &&& i32::MIN <= start + g - s <= i32::MAX
}

/// `start + grow - shrink`, with both sizes read as `i32`.
pub open spec fn shift_spec(start: i32, grow: u32, shrink: u32) -> i32 {
    (start + (grow as i32) - (shrink as i32)) as i32
}

/// The new bottom-right-anchored layout arithmetic stays within `i32`.
pub open spec fn mode_layout_fits(
    is_panel: bool,
    current_pos: Option<Position>,
    current_size: Option<Size>,
    ball_bounds: (u32, u32),
    panel_bounds: (u32, u32),
) -> bool {
    let pos = position_or_origin(current_pos);
    let size = size_or_ball(current_size, ball_bounds);
    let target = if is_panel {
        panel_bounds
    } else {
        ball_bounds
    };
    shift_fits(pos.x, size.width, target.0) && shift_fits(pos.y, size.height, target.1)
}

/// The layout for the mode: the target size, its minimum, and a position
/// that keeps the window's bottom-right corner where it was.
pub open spec fn mode_layout_spec(
    is_panel: bool,
    current_pos: Option<Position>,
    current_size: Option<Size>,
    ball_bounds: (u32, u32),
    panel_bounds: (u32, u32),
    panel_min_bounds: (u32, u32),
) -> ModeLayout {
    let pos = position_or_origin(current_pos);
    let size = size_or_ball(current_size, ball_bounds);
    let target = if is_panel {
        panel_bounds
    } else {
        ball_bounds
    };
    let min = if is_panel {
        panel_min_bounds
    } else {
        ball_bounds
    };
    ModeLayout {
        min_size: Size { width: min.0, height: min.1 },
        size: Size { width: target.0, height: target.1 },
        position: Position {
            x: shift_spec(pos.x, size.width, target.0),
            y: shift_spec(pos.y, size.height, target.1),
        },
    }
}

/// The ball's place: 32 pixels in from the work area's bottom-right corner.
pub open spec fn bottom_right_spec(work_area: WorkArea, ball_bounds: (u32, u32)) -> Position {
    Position {
        x: (shift_spec(work_area.x, work_area.width, ball_bounds.0) - 32) as i32,
        y: (shift_spec(work_area.y, work_area.height, ball_bounds.1) - 32) as i32,
    }
}

/// The ball's place can be computed within `i32`.
pub open spec fn bottom_right_fits(work_area: WorkArea, ball_bounds: (u32, u32)) -> bool {
    &&& shift_fits(work_area.x, work_area.width, ball_bounds.0)
    &&& shift_fits(work_area.y, work_area.height, ball_bounds.1)
    &&& i32::MIN <= shift_spec(work_area.x, work_area.width, ball_bounds.0) - 32
    &&& i32::MIN <= shift_spec(work_area.y, work_area.height, ball_bounds.1) - 32
}

/// Changing the mode keeps the window's bottom-right corner in place, for
/// sizes that `i32` can hold.
pub proof fn lemma_mode_layout_keeps_corner(
    is_panel: bool,
    current_pos: Option<Position>,
    current_size: Option<Size>,
    ball_bounds: (u32, u32),
    panel_bounds: (u32, u32),
    panel_min_bounds: (u32, u32),
)
    requires
        mode_layout_fits(is_panel, current_pos, current_size, ball_bounds, panel_bounds),
        size_or_ball(current_size, ball_bounds).width <= i32::MAX,
        size_or_ball(current_size, ball_bounds).height <= i32::MAX,
        ball_bounds.0 <= i32::MAX,
        ball_bounds.1 <= i32::MAX,
        panel_bounds.0 <= i32::MAX,
        panel_bounds.1 <= i32::MAX,
    ensures
        ({
            let r = mode_layout_spec(
                is_panel,
                current_pos,
                current_size,
                ball_bounds,
                panel_bounds,
                panel_min_bounds,
            );
            let pos = position_or_origin(current_pos);
            let size = size_or_ball(current_size, ball_bounds);
            &&& r.position.x + r.size.width == pos.x + size.width
            &&& r.position.y + r.size.height == pos.y + size.height
        }),
{
}

/// For sizes that `i32` holds, the layout can be computed exactly when the
/// new position, and the window's right and bottom edges on the way, are
/// `i32` values, negative ones included.
pub proof fn lemma_layout_fits_when_representable(
    is_panel: bool,
    current_pos: Option<Position>,
    current_size: Option<Size>,
    ball_bounds: (u32, u32),
    panel_bounds: (u32, u32),
)
    requires
        size_or_ball(current_size, ball_bounds).width <= i32::MAX,
        size_or_ball(current_size, ball_bounds).height <= i32::MAX,
        ball_bounds.0 <= i32::MAX,
        ball_bounds.1 <= i32::MAX,
        panel_bounds.0 <= i32::MAX,
        panel_bounds.1 <= i32::MAX,
    ensures
        ({
            let pos = position_or_origin(current_pos);
            let size = size_or_ball(current_size, ball_bounds);
            let target = if is_panel {
                panel_bounds
            } else {
                ball_bounds
            };
            mode_layout_fits(is_panel, current_pos, current_size, ball_bounds, panel_bounds) <==> (
            i32::MIN <= pos.x + size.width <= i32::MAX && i32::MIN <= pos.x + size.width - target.0
                <= i32::MAX && i32::MIN <= pos.y + size.height <= i32::MAX && i32::MIN <= pos.y
                + size.height - target.1 <= i32::MAX)
        }),
{
}

/// For sizes that `i32` holds, the ball's place can be computed exactly when
/// it is an `i32` position, negative coordinates included.
pub proof fn lemma_bottom_right_fits_when_representable(work_area: WorkArea, ball_bounds: (u32, u32))
    requires
        work_area.width <= i32::MAX,
        work_area.height <= i32::MAX,
        ball_bounds.0 <= i32::MAX,
        ball_bounds.1 <= i32::MAX,
    ensures
        bottom_right_fits(work_area, ball_bounds) <==> (i32::MIN <= work_area.x + work_area.width
            <= i32::MAX && i32::MIN <= work_area.x + work_area.width - ball_bounds.0 - 32
            && work_area.x + work_area.width - ball_bounds.0 <= i32::MAX && i32::MIN <= work_area.y
            + work_area.height <= i32::MAX && i32::MIN <= work_area.y + work_area.height
            - ball_bounds.1 - 32 && work_area.y + work_area.height - ball_bounds.1 <= i32::MAX),
        bottom_right_fits(work_area, ball_bounds) ==> bottom_right_spec(work_area, ball_bounds)
            == (Position {
            x: (work_area.x + work_area.width - ball_bounds.0 - 32) as i32,
            y: (work_area.y + work_area.height - ball_bounds.1 - 32) as i32,
        }),
{
}

/// `start + grow - shrink`.
fn shift(start: i32, grow: u32, shrink: u32) -> (r: i32)
    requires
        shift_fits(start, grow, shrink),
    ensures
        r == shift_spec(start, grow, shrink),
{
    start + (grow as i32) - (shrink as i32)
}

/// Whether `shift` can compute `start + grow - shrink`.
fn shift_in_range(start: i32, grow: u32, shrink: u32) -> (r: bool)
    ensures
        r == shift_fits(start, grow, shrink),
{
    let g = (start as i64) + ((grow as i32) as i64);
    if g < i32::MIN as i64 || g > i32::MAX as i64 {
        return false;
    }
    let s = g - ((shrink as i32) as i64);
    s >= i32::MIN as i64 && s <= i32::MAX as i64
}

/// The name of the current mode: `"panel"` or `"ball"`.
pub fn get_mode(state: &WindowModeState) -> (r: &'static str)
    ensures
        r@ == mode_name(state@),
{
    if state.is_panel {
        "panel"
    } else {
        "ball"
    }
}

/// Whether `set_mode` can compute the layout for `mode` without leaving `i32`.
pub fn set_mode_fits(
    mode: &str,
    current_pos: Option<Position>,
    current_size: Option<Size>,
    ball_bounds: (u32, u32),
    panel_bounds: (u32, u32),
) -> (r: bool)
    ensures
        r == mode_layout_fits(
            mode@ == "panel"@,
            current_pos,
            current_size,
            ball_bounds,
            panel_bounds,
        ),
{
    let is_panel = text_eq(mode, "panel");
    let pos = match current_pos {
        Some(p) => p,
        None => Position { x: 0, y: 0 },
    };
    let size = match current_size {
        Some(s) => s,
        None => Size { width: ball_bounds.0, height: ball_bounds.1 },
    };
    let target = if is_panel {
        panel_bounds
    } else {
        ball_bounds
    };
    shift_in_range(pos.x, size.width, target.0) && shift_in_range(pos.y, size.height, target.1)
}

/// Switches to panel mode when `mode` is `"panel"`, to ball mode otherwise,
/// and returns the window's new minimum size, size and position; the
/// bottom-right corner stays where it was.
pub fn set_mode(
    state: &mut WindowModeState,
    mode: &str,
    current_pos: Option<Position>,
    current_size: Option<Size>,
    ball_bounds: (u32, u32),
    panel_bounds: (u32, u32),
    panel_min_bounds: (u32, u32),
) -> (r: ModeLayout)
    requires
        mode_layout_fits(mode@ == "panel"@, current_pos, current_size, ball_bounds, panel_bounds),
    ensures
        final(state)@ == (mode@ == "panel"@),
        r == mode_layout_spec(
            mode@ == "panel"@,
            current_pos,
            current_size,
            ball_bounds,
            panel_bounds,
            panel_min_bounds,
        ),
{
    let is_panel = text_eq(mode, "panel");
    state.is_panel = is_panel;
    let pos = match current_pos {
        Some(p) => p,
        None => Position { x: 0, y: 0 },
    };
    let size = match current_size {
        Some(s) => s,
        None => Size { width: ball_bounds.0, height: ball_bounds.1 },
    };
    let target = if is_panel {
        panel_bounds
    } else {
        ball_bounds
    };
    let min = if is_panel {
        panel_min_bounds
    } else {
        ball_bounds
    };
    ModeLayout {
        min_size: Size { width: min.0, height: min.1 },
        size: Size { width: target.0, height: target.1 },
        position: Position {
            x: shift(pos.x, size.width, target.0),
            y: shift(pos.y, size.height, target.1),
        },
    }
}

/// The work area of the primary monitor, or else of the first available one.
pub fn get_primary_monitor(primary: Option<WorkArea>, available: &[WorkArea]) -> (r: Option<
    WorkArea,
>)
    ensures
        r == (match primary {
            Some(p) => Some(p),
            None => if available@.len() > 0 {
                Some(available@[0])
            } else {
                None
            },
        }),
{
    match primary {
        Some(p) => Some(p),
        None => {
            if available.len() > 0 {
                Some(available[0])
            } else {
                None
            }
        },
    }
}

/// Whether `position_ball_bottom_right` can compute the ball's place.
pub fn bottom_right_in_range(work_area: WorkArea, ball_bounds: (u32, u32)) -> (r: bool)
    ensures
        r == bottom_right_fits(work_area, ball_bounds),
{
    if !shift_in_range(work_area.x, work_area.width, ball_bounds.0) || !shift_in_range(
        work_area.y,
        work_area.height,
        ball_bounds.1,
    ) {
        return false;
    }
    let x = shift(work_area.x, work_area.width, ball_bounds.0);
    let y = shift(work_area.y, work_area.height, ball_bounds.1);
    x >= i32::MIN + 32 && y >= i32::MIN + 32
}

/// The ball's place in `work_area`: 32 pixels in from its bottom-right corner.
pub fn position_ball_bottom_right(work_area: WorkArea, ball_bounds: (u32, u32)) -> (r: Position)
    requires
        bottom_right_fits(work_area, ball_bounds),
    ensures
        r == bottom_right_spec(work_area, ball_bounds),
{
    Position {
        x: shift(work_area.x, work_area.width, ball_bounds.0) - 32,
        y: shift(work_area.y, work_area.height, ball_bounds.1) - 32,
    }
}

} // verus!
