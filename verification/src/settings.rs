//! User settings: their defaults, the bounds that are enforced on the history
//! size, and the store that holds the current settings.
use vstd::prelude::*;

verus! {

/// The history size used when none is configured.
pub const DEFAULT_MAX_HISTORY: usize = 100;

/// The smallest history size that is accepted.
pub const MIN_MAX_HISTORY: usize = 10;

/// The largest history size that is accepted.
pub const MAX_MAX_HISTORY: usize = 500;

/// The user's settings.
#[derive(Clone, Copy, Debug, PartialEq, Eq, Structural)]
pub struct Settings {
    /// How many history entries are kept.
    pub max_history: usize,
    /// While set, clipboard changes are not recorded.
    pub paused: bool,
    /// Whether the app starts with the system.
    pub autostart: bool,
    /// Whether the ball's position is remembered across runs.
    pub remember_position: bool,
    pub last_ball_x: Option<i32>,
    pub last_ball_y: Option<i32>,
}

/// The default settings.
pub open spec fn default_settings_spec() -> Settings {
    Settings {
        max_history: 100,
        paused: false,
        autostart: false,
        remember_position: true,
        last_ball_x: None,
        last_ball_y: None,
    }
}

/// `n` brought into the accepted range of history sizes.
pub open spec fn clamp_max_history(n: usize) -> usize {
    if n < 10 {
        10
    } else if n > 500 {
        500
    } else {
        n
    }
}

/// `s` with its history size brought into the accepted range.
pub open spec fn sanitize_spec(s: Settings) -> Settings {
    Settings { max_history: clamp_max_history(s.max_history), ..s }
}

/// The history size of `s` is in the accepted range.
pub open spec fn is_sanitized(s: Settings) -> bool {
    10 <= s.max_history <= 500
}

/// Sanitizing always gives an accepted history size, leaves settings that are
/// already accepted as they are (so sanitizing twice is sanitizing once), and
/// changes no field but the history size; the defaults are accepted.
pub proof fn lemma_sanitize(s: Settings)
    ensures
        is_sanitized(sanitize_spec(s)),
        is_sanitized(s) ==> sanitize_spec(s) == s,
        sanitize_spec(sanitize_spec(s)) == sanitize_spec(s),
        sanitize_spec(s) == (Settings { max_history: sanitize_spec(s).max_history, ..s }),
        is_sanitized(default_settings_spec()),
{
}

impl Default for Settings {
    fn default() -> (r: Self)
        ensures
            r == default_settings_spec(),
    {
        Settings {
            max_history: DEFAULT_MAX_HISTORY,
            paused: false,
            autostart: false,
            remember_position: true,
            last_ball_x: None,
            last_ball_y: None,
        }
    }
}

/// The history size used when a stored record names none.
pub fn default_max_history() -> (r: usize)
    ensures
        r == 100,
{
    DEFAULT_MAX_HISTORY
}

/// Whether the position is remembered when a stored record does not say.
pub fn default_remember_position() -> (r: bool)
    ensures
        r == true,
{
    true
}

/// `s` with its history size raised to 10 or lowered to 500 where it lies
/// outside that range; every other field is kept.
pub fn sanitize(s: Settings) -> (r: Settings)
    ensures
        r == sanitize_spec(s),
{
    let mut s = s;
    if s.max_history < MIN_MAX_HISTORY {
        s.max_history = MIN_MAX_HISTORY;
    }
    if s.max_history > MAX_MAX_HISTORY {
        s.max_history = MAX_MAX_HISTORY;
    }
    s
}

/// The current settings, whose history size is always in the accepted range.
pub struct SettingsStore {
    inner: Settings,
}

impl View for SettingsStore {
    type V = Settings;

    closed spec fn view(&self) -> Settings {
        self.inner
    }
}

impl SettingsStore {
    #[verifier::type_invariant]
    spec fn inv(self) -> bool {
        is_sanitized(self.inner)
    }

    /// A store holding the default settings.
    pub fn new() -> (r: Self)
        ensures
            r@ == default_settings_spec(),
    {
        SettingsStore { inner: Settings::default() }
    }

    /// Replaces the settings with `loaded` (as read from storage), sanitized.
    pub fn load(&mut self, loaded: Settings)
        ensures
            final(self)@ == sanitize_spec(loaded),
    {
        self.inner = sanitize(loaded);
    }

    /// The current settings.
    pub fn get(&self) -> (r: Settings)
        ensures
            r == self@,
            is_sanitized(r),
    {
        proof {
            use_type_invariant(self);
        }
        self.inner
    }

    /// Whether recording is paused.
    pub fn is_paused(&self) -> (r: bool)
        ensures
            r == self@.paused,
    {
        self.inner.paused
    }

    /// How many history entries are kept.
    pub fn max_history(&self) -> (r: usize)
        ensures
            r == self@.max_history,
            10 <= r <= 500,
    {
        proof {
            use_type_invariant(self);
        }
        self.inner.max_history
    }

    /// Replaces the settings with `new_settings`, sanitized, and returns what
    /// was stored.
    pub fn update(&mut self, new_settings: Settings) -> (r: Settings)
        ensures
            r == sanitize_spec(new_settings),
            final(self)@ == r,
    {
        let cleaned = sanitize(new_settings);
        self.inner = cleaned;
        cleaned
    }

    /// Records `(x, y)` as the ball's last position if positions are
    /// remembered; returns whether anything changed and so is to be saved.
    pub fn update_ball_position(&mut self, x: i32, y: i32) -> (r: bool)
        ensures
            r == old(self)@.remember_position,
            r ==> final(self)@ == (Settings {
                last_ball_x: Some(x),
                last_ball_y: Some(y),
                ..old(self)@
            }),
            !r ==> final(self)@ == old(self)@,
    {
        proof {
            use_type_invariant(&*self);
        }
        if self.inner.remember_position {
            let mut next = self.inner;
            next.last_ball_x = Some(x);
            next.last_ball_y = Some(y);
            self.inner = next;
            true
        } else {
            false
        }
    }
}

} // verus!
