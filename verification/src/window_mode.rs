//! Display mode of the game window, with its labels and settings-file names.

use vstd::prelude::*;
use crate::text::str_equals;

verus! {

/// How the game window is shown.
#[derive(Debug, Clone, Copy, PartialEq, Eq, Structural)]
pub enum WindowMode {
    Windowed,
    Fullscreen,
    BorderlessFullscreen,
}

/// All window modes, in the order the graphics screen cycles through them.
pub open spec fn window_modes() -> Seq<WindowMode> {
    seq![WindowMode::Windowed, WindowMode::Fullscreen, WindowMode::BorderlessFullscreen]
}

impl WindowMode {
    /// The label shown in the graphics screen.
    pub fn label(self) -> (s: &'static str)
        ensures
            s@ == match self {
                WindowMode::Windowed => "Fenêtré"@,
                WindowMode::Fullscreen => "Plein écran"@,
                WindowMode::BorderlessFullscreen => "Plein écran fenêtré"@,
            },
    {
        match self {
            WindowMode::Windowed => "Fenêtré",
            WindowMode::Fullscreen => "Plein écran",
            WindowMode::BorderlessFullscreen => "Plein écran fenêtré",
        }
    }

    /// All modes, in cycling order.
    pub fn all() -> (v: &'static [WindowMode])
        ensures
            v@ == window_modes(),
    {
        let v: &'static [WindowMode] = &[
            WindowMode::Windowed,
            WindowMode::Fullscreen,
            WindowMode::BorderlessFullscreen,
        ];
        v
    }

    /// The name stored in the settings file.
    pub fn to_str(self) -> (s: &'static str)
        ensures
            s@ == window_mode_name(self),
    {
        match self {
            WindowMode::Windowed => "windowed",
            WindowMode::Fullscreen => "fullscreen",
            WindowMode::BorderlessFullscreen => "borderless",
        }
    }

    /// The mode named `s` in the settings file; any other text means
    /// windowed.
    pub fn from_str(s: &str) -> (m: WindowMode)
        ensures
            m == window_mode_from_name(s@),
    {
        if str_equals(s, "fullscreen") {
            WindowMode::Fullscreen
        } else if str_equals(s, "borderless") {
            WindowMode::BorderlessFullscreen
        } else {
            WindowMode::Windowed
        }
    }
}

/// The settings-file name of a mode.
pub open spec fn window_mode_name(m: WindowMode) -> Seq<char> {
    match m {
        WindowMode::Windowed => "windowed"@,
        WindowMode::Fullscreen => "fullscreen"@,
        WindowMode::BorderlessFullscreen => "borderless"@,
    }
}

/// The mode a settings-file value stands for.
pub open spec fn window_mode_from_name(s: Seq<char>) -> WindowMode {
    if s == "fullscreen"@ {
        WindowMode::Fullscreen
    } else if s == "borderless"@ {
        WindowMode::BorderlessFullscreen
    } else {
        WindowMode::Windowed
    }
}

/// Writing a mode to the settings file and reading it back gives the same
/// mode.
pub proof fn lemma_window_mode_name_roundtrip(m: WindowMode)
    ensures
        window_mode_from_name(window_mode_name(m)) == m,
{
    reveal_strlit("windowed");
    reveal_strlit("fullscreen");
    reveal_strlit("borderless");
    assert("windowed"@[0] != "fullscreen"@[0]);
    assert("windowed"@[0] != "borderless"@[0]);
    assert("fullscreen"@[0] != "borderless"@[0]);
}

} // verus!
