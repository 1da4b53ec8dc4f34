//! What the pause menu shows that needs no floating point: the rows and
//! characters in view, the seed field's text, the controls rows' texts.

use vstd::prelude::*;
use crate::menu_types::{
    GameAction, MainMenuItem, main_menu_items, ActiveScreen, ControlCol, FpsEditMode, MenuEvent,
    fps_preset, fps_preset_values, res_preset, res_preset_sizes, res_distance, game_action_label,
    find_nearest_fps_preset, find_nearest_res_preset, is_nearest_fps_preset, is_nearest_res_preset,
};
use crate::window_mode::{WindowMode, window_modes};
use crate::bindings::{
    KeyBind, KeyBindView, Binding, BindingView, bindings_view, duplicate_bindings, key_bind_label,
    gamepad_bind_label,
};
use crate::settings::{Settings, bindings_in_order};
use crate::text::{chars_of, string_from_chars, sub_chars};
use crate::menu_state::{PauseMenu, MenuState, sat_sub, min_int};

verus! {

/// The first row shown on the controls screen once the highlighted row is
/// brought into the `visible` rows shown, and the view does not run past
/// the last row.
pub open spec fn fitted_controls_scroll(s: MenuState, visible: int) -> int {
    let n = s.bindings.len() as int;
    let cs1 = if s.selected_row < s.controls_scroll {
        s.selected_row
    } else if s.selected_row >= s.controls_scroll + visible {
        s.selected_row + 1 - visible
    } else {
        s.controls_scroll
    };
    if cs1 + visible > n {
        sat_sub(n, visible)
    } else {
        cs1
    }
}

/// The first character of the seed shown once the cursor is brought into
/// the `width` characters the field shows.
pub open spec fn fitted_seed_scroll(s: MenuState, width: int) -> int {
    let sc1 = if s.cursor < s.seed_scroll {
        s.cursor
    } else {
        s.seed_scroll
    };
    if s.cursor > sc1 + sat_sub(width, 1) {
        sat_sub(s.cursor, sat_sub(width, 1))
    } else {
        sc1
    }
}

/// How the seed field's text is shown.
#[derive(Debug, Clone, Copy, PartialEq, Eq, Structural)]
pub enum SeedTextStyle {
    /// The selected seed, in brackets.
    Selected,
    /// A hint that the field is empty.
    Placeholder,
    Normal,
}

/// The part of the seed the field shows, `width` characters from the first
/// one shown.
pub open spec fn seed_window(s: MenuState, width: int) -> Seq<char> {
    let n = s.seed.len() as int;
    s.seed.subrange(min_int(s.seed_scroll, n), min_int(s.seed_scroll + width, n))
}

/// The seed field's text: the visible part in brackets when selected, a hint
/// when empty and without the keyboard, the visible part with a `|` at the
/// cursor when it has the keyboard and the cursor shows, else the visible
/// part.
pub open spec fn seed_field_text(s: MenuState, width: int) -> (Seq<char>, SeedTextStyle) {
    let v = seed_window(s, width);
    if s.seed_selected {
        ("["@ + v + "]"@, SeedTextStyle::Selected)
    } else if s.seed.len() == 0 && !s.seed_focused {
        ("Entree pour editer..."@, SeedTextStyle::Placeholder)
    } else if s.seed_focused && s.blink {
        (v.insert(min_int(sat_sub(s.cursor, s.seed_scroll), v.len() as int), '|'), SeedTextStyle::Normal)
    } else {
        (v, SeedTextStyle::Normal)
    }
}

/// How a text of the pause menu is shown (its colour).
#[derive(Debug, Clone, Copy, PartialEq, Eq, Structural)]
pub enum RowStyle {
    Normal,
    Selected,
    /// Waiting for a new binding.
    Awaiting,
    /// A screen's title.
    Title,
    /// The main screen's title.
    PauseTitle,
    /// The shadow under the main screen's title.
    PauseShadow,
    /// Column headers, hints and values that cannot be changed now.
    Dim,
    /// A frame rate being typed.
    Typing,
}

/// The texts of row `i` of the controls screen: the action, its key and its
/// gamepad binding, or a prompt where the row waits for a binding; and how
/// each is shown.
pub open spec fn controls_row_texts(s: MenuState, i: int) -> (Seq<char>, Seq<char>, Seq<char>, RowStyle, RowStyle, RowStyle) {
    let (action, b) = s.bindings[i];
    let is_row = i == s.selected_row;
    let await_key = s.awaiting == Some((i, ControlCol::Key));
    let await_pad = s.awaiting == Some((i, ControlCol::Pad));
    let key_text = if await_key {
        "[ appuyez... ]"@
    } else {
        match b.key {
            Some(k) => key_bind_label(k),
            None => "-"@,
        }
    };
    let pad_text = if await_pad {
        "[ manette... ]"@
    } else {
        gamepad_bind_label(b.gamepad)
    };
    (
        game_action_label(action),
        key_text,
        pad_text,
        if is_row {
            RowStyle::Selected
        } else {
            RowStyle::Normal
        },
        if await_key {
            RowStyle::Awaiting
        } else if is_row && s.control_col == ControlCol::Key {
            RowStyle::Selected
        } else {
            RowStyle::Normal
        },
        if await_pad {
            RowStyle::Awaiting
        } else if is_row && s.control_col == ControlCol::Pad {
            RowStyle::Selected
        } else {
            RowStyle::Normal
        },
    )
}

impl PauseMenu {
    /// Brings the highlighted row of the controls screen into the `visible`
    /// rows shown (see `fitted_controls_scroll`); returns the end of the rows
    /// shown.
    #[verifier::rlimit(40)]
    pub fn fit_controls_scroll(&mut self, visible: usize) -> (end: usize)
        requires
            old(self).wf(),
            visible >= 1,
        ensures
            final(self)@ == (MenuState { controls_scroll: fitted_controls_scroll(old(self)@, visible as int), ..old(self)@ }),
            end == min_int(final(self)@.controls_scroll + visible, 12),
            final(self).wf(),
    {
        let n = self.bindings.len();
        if self.selected_row < self.controls_scroll {
            self.controls_scroll = self.selected_row;
        } else if self.selected_row - self.controls_scroll >= visible {
            self.controls_scroll = self.selected_row + 1 - visible;
        }
        if visible > n - self.controls_scroll {
            self.controls_scroll = n.saturating_sub(visible);
        }
        if visible > n - self.controls_scroll {
            n
        } else {
            self.controls_scroll + visible
        }
    }

    /// Brings the seed's cursor into the `width` characters the field shows
    /// (see `fitted_seed_scroll`).
    pub fn fit_seed_scroll(&mut self, width: usize)
        requires
            old(self).wf(),
        ensures
            final(self)@ == (MenuState { seed_scroll: fitted_seed_scroll(old(self)@, width as int), ..old(self)@ }),
            final(self).wf(),
    {
        if self.seed_cursor < self.seed_scroll {
            self.seed_scroll = self.seed_cursor;
        }
        let w1 = width.saturating_sub(1);
        if self.seed_cursor > self.seed_scroll && self.seed_cursor - self.seed_scroll > w1 {
            self.seed_scroll = self.seed_cursor.saturating_sub(w1);
        }
    }

    /// The seed field's text and how it is shown (see `seed_field_text`).
    pub fn seed_field(&self, width: usize) -> (r: (String, SeedTextStyle))
        requires
            self.wf(),
        ensures
            (r.0@, r.1) == seed_field_text(self@, width as int),
    {
        let n = self.seed_input.len();
        let start = if self.seed_scroll < n {
            self.seed_scroll
        } else {
            n
        };
        let end = if self.seed_scroll >= n || width >= n - self.seed_scroll {
            n
        } else {
            self.seed_scroll + width
        };
        let v = sub_chars(self.seed_input.as_slice(), start, end);
        if self.seed_selected {
            let mut t = "[".to_owned();
            t.append(string_from_chars(&v).as_str());
            t.append("]");
            (t, SeedTextStyle::Selected)
        } else if n == 0 && !self.seed_focused {
            ("Entree pour editer...".to_owned(), SeedTextStyle::Placeholder)
        } else if self.seed_focused && self.cursor_blink_visible {
            let in_view = self.seed_cursor.saturating_sub(self.seed_scroll);
            let at = if in_view < v.len() {
                in_view
            } else {
                v.len()
            };
            let mut w = v;
            w.insert(at, '|');
            (string_from_chars(&w), SeedTextStyle::Normal)
        } else {
            (string_from_chars(&v), SeedTextStyle::Normal)
        }
    }

    /// The texts of row `i` of the controls screen and how each is shown
    /// (see `controls_row_texts`).
    pub fn controls_row(&self, i: usize) -> (r: (String, String, String, RowStyle, RowStyle, RowStyle))
        requires
            self.wf(),
            i < 12,
        ensures
            (r.0@, r.1@, r.2@, r.3, r.4, r.5) == controls_row_texts(self@, i as int),
    {
        let (action, b) = &self.bindings[i];
        let is_row = i == self.selected_row;
        let await_key = match self.awaiting_rebind_key {
            Some((r, c)) => r == i && c == ControlCol::Key,
            None => false,
        };
        let await_pad = match self.awaiting_rebind_key {
            Some((r, c)) => r == i && c == ControlCol::Pad,
            None => false,
        };
        let key_text = if await_key {
            "[ appuyez... ]".to_owned()
        } else {
            match &b.key {
                Some(k) => k.label(),
                None => "-".to_owned(),
            }
        };
        let pad_text = if await_pad {
            "[ manette... ]".to_owned()
        } else {
            b.gamepad.label().to_owned()
        };
        let action_style = if is_row {
            RowStyle::Selected
        } else {
            RowStyle::Normal
        };
        let key_style = if await_key {
            RowStyle::Awaiting
        } else if is_row && self.control_col == ControlCol::Key {
            RowStyle::Selected
        } else {
            RowStyle::Normal
        };
        let pad_style = if await_pad {
            RowStyle::Awaiting
        } else if is_row && self.control_col == ControlCol::Pad {
            RowStyle::Selected
        } else {
            RowStyle::Normal
        };
        (action.label().to_owned(), key_text, pad_text, action_style, key_style, pad_style)
    }
}

} // verus!
