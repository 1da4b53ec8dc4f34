//! The pause menu's controls screen: browsing and rebinding.

use vstd::prelude::*;
use crate::menu_types::{
    GameAction, MainMenuItem, main_menu_items, ActiveScreen, ControlCol, FpsEditMode, MenuEvent,
    fps_preset, fps_preset_values, res_preset, res_preset_sizes, res_distance, game_action_label,
    find_nearest_fps_preset, find_nearest_res_preset, is_nearest_fps_preset, is_nearest_res_preset,
};
use crate::window_mode::{WindowMode, window_modes};
use crate::bindings::{
    KeyBind, KeyBindView, Binding, BindingView, bindings_view, duplicate_bindings, key_bind_label,
    gamepad_bind_label,
};
use crate::settings::{Settings, bindings_in_order};
use crate::text::{chars_of, string_from_chars, sub_chars};
use crate::menu_state::{PauseMenu, MenuState, RectUpdate, Scroll, MenuOutcome, OutcomeView, nothing, key_view_of, opt_chars, sat_sub};

verus! {

/// The bindings with the key binding of row `row` replaced by `k`.
pub open spec fn set_key(b: Seq<(GameAction, BindingView)>, row: int, k: Option<KeyBindView>) -> Seq<
    (GameAction, BindingView),
> {
    b.update(row, (b[row].0, BindingView { key: k, gamepad: b[row].1.gamepad }))
}

/// The controls screen. While a row waits for a new binding, escape
/// cancels, a key binds it (in the key column) and a mouse button binds it
/// (in the key column; in the gamepad column the wait goes on). Otherwise
/// escape goes back to the main screen; the wheel scrolls; down and up move
/// round the rows, keeping the highlighted row among the `visible` rows
/// shown; left and right pick the column; confirm starts waiting on the
/// highlighted row and column.
#[verifier::opaque]
pub open spec fn controls_step(
    s: MenuState,
    up: bool,
    down: bool,
    left: bool,
    right: bool,
    confirm: bool,
    escape: bool,
    new_key: Option<Seq<char>>,
    new_mouse: Option<u32>,
    scroll: Scroll,
    visible: int,
) -> (MenuState, OutcomeView) {
    match s.awaiting {
        Some((row, col)) => controls_rebind_step(s, row, col, escape, new_key, new_mouse),
        None => if escape {
            (MenuState { screen: ActiveScreen::Main, controls_scroll: 0, ..s }, nothing())
        } else {
            (controls_nav_step(s, up, down, left, right, confirm, scroll, visible), nothing())
        },
    }
}

/// A row waiting for a new binding: escape cancels, a key binds it (in the
/// key column), a mouse button binds it (in the key column; in the gamepad
/// column the wait goes on).
pub open spec fn controls_rebind_step(
    s: MenuState,
    row: int,
    col: ControlCol,
    escape: bool,
    new_key: Option<Seq<char>>,
    new_mouse: Option<u32>,
) -> (MenuState, OutcomeView) {
if escape {
        (MenuState { awaiting: None, ..s }, nothing())
    } else {
        match new_key {
            Some(k) => if col == ControlCol::Key {
                (
                    MenuState {
                        bindings: set_key(s.bindings, row, Some(KeyBindView::Key(k))),
                        awaiting: None,
                        ..s
                    },
                    nothing(),
                )
            } else {
                (MenuState { awaiting: None, ..s }, nothing())
            },
            None => match new_mouse {
                Some(b) => if col == ControlCol::Key {
                    (
                        MenuState {
                            bindings: set_key(s.bindings, row, Some(KeyBindView::MouseButton(b))),
                            awaiting: None,
                            ..s
                        },
                        nothing(),
                    )
                } else {
                    (s, nothing())
                },
                None => (s, nothing()),
            },
        }
    }
}

/// The wheel on the controls screen scrolls by one row.
pub open spec fn controls_wheel_step(s: MenuState, scroll: Scroll) -> MenuState {
    let n = s.bindings.len() as int;
    let s1 = if scroll == Scroll::Up && s.cooldown == 0 {
        MenuState {
            controls_scroll: if s.controls_scroll + 1 < n {
                s.controls_scroll + 1
            } else {
                s.controls_scroll
            },
            cooldown: 4,
            ..s
        }
    } else {
        s
    };
    if scroll == Scroll::Down && s1.cooldown == 0 {
        MenuState { controls_scroll: sat_sub(s1.controls_scroll, 1), cooldown: 4, ..s1 }
    } else {
        s1
    }
}

/// Down and up on the controls screen move round the rows, scrolling so
/// that the highlighted row stays among the `visible` rows shown.
pub open spec fn controls_move_step(s: MenuState, up: bool, down: bool, visible: int) -> MenuState {
    let n = s.bindings.len() as int;
    let s3 = if down && s.cooldown == 0 {
        let row = (s.selected_row + 1) % n;
        let cs = if row >= s.controls_scroll + visible {
            sat_sub(row, visible - 1)
        } else {
            s.controls_scroll
        };
        MenuState {
            selected_row: row,
            controls_scroll: if row == 0 {
                0
            } else {
                cs
            },
            cooldown: 8,
            ..s
        }
    } else {
        s
    };
    if up && s3.cooldown == 0 {
        let row = (s3.selected_row + n - 1) % n;
        let cs = if row < s3.controls_scroll {
            row
        } else {
            s3.controls_scroll
        };
        MenuState {
            selected_row: row,
            controls_scroll: if row == n - 1 {
                sat_sub(n, visible)
            } else {
                cs
            },
            cooldown: 8,
            ..s3
        }
    } else {
        s3
    }
}

/// Navigation on the controls screen when no row waits for a binding.
pub open spec fn controls_nav_step(
    s: MenuState,
    up: bool,
    down: bool,
    left: bool,
    right: bool,
    confirm: bool,
    scroll: Scroll,
    visible: int,
) -> MenuState {
    let s4 = controls_move_step(controls_wheel_step(s, scroll), up, down, visible);
    let s5 = if left && s4.cooldown == 0 {
        MenuState { control_col: ControlCol::Key, cooldown: 10, ..s4 }
    } else {
        s4
    };
    let s6 = if right && s5.cooldown == 0 {
        MenuState { control_col: ControlCol::Pad, cooldown: 10, ..s5 }
    } else {
        s5
    };
    if confirm {
        MenuState { awaiting: Some((s6.selected_row, s6.control_col)), ..s6 }
    } else {
        s6
    }
}

impl PauseMenu {
    /// Replaces the key binding of row `row`.
    fn set_key_binding(&mut self, row: usize, key: Option<KeyBind>)
        requires
            old(self).wf(),
            row < 12,
        ensures
            final(self)@ == (MenuState { bindings: set_key(old(self)@.bindings, row as int, key_view_of(key)), ..old(self)@ }),
            final(self).wf(),
    {
        let action = self.bindings[row].0;
        let pad = self.bindings[row].1.gamepad;
        let ghost b0 = self.bindings@;
        self.bindings.set(row, (action, Binding { key, gamepad: pad }));
        proof {
            assert(bindings_view(self.bindings@) =~= set_key(bindings_view(b0), row as int, key_view_of(key)));
        }
    }

    /// A row waiting for a new binding (see `controls_rebind_step`).
    fn controls_rebind(
        &mut self,
        row: usize,
        col: ControlCol,
        escape: bool,
        new_key: Option<String>,
        new_mouse: Option<u32>,
    )
        requires
            old(self).wf(),
            old(self).awaiting_rebind_key == Some((row, col)),
        ensures
            final(self)@ == controls_rebind_step(old(self)@, row as int, col, escape, opt_chars(new_key), new_mouse).0,
            final(self).wf(),
    {
        if escape {
            self.awaiting_rebind_key = None;
            return;
        }
        if let Some(key) = new_key {
            if col == ControlCol::Key {
                self.set_key_binding(row, Some(KeyBind::Key(key)));
            }
            self.awaiting_rebind_key = None;
            return;
        }
        if let Some(btn) = new_mouse {
            if col == ControlCol::Key {
                self.set_key_binding(row, Some(KeyBind::MouseButton(btn)));
                self.awaiting_rebind_key = None;
            }
        }
    }

    /// The controls screen (see `controls_step`); `new_key` names the key
    /// pressed this frame, `visible` is how many rows the screen shows.
    pub fn handle_controls(
        &mut self,
        up: bool,
        down: bool,
        left: bool,
        right: bool,
        confirm: bool,
        escape: bool,
        new_key: Option<String>,
        new_mouse: Option<u32>,
        scroll: Scroll,
        visible: usize,
    ) -> (o: MenuOutcome)
        requires
            old(self).wf(),
            old(self)@.screen == ActiveScreen::Controls,
            visible >= 1,
        ensures
            (final(self)@, o@) == controls_step(
                old(self)@,
                up,
                down,
                left,
                right,
                confirm,
                escape,
                opt_chars(new_key),
                new_mouse,
                scroll,
                visible as int,
            ),
            final(self).wf(),
    {
        proof {
            reveal(controls_step);
        }
        let none = MenuOutcome { event: MenuEvent::Nothing, rects: RectUpdate::Keep, scale: None, fps_commit: None };
        if let Some((row, col)) = self.awaiting_rebind_key {
            self.controls_rebind(row, col, escape, new_key, new_mouse);
            return none;
        }
        if escape {
            self.active_screen = ActiveScreen::Main;
            self.controls_scroll = 0;
            return none;
        }
        self.controls_nav(up, down, left, right, confirm, scroll, visible);
        none
    }

    /// Navigation on the controls screen (see `controls_nav_step`).
    fn controls_nav(
        &mut self,
        up: bool,
        down: bool,
        left: bool,
        right: bool,
        confirm: bool,
        scroll: Scroll,
        visible: usize,
    )
        requires
            old(self).wf(),
            old(self)@.screen == ActiveScreen::Controls,
            old(self).awaiting_rebind_key is None,
            visible >= 1,
        ensures
            final(self)@ == controls_nav_step(old(self)@, up, down, left, right, confirm, scroll, visible as int),
            final(self).wf(),
    {
        self.controls_wheel(scroll);
        self.controls_move(up, down, visible);
        if left && self.nav_cooldown == 0 {
            self.control_col = ControlCol::Key;
            self.nav_cooldown = 10;
        }
        if right && self.nav_cooldown == 0 {
            self.control_col = ControlCol::Pad;
            self.nav_cooldown = 10;
        }
        if confirm {
            self.awaiting_rebind_key = Some((self.selected_row, self.control_col));
        }
    }

    /// The wheel on the controls screen (see `controls_wheel_step`).
    fn controls_wheel(&mut self, scroll: Scroll)
        requires
            old(self).wf(),
            old(self)@.screen == ActiveScreen::Controls,
        ensures
            final(self)@ == controls_wheel_step(old(self)@, scroll),
            final(self).wf(),
    {
        let n = self.bindings.len();
        if scroll == Scroll::Up && self.nav_cooldown == 0 {
            if self.controls_scroll + 1 < n {
                self.controls_scroll = self.controls_scroll + 1;
            }
            self.nav_cooldown = 4;
        }
        if scroll == Scroll::Down && self.nav_cooldown == 0 {
            self.controls_scroll = self.controls_scroll.saturating_sub(1);
            self.nav_cooldown = 4;
        }
    }

    /// Down and up on the controls screen (see `controls_move_step`).
    #[verifier::rlimit(40)]
    fn controls_move(&mut self, up: bool, down: bool, visible: usize)
        requires
            old(self).wf(),
            old(self)@.screen == ActiveScreen::Controls,
            visible >= 1,
        ensures
            final(self)@ == controls_move_step(old(self)@, up, down, visible as int),
            final(self).wf(),
    {
        let n = self.bindings.len();
        assert(n == 12);
        if down && self.nav_cooldown == 0 {
            self.selected_row = (self.selected_row + 1) % n;
            if self.selected_row >= self.controls_scroll && self.selected_row - self.controls_scroll >= visible {
                self.controls_scroll = self.selected_row.saturating_sub(visible - 1);
            }
            if self.selected_row == 0 {
                self.controls_scroll = 0;
            }
            self.nav_cooldown = 8;
        }
        if up && self.nav_cooldown == 0 {
            self.selected_row = (self.selected_row + n - 1) % n;
            if self.selected_row < self.controls_scroll {
                self.controls_scroll = self.selected_row;
            }
            if self.selected_row == n - 1 {
                self.controls_scroll = n.saturating_sub(visible);
            }
            self.nav_cooldown = 8;
        }
    }
}


/// On the controls screen with no row waiting for a binding and no wait
/// left, right alone highlights the gamepad column and left alone the key
/// column, the highlighted row kept and no row starting to wait; confirm
/// then waits on the highlighted row in that column.
pub proof fn lemma_controls_columns(s: MenuState, visible: int)
    requires
        s.awaiting is None,
        s.cooldown == 0,
    ensures
        ({
            let r = controls_step(s, false, false, false, true, false, false, None, None, Scroll::Still, visible).0;
            let l = controls_step(s, false, false, true, false, false, false, None, None, Scroll::Still, visible).0;
            &&& r.control_col == ControlCol::Pad
            &&& l.control_col == ControlCol::Key
            &&& r.selected_row == s.selected_row
            &&& l.selected_row == s.selected_row
            &&& r.awaiting is None
            &&& l.awaiting is None
            &&& controls_step(s, false, false, false, true, true, false, None, None, Scroll::Still, visible).0.awaiting
                == Some((s.selected_row, ControlCol::Pad))
        }),
{
    reveal(controls_step);
}


/// On the controls screen with no row waiting and no wait left, down alone
/// highlights the next of the twelve rows and up alone the one before,
/// going round.
pub proof fn lemma_controls_rows_round(s: MenuState, visible: int)
    requires
        s.awaiting is None,
        s.cooldown == 0,
        s.bindings.len() == 12,
        0 <= s.selected_row < 12,
        visible >= 1,
    ensures
        controls_step(s, false, true, false, false, false, false, None, None, Scroll::Still, visible).0.selected_row
            == (if s.selected_row == 11 {
            0
        } else {
            s.selected_row + 1
        }),
        controls_step(s, true, false, false, false, false, false, None, None, Scroll::Still, visible).0.selected_row
            == (if s.selected_row == 0 {
            11
        } else {
            s.selected_row - 1
        }),
{
    reveal(controls_step);
    let r = s.selected_row;
    assert((r + 1) % 12 == (if r == 11 {
        0
    } else {
        r + 1
    })) by (nonlinear_arith)
        requires
            0 <= r < 12,
    ;
    assert((r + 12 - 1) % 12 == (if r == 0 {
        11
    } else {
        r - 1
    })) by (nonlinear_arith)
        requires
            0 <= r < 12,
    ;
}

/// A row waiting in the key column takes the key pressed (or, with no key,
/// the mouse button pressed) as its key binding, keeping its action and
/// gamepad binding and every other row, and stops waiting; a row waiting
/// in the gamepad column stops waiting on a key and changes no binding;
/// escape stops the wait and changes no binding.
pub proof fn lemma_controls_rebind(s: MenuState, row: int, k: Seq<char>, b: u32)
    requires
        0 <= row < s.bindings.len(),
    ensures
        ({
            let s1 = MenuState { awaiting: Some((row, ControlCol::Key)), ..s };
            let t = controls_step(s1, false, false, false, false, false, false, Some(k), None, Scroll::Still, 1).0;
            let m = controls_step(s1, false, false, false, false, false, false, None, Some(b), Scroll::Still, 1).0;
            &&& t.awaiting is None
            &&& t.bindings.len() == s.bindings.len()
            &&& t.bindings[row].0 == s.bindings[row].0
            &&& t.bindings[row].1.key == Some(KeyBindView::Key(k))
            &&& t.bindings[row].1.gamepad == s.bindings[row].1.gamepad
            &&& forall|i: int| 0 <= i < s.bindings.len() && i != row ==> #[trigger] t.bindings[i] == s.bindings[i]
            &&& m.awaiting is None
            &&& m.bindings[row].1.key == Some(KeyBindView::MouseButton(b))
            &&& m.bindings[row].1.gamepad == s.bindings[row].1.gamepad
        }),
        ({
            let s2 = MenuState { awaiting: Some((row, ControlCol::Pad)), ..s };
            let t = controls_step(s2, false, false, false, false, false, false, Some(k), None, Scroll::Still, 1).0;
            t.awaiting is None && t.bindings == s.bindings
        }),
        ({
            let s3 = MenuState { awaiting: Some((row, ControlCol::Key)), ..s };
            let t = controls_step(s3, false, false, false, false, false, true, Some(k), None, Scroll::Still, 1).0;
            t.awaiting is None && t.bindings == s.bindings
        }),
{
    reveal(controls_step);
}


/// Escape on the controls screen with no row waiting goes back to the main
/// screen, changing no binding.
pub proof fn lemma_controls_escape(s: MenuState, visible: int)
    requires
        s.awaiting is None,
    ensures
        controls_step(s, false, false, false, false, false, true, None, None, Scroll::Still, visible).0.screen
            == ActiveScreen::Main,
        controls_step(s, false, false, false, false, false, true, None, None, Scroll::Still, visible).0.bindings
            == s.bindings,
{
    reveal(controls_step);
}

} // verus!
