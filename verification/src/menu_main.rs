//! The pause menu's main screen and the mouse.

use vstd::prelude::*;
use crate::menu_types::{
    GameAction, MainMenuItem, main_menu_items, ActiveScreen, ControlCol, FpsEditMode, MenuEvent,
    fps_preset, fps_preset_values, res_preset, res_preset_sizes, res_distance, game_action_label,
    find_nearest_fps_preset, find_nearest_res_preset, is_nearest_fps_preset, is_nearest_res_preset,
};
use crate::window_mode::{WindowMode, window_modes};
use crate::bindings::{
    KeyBind, KeyBindView, Binding, BindingView, bindings_view, duplicate_bindings, key_bind_label,
    gamepad_bind_label,
};
use crate::settings::{Settings, bindings_in_order};
use crate::text::{chars_of, string_from_chars, sub_chars};
use crate::menu_state::{PauseMenu, MenuState, EventView, RectUpdate, MenuOutcome, OutcomeView, outcome, nothing};

verus! {

/// The clickable elements of each screen: main entries (action 0) on the
/// main screen, the apply (1) and random (2) buttons and the field (10) on
/// the seed screen, binding rows (20) on the controls screen.
pub open spec fn click_action_valid(screen: ActiveScreen, action: u32) -> bool {
    match screen {
        ActiveScreen::Main => action == 0,
        ActiveScreen::Seed => action == 1 || action == 2 || action == 10,
        ActiveScreen::Controls => action == 20,
        ActiveScreen::Graphics => false,
    }
}

/// Whether clickable elements of kind `action` respond on `screen`.
pub fn click_action_accepted(screen: ActiveScreen, action: u32) -> (r: bool)
    ensures
        r == click_action_valid(screen, action),
{
    match screen {
        ActiveScreen::Main => action == 0,
        ActiveScreen::Seed => action == 1 || action == 2 || action == 10,
        ActiveScreen::Controls => action == 20,
        ActiveScreen::Graphics => false,
    }
}

/// A hovered element the menu can act on: one of its screen's kinds, with
/// an index in range for main entries and binding rows.
pub open spec fn hover_ok(s: MenuState, hovered: Option<(u32, usize)>) -> bool {
    match hovered {
        Some((a, i)) => click_action_valid(s.screen, a) && (a == 0 ==> i < 5) && (a == 20 ==> i < 12),
        None => true,
    }
}

/// Opening entry `item` of the main screen (the cooldown already set); by
/// the mouse, leaving the main screen also drops the other clickable
/// elements.
pub open spec fn enter_item(s: MenuState, item: MainMenuItem, by_mouse: bool) -> (MenuState, OutcomeView) {
    match item {
        MainMenuItem::Resume => (s, outcome(EventView::Close, RectUpdate::Keep)),
        MainMenuItem::Controls => (
            MenuState {
                screen: ActiveScreen::Controls,
                selected_row: 0,
                control_col: ControlCol::Key,
                controls_scroll: 0,
                ..s
            },
            outcome(EventView::Nothing, if by_mouse { RectUpdate::MainOnlyNoField } else { RectUpdate::Keep }),
        ),
        MainMenuItem::Graphics => (
            MenuState { screen: ActiveScreen::Graphics, graphics_row: 0, ..s },
            outcome(EventView::Nothing, if by_mouse { RectUpdate::MainOnlyNoField } else { RectUpdate::Keep }),
        ),
        MainMenuItem::Seed => (
            MenuState { screen: ActiveScreen::Seed, selected_row: 0, seed_focused: false, ..s },
            outcome(EventView::Nothing, RectUpdate::MainOnly),
        ),
        MainMenuItem::Quit => (s, outcome(EventView::Quit, RectUpdate::Keep)),
    }
}

/// The main screen: down and up move the highlight round the five entries,
/// escape closes the menu, confirm opens the highlighted entry.
#[verifier::opaque]
pub open spec fn main_step(s: MenuState, up: bool, down: bool, confirm: bool, escape: bool) -> (MenuState, OutcomeView) {
    let s1 = if down && s.cooldown == 0 {
        MenuState { main_row: (s.main_row + 1) % 5, cooldown: 8, ..s }
    } else {
        s
    };
    let s2 = if up && s1.cooldown == 0 {
        MenuState { main_row: (s1.main_row + 4) % 5, cooldown: 8, ..s1 }
    } else {
        s1
    };
    if escape {
        (s2, outcome(EventView::Close, RectUpdate::Keep))
    } else if confirm && s2.cooldown == 0 {
        enter_item(MenuState { cooldown: 10, ..s2 }, main_menu_items()[s2.main_row], false)
    } else {
        (s2, nothing())
    }
}

/// Hovering an element highlights it.
pub open spec fn hover_step(s: MenuState, hovered: Option<(u32, usize)>) -> MenuState {
    match hovered {
        Some((a, i)) => if a == 0 {
            MenuState { main_row: i as int, ..s }
        } else if a == 20 {
            MenuState { selected_row: i as int, ..s }
        } else if a == 10 {
            MenuState { selected_row: 0, ..s }
        } else if a == 1 {
            MenuState { selected_row: 1, ..s }
        } else if a == 2 {
            MenuState { selected_row: 2, ..s }
        } else {
            s
        },
        None => s,
    }
}

/// The mouse: hovering highlights; a click on the seed field gives it the
/// keyboard, any other click takes it away and then acts on the element
/// clicked.
#[verifier::opaque]
pub open spec fn mouse_step(s: MenuState, hovered: Option<(u32, usize)>, clicked: bool) -> (MenuState, OutcomeView) {
    let s1 = hover_step(s, hovered);
    if !clicked {
        (s1, nothing())
    } else if hovered matches Some((a, _)) && a == 10 {
        (MenuState { seed_focused: true, ..s1 }, nothing())
    } else {
        let s2 = MenuState { seed_focused: false, ..s1 };
        match hovered {
            Some((a, i)) => if a == 0 {
                enter_item(MenuState { cooldown: 10, ..s2 }, main_menu_items()[i as int], true)
            } else if a == 1 {
                if s2.seed.len() > 0 {
                    (s2, outcome(EventView::ApplySeed(s2.seed), RectUpdate::Keep))
                } else {
                    (s2, nothing())
                }
            } else if a == 2 {
                (s2, outcome(EventView::RandomSeed, RectUpdate::Keep))
            } else {
                (s2, nothing())
            },
            None => (s2, nothing()),
        }
    }
}

impl PauseMenu {
    /// Opens main-screen entry `i`.
    fn enter_main_item(&mut self, i: usize, by_mouse: bool) -> (o: MenuOutcome)
        requires
            old(self).wf(),
            i < 5,
        ensures
            (final(self)@, o@) == enter_item(old(self)@, main_menu_items()[i as int], by_mouse),
            final(self).wf(),
    {
        let none_rects = if by_mouse {
            RectUpdate::MainOnlyNoField
        } else {
            RectUpdate::Keep
        };
        match MainMenuItem::at(i) {
            MainMenuItem::Resume => MenuOutcome {
                event: MenuEvent::Close,
                rects: RectUpdate::Keep,
                scale: None,
                fps_commit: None,
            },
            MainMenuItem::Controls => {
                self.active_screen = ActiveScreen::Controls;
                self.selected_row = 0;
                self.control_col = ControlCol::Key;
                self.controls_scroll = 0;
                MenuOutcome { event: MenuEvent::Nothing, rects: none_rects, scale: None, fps_commit: None }
            },
            MainMenuItem::Graphics => {
                self.active_screen = ActiveScreen::Graphics;
                self.graphics_row = 0;
                MenuOutcome { event: MenuEvent::Nothing, rects: none_rects, scale: None, fps_commit: None }
            },
            MainMenuItem::Seed => {
                self.active_screen = ActiveScreen::Seed;
                self.selected_row = 0;
                self.seed_focused = false;
                MenuOutcome {
                    event: MenuEvent::Nothing,
                    rects: RectUpdate::MainOnly,
                    scale: None,
                    fps_commit: None,
                }
            },
            MainMenuItem::Quit => MenuOutcome {
                event: MenuEvent::Quit,
                rects: RectUpdate::Keep,
                scale: None,
                fps_commit: None,
            },
        }
    }

    /// The main screen (see `main_step`).
    pub fn handle_main(&mut self, up: bool, down: bool, confirm: bool, escape: bool) -> (o: MenuOutcome)
        requires
            old(self).wf(),
        ensures
            (final(self)@, o@) == main_step(old(self)@, up, down, confirm, escape),
            final(self).wf(),
    {
        proof {
            reveal(main_step);
        }
        if down && self.nav_cooldown == 0 {
            self.main_row = (self.main_row + 1) % 5;
            self.nav_cooldown = 8;
        }
        if up && self.nav_cooldown == 0 {
            self.main_row = (self.main_row + 5 - 1) % 5;
            self.nav_cooldown = 8;
        }
        if escape {
            return MenuOutcome { event: MenuEvent::Close, rects: RectUpdate::Keep, scale: None, fps_commit: None };
        }
        if confirm && self.nav_cooldown == 0 {
            self.nav_cooldown = 10;
            let row = self.main_row;
            return self.enter_main_item(row, false);
        }
        MenuOutcome { event: MenuEvent::Nothing, rects: RectUpdate::Keep, scale: None, fps_commit: None }
    }

    /// The mouse (see `mouse_step`): `hovered` is the clickable element
    /// under the mouse, as its kind and index.
    pub fn handle_mouse(&mut self, hovered: Option<(u32, usize)>, clicked: bool) -> (o: MenuOutcome)
        requires
            old(self).wf(),
            hover_ok(old(self)@, hovered),
        ensures
            (final(self)@, o@) == mouse_step(old(self)@, hovered, clicked),
            final(self).wf(),
    {
        proof {
            reveal(mouse_step);
        }
        if let Some((action, idx)) = hovered {
            if action == 0 {
                self.main_row = idx;
            } else if action == 20 {
                self.selected_row = idx;
            } else if action == 10 {
                self.selected_row = 0;
            } else if action == 1 {
                self.selected_row = 1;
            } else if action == 2 {
                self.selected_row = 2;
            }
        }
        if !clicked {
            return MenuOutcome { event: MenuEvent::Nothing, rects: RectUpdate::Keep, scale: None, fps_commit: None };
        }
        if let Some((action, _)) = hovered {
            if action == 10 {
                self.seed_focused = true;
                return MenuOutcome {
                    event: MenuEvent::Nothing,
                    rects: RectUpdate::Keep,
                    scale: None,
                    fps_commit: None,
                };
            }
        }
        self.seed_focused = false;
        if let Some((action, idx)) = hovered {
            if action == 0 {
                self.nav_cooldown = 10;
                return self.enter_main_item(idx, true);
            } else if action == 1 {
                if self.seed_input.len() > 0 {
                    return MenuOutcome {
                        event: MenuEvent::ApplySeed(self.seed_string()),
                        rects: RectUpdate::Keep,
                        scale: None,
                        fps_commit: None,
                    };
                }
            } else if action == 2 {
                return MenuOutcome {
                    event: MenuEvent::RandomSeed,
                    rects: RectUpdate::Keep,
                    scale: None,
                    fps_commit: None,
                };
            }
        }
        MenuOutcome { event: MenuEvent::Nothing, rects: RectUpdate::Keep, scale: None, fps_commit: None }
    }
}


/// On the main screen with no wait left, down alone highlights the next of
/// the five entries and up alone the one before, going round; so down then
/// up (the wait over) comes back to the same entry.
pub proof fn lemma_main_moves_round(s: MenuState)
    requires
        s.cooldown == 0,
        0 <= s.main_row < 5,
    ensures
        main_step(s, false, true, false, false).0.main_row == (if s.main_row == 4 {
            0
        } else {
            s.main_row + 1
        }),
        main_step(s, true, false, false, false).0.main_row == (if s.main_row == 0 {
            4
        } else {
            s.main_row - 1
        }),
        main_step(
            MenuState { cooldown: 0, ..main_step(s, false, true, false, false).0 },
            true,
            false,
            false,
            false,
        ).0.main_row == s.main_row,
{
    reveal(main_step);
}

/// On the main screen, escape closes the menu; with no wait left, confirm
/// on "Reprendre" closes it, on "Quitter" quits, and on the three others
/// opens the controls, graphics or seed screen.
pub proof fn lemma_main_confirm(s: MenuState)
    requires
        s.cooldown == 0,
        0 <= s.main_row < 5,
    ensures
        main_step(s, false, false, false, true).1.event == EventView::Close,
        ({
            let (t, o) = main_step(s, false, false, true, false);
            &&& s.main_row == 0 ==> o.event == EventView::Close && t.screen == s.screen
            &&& s.main_row == 1 ==> t.screen == ActiveScreen::Controls && o.event == EventView::Nothing
            &&& s.main_row == 2 ==> t.screen == ActiveScreen::Graphics && o.event == EventView::Nothing
            &&& s.main_row == 3 ==> t.screen == ActiveScreen::Seed && o.event == EventView::Nothing
            &&& s.main_row == 4 ==> o.event == EventView::Quit
        }),
{
    reveal(main_step);
}


/// The pointer over main entry `i` highlights it, and a click there opens
/// it as confirm would ("Reprendre" closes the menu, "Quitter" quits, the
/// others open their screen); a click on the seed field gives it the
/// keyboard; a click on the apply button applies a non-empty seed, one on
/// the random button asks for a random seed.
pub proof fn lemma_mouse_clicks(s: MenuState, i: usize)
    requires
        i < 5,
    ensures
        mouse_step(s, Some((0u32, i)), false).0.main_row == i,
        ({
            let (t, o) = mouse_step(s, Some((0u32, i)), true);
            &&& i == 0 ==> o.event == EventView::Close
            &&& i == 1 ==> t.screen == ActiveScreen::Controls
            &&& i == 2 ==> t.screen == ActiveScreen::Graphics
            &&& i == 3 ==> t.screen == ActiveScreen::Seed
            &&& i == 4 ==> o.event == EventView::Quit
        }),
        mouse_step(s, Some((10u32, 0usize)), true).0.seed_focused,
        s.seed.len() > 0 ==> mouse_step(s, Some((1u32, 1usize)), true).1.event == EventView::ApplySeed(s.seed),
        mouse_step(s, Some((2u32, 2usize)), true).1.event == EventView::RandomSeed,
{
    reveal(mouse_step);
}

} // verus!
