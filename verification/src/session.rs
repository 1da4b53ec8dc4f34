//! The game's pause state from frame to frame: escape during play pauses
//! the game and opens the menu, and the menu's answer to a frame says what
//! the game does next.

use vstd::prelude::*;
use crate::menu_types::MenuEvent;
use crate::menu_state::EventView;

verus! {

/// The pause state after the escape key of a frame.
#[derive(Debug, Clone, Copy, PartialEq, Eq, Structural)]
pub struct PauseFrame {
    /// The game is paused this frame.
    pub paused: bool,
    /// The menu opens this frame (it is shown on its main screen, with the
    /// current seed).
    pub just_opened: bool,
    /// Escape reaches the menu: not on the frame that opened it.
    pub menu_escape: bool,
}

/// Escape during play pauses the game and opens the menu; while paused,
/// escape goes to the menu, except on the frame that opened it.
pub fn pause_frame(paused: bool, escape: bool) -> (f: PauseFrame)
    ensures
        f.just_opened == (escape && !paused),
        f.paused == (paused || escape),
        f.menu_escape == (escape && paused),
{
    let just_opened = escape && !paused;
    PauseFrame { paused: paused || just_opened, just_opened, menu_escape: escape && !just_opened }
}

/// What the game does after a frame of the pause menu.
pub struct MenuReaction {
    /// A seed to make the world from again.
    pub apply_seed: Option<String>,
    /// A new random seed is to be drawn and applied (and shown in the menu).
    pub random_seed: bool,
    /// The chosen settings are to be saved.
    pub save: bool,
    /// The game stays paused.
    pub paused: bool,
    /// The program ends.
    pub quit: bool,
}

/// The reaction to a menu event, as `(seed to apply, random seed, save,
/// stays paused, quit)`: closing saves and resumes; applying a seed applies
/// it, saves, and resumes unless the menu stays open; a random seed is drawn,
/// applied and saved, and play resumes; quitting saves and ends the program.
pub open spec fn reaction_spec(e: EventView) -> (Option<Seq<char>>, bool, bool, bool, bool) {
    match e {
        EventView::Nothing => (None, false, false, true, false),
        EventView::Close => (None, false, true, false, false),
        EventView::ApplySeed(s) => (Some(s), false, true, false, false),
        EventView::ApplySeedInMenu(s) => (Some(s), false, true, true, false),
        EventView::RandomSeed => (None, true, true, false, false),
        EventView::Quit => (None, false, true, true, true),
    }
}

/// The view of a reaction, in the shape of `reaction_spec`.
pub open spec fn reaction_view(r: MenuReaction) -> (Option<Seq<char>>, bool, bool, bool, bool) {
    (
        match r.apply_seed {
            Some(s) => Some(s@),
            None => None,
        },
        r.random_seed,
        r.save,
        r.paused,
        r.quit,
    )
}

/// What the game does after the menu answered a frame with `event` (see
/// `reaction_spec`).
pub fn menu_reaction(event: MenuEvent) -> (r: MenuReaction)
    ensures
        reaction_view(r) == reaction_spec(event@),
{
    match event {
        MenuEvent::Nothing => MenuReaction {
            apply_seed: None,
            random_seed: false,
            save: false,
            paused: true,
            quit: false,
        },
        MenuEvent::Close => MenuReaction {
            apply_seed: None,
            random_seed: false,
            save: true,
            paused: false,
            quit: false,
        },
        MenuEvent::ApplySeed(s) => MenuReaction {
            apply_seed: Some(s),
            random_seed: false,
            save: true,
            paused: false,
            quit: false,
        },
        MenuEvent::ApplySeedInMenu(s) => MenuReaction {
            apply_seed: Some(s),
            random_seed: false,
            save: true,
            paused: true,
            quit: false,
        },
        MenuEvent::RandomSeed => MenuReaction {
            apply_seed: None,
            random_seed: true,
            save: true,
            paused: false,
            quit: false,
        },
        MenuEvent::Quit => MenuReaction {
            apply_seed: None,
            random_seed: false,
            save: true,
            paused: true,
            quit: true,
        },
    }
}


/// What each answer of the menu makes the game do: every answer but
/// nothing saves the settings; closing, applying a seed from the seed
/// screen's button and drawing a random seed resume play, applying the
/// seed typed in the field keeps the menu open, and quitting ends the
/// program; the seed applied is the one the answer carries.
pub proof fn lemma_reactions(e: EventView)
    ensures
        ({
            let (seed, random, save, paused, quit) = reaction_spec(e);
            &&& save == (e != EventView::Nothing)
            &&& quit == (e == EventView::Quit)
            &&& random == (e == EventView::RandomSeed)
            &&& (e == EventView::Close || e is ApplySeed || e == EventView::RandomSeed) ==> !paused
            &&& (e == EventView::Nothing || e is ApplySeedInMenu) ==> paused
            &&& (e matches EventView::ApplySeed(s) ==> seed == Some(s))
            &&& (e matches EventView::ApplySeedInMenu(s) ==> seed == Some(s))
            &&& (!(e is ApplySeed) && !(e is ApplySeedInMenu) ==> seed is None)
        }),
{
}

} // verus!
