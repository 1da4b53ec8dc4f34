//! Data types of the pause menu: remappable actions, menu entries, screens,
//! and the frame-rate and resolution presets.

use vstd::prelude::*;
use crate::text::{
    decimal, digit_char, decimal_chars, string_from_chars, digits_value, all_digits, lemma_decimal_digits,
    lemma_digit_char,
};

verus! {

/// A remappable player action.
#[derive(Debug, Clone, Copy, PartialEq, Eq, Hash, Structural)]
pub enum GameAction {
    Forward,
    Backward,
    Left,
    Right,
    RotLeft,
    RotRight,
    Sprint,
    Slow,
    Shoot,
    Shockwave,
    ZoomIn,
    ZoomOut,
}

/// All actions, in menu order.
pub open spec fn game_actions() -> Seq<GameAction> {
    seq![
        GameAction::Forward,
        GameAction::Backward,
        GameAction::Left,
        GameAction::Right,
        GameAction::RotLeft,
        GameAction::RotRight,
        GameAction::Sprint,
        GameAction::Slow,
        GameAction::Shoot,
        GameAction::Shockwave,
        GameAction::ZoomIn,
        GameAction::ZoomOut,
    ]
}

/// The label of an action in the controls screen.
pub open spec fn game_action_label(a: GameAction) -> Seq<char> {
    match a {
        GameAction::Forward => "Avancer"@,
        GameAction::Backward => "Reculer"@,
        GameAction::Left => "Aller à gauche"@,
        GameAction::Right => "Aller à droite"@,
        GameAction::RotLeft => "Tourner gauche"@,
        GameAction::RotRight => "Tourner droite"@,
        GameAction::Sprint => "Sprint"@,
        GameAction::Slow => "Ralentir"@,
        GameAction::Shoot => "Tirer"@,
        GameAction::Shockwave => "Onde de choc"@,
        GameAction::ZoomIn => "Zoom +"@,
        GameAction::ZoomOut => "Zoom -"@,
    }
}

/// The name of an action in the settings file.
pub open spec fn game_action_config_name(a: GameAction) -> Seq<char> {
    match a {
        GameAction::Forward => "Forward"@,
        GameAction::Backward => "Backward"@,
        GameAction::Left => "Left"@,
        GameAction::Right => "Right"@,
        GameAction::RotLeft => "RotLeft"@,
        GameAction::RotRight => "RotRight"@,
        GameAction::Sprint => "Sprint"@,
        GameAction::Slow => "Slow"@,
        GameAction::Shoot => "Shoot"@,
        GameAction::Shockwave => "Shockwave"@,
        GameAction::ZoomIn => "ZoomIn"@,
        GameAction::ZoomOut => "ZoomOut"@,
    }
}

impl GameAction {
    /// Number of actions.
    pub const COUNT: usize = 12;

    /// The action at position `i` of the menu order.
    pub fn at(i: usize) -> (a: GameAction)
        requires
            i < 12,
        ensures
            a == game_actions()[i as int],
    {
        match i {
            0 => GameAction::Forward,
            1 => GameAction::Backward,
            2 => GameAction::Left,
            3 => GameAction::Right,
            4 => GameAction::RotLeft,
            5 => GameAction::RotRight,
            6 => GameAction::Sprint,
            7 => GameAction::Slow,
            8 => GameAction::Shoot,
            9 => GameAction::Shockwave,
            10 => GameAction::ZoomIn,
            _ => GameAction::ZoomOut,
        }
    }

    /// The label shown in the controls screen.
    pub fn label(self) -> (s: &'static str)
        ensures
            s@ == game_action_label(self),
    {
        match self {
            GameAction::Forward => "Avancer",
            GameAction::Backward => "Reculer",
            GameAction::Left => "Aller à gauche",
            GameAction::Right => "Aller à droite",
            GameAction::RotLeft => "Tourner gauche",
            GameAction::RotRight => "Tourner droite",
            GameAction::Sprint => "Sprint",
            GameAction::Slow => "Ralentir",
            GameAction::Shoot => "Tirer",
            GameAction::Shockwave => "Onde de choc",
            GameAction::ZoomIn => "Zoom +",
            GameAction::ZoomOut => "Zoom -",
        }
    }

    /// The name under which the action is stored in the settings file.
    pub fn config_name(self) -> (s: &'static str)
        ensures
            s@ == game_action_config_name(self),
    {
        match self {
            GameAction::Forward => "Forward",
            GameAction::Backward => "Backward",
            GameAction::Left => "Left",
            GameAction::Right => "Right",
            GameAction::RotLeft => "RotLeft",
            GameAction::RotRight => "RotRight",
            GameAction::Sprint => "Sprint",
            GameAction::Slow => "Slow",
            GameAction::Shoot => "Shoot",
            GameAction::Shockwave => "Shockwave",
            GameAction::ZoomIn => "ZoomIn",
            GameAction::ZoomOut => "ZoomOut",
        }
    }
}

/// An entry of the main pause menu.
#[derive(Debug, Clone, Copy, PartialEq, Eq, Structural)]
pub enum MainMenuItem {
    Resume,
    Controls,
    Graphics,
    Seed,
    Quit,
}

/// The main menu entries, top to bottom.
pub open spec fn main_menu_items() -> Seq<MainMenuItem> {
    seq![
        MainMenuItem::Resume,
        MainMenuItem::Controls,
        MainMenuItem::Graphics,
        MainMenuItem::Seed,
        MainMenuItem::Quit,
    ]
}

impl MainMenuItem {
    /// Number of entries of the main menu.
    pub const COUNT: usize = 5;

    /// The entry at row `i`.
    pub fn at(i: usize) -> (m: MainMenuItem)
        requires
            i < 5,
        ensures
            m == main_menu_items()[i as int],
    {
        match i {
            0 => MainMenuItem::Resume,
            1 => MainMenuItem::Controls,
            2 => MainMenuItem::Graphics,
            3 => MainMenuItem::Seed,
            _ => MainMenuItem::Quit,
        }
    }

    /// The label shown for the entry.
    pub fn label(self) -> (s: &'static str)
        ensures
            s@ == match self {
                MainMenuItem::Resume => "Reprendre"@,
                MainMenuItem::Controls => "Contrôles"@,
                MainMenuItem::Graphics => "Graphismes"@,
                MainMenuItem::Seed => "Seed"@,
                MainMenuItem::Quit => "Quitter"@,
            },
    {
        match self {
            MainMenuItem::Resume => "Reprendre",
            MainMenuItem::Controls => "Contrôles",
            MainMenuItem::Graphics => "Graphismes",
            MainMenuItem::Seed => "Seed",
            MainMenuItem::Quit => "Quitter",
        }
    }
}

/// The screen of the pause menu that is shown.
#[derive(Debug, Clone, Copy, PartialEq, Eq, Structural)]
pub enum ActiveScreen {
    Main,
    Controls,
    Graphics,
    Seed,
}

/// Column of the controls screen: keyboard/mouse or gamepad.
#[derive(Debug, Clone, Copy, PartialEq, Eq, Structural)]
pub enum ControlCol {
    Key,
    Pad,
}

/// How the frame-rate value is being edited.
#[derive(Debug, Clone, Copy, PartialEq, Eq, Structural)]
pub enum FpsEditMode {
    Preset,
    Typing,
}

/// What the pause menu asks of the game after handling the input.
#[derive(Debug, Clone, PartialEq, Eq)]
pub enum MenuEvent {
    /// Nothing to do.
    Nothing,
    /// Apply the seed and close the menu.
    ApplySeed(String),
    /// Apply the seed and keep the menu open.
    ApplySeedInMenu(String),
    RandomSeed,
    Close,
    /// Quit the game.
    Quit,
}

/// Number of frame-rate presets.
pub const FPS_PRESET_COUNT: usize = 20;

/// Frame-rate presets in thousandths of frames per second (0 = unlimited).
pub open spec fn fps_preset_values() -> Seq<u32> {
    seq![
        0u32,
        23976u32,
        24000u32,
        25000u32,
        29970u32,
        30000u32,
        50000u32,
        59940u32,
        60000u32,
        75000u32,
        100000u32,
        119880u32,
        120000u32,
        144000u32,
        165000u32,
        240000u32,
        360000u32,
        480000u32,
        1000000u32,
        0u32,
    ]
}

/// Labels of the frame-rate presets.
pub open spec fn fps_preset_labels() -> Seq<Seq<char>> {
    seq![
        "Illimitée"@,
        "23.976 fps"@,
        "24 fps"@,
        "25 fps"@,
        "29.97 fps"@,
        "30 fps"@,
        "50 fps"@,
        "59.94 fps"@,
        "60 fps"@,
        "75 fps"@,
        "100 fps"@,
        "119.88 fps"@,
        "120 fps"@,
        "144 fps"@,
        "165 fps"@,
        "240 fps"@,
        "360 fps"@,
        "480 fps"@,
        "1000 fps"@,
        "Illimitée"@,
    ]
}

/// Frame-rate preset `i`: its label and its value in thousandths of fps.
pub fn fps_preset(i: usize) -> (p: (&'static str, u32))
    requires
        i < 20,
    ensures
        p.0@ == fps_preset_labels()[i as int],
        p.1 == fps_preset_values()[i as int],
{
    match i {
        0 => ("Illimitée", 0),
        1 => ("23.976 fps", 23976),
        2 => ("24 fps", 24000),
        3 => ("25 fps", 25000),
        4 => ("29.97 fps", 29970),
        5 => ("30 fps", 30000),
        6 => ("50 fps", 50000),
        7 => ("59.94 fps", 59940),
        8 => ("60 fps", 60000),
        9 => ("75 fps", 75000),
        10 => ("100 fps", 100000),
        11 => ("119.88 fps", 119880),
        12 => ("120 fps", 120000),
        13 => ("144 fps", 144000),
        14 => ("165 fps", 165000),
        15 => ("240 fps", 240000),
        16 => ("360 fps", 360000),
        17 => ("480 fps", 480000),
        18 => ("1000 fps", 1000000),
        _ => ("Illimitée", 0),
    }
}

/// Number of resolution presets.
pub const RES_PRESET_COUNT: usize = 6;

/// Resolution presets as (width, height).
pub open spec fn res_preset_sizes() -> Seq<(u32, u32)> {
    seq![
        (1280u32, 720u32),
        (1366u32, 768u32),
        (1600u32, 900u32),
        (1920u32, 1080u32),
        (2560u32, 1440u32),
        (3840u32, 2160u32),
    ]
}

/// Labels of the resolution presets.
pub open spec fn res_preset_labels() -> Seq<Seq<char>> {
    seq![
        "1280 × 720"@,
        "1366 × 768"@,
        "1600 × 900"@,
        "1920 × 1080"@,
        "2560 × 1440"@,
        "3840 × 2160"@,
    ]
}

/// Resolution preset `i`: label, width and height.
pub fn res_preset(i: usize) -> (p: (&'static str, u32, u32))
    requires
        i < 6,
    ensures
        p.0@ == res_preset_labels()[i as int],
        (p.1, p.2) == res_preset_sizes()[i as int],
{
    match i {
        0 => ("1280 × 720", 1280, 720),
        1 => ("1366 × 768", 1366, 768),
        2 => ("1600 × 900", 1600, 900),
        3 => ("1920 × 1080", 1920, 1080),
        4 => ("2560 × 1440", 2560, 1440),
        _ => ("3840 × 2160", 3840, 2160),
    }
}

/// The label of a frame-rate value that is unlimited (0) or one of the
/// presets; `None` when the value is neither.
pub fn fps_preset_label(fps_millis: u32) -> (r: Option<&'static str>)
    ensures
        fps_millis == 0 ==> (r matches Some(s) && s@ == "Illimitée"@),
        fps_millis != 0 ==> (r is Some <==> fps_preset_values().contains(fps_millis)),
        fps_millis != 0 ==> (r matches Some(s) ==> exists|i: int|
            0 <= i < 20 && fps_preset_values()[i] == fps_millis && s@ == fps_preset_labels()[i]
                && forall|j: int| 0 <= j < i ==> fps_preset_values()[j] != fps_millis),
{
    if fps_millis == 0 {
        return Some("Illimitée");
    }
    let mut i: usize = 0;
    while i < FPS_PRESET_COUNT
        invariant
            i <= 20,
            forall|j: int| 0 <= j < i ==> fps_preset_values()[j] != fps_millis,
        decreases 20 - i,
    {
        let (label, val) = fps_preset(i);
        if val == fps_millis {
            return Some(label);
        }
        i = i + 1;
    }
    assert(!fps_preset_values().contains(fps_millis)) by {
        if fps_preset_values().contains(fps_millis) {
            let k = choose|k: int| 0 <= k < 20 && fps_preset_values()[k] == fps_millis;
            assert(fps_preset_values()[k] != fps_millis);
        }
    }
    None
}

/// The first preset holding the frame-rate value `fps_millis`.
pub open spec fn first_fps_preset(fps_millis: u32) -> int {
    choose|i: int|
        0 <= i < 20 && fps_preset_values()[i] == fps_millis && forall|j: int|
            0 <= j < i ==> fps_preset_values()[j] != fps_millis
}

/// The three decimal digits of `r` (below 1000), leading zeros kept.
pub open spec fn three_digits(r: int) -> Seq<char> {
    seq![digit_char(r / 100), digit_char((r / 10) % 10), digit_char(r % 10)]
}

/// The text for a frame-rate limit in thousandths of frames per second:
/// "Illimitée" for 0, the label of the first preset holding the value,
/// otherwise the frames per second followed by " fps", as a whole number
/// when `whole` (the caller's test that the value has no fraction worth
/// showing), else with three decimals.
pub open spec fn fps_label_spec(fps_millis: u32, whole: bool) -> Seq<char> {
    if fps_millis == 0 {
        "Illimitée"@
    } else if fps_preset_values().contains(fps_millis) {
        fps_preset_labels()[first_fps_preset(fps_millis)]
    } else if whole {
        decimal((fps_millis / 1000) as nat) + " fps"@
    } else {
        decimal((fps_millis / 1000) as nat) + "."@ + three_digits((fps_millis % 1000) as int)
            + " fps"@
    }
}

/// The text for a frame-rate limit (see `fps_label_spec`); `whole` says
/// whether the frames per second are shown without decimals.
pub fn fps_label(fps_millis: u32, whole: bool) -> (s: String)
    ensures
        s@ == fps_label_spec(fps_millis, whole),
{
    proof {
        reveal_strlit("Illimitée");
        reveal_strlit(" fps");
        reveal_strlit(".");
    }
    match fps_preset_label(fps_millis) {
        Some(label) => {
            proof {
                if fps_millis != 0 {
                    let i = choose|i: int|
                        0 <= i < 20 && fps_preset_values()[i] == fps_millis && label@
                            == fps_preset_labels()[i] && forall|j: int|
                            0 <= j < i ==> fps_preset_values()[j] != fps_millis;
                    let f = first_fps_preset(fps_millis);
                    assert(0 <= f < 20 && fps_preset_values()[f] == fps_millis && forall|j: int|
                        0 <= j < f ==> fps_preset_values()[j] != fps_millis);
                    if f < i {
                        assert(fps_preset_values()[f] != fps_millis);
                    } else if i < f {
                        assert(fps_preset_values()[i] != fps_millis);
                    }
                }
            }
            label.to_owned()
        },
        None => {
            let mut v = decimal_chars(fps_millis / 1000);
            if !whole {
                let r = fps_millis % 1000;
                v.push('.');
                v.push((((r / 100) + 48) as u8) as char);
                v.push(((((r / 10) % 10) + 48) as u8) as char);
                v.push((((r % 10) + 48) as u8) as char);
            }
            v.push(' ');
            v.push('f');
            v.push('p');
            v.push('s');
            let s = string_from_chars(&v);
            proof {
                if whole {
                    assert(s@ =~= decimal((fps_millis / 1000) as nat) + " fps"@);
                } else {
                    assert(s@ =~= decimal((fps_millis / 1000) as nat) + "."@ + three_digits(
                        (fps_millis % 1000) as int,
                    ) + " fps"@);
                }
            }
            s
        },
    }
}

/// Distance between two frame-rate values.
pub open spec fn fps_distance(a: u32, b: u32) -> int {
    if a >= b {
        a - b
    } else {
        b - a
    }
}

/// `r` is the first preset whose value is nearest to `fps_millis`.
pub open spec fn is_nearest_fps_preset(r: int, fps_millis: u32) -> bool {
    &&& 0 <= r < 20
    &&& forall|j: int|
        0 <= j < 20 ==> fps_distance(fps_preset_values()[r], fps_millis) <= fps_distance(
            #[trigger] fps_preset_values()[j],
            fps_millis,
        )
    &&& forall|j: int|
        0 <= j < r ==> fps_distance(fps_preset_values()[r], fps_millis) < fps_distance(
            #[trigger] fps_preset_values()[j],
            fps_millis,
        )
}

/// The first preset whose value is nearest to `fps_millis`.
pub fn find_nearest_fps_preset(fps_millis: u32) -> (r: usize)
    ensures
        is_nearest_fps_preset(r as int, fps_millis),
{
    let mut best: usize = 0;
    let (_, v0) = fps_preset(0);
    let mut best_d: u32 = if v0 >= fps_millis {
        v0 - fps_millis
    } else {
        fps_millis - v0
    };
    let mut i: usize = 1;
    while i < FPS_PRESET_COUNT
        invariant
            1 <= i <= 20,
            best < i,
            best_d as int == fps_distance(fps_preset_values()[best as int], fps_millis),
            forall|j: int|
                0 <= j < i ==> best_d <= fps_distance(#[trigger] fps_preset_values()[j], fps_millis),
            forall|j: int|
                0 <= j < best ==> best_d < fps_distance(#[trigger] fps_preset_values()[j], fps_millis),
        decreases 20 - i,
    {
        let (_, v) = fps_preset(i);
        let d: u32 = if v >= fps_millis {
            v - fps_millis
        } else {
            fps_millis - v
        };
        if d < best_d {
            best = i;
            best_d = d;
        }
        i = i + 1;
    }
    best
}

/// Squared distance between two resolutions.
pub open spec fn res_distance(a: (u32, u32), w: u32, h: u32) -> int {
    (a.0 - w) * (a.0 - w) + (a.1 - h) * (a.1 - h)
}

/// `r` is the first resolution preset nearest to `w` x `h`.
pub open spec fn is_nearest_res_preset(r: int, w: u32, h: u32) -> bool {
    &&& 0 <= r < 6
    &&& forall|j: int|
        0 <= j < 6 ==> res_distance(res_preset_sizes()[r], w, h) <= res_distance(
            #[trigger] res_preset_sizes()[j],
            w,
            h,
        )
    &&& forall|j: int|
        0 <= j < r ==> res_distance(res_preset_sizes()[r], w, h) < res_distance(
            #[trigger] res_preset_sizes()[j],
            w,
            h,
        )
}

/// The first resolution preset nearest to `w` x `h`.
pub fn find_nearest_res_preset(w: u32, h: u32) -> (r: usize)
    requires
        forall|j: int| 0 <= j < 6 ==> res_distance(#[trigger] res_preset_sizes()[j], w, h) <= i64::MAX,
    ensures
        is_nearest_res_preset(r as int, w, h),
{
    let mut best: usize = 0;
    let mut best_d: i64 = res_sq_distance(0, w, h);
    let mut i: usize = 1;
    while i < RES_PRESET_COUNT
        invariant
            1 <= i <= 6,
            best < i,
            forall|j: int| 0 <= j < 6 ==> res_distance(#[trigger] res_preset_sizes()[j], w, h) <= i64::MAX,
            best_d as int == res_distance(res_preset_sizes()[best as int], w, h),
            forall|j: int|
                0 <= j < i ==> best_d <= res_distance(#[trigger] res_preset_sizes()[j], w, h),
            forall|j: int|
                0 <= j < best ==> best_d < res_distance(#[trigger] res_preset_sizes()[j], w, h),
        decreases 6 - i,
    {
        let d = res_sq_distance(i, w, h);
        if d < best_d {
            best = i;
            best_d = d;
        }
        i = i + 1;
    }
    best
}

fn res_sq_distance(i: usize, w: u32, h: u32) -> (d: i64)
    requires
        i < 6,
        res_distance(res_preset_sizes()[i as int], w, h) <= i64::MAX,
    ensures
        d as int == res_distance(res_preset_sizes()[i as int], w, h),
{
    let (_, pw, ph) = res_preset(i);
    let dw: i64 = pw as i64 - w as i64;
    let dh: i64 = ph as i64 - h as i64;
    assert(dw * dw >= 0) by (nonlinear_arith);
    assert(dh * dh >= 0) by (nonlinear_arith);
    dw * dw + dh * dh
}


/// A frame-rate value that is neither unlimited nor a preset is written as
/// its whole frames per second, then, unless shown whole, a point and
/// exactly three digits giving its thousandths, then " fps".
pub proof fn lemma_fps_label_digits(fps_millis: u32, whole: bool)
    requires
        fps_millis != 0,
        !fps_preset_values().contains(fps_millis),
    ensures
        digits_value(decimal((fps_millis / 1000) as nat)) == fps_millis / 1000,
        whole ==> fps_label_spec(fps_millis, whole) == decimal((fps_millis / 1000) as nat) + " fps"@,
        !whole ==> exists|d: Seq<char>|
            d.len() == 3 && all_digits(d) && digits_value(d) == fps_millis % 1000 && fps_label_spec(
                fps_millis,
                whole,
            ) == decimal((fps_millis / 1000) as nat) + "."@ + d + " fps"@,
{
    lemma_decimal_digits((fps_millis / 1000) as nat);
    let r = (fps_millis % 1000) as int;
    let d = three_digits(r);
    lemma_digit_char(r / 100);
    lemma_digit_char((r / 10) % 10);
    lemma_digit_char(r % 10);
    assert(d.drop_last().drop_last() =~= seq![digit_char(r / 100)]);
    assert(d.drop_last() =~= seq![digit_char(r / 100), digit_char((r / 10) % 10)]);
    assert(seq![digit_char(r / 100)].drop_last() =~= Seq::<char>::empty());
    assert(digits_value(Seq::<char>::empty()) == 0);
    assert(seq![digit_char(r / 100)].last() == digit_char(r / 100));
    assert(digits_value(seq![digit_char(r / 100)]) == r / 100);
    assert(d.drop_last().last() == digit_char((r / 10) % 10));
    assert(d.last() == digit_char(r % 10));
    assert(digits_value(d.drop_last()) == (r / 100) * 10 + (r / 10) % 10);
    assert(digits_value(d) == ((r / 100) * 10 + (r / 10) % 10) * 10 + r % 10);
    assert(((r / 100) * 10 + (r / 10) % 10) * 10 + r % 10 == r) by (nonlinear_arith)
        requires
            0 <= r < 1000,
    ;
    assert(all_digits(d));
}

} // verus!
