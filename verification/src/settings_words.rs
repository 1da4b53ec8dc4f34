//! Facts about the words the settings file is written with: names of keys,
//! actions and gamepad buttons, and numbers.

use vstd::prelude::*;
use crate::text::{is_white, decimal, lemma_decimal_digits, is_digit};
use crate::bindings::{key_names, named_pad_buttons, pad_button_name, pad_named_from, pad_button_from_name_spec, PadButton};
use crate::menu_types::{GameAction, game_action_config_name};
use crate::settings_laws::{key_ok, value_ok};

verus! {

/// A character of a word: an ASCII letter or digit, or `_`.
pub open spec fn is_word_char(c: char) -> bool {
    ('a' <= c <= 'z') || ('A' <= c <= 'Z') || ('0' <= c <= '9') || c == '_'
}

/// A non-empty word.
pub open spec fn word(s: Seq<char>) -> bool {
    &&& s.len() > 0
    &&& forall|i: int| 0 <= i < s.len() ==> is_word_char(#[trigger] s[i])
}

/// Visible ASCII characters only.
pub open spec fn printable(s: Seq<char>) -> bool {
    forall|i: int| 0 <= i < s.len() ==> '!' <= #[trigger] s[i] <= '~'
}

pub proof fn lemma_printable_concat(a: Seq<char>, b: Seq<char>)
    requires
        printable(a),
        printable(b),
    ensures
        printable(a + b),
{
    assert forall|i: int| 0 <= i < (a + b).len() implies '!' <= #[trigger] (a + b)[i] <= '~' by {
        if i < a.len() {
            assert((a + b)[i] == a[i]);
        } else {
            assert((a + b)[i] == b[i - a.len()]);
        }
    }
}

pub proof fn lemma_word_printable(s: Seq<char>)
    requires
        word(s),
    ensures
        printable(s),
        key_ok(s),
        value_ok(s),
        !s.contains(','),
{
    assert(!s.contains('=')) by {
        if s.contains('=') {
            let k = choose|k: int| 0 <= k < s.len() && s[k] == '=';
            assert(is_word_char(s[k]));
        }
    }
    assert(!s.contains(',')) by {
        if s.contains(',') {
            let k = choose|k: int| 0 <= k < s.len() && s[k] == ',';
            assert(is_word_char(s[k]));
        }
    }
    assert(is_word_char(s[0]));
    assert(is_word_char(s[s.len() - 1]));
}

pub proof fn lemma_printable_no_newline(s: Seq<char>)
    requires
        printable(s),
    ensures
        !s.contains('\n'),
        s.len() == 0 || (!is_white(s[0]) && !is_white(s.last())),
{
    if s.contains('\n') {
        let k = choose|k: int| 0 <= k < s.len() && s[k] == '\n';
        assert('!' <= s[k]);
    }
    if s.len() > 0 {
        assert('!' <= s[0] <= '~');
        assert('!' <= s[s.len() - 1] <= '~');
    }
}

pub proof fn lemma_no_char_concat(a: Seq<char>, b: Seq<char>, c: char)
    requires
        !a.contains(c),
        !b.contains(c),
    ensures
        !(a + b).contains(c),
{
    if (a + b).contains(c) {
        let k = choose|k: int| 0 <= k < (a + b).len() && (a + b)[k] == c;
        if k < a.len() {
            assert(a[k] == c);
        } else {
            assert(b[k - a.len()] == c);
        }
    }
}

pub proof fn lemma_decimal_printable(n: nat)
    ensures
        printable(decimal(n)),
        decimal(n).len() > 0,
{
    lemma_decimal_digits(n);
    assert forall|i: int| 0 <= i < decimal(n).len() implies '!' <= #[trigger] decimal(n)[i] <= '~' by {
        assert(is_digit(decimal(n)[i]));
    }
}

/// The key names the settings file can name are words.
pub proof fn lemma_key_names_words()
    ensures
        forall|i: int| 0 <= i < key_names().len() ==> word(#[trigger] key_names()[i]),
{
    reveal_strlit("KeyA");
    reveal_strlit("KeyB");
    reveal_strlit("KeyC");
    reveal_strlit("KeyD");
    reveal_strlit("KeyE");
    reveal_strlit("KeyF");
    reveal_strlit("KeyG");
    reveal_strlit("KeyH");
    reveal_strlit("KeyI");
    reveal_strlit("KeyJ");
    reveal_strlit("KeyK");
    reveal_strlit("KeyL");
    reveal_strlit("KeyM");
    reveal_strlit("KeyN");
    reveal_strlit("KeyO");
    reveal_strlit("KeyP");
    reveal_strlit("KeyQ");
    reveal_strlit("KeyR");
    reveal_strlit("KeyS");
    reveal_strlit("KeyT");
    reveal_strlit("KeyU");
    reveal_strlit("KeyV");
    reveal_strlit("KeyW");
    reveal_strlit("KeyX");
    reveal_strlit("KeyY");
    reveal_strlit("KeyZ");
    reveal_strlit("Digit0");
    reveal_strlit("Digit1");
    reveal_strlit("Digit2");
    reveal_strlit("Digit3");
    reveal_strlit("Digit4");
    reveal_strlit("Digit5");
    reveal_strlit("Digit6");
    reveal_strlit("Digit7");
    reveal_strlit("Digit8");
    reveal_strlit("Digit9");
    reveal_strlit("F1");
    reveal_strlit("F2");
    reveal_strlit("F3");
    reveal_strlit("F4");
    reveal_strlit("F5");
    reveal_strlit("F6");
    reveal_strlit("F7");
    reveal_strlit("F8");
    reveal_strlit("F9");
    reveal_strlit("F10");
    reveal_strlit("F11");
    reveal_strlit("F12");
    reveal_strlit("ArrowUp");
    reveal_strlit("ArrowDown");
    reveal_strlit("ArrowLeft");
    reveal_strlit("ArrowRight");
    reveal_strlit("Space");
    reveal_strlit("Enter");
    reveal_strlit("Escape");
    reveal_strlit("Backspace");
    reveal_strlit("Tab");
    reveal_strlit("ShiftLeft");
    reveal_strlit("ShiftRight");
    reveal_strlit("ControlLeft");
    reveal_strlit("ControlRight");
    reveal_strlit("AltLeft");
    reveal_strlit("AltRight");
    reveal_strlit("Equal");
    reveal_strlit("Minus");
    reveal_strlit("BracketLeft");
    reveal_strlit("BracketRight");
    reveal_strlit("Semicolon");
    reveal_strlit("Quote");
    reveal_strlit("Comma");
    reveal_strlit("Period");
    reveal_strlit("Slash");
    reveal_strlit("Backslash");
    reveal_strlit("Backquote");
    reveal_strlit("Numpad0");
    reveal_strlit("Numpad1");
    reveal_strlit("Numpad2");
    reveal_strlit("Numpad3");
    reveal_strlit("Numpad4");
    reveal_strlit("Numpad5");
    reveal_strlit("Numpad6");
    reveal_strlit("Numpad7");
    reveal_strlit("Numpad8");
    reveal_strlit("Numpad9");
    reveal_strlit("NumpadAdd");
    reveal_strlit("NumpadSubtract");
    reveal_strlit("NumpadMultiply");
    reveal_strlit("NumpadDivide");
    reveal_strlit("NumpadEnter");
    reveal_strlit("Home");
    reveal_strlit("End");
    reveal_strlit("PageUp");
    reveal_strlit("PageDown");
    reveal_strlit("Insert");
    reveal_strlit("Delete");
    assert forall|i: int| 0 <= i < key_names().len() implies word(#[trigger] key_names()[i]) by {
        assert(word("KeyA"@));
        assert(word("KeyB"@));
        assert(word("KeyC"@));
        assert(word("KeyD"@));
        assert(word("KeyE"@));
        assert(word("KeyF"@));
        assert(word("KeyG"@));
        assert(word("KeyH"@));
        assert(word("KeyI"@));
        assert(word("KeyJ"@));
        assert(word("KeyK"@));
        assert(word("KeyL"@));
        assert(word("KeyM"@));
        assert(word("KeyN"@));
        assert(word("KeyO"@));
        assert(word("KeyP"@));
        assert(word("KeyQ"@));
        assert(word("KeyR"@));
        assert(word("KeyS"@));
        assert(word("KeyT"@));
        assert(word("KeyU"@));
        assert(word("KeyV"@));
        assert(word("KeyW"@));
        assert(word("KeyX"@));
        assert(word("KeyY"@));
        assert(word("KeyZ"@));
        assert(word("Digit0"@));
        assert(word("Digit1"@));
        assert(word("Digit2"@));
        assert(word("Digit3"@));
        assert(word("Digit4"@));
        assert(word("Digit5"@));
        assert(word("Digit6"@));
        assert(word("Digit7"@));
        assert(word("Digit8"@));
        assert(word("Digit9"@));
        assert(word("F1"@));
        assert(word("F2"@));
        assert(word("F3"@));
        assert(word("F4"@));
        assert(word("F5"@));
        assert(word("F6"@));
        assert(word("F7"@));
        assert(word("F8"@));
        assert(word("F9"@));
        assert(word("F10"@));
        assert(word("F11"@));
        assert(word("F12"@));
        assert(word("ArrowUp"@));
        assert(word("ArrowDown"@));
        assert(word("ArrowLeft"@));
        assert(word("ArrowRight"@));
        assert(word("Space"@));
        assert(word("Enter"@));
        assert(word("Escape"@));
        assert(word("Backspace"@));
        assert(word("Tab"@));
        assert(word("ShiftLeft"@));
        assert(word("ShiftRight"@));
        assert(word("ControlLeft"@));
        assert(word("ControlRight"@));
        assert(word("AltLeft"@));
        assert(word("AltRight"@));
        assert(word("Equal"@));
        assert(word("Minus"@));
        assert(word("BracketLeft"@));
        assert(word("BracketRight"@));
        assert(word("Semicolon"@));
        assert(word("Quote"@));
        assert(word("Comma"@));
        assert(word("Period"@));
        assert(word("Slash"@));
        assert(word("Backslash"@));
        assert(word("Backquote"@));
        assert(word("Numpad0"@));
        assert(word("Numpad1"@));
        assert(word("Numpad2"@));
        assert(word("Numpad3"@));
        assert(word("Numpad4"@));
        assert(word("Numpad5"@));
        assert(word("Numpad6"@));
        assert(word("Numpad7"@));
        assert(word("Numpad8"@));
        assert(word("Numpad9"@));
        assert(word("NumpadAdd"@));
        assert(word("NumpadSubtract"@));
        assert(word("NumpadMultiply"@));
        assert(word("NumpadDivide"@));
        assert(word("NumpadEnter"@));
        assert(word("Home"@));
        assert(word("End"@));
        assert(word("PageUp"@));
        assert(word("PageDown"@));
        assert(word("Insert"@));
        assert(word("Delete"@));
    }
}

/// Gamepad button names are words.
pub proof fn lemma_pad_name_word(b: PadButton)
    ensures
        word(pad_button_name(b)),
{
    reveal_strlit("South");
    reveal_strlit("East");
    reveal_strlit("North");
    reveal_strlit("West");
    reveal_strlit("C");
    reveal_strlit("Z");
    reveal_strlit("LeftTrigger");
    reveal_strlit("LeftTrigger2");
    reveal_strlit("RightTrigger");
    reveal_strlit("RightTrigger2");
    reveal_strlit("Select");
    reveal_strlit("Start");
    reveal_strlit("Mode");
    reveal_strlit("LeftThumb");
    reveal_strlit("RightThumb");
    reveal_strlit("DPadUp");
    reveal_strlit("DPadDown");
    reveal_strlit("DPadLeft");
    reveal_strlit("DPadRight");
    reveal_strlit("Unknown");
    assert(word("South"@));
    assert(word("East"@));
    assert(word("North"@));
    assert(word("West"@));
    assert(word("C"@));
    assert(word("Z"@));
    assert(word("LeftTrigger"@));
    assert(word("LeftTrigger2"@));
    assert(word("RightTrigger"@));
    assert(word("RightTrigger2"@));
    assert(word("Select"@));
    assert(word("Start"@));
    assert(word("Mode"@));
    assert(word("LeftThumb"@));
    assert(word("RightThumb"@));
    assert(word("DPadUp"@));
    assert(word("DPadDown"@));
    assert(word("DPadLeft"@));
    assert(word("DPadRight"@));
    assert(word("Unknown"@));
}

/// Action names are words.
pub proof fn lemma_action_name_word(a: GameAction)
    ensures
        word(game_action_config_name(a)),
{
    reveal_strlit("Forward");
    reveal_strlit("Backward");
    reveal_strlit("Left");
    reveal_strlit("Right");
    reveal_strlit("RotLeft");
    reveal_strlit("RotRight");
    reveal_strlit("Sprint");
    reveal_strlit("Slow");
    reveal_strlit("Shoot");
    reveal_strlit("Shockwave");
    reveal_strlit("ZoomIn");
    reveal_strlit("ZoomOut");
    assert(word("Forward"@));
    assert(word("Backward"@));
    assert(word("Left"@));
    assert(word("Right"@));
    assert(word("RotLeft"@));
    assert(word("RotRight"@));
    assert(word("Sprint"@));
    assert(word("Slow"@));
    assert(word("Shoot"@));
    assert(word("Shockwave"@));
    assert(word("ZoomIn"@));
    assert(word("ZoomOut"@));
}

/// The lengths and some characters of the keys of the settings file.
pub proof fn lemma_key_facts()
    ensures
        "window_mode"@.len() == 11,
        "window_mode"@[0] == 'w',
        "res_width"@.len() == 9,
        "res_width"@[0] == 'r',
        "res_height"@.len() == 10,
        "res_height"@[0] == 'r',
        "ui_scale"@.len() == 8,
        "ui_scale"@[0] == 'u',
        "fps_enabled"@.len() == 11,
        "fps_enabled"@[0] == 'f',
        "fps_millis"@.len() == 10,
        "fps_millis"@[0] == 'f',
        "show_fps"@.len() == 8,
        "show_fps"@[0] == 's',
        "Forward"@.len() == 7,
        "Forward"@[0] == 'F',
        "Backward"@.len() == 8,
        "Backward"@[0] == 'B',
        "Left"@.len() == 4,
        "Left"@[0] == 'L',
        "Right"@.len() == 5,
        "Right"@[0] == 'R',
        "RotLeft"@.len() == 7,
        "RotLeft"@[0] == 'R',
        "RotRight"@.len() == 8,
        "RotRight"@[0] == 'R',
        "Sprint"@.len() == 6,
        "Sprint"@[0] == 'S',
        "Slow"@.len() == 4,
        "Slow"@[0] == 'S',
        "Shoot"@.len() == 5,
        "Shoot"@[0] == 'S',
        "Shockwave"@.len() == 9,
        "Shockwave"@[0] == 'S',
        "ZoomIn"@.len() == 6,
        "ZoomIn"@[0] == 'Z',
        "ZoomOut"@.len() == 7,
        "ZoomOut"@[0] == 'Z',
{
    reveal_strlit("window_mode");
    reveal_strlit("res_width");
    reveal_strlit("res_height");
    reveal_strlit("ui_scale");
    reveal_strlit("fps_enabled");
    reveal_strlit("fps_millis");
    reveal_strlit("show_fps");
    reveal_strlit("Forward");
    reveal_strlit("Backward");
    reveal_strlit("Left");
    reveal_strlit("Right");
    reveal_strlit("RotLeft");
    reveal_strlit("RotRight");
    reveal_strlit("Sprint");
    reveal_strlit("Slow");
    reveal_strlit("Shoot");
    reveal_strlit("Shockwave");
    reveal_strlit("ZoomIn");
    reveal_strlit("ZoomOut");
}

/// The names of the named gamepad buttons differ: each is found back.
pub proof fn lemma_pad_lookup(b: PadButton)
    requires
        named_pad_buttons().contains(b),
    ensures
        pad_button_from_name_spec(pad_button_name(b)) == Some(b),
{
    reveal_strlit("South");
    reveal_strlit("East");
    reveal_strlit("North");
    reveal_strlit("West");
    reveal_strlit("RightTrigger");
    reveal_strlit("LeftTrigger");
    reveal_strlit("RightTrigger2");
    reveal_strlit("LeftTrigger2");
    reveal_strlit("DPadUp");
    reveal_strlit("DPadDown");
    reveal_strlit("DPadLeft");
    reveal_strlit("DPadRight");
    reveal_strlit("Start");
    reveal_strlit("Select");
    reveal_strlit("LeftThumb");
    reveal_strlit("RightThumb");
    assert("South"@.len() == 5);
    assert("South"@[0] == 'S');
    assert("South"@[1] == 'o');
    assert("South"@[4] == 'h');
    assert("East"@.len() == 4);
    assert("East"@[0] == 'E');
    assert("East"@[1] == 'a');
    assert("North"@.len() == 5);
    assert("North"@[0] == 'N');
    assert("North"@[1] == 'o');
    assert("North"@[4] == 'h');
    assert("West"@.len() == 4);
    assert("West"@[0] == 'W');
    assert("West"@[1] == 'e');
    assert("RightTrigger"@.len() == 12);
    assert("RightTrigger"@[0] == 'R');
    assert("RightTrigger"@[1] == 'i');
    assert("RightTrigger"@[4] == 't');
    assert("LeftTrigger"@.len() == 11);
    assert("LeftTrigger"@[0] == 'L');
    assert("LeftTrigger"@[1] == 'e');
    assert("LeftTrigger"@[4] == 'T');
    assert("RightTrigger2"@.len() == 13);
    assert("RightTrigger2"@[0] == 'R');
    assert("RightTrigger2"@[1] == 'i');
    assert("RightTrigger2"@[4] == 't');
    assert("LeftTrigger2"@.len() == 12);
    assert("LeftTrigger2"@[0] == 'L');
    assert("LeftTrigger2"@[1] == 'e');
    assert("LeftTrigger2"@[4] == 'T');
    assert("DPadUp"@.len() == 6);
    assert("DPadUp"@[0] == 'D');
    assert("DPadUp"@[1] == 'P');
    assert("DPadUp"@[4] == 'U');
    assert("DPadDown"@.len() == 8);
    assert("DPadDown"@[0] == 'D');
    assert("DPadDown"@[1] == 'P');
    assert("DPadDown"@[4] == 'D');
    assert("DPadLeft"@.len() == 8);
    assert("DPadLeft"@[0] == 'D');
    assert("DPadLeft"@[1] == 'P');
    assert("DPadLeft"@[4] == 'L');
    assert("DPadRight"@.len() == 9);
    assert("DPadRight"@[0] == 'D');
    assert("DPadRight"@[1] == 'P');
    assert("DPadRight"@[4] == 'R');
    assert("Start"@.len() == 5);
    assert("Start"@[0] == 'S');
    assert("Start"@[1] == 't');
    assert("Start"@[4] == 't');
    assert("Select"@.len() == 6);
    assert("Select"@[0] == 'S');
    assert("Select"@[1] == 'e');
    assert("Select"@[4] == 'c');
    assert("LeftThumb"@.len() == 9);
    assert("LeftThumb"@[0] == 'L');
    assert("LeftThumb"@[1] == 'e');
    assert("LeftThumb"@[4] == 'T');
    assert("RightThumb"@.len() == 10);
    assert("RightThumb"@[0] == 'R');
    assert("RightThumb"@[1] == 'i');
    assert("RightThumb"@[4] == 't');
    reveal_with_fuel(pad_named_from, 17);
    let k = choose|k: int| 0 <= k < named_pad_buttons().len() && named_pad_buttons()[k] == b;
    assert(named_pad_buttons()[k] == b);
}

} // verus!
