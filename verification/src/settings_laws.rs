//! Saving the settings and reading the file back gives the same settings.

use vstd::prelude::*;
use crate::text::{
    is_white, trim, trim_front, trim_back, split_lines, find_from, decimal, starts_with,
    lemma_parse_decimal, lemma_decimal_digits, is_digit,
};
use crate::settings::{
    config_entry, entries_of, join_lines, split_at_comma, binding_from_value, config_lookup,
    settings_lines, binding_line, binding_lines, settings_text_spec, settings_from_text,
    bindings_in_order, default_bindings_spec, flag_value, SettingsView, config_entries,
};
use crate::menu_types::{GameAction, game_actions, game_action_config_name};
use crate::window_mode::{window_mode_name, lemma_window_mode_name_roundtrip};
use crate::bindings::{
    KeyBindView, GamepadBind, BindingView, key_names, named_pad_buttons, pad_button_name,
    parse_key_bind_spec, parse_gamepad_bind_spec, key_bind_text, pad_bind_text,
};
use crate::settings_words::{
    word, printable, lemma_printable_concat, lemma_word_printable, lemma_printable_no_newline,
    lemma_no_char_concat, lemma_decimal_printable, lemma_key_names_words, lemma_pad_name_word,
    lemma_pad_lookup, lemma_action_name_word, lemma_key_facts,
};

verus! {

/// Appending characters other than `\n` extends the last line.
proof fn lemma_split_append(t: Seq<char>, l: Seq<char>)
    requires
        !l.contains('\n'),
    ensures
        split_lines(t + l) == split_lines(t).update(
            split_lines(t).len() - 1,
            split_lines(t).last() + l,
        ),
        split_lines(t + l).len() == split_lines(t).len(),
    decreases l.len(),
{
    lemma_split_lines_len(t);
    if l.len() == 0 {
        assert(t + l =~= t);
        assert(split_lines(t).last() + l =~= split_lines(t).last());
        assert(split_lines(t).update(split_lines(t).len() - 1, split_lines(t).last()) =~= split_lines(t));
    } else {
        let l1 = l.drop_last();
        assert(!l1.contains('\n')) by {
            if l1.contains('\n') {
                let k = choose|k: int| 0 <= k < l1.len() && l1[k] == '\n';
                assert(l[k] == '\n');
            }
        }
        lemma_split_append(t, l1);
        assert((t + l).drop_last() =~= t + l1);
        assert((t + l).last() == l.last());
        assert(l.last() != '\n') by {
            assert(l[l.len() - 1] == l.last());
        }
        lemma_split_lines_len(t + l1);
        let r = split_lines(t);
        let big = split_lines(t + l1);
        assert(split_lines(t + l) == big.update(big.len() - 1, big.last().push(l.last())));
        assert(big.last() == r.last() + l1);
        assert((r.last() + l1).push(l.last()) =~= r.last() + l);
        assert(split_lines(t + l) =~= r.update(r.len() - 1, r.last() + l));
    }
}

proof fn lemma_split_lines_len(t: Seq<char>)
    ensures
        split_lines(t).len() >= 1,
    decreases t.len(),
{
    if t.len() > 0 {
        lemma_split_lines_len(t.drop_last());
    }
}

/// No line contains `\n`.
pub open spec fn no_newlines(lines: Seq<Seq<char>>) -> bool {
    forall|i: int| 0 <= i < lines.len() ==> !(#[trigger] lines[i]).contains('\n')
}

/// Cutting lines written one after the other gives them back, and an empty
/// last piece.
proof fn lemma_split_join(lines: Seq<Seq<char>>)
    requires
        no_newlines(lines),
    ensures
        split_lines(join_lines(lines)) == lines.push(Seq::empty()),
    decreases lines.len(),
{
    if lines.len() == 0 {
        assert(join_lines(lines) =~= Seq::<char>::empty());
        assert(split_lines(Seq::<char>::empty()) =~= lines.push(Seq::empty()));
    } else {
        let l0 = lines.drop_last();
        let l = lines.last();
        assert(no_newlines(l0)) by {
            assert forall|i: int| 0 <= i < l0.len() implies !(#[trigger] l0[i]).contains('\n') by {
                assert(l0[i] == lines[i]);
            }
        }
        assert(!l.contains('\n')) by {
            assert(lines[lines.len() - 1] == l);
        }
        lemma_split_join(l0);
        let t = join_lines(l0);
        lemma_split_append(t, l);
        let u = t + l;
        assert(join_lines(lines) == u + seq!['\n']);
        assert((u + seq!['\n']).drop_last() =~= u);
        assert((u + seq!['\n']).last() == '\n');
        assert(split_lines(u + seq!['\n']) == split_lines(u).push(Seq::empty()));
        assert(l0.push(Seq::empty()).update(l0.len() as int, Seq::<char>::empty() + l) =~= lines);
        assert(Seq::<char>::empty() + l =~= l);
        assert(split_lines(u) =~= lines);
    }
}

/// The entries of lines followed by more lines.
proof fn lemma_entries_concat(a: Seq<Seq<char>>, b: Seq<Seq<char>>)
    ensures
        entries_of(a + b) == entries_of(a) + entries_of(b),
    decreases b.len(),
{
    if b.len() == 0 {
        assert(a + b =~= a);
        assert(entries_of(b) =~= Seq::<(Seq<char>, Seq<char>)>::empty());
        assert(entries_of(a) + entries_of(b) =~= entries_of(a));
    } else {
        lemma_entries_concat(a, b.drop_last());
        assert((a + b).drop_last() =~= a + b.drop_last());
        assert((a + b).last() == b.last());
        let tail = match config_entry(b.last()) {
            Some(e) => seq![e],
            None => Seq::<(Seq<char>, Seq<char>)>::empty(),
        };
        assert(entries_of(a) + entries_of(b.drop_last()) + tail =~= entries_of(a) + (entries_of(
            b.drop_last(),
        ) + tail));
    }
}

/// A text with neither leading nor trailing white space trims to itself.
proof fn lemma_trim_noop(s: Seq<char>)
    requires
        s.len() == 0 || (!is_white(s[0]) && !is_white(s.last())),
    ensures
        trim(s) == s,
{
}

/// Trailing white space of what follows a non-blank text is all that goes.
proof fn lemma_trim_back_concat(p: Seq<char>, u: Seq<char>)
    requires
        p.len() > 0,
        !is_white(p.last()),
    ensures
        trim_back(p + u) == p + trim_back(u),
    decreases u.len(),
{
    if u.len() == 0 {
        assert(p + u =~= p);
        assert(p + trim_back(u) =~= p);
    } else {
        assert((p + u).last() == u.last());
        assert((p + u).drop_last() =~= p + u.drop_last());
        if is_white(u.last()) {
            lemma_trim_back_concat(p, u.drop_last());
        } else {
            assert(trim_back(u) == u);
        }
    }
}

/// The first `c` at or after `i` is at `j` when `s[j]` is `c` and none of
/// `s[i..j]` is.
proof fn lemma_find_at(s: Seq<char>, c: char, i: int, j: int)
    requires
        0 <= i <= j < s.len(),
        s[j] == c,
        forall|k: int| i <= k < j ==> #[trigger] s[k] != c,
    ensures
        find_from(s, c, i) == Some(j),
    decreases j - i,
{
    if i < j {
        lemma_find_at(s, c, i + 1, j);
    }
}

/// A key fit for the settings file: not empty, neither blank nor `[` nor
/// `#` first, not blank last, and without `=`.
pub open spec fn key_ok(k: Seq<char>) -> bool {
    &&& k.len() > 0
    &&& !is_white(k[0])
    &&& k[0] != '['
    &&& k[0] != '#'
    &&& !is_white(k.last())
    &&& !k.contains('=')
}

/// A value with neither leading nor trailing white space.
pub open spec fn value_ok(v: Seq<char>) -> bool {
    v.len() == 0 || (!is_white(v[0]) && !is_white(v.last()))
}

/// The line `k=v` holds the entry `(k, v)`.
proof fn lemma_entry_kv(k: Seq<char>, v: Seq<char>)
    requires
        key_ok(k),
        value_ok(v),
    ensures
        config_entry(k + seq!['='] + v) == Some((k, v)),
{
    let line = k + seq!['='] + v;
    assert(line[0] == k[0]);
    if v.len() == 0 {
        assert(line.last() == '=');
    } else {
        assert(line.last() == v.last());
    }
    assert(!is_white('='));
    lemma_trim_noop(line);
    assert forall|m: int| 0 <= m < k.len() implies #[trigger] line[m] != '=' by {
        assert(line[m] == k[m]);
    }
    lemma_find_at(line, '=', 0, k.len() as int);
    assert(line.subrange(0, k.len() as int) =~= k);
    assert(line.subrange(k.len() as int + 1, line.len() as int) =~= v);
    lemma_trim_noop(k);
    lemma_trim_noop(v);
}

/// The line `k=u` holds an entry with key `k`, whatever `u` is.
proof fn lemma_entry_key(k: Seq<char>, u: Seq<char>)
    requires
        key_ok(k),
    ensures
        config_entry(k + seq!['='] + u) matches Some(e) && e.0 == k,
{
    let p = k + seq!['='];
    let line = p + u;
    assert(!is_white('='));
    assert(p.last() == '=');
    lemma_trim_back_concat(p, u);
    assert(line[0] == k[0]);
    assert(trim_front(line) == line);
    let l = trim(line);
    assert(l == p + trim_back(u));
    assert(l[0] == k[0]);
    assert forall|m: int| 0 <= m < k.len() implies #[trigger] l[m] != '=' by {
        assert(l[m] == k[m]);
    }
    assert(l[k.len() as int] == '=');
    lemma_find_at(l, '=', 0, k.len() as int);
    assert(l.subrange(0, k.len() as int) =~= k);
    lemma_trim_noop(k);
}


/// A key binding the settings file can write back: a key it can name, a
/// mouse button, or none.
pub open spec fn key_bind_savable(k: Option<KeyBindView>) -> bool {
    match k {
        Some(KeyBindView::Key(name)) => key_names().contains(name),
        _ => true,
    }
}

/// A gamepad binding the settings file can write back: a stick direction,
/// none, or a button it can name.
pub open spec fn pad_bind_savable(g: GamepadBind) -> bool {
    match g {
        GamepadBind::Button(b) => named_pad_buttons().contains(b),
        _ => true,
    }
}

/// How a binding is written after its action's `=`.
pub open spec fn binding_value(b: BindingView) -> Seq<char> {
    key_bind_text(b.key) + ","@ + pad_bind_text(b.gamepad)
}

/// Reading back the writing of a key binding gives it.
pub proof fn lemma_key_bind_text_roundtrip(k: Option<KeyBindView>)
    requires
        key_bind_savable(k),
    ensures
        printable(key_bind_text(k)),
        key_bind_text(k).len() > 0,
        !key_bind_text(k).contains(','),
        parse_key_bind_spec(key_bind_text(k)) == k,
{
    reveal(parse_key_bind_spec);
    reveal_strlit("none");
    reveal_strlit("key:");
    reveal_strlit("mouse:");
    let t = key_bind_text(k);
    match k {
        None => {
            assert(printable("none"@));
            assert(!"none"@.contains(','));
        },
        Some(KeyBindView::Key(name)) => {
            lemma_key_names_words();
            let j = choose|j: int| 0 <= j < key_names().len() && key_names()[j] == name;
            assert(word(key_names()[j]));
            lemma_word_printable(name);
            assert(printable("key:"@));
            assert(!"key:"@.contains(','));
            lemma_printable_concat("key:"@, name);
            lemma_no_char_concat("key:"@, name, ',');
            assert(t.len() > 4);
            assert(t != "none"@);
            assert(!starts_with(t, "mouse:"@)) by {
                if starts_with(t, "mouse:"@) {
                    assert(t.subrange(0, 6)[0] == t[0]);
                }
            }
            assert(t.subrange(0, 4) =~= "key:"@);
            assert(t.skip(4) =~= name);
        },
        Some(KeyBindView::MouseButton(n)) => {
            let d = decimal(n as nat);
            lemma_decimal_printable(n as nat);
            lemma_decimal_digits(n as nat);
            lemma_parse_decimal(n);
            assert(!d.contains(',')) by {
                if d.contains(',') {
                    let j = choose|j: int| 0 <= j < d.len() && d[j] == ',';
                    assert(is_digit(d[j]));
                }
            }
            assert(printable("mouse:"@));
            assert(!"mouse:"@.contains(','));
            lemma_printable_concat("mouse:"@, d);
            lemma_no_char_concat("mouse:"@, d, ',');
            assert(t.len() > 6);
            assert(t != "none"@);
            assert(t.subrange(0, 6) =~= "mouse:"@);
            assert(t.skip(6) =~= d);
        },
    }
}

/// Reading back the writing of a gamepad binding gives it.
pub proof fn lemma_pad_bind_text_roundtrip(g: GamepadBind)
    requires
        pad_bind_savable(g),
    ensures
        printable(pad_bind_text(g)),
        pad_bind_text(g).len() > 0,
        parse_gamepad_bind_spec(pad_bind_text(g)) == g,
{
    reveal(parse_gamepad_bind_spec);
    reveal_strlit("pad:");
    reveal_strlit("pad:none");
    reveal_strlit("pad:StickUp");
    reveal_strlit("pad:StickDown");
    reveal_strlit("pad:StickLeft");
    reveal_strlit("pad:StickRight");
    assert("pad:StickLeft"@[9] != "pad:StickDown"@[9]);
    assert("pad:StickRight"@.len() == 14);
    let t = pad_bind_text(g);
    match g {
        GamepadBind::Button(b) => {
            let name = pad_button_name(b);
            lemma_pad_name_word(b);
            lemma_word_printable(name);
            lemma_pad_lookup(b);
            assert(printable("pad:"@));
            lemma_printable_concat("pad:"@, name);
            assert(t.skip(4) =~= name);
            assert(t.subrange(0, 4) =~= "pad:"@);
            reveal_strlit("South");
            reveal_strlit("East");
            reveal_strlit("North");
            reveal_strlit("West");
            reveal_strlit("RightTrigger");
            reveal_strlit("LeftTrigger");
            reveal_strlit("RightTrigger2");
            reveal_strlit("LeftTrigger2");
            reveal_strlit("DPadUp");
            reveal_strlit("DPadDown");
            reveal_strlit("DPadLeft");
            reveal_strlit("DPadRight");
            reveal_strlit("Start");
            reveal_strlit("Select");
            reveal_strlit("LeftThumb");
            reveal_strlit("RightThumb");
            let k = choose|k: int| 0 <= k < named_pad_buttons().len() && named_pad_buttons()[k] == b;
            assert(named_pad_buttons()[k] == b);
            assert(name.len() != 4 || name[0] != 'n');
            assert(name.len() != 7 && name.len() != 10 || name[0] != 'S');
            assert(name.len() != 9 || name[0] != 'S');
            assert(t != "pad:none"@) by {
                if t == "pad:none"@ {
                    assert("pad:none"@.skip(4)[0] == 'n');
                }
            }
            assert(t != "pad:StickUp"@) by {
                if t == "pad:StickUp"@ {
                    assert("pad:StickUp"@.skip(4)[0] == 'S');
                }
            }
            assert(t != "pad:StickDown"@) by {
                if t == "pad:StickDown"@ {
                    assert("pad:StickDown"@.skip(4)[0] == 'S');
                }
            }
            assert(t != "pad:StickLeft"@) by {
                if t == "pad:StickLeft"@ {
                    assert("pad:StickLeft"@.skip(4)[0] == 'S');
                }
            }
            assert(t != "pad:StickRight"@) by {
                if t == "pad:StickRight"@ {
                    assert("pad:StickRight"@.skip(4)[0] == 'S');
                }
            }
        },
        GamepadBind::StickUp => {
            assert(printable("pad:StickUp"@));
        },
        GamepadBind::StickDown => {
            assert(printable("pad:StickDown"@));
        },
        GamepadBind::StickLeft => {
            assert(printable("pad:StickLeft"@));
        },
        GamepadBind::StickRight => {
            assert(printable("pad:StickRight"@));
        },
        GamepadBind::Unbound => {
            assert(printable("pad:none"@));
        },
    }
}

/// Reading back the writing of a binding gives it, whatever binding it
/// replaces.
proof fn lemma_binding_value(b: BindingView, old_b: BindingView)
    requires
        key_bind_savable(b.key),
        pad_bind_savable(b.gamepad),
    ensures
        printable(binding_value(b)),
        binding_value(b).len() > 0,
        binding_from_value(old_b, binding_value(b)) == b,
{
    lemma_key_bind_text_roundtrip(b.key);
    lemma_pad_bind_text_roundtrip(b.gamepad);
    reveal_strlit(",");
    let kt = key_bind_text(b.key);
    let pt = pad_bind_text(b.gamepad);
    let v = binding_value(b);
    assert(printable(","@));
    lemma_printable_concat(kt, ","@);
    lemma_printable_concat(kt + ","@, pt);
    assert(v[kt.len() as int] == ',');
    assert forall|m: int| 0 <= m < kt.len() implies #[trigger] v[m] != ',' by {
        assert(v[m] == kt[m]);
    }
    lemma_find_at(v, ',', 0, kt.len() as int);
    assert(v.subrange(0, kt.len() as int) =~= kt);
    assert(v.subrange(kt.len() as int + 1, v.len() as int) =~= pt);
    assert(split_at_comma(v) == (kt, Some(pt)));
}


/// The key of the entry a line holds, if it holds one.
pub open spec fn entry_key(line: Seq<char>) -> Option<Seq<char>> {
    match config_entry(line) {
        Some(e) => Some(e.0),
        None => None,
    }
}

/// The value of `k` is that of the line `j` when no later line holds an
/// entry for `k`.
proof fn lemma_lookup_at(lines: Seq<Seq<char>>, j: int, k: Seq<char>, v: Seq<char>)
    requires
        0 <= j < lines.len(),
        config_entry(lines[j]) == Some((k, v)),
        forall|i: int| j < i < lines.len() ==> entry_key(#[trigger] lines[i]) != Some(k),
    ensures
        config_lookup(entries_of(lines), k) == Some(v),
    decreases lines.len(),
{
    let n = lines.len() as int;
    let dl = lines.drop_last();
    assert(lines.last() == lines[n - 1]);
    if j == n - 1 {
        assert((entries_of(dl) + seq![(k, v)]).last() == (k, v));
    } else {
        assert forall|i: int| j < i < dl.len() implies entry_key(#[trigger] dl[i]) != Some(k) by {
            assert(dl[i] == lines[i]);
        }
        assert(dl[j] == lines[j]);
        lemma_lookup_at(dl, j, k, v);
        assert(entry_key(lines[n - 1]) != Some(k));
        match config_entry(lines.last()) {
            Some(e) => {
                let ex = entries_of(dl) + seq![e];
                assert(ex.last() == e);
                assert(ex.drop_last() =~= entries_of(dl));
            },
            None => {
                assert(entries_of(dl) + Seq::<(Seq<char>, Seq<char>)>::empty() =~= entries_of(dl));
            },
        }
    }
}

/// The writing of a flag.
pub open spec fn flag_text(b: bool) -> Seq<char> {
    if b {
        "1"@
    } else {
        "0"@
    }
}

/// The line `name=value` for a word `name`.
proof fn lemma_word_entry(name: Seq<char>, line: Seq<char>, v: Seq<char>)
    requires
        word(name),
        printable(v),
        line =~= name + seq!['='] + v,
    ensures
        config_entry(line) == Some((name, v)),
        !line.contains('\n'),
{
    lemma_word_printable(name);
    lemma_printable_no_newline(v);
    lemma_entry_kv(name, v);
    assert(printable(seq!['=']));
    lemma_printable_concat(name, seq!['=']);
    lemma_printable_concat(name + seq!['='], v);
    lemma_printable_no_newline(line);
}

/// The lines of a binding: its entry is the action's name and the binding's
/// writing.
proof fn lemma_binding_line(p: (GameAction, BindingView))
    requires
        key_bind_savable(p.1.key),
        pad_bind_savable(p.1.gamepad),
    ensures
        config_entry(binding_line(p)) == Some((game_action_config_name(p.0), binding_value(p.1))),
        !binding_line(p).contains('\n'),
{
    reveal_strlit("=");
    reveal_strlit(",");
    lemma_action_name_word(p.0);
    lemma_binding_value(p.1, p.1);
    let n = game_action_config_name(p.0);
    let kt = key_bind_text(p.1.key);
    let pt = pad_bind_text(p.1.gamepad);
    assert(binding_line(p) =~= n + seq!['='] + binding_value(p.1));
    lemma_word_entry(n, binding_line(p), binding_value(p.1));
}

/// The entry keys of the lines of the settings file, in order, and none
/// for the empty piece after the last line.
pub open spec fn line_key(i: int) -> Option<Seq<char>> {
    if i == 1 {
        Some("window_mode"@)
    } else if i == 2 {
        Some("res_width"@)
    } else if i == 3 {
        Some("res_height"@)
    } else if i == 4 {
        Some("ui_scale"@)
    } else if i == 7 {
        Some("fps_enabled"@)
    } else if i == 8 {
        Some("fps_millis"@)
    } else if i == 9 {
        Some("show_fps"@)
    } else if 12 <= i < 24 {
        Some(game_action_config_name(game_actions()[i - 12]))
    } else {
        None
    }
}

/// Two actions with one name are one action.
proof fn lemma_action_name_injective(a: GameAction, b: GameAction)
    requires
        game_action_config_name(a) == game_action_config_name(b),
    ensures
        a == b,
{
    lemma_key_facts();
    assert(game_action_config_name(a).len() == game_action_config_name(b).len());
    assert(game_action_config_name(a)[0] == game_action_config_name(b)[0]);
}

/// No action is named like a setting of the first sections.
proof fn lemma_action_name_not_setting(a: GameAction)
    ensures
        game_action_config_name(a) != "window_mode"@,
        game_action_config_name(a) != "res_width"@,
        game_action_config_name(a) != "res_height"@,
        game_action_config_name(a) != "ui_scale"@,
        game_action_config_name(a) != "fps_enabled"@,
        game_action_config_name(a) != "fps_millis"@,
        game_action_config_name(a) != "show_fps"@,
{
    lemma_key_facts();
    let n = game_action_config_name(a);
    assert(n.len() != 11 || (n[0] != 'w' && n[0] != 'f'));
    assert(n.len() != 9 || n[0] != 'r');
    assert(n.len() != 10 || (n[0] != 'r' && n[0] != 'f'));
    assert(n.len() != 8 || (n[0] != 'u' && n[0] != 's'));
}

/// The position of an action in `game_actions()`.
pub open spec fn action_index(a: GameAction) -> int {
    match a {
        GameAction::Forward => 0,
        GameAction::Backward => 1,
        GameAction::Left => 2,
        GameAction::Right => 3,
        GameAction::RotLeft => 4,
        GameAction::RotRight => 5,
        GameAction::Sprint => 6,
        GameAction::Slow => 7,
        GameAction::Shoot => 8,
        GameAction::Shockwave => 9,
        GameAction::ZoomIn => 10,
        GameAction::ZoomOut => 11,
    }
}

proof fn lemma_action_index(m: int)
    requires
        0 <= m < 12,
    ensures
        action_index(game_actions()[m]) == m,
{
}

/// After line `j`, no line holds an entry for the key of line `j`.
proof fn lemma_line_key_last(j: int)
    requires
        0 <= j < 25,
        line_key(j) is Some,
    ensures
        forall|i: int| j < i < 25 ==> #[trigger] line_key(i) != line_key(j),
{
    lemma_key_facts();
    assert forall|i: int| j < i < 25 implies #[trigger] line_key(i) != line_key(j) by {
        if 12 <= i < 24 {
            let a = game_actions()[i - 12];
            lemma_action_name_not_setting(a);
            if 12 <= j {
                let b = game_actions()[j - 12];
                if game_action_config_name(a) == game_action_config_name(b) {
                    lemma_action_name_injective(a, b);
                    lemma_action_index(i - 12);
                    lemma_action_index(j - 12);
                }
            }
        }
    }
}


/// Settings the settings file holds as they are: one binding per action,
/// in order, a resolution of at least 640 x 480, and bindings it can name.
pub open spec fn savable(s: SettingsView) -> bool {
    &&& bindings_in_order(s.bindings)
    &&& s.res_width >= 640
    &&& s.res_height >= 480
    &&& forall|i: int|
        0 <= i < 12 ==> key_bind_savable((#[trigger] s.bindings[i]).1.key) && pad_bind_savable(
            s.bindings[i].1.gamepad,
        )
}

/// A line that opens a section holds no entry.
proof fn lemma_header_line(line: Seq<char>)
    requires
        printable(line),
        line.len() > 0,
        line[0] == '[',
    ensures
        config_entry(line) is None,
        !line.contains('\n'),
{
    lemma_printable_no_newline(line);
    lemma_trim_noop(line);
}

/// What each line of the settings file holds.
proof fn lemma_settings_lines(s: SettingsView, ui_scale: Seq<char>)
    requires
        savable(s),
        !ui_scale.contains('\n'),
    ensures
        settings_lines(s, ui_scale).len() == 24,
        no_newlines(settings_lines(s, ui_scale)),
        forall|i: int|
            0 <= i < 25 ==> entry_key(#[trigger] settings_lines(s, ui_scale).push(Seq::empty())[i])
                == line_key(i),
        config_entry(settings_lines(s, ui_scale)[1]) == Some(("window_mode"@, window_mode_name(s.window_mode))),
        config_entry(settings_lines(s, ui_scale)[2]) == Some(("res_width"@, decimal(s.res_width as nat))),
        config_entry(settings_lines(s, ui_scale)[3]) == Some(("res_height"@, decimal(s.res_height as nat))),
        config_entry(settings_lines(s, ui_scale)[7]) == Some(("fps_enabled"@, flag_text(s.fps_enabled))),
        config_entry(settings_lines(s, ui_scale)[8]) == Some(("fps_millis"@, decimal(s.fps_millis as nat))),
        config_entry(settings_lines(s, ui_scale)[9]) == Some(("show_fps"@, flag_text(s.show_fps))),
        forall|m: int|
            0 <= m < 12 ==> config_entry(#[trigger] settings_lines(s, ui_scale)[12 + m]) == Some(
                (game_action_config_name(game_actions()[m]), binding_value(s.bindings[m].1)),
            ),
{
    let l = settings_lines(s, ui_scale);
    let lp = l.push(Seq::<char>::empty());
    reveal_strlit("[graphics]");
    reveal_strlit("[fps]");
    reveal_strlit("[controls]");
    reveal_strlit("window_mode=");
    reveal_strlit("window_mode");
    reveal_strlit("res_width=");
    reveal_strlit("res_width");
    reveal_strlit("res_height=");
    reveal_strlit("res_height");
    reveal_strlit("ui_scale=");
    reveal_strlit("ui_scale");
    reveal_strlit("fps_enabled=");
    reveal_strlit("fps_enabled");
    reveal_strlit("fps_millis=");
    reveal_strlit("fps_millis");
    reveal_strlit("show_fps=");
    reveal_strlit("show_fps");
    reveal_strlit("windowed");
    reveal_strlit("fullscreen");
    reveal_strlit("borderless");
    reveal_strlit("1");
    reveal_strlit("0");
    assert(l.len() == 24);
    // section headers and blank lines
    assert(printable("[graphics]"@));
    assert(printable("[fps]"@));
    assert(printable("[controls]"@));
    lemma_header_line(l[0]);
    lemma_header_line(l[6]);
    lemma_header_line(l[11]);
    assert(trim(Seq::<char>::empty()) =~= Seq::<char>::empty());
    assert(config_entry(l[5]) is None);
    assert(config_entry(l[10]) is None);
    assert(config_entry(lp[24]) is None);
    // settings
    assert(printable(window_mode_name(s.window_mode)));
    lemma_word_entry("window_mode"@, l[1], window_mode_name(s.window_mode));
    lemma_decimal_printable(s.res_width as nat);
    lemma_word_entry("res_width"@, l[2], decimal(s.res_width as nat));
    lemma_decimal_printable(s.res_height as nat);
    lemma_word_entry("res_height"@, l[3], decimal(s.res_height as nat));
    assert(printable(flag_text(s.fps_enabled)));
    lemma_word_entry("fps_enabled"@, l[7], flag_text(s.fps_enabled));
    lemma_decimal_printable(s.fps_millis as nat);
    lemma_word_entry("fps_millis"@, l[8], decimal(s.fps_millis as nat));
    assert(printable(flag_text(s.show_fps)));
    lemma_word_entry("show_fps"@, l[9], flag_text(s.show_fps));
    // the interface scale
    assert(word("ui_scale"@));
    lemma_word_printable("ui_scale"@);
    assert(l[4] =~= "ui_scale"@ + seq!['='] + ui_scale);
    lemma_entry_key("ui_scale"@, ui_scale);
    assert(printable("ui_scale="@));
    lemma_printable_no_newline("ui_scale="@);
    lemma_no_char_concat("ui_scale="@, ui_scale, '\n');
    // bindings
    assert forall|m: int| 0 <= m < 12 implies config_entry(#[trigger] l[12 + m]) == Some(
        (game_action_config_name(game_actions()[m]), binding_value(s.bindings[m].1)),
    ) && !l[12 + m].contains('\n') by {
        assert(l[12 + m] == binding_lines(s.bindings)[m]);
        assert(s.bindings[m].0 == game_actions()[m]);
        lemma_binding_line(s.bindings[m]);
    }
    assert forall|i: int| 0 <= i < 24 implies !(#[trigger] l[i]).contains('\n') by {
        if 12 <= i {
            assert(l[12 + (i - 12)] == l[i]);
        }
    }
    assert forall|i: int| 0 <= i < 25 implies entry_key(#[trigger] lp[i]) == line_key(i) by {
        if i < 24 {
            assert(lp[i] == l[i]);
        }
        if 12 <= i < 24 {
            assert(l[12 + (i - 12)] == l[i]);
        }
    }
}

/// Writing settings the settings file can hold and reading the file back
/// gives the same settings, whatever the interface scale is written as
/// (without a line break).
pub proof fn lemma_settings_roundtrip(s: SettingsView, ui_scale: Seq<char>)
    requires
        savable(s),
        !ui_scale.contains('\n'),
    ensures
        settings_from_text(settings_text_spec(s, ui_scale)) == s,
{
    let l = settings_lines(s, ui_scale);
    let lp = l.push(Seq::<char>::empty());
    lemma_settings_lines(s, ui_scale);
    lemma_split_join(l);
    assert(split_lines(settings_text_spec(s, ui_scale)) == lp);
    let e = entries_of(lp);
    assert(lp[1] == l[1]);
    assert(lp[2] == l[2]);
    assert(lp[3] == l[3]);
    assert(lp[7] == l[7]);
    assert(lp[8] == l[8]);
    assert(lp[9] == l[9]);
    lemma_line_key_last(1);
    lemma_lookup_at(lp, 1, "window_mode"@, window_mode_name(s.window_mode));
    lemma_line_key_last(2);
    lemma_lookup_at(lp, 2, "res_width"@, decimal(s.res_width as nat));
    lemma_line_key_last(3);
    lemma_lookup_at(lp, 3, "res_height"@, decimal(s.res_height as nat));
    lemma_line_key_last(7);
    lemma_lookup_at(lp, 7, "fps_enabled"@, flag_text(s.fps_enabled));
    lemma_line_key_last(8);
    lemma_lookup_at(lp, 8, "fps_millis"@, decimal(s.fps_millis as nat));
    lemma_line_key_last(9);
    lemma_lookup_at(lp, 9, "show_fps"@, flag_text(s.show_fps));
    lemma_window_mode_name_roundtrip(s.window_mode);
    lemma_parse_decimal(s.res_width);
    lemma_parse_decimal(s.res_height);
    lemma_parse_decimal(s.fps_millis);
    reveal_strlit("1");
    reveal_strlit("0");
    reveal_strlit("true");
    assert(flag_value(flag_text(s.fps_enabled)) == s.fps_enabled) by {
        assert("0"@[0] != "1"@[0]);
    }
    assert(flag_value(flag_text(s.show_fps)) == s.show_fps) by {
        assert("0"@[0] != "1"@[0]);
    }
    let r = settings_from_text(settings_text_spec(s, ui_scale));
    assert forall|m: int| 0 <= m < 12 implies #[trigger] r.bindings[m] == s.bindings[m] by {
        let a = game_actions()[m];
        assert(lp[12 + m] == l[12 + m]);
        lemma_line_key_last(12 + m);
        lemma_lookup_at(lp, 12 + m, game_action_config_name(a), binding_value(s.bindings[m].1));
        assert(default_bindings_spec()[m].0 == a);
        assert(s.bindings[m].0 == a);
        lemma_binding_value(s.bindings[m].1, default_bindings_spec()[m].1);
    }
    assert(r.bindings =~= s.bindings);
}


/// The settings file written holds each setting under its key: the
/// resolution and the frame-rate limit in decimal, the two flags as `1`
/// (on) or `0` (off).
pub proof fn lemma_settings_file_keys(s: SettingsView, ui_scale: Seq<char>)
    requires
        savable(s),
        !ui_scale.contains('\n'),
    ensures
        ({
            let e = config_entries(settings_text_spec(s, ui_scale));
            &&& config_lookup(e, "res_width"@) == Some(decimal(s.res_width as nat))
            &&& config_lookup(e, "res_height"@) == Some(decimal(s.res_height as nat))
            &&& config_lookup(e, "fps_millis"@) == Some(decimal(s.fps_millis as nat))
            &&& config_lookup(e, "fps_enabled"@) == Some(if s.fps_enabled {
                "1"@
            } else {
                "0"@
            })
            &&& config_lookup(e, "show_fps"@) == Some(if s.show_fps {
                "1"@
            } else {
                "0"@
            })
        }),
{
    let l = settings_lines(s, ui_scale);
    let lp = l.push(Seq::<char>::empty());
    lemma_settings_lines(s, ui_scale);
    lemma_split_join(l);
    assert(split_lines(settings_text_spec(s, ui_scale)) == lp);
    assert(lp[2] == l[2]);
    assert(lp[3] == l[3]);
    assert(lp[7] == l[7]);
    assert(lp[8] == l[8]);
    assert(lp[9] == l[9]);
    lemma_line_key_last(2);
    lemma_lookup_at(lp, 2, "res_width"@, decimal(s.res_width as nat));
    lemma_line_key_last(3);
    lemma_lookup_at(lp, 3, "res_height"@, decimal(s.res_height as nat));
    lemma_line_key_last(7);
    lemma_lookup_at(lp, 7, "fps_enabled"@, flag_text(s.fps_enabled));
    lemma_line_key_last(8);
    lemma_lookup_at(lp, 8, "fps_millis"@, decimal(s.fps_millis as nat));
    lemma_line_key_last(9);
    lemma_lookup_at(lp, 9, "show_fps"@, flag_text(s.show_fps));
}

} // verus!
