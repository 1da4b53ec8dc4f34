use flatcaster::entity_kind::EntityKind;
use flatcaster::menu_types::{
    find_nearest_fps_preset, find_nearest_res_preset, fps_preset, fps_preset_label, res_preset,
    GameAction, MainMenuItem, MenuEvent, fps_label,
};
use flatcaster::session::{menu_reaction, pause_frame};
use flatcaster::overlay::{fill_column, fill_span, set_pixel};
use flatcaster::text::{
    chars_equal_str, chars_of, decimal_chars, find_char, is_white_exec, parse_u32, starts_with_str,
    str_equals, sub_chars, trim_chars,
};
use flatcaster::weapons::Weapons;

fn chars(s: &str) -> Vec<char> {
    s.chars().collect()
}

#[test]
fn parse_u32_cases() {
    assert_eq!(parse_u32(&chars("0")), Some(0));
    assert_eq!(parse_u32(&chars("+42")), Some(42));
    assert_eq!(parse_u32(&chars("4294967295")), Some(u32::MAX));
    assert_eq!(parse_u32(&chars("4294967296")), None);
    assert_eq!(parse_u32(&chars("")), None);
    assert_eq!(parse_u32(&chars("+")), None);
    assert_eq!(parse_u32(&chars("-1")), None);
    assert_eq!(parse_u32(&chars("12a")), None);
    assert_eq!(parse_u32(&chars("007")), Some(7));
}

#[test]
fn decimal_writing_reads_back() {
    for n in [0u32, 9, 10, 120_000, u32::MAX] {
        let d = decimal_chars(n);
        assert_eq!(d.iter().collect::<String>(), n.to_string());
        assert_eq!(parse_u32(&d), Some(n));
    }
}

#[test]
fn text_helpers() {
    assert!(str_equals("abc", "abc"));
    assert!(!str_equals("abc", "abd"));
    assert_eq!(chars_of("héllo"), chars("héllo"));
    assert!(chars_equal_str(&chars("x=1"), "x=1"));
    assert!(starts_with_str(&chars("mouse:1"), "mouse:"));
    assert!(!starts_with_str(&chars("mou"), "mouse:"));
    assert_eq!(sub_chars(&chars("abcdef"), 1, 4), chars("bcd"));
    assert_eq!(trim_chars(&chars("xx  a b \t"), 2, 9), chars("a b"));
    assert_eq!(find_char(&chars("a,b,c"), ','), Some(1));
    assert_eq!(find_char(&chars("abc"), ','), None);
    assert!(is_white_exec('\u{3000}'));
    assert!(!is_white_exec('a'));
}

#[test]
fn fps_presets() {
    assert_eq!(fps_preset(0), ("Illimitée", 0));
    assert_eq!(fps_preset(8), ("60 fps", 60_000));
    assert_eq!(fps_preset_label(0), Some("Illimitée"));
    assert_eq!(fps_preset_label(59_940), Some("59.94 fps"));
    assert_eq!(fps_preset_label(61_000), None);
    assert_eq!(find_nearest_fps_preset(60_000), 8);
    assert_eq!(find_nearest_fps_preset(61_000), 8);
    assert_eq!(find_nearest_fps_preset(1), 0);
    assert_eq!(find_nearest_fps_preset(5_000_000), 18);
}

#[test]
fn res_presets() {
    assert_eq!(res_preset(3), ("1920 × 1080", 1920, 1080));
    assert_eq!(find_nearest_res_preset(1920, 1080), 3);
    assert_eq!(find_nearest_res_preset(1900, 1000), 3);
    assert_eq!(find_nearest_res_preset(640, 480), 0);
    assert_eq!(find_nearest_res_preset(10_000, 10_000), 5);
}

#[test]
fn labels() {
    assert_eq!(GameAction::Forward.label(), "Avancer");
    assert_eq!(GameAction::Shockwave.label(), "Onde de choc");
    assert_eq!(GameAction::ZoomOut.config_name(), "ZoomOut");
    assert_eq!(GameAction::at(4), GameAction::RotLeft);
    assert_eq!(MainMenuItem::at(0), MainMenuItem::Resume);
    assert_eq!(MainMenuItem::at(4), MainMenuItem::Quit);
}

#[test]
fn weapons_cool_down() {
    let mut w = Weapons::new();
    assert!(w.try_shoot());
    assert_eq!(w.shoot_cooldown, 45);
    assert!(!w.try_shoot());
    assert!(w.try_shockwave());
    assert_eq!(w.shockwave_cooldown, 60);
    assert!(!w.try_shockwave());
}

#[test]
fn held_trigger_fires_every_45_frames() {
    let mut w = Weapons::new();
    let mut shots = 0;
    let mut waves = 0;
    for _ in 0..100 {
        let (s, v) = w.update(true, true);
        shots += s as u32;
        waves += v as u32;
    }
    // frames 1, 46 and 91; waves at frames 1 and 61
    assert_eq!(shots, 3);
    assert_eq!(waves, 2);
    assert_eq!(w.shoot_cooldown, 45 - 99 % 45);
}

#[test]
fn update_without_wish_only_cools() {
    let mut w = Weapons { shoot_cooldown: 3, shockwave_cooldown: 0 };
    assert_eq!(w.update(false, false), (false, false));
    assert_eq!(w, Weapons { shoot_cooldown: 2, shockwave_cooldown: 0 });
}

#[test]
fn entity_shapes() {
    assert_eq!(EntityKind::RandomWalker.shape_id(), 0);
    assert_eq!(EntityKind::Stalker.shape_id(), 1);
    assert_eq!(EntityKind::Sentinel.shape_id(), 2);
    assert_eq!(EntityKind::WeepingBlock.shape_id(), 2);
    assert_eq!(EntityKind::Ranger.shape_id(), 3);
    assert_eq!(EntityKind::Swarmer.shape_id(), 5);
    assert_eq!(EntityKind::Tadpole.shape_id(), 6);
}

#[test]
fn set_pixel_writes_inside() {
    let mut buf = vec![0u8; 2 * 2 * 4];
    set_pixel(&mut buf, 2, 1, 1, 10, 20, 30, 40);
    assert_eq!(&buf[12..16], &[10, 20, 30, 40]);
    assert!(buf[..12].iter().all(|&b| b == 0));
}

#[test]
fn set_pixel_ignores_outside() {
    let mut buf = vec![7u8; 2 * 2 * 4];
    set_pixel(&mut buf, 2, 0, 2, 1, 2, 3, 4);
    assert!(buf.iter().all(|&b| b == 7));
}

#[test]
fn random_seeds_are_valid() {
    let mut lens = std::collections::HashSet::new();
    for _ in 0..50 {
        let s = flatcaster::seed_gen::generate_random_seed();
        let n = s.chars().count();
        assert!((1..=256).contains(&n));
        assert!(s.chars().all(|c| c.is_ascii_alphanumeric()));
        lens.insert(n);
    }
    // the length is drawn, not fixed
    assert!(lens.len() > 1);
}

#[test]
fn fill_span_paints_a_row() {
    // 4 x 3 pixels
    let mut buf = vec![0u8; 4 * 3 * 4];
    fill_span(&mut buf, 4, 1, 1, 2, 9, 8, 7, 6);
    for p in 0..12 {
        let px = &buf[p * 4..p * 4 + 4];
        if p == 5 || p == 6 {
            assert_eq!(px, &[9, 8, 7, 6]);
        } else {
            assert_eq!(px, &[0, 0, 0, 0]);
        }
    }
    // an empty span paints nothing
    let before = buf.clone();
    fill_span(&mut buf, 4, 0, 3, 2, 1, 1, 1, 1);
    assert_eq!(buf, before);
}

#[test]
fn fill_column_paints_a_column_inside_only() {
    let mut buf = vec![0u8; 3 * 2 * 4];
    // rows 0..=5 of column 2: only rows 0 and 1 lie inside
    fill_column(&mut buf, 3, 2, 0, 5, 1, 2, 3, 4);
    for p in 0..6 {
        let px = &buf[p * 4..p * 4 + 4];
        if p == 2 || p == 5 {
            assert_eq!(px, &[1, 2, 3, 4]);
        } else {
            assert_eq!(px, &[0, 0, 0, 0]);
        }
    }
}

#[test]
fn escape_pauses_and_reaches_the_menu_only_once_open() {
    let f = pause_frame(false, true);
    assert_eq!((f.paused, f.just_opened, f.menu_escape), (true, true, false));
    let f = pause_frame(true, true);
    assert_eq!((f.paused, f.just_opened, f.menu_escape), (true, false, true));
    let f = pause_frame(false, false);
    assert_eq!((f.paused, f.just_opened, f.menu_escape), (false, false, false));
    let f = pause_frame(true, false);
    assert_eq!((f.paused, f.just_opened, f.menu_escape), (true, false, false));
}

#[test]
fn menu_events_become_game_reactions() {
    let r = menu_reaction(MenuEvent::Close);
    assert_eq!((r.apply_seed, r.random_seed, r.save, r.paused, r.quit), (None, false, true, false, false));
    let r = menu_reaction(MenuEvent::ApplySeed("abc".to_string()));
    assert_eq!(
        (r.apply_seed, r.random_seed, r.save, r.paused, r.quit),
        (Some("abc".to_string()), false, true, false, false)
    );
    let r = menu_reaction(MenuEvent::ApplySeedInMenu("q".to_string()));
    assert_eq!((r.apply_seed, r.random_seed, r.save, r.paused, r.quit), (Some("q".to_string()), false, true, true, false));
    let r = menu_reaction(MenuEvent::RandomSeed);
    assert_eq!((r.apply_seed, r.random_seed, r.save, r.paused, r.quit), (None, true, true, false, false));
    let r = menu_reaction(MenuEvent::Quit);
    assert!(r.quit && r.save);
    let r = menu_reaction(MenuEvent::Nothing);
    assert_eq!((r.apply_seed, r.random_seed, r.save, r.paused, r.quit), (None, false, false, true, false));
}

#[test]
fn fps_labels_name_presets_or_print_the_value() {
    assert_eq!(fps_label(0, true), "Illimitée");
    assert_eq!(fps_label(60000, true), "60 fps");
    assert_eq!(fps_label(23976, false), "23.976 fps");
    assert_eq!(fps_label(42000, true), "42 fps");
    assert_eq!(fps_label(42050, false), "42.050 fps");
    assert_eq!(fps_label(1007, false), "1.007 fps");
    assert_eq!(fps_label(1001, true), "1 fps");
}
