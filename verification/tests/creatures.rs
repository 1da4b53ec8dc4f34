use flatcaster::brains::{
    chaser_move_step, chaser_timer_step, draw_spawn_kind, new_ranger_brain, new_sentinel_brain,
    ranger_step, sentinel_step, spawn_kind, swarmer_step, walker_step, ChaserMove, ChaserState,
    RangeBand, RangerBrain, RangerColor, RangerMove, RangerState, SentinelColor, SentinelMove, SentinelSight,
    SentinelState, SwarmerMove, SwarmerState,
};
use flatcaster::entity_kind::EntityKind;
use rand::SeedableRng;
use rand_chacha::ChaCha8Rng;

fn sight(sees: bool, close: bool, at_last: bool, at_target: bool) -> SentinelSight {
    SentinelSight { sees_player: sees, player_close: close, at_last_seen: at_last, at_patrol_target: at_target }
}

#[test]
fn spawn_kinds_by_roll() {
    let kinds: Vec<EntityKind> = (0..6).map(spawn_kind).collect();
    assert_eq!(
        kinds,
        vec![
            EntityKind::RandomWalker,
            EntityKind::Stalker,
            EntityKind::Swarmer,
            EntityKind::Sentinel,
            EntityKind::Ranger,
            EntityKind::Tadpole,
        ]
    );
}

#[test]
fn spawn_draws_cover_the_kinds() {
    let mut rng = ChaCha8Rng::seed_from_u64(3);
    let mut seen = std::collections::HashSet::new();
    for _ in 0..200 {
        let (roll, kind) = draw_spawn_kind(&mut rng);
        assert!(roll < 6);
        assert_eq!(kind, spawn_kind(roll));
        seen.insert(roll);
    }
    assert_eq!(seen.len(), 6);
}

#[test]
fn walker_turns_on_walls_and_after_120_frames() {
    assert_eq!(walker_step(5, true), (0, true));
    assert_eq!(walker_step(5, false), (6, false));
    assert_eq!(walker_step(119, false), (120, false));
    assert_eq!(walker_step(120, false), (0, true));
}

#[test]
fn swarmer_flees_or_wanders() {
    let p = SwarmerState::Passive;
    assert_eq!(swarmer_step(p, 10, true, false), (10, SwarmerMove::Flee));
    assert_eq!(swarmer_step(p, 10, false, false), (9, SwarmerMove::Wander));
    let mut waits = std::collections::HashSet::new();
    for _ in 0..40 {
        let (t, m) = swarmer_step(p, 0, false, false);
        assert_eq!(m, SwarmerMove::NewHeading);
        assert!((30..=100).contains(&t));
        waits.insert(t);
    }
    assert!(waits.len() > 1);
}

#[test]
fn aggressive_swarmer_pursues() {
    let a = SwarmerState::Aggressive;
    assert_eq!(swarmer_step(a, 7, true, false), (7, SwarmerMove::Pursue));
    assert_eq!(swarmer_step(a, 7, true, true), (7, SwarmerMove::Stay));
}

#[test]
fn chaser_idles_and_dashes() {
    assert_eq!(chaser_timer_step(ChaserState::Idle, 5), (ChaserState::Idle, 4, false));
    let (s, t, turn) = chaser_timer_step(ChaserState::Idle, 1);
    assert_eq!(s, ChaserState::Moving);
    assert!((60..=200).contains(&t) && turn);
    let (s, t, turn) = chaser_timer_step(ChaserState::Moving, 0);
    assert_eq!(s, ChaserState::Idle);
    assert!((30..=90).contains(&t) && !turn);
    assert_eq!(chaser_move_step(ChaserState::Idle, 9, true, true), (ChaserState::Idle, 9, ChaserMove::Spin));
    assert_eq!(chaser_move_step(ChaserState::Moving, 9, true, false), (ChaserState::Idle, 60, ChaserMove::Stop));
    let (s, t, m) = chaser_move_step(ChaserState::Moving, 9, false, true);
    assert_eq!((s, m), (ChaserState::Idle, ChaserMove::Stop));
    assert!((10..=30).contains(&t));
    assert_eq!(chaser_move_step(ChaserState::Moving, 9, false, false), (ChaserState::Moving, 9, ChaserMove::Dash));
}

#[test]
fn ranger_cycle_lasts_66_frames() {
    let mut b = new_ranger_brain();
    let mut first_shot = None;
    for frame in 1..=66 {
        let (m, c) = ranger_step(&mut b, RangeBand::InRange);
        if frame == 1 {
            assert_eq!((m, c), (RangerMove::Stay, Some(RangerColor::Cyan)));
            assert_eq!(b.state, RangerState::Aiming);
            assert_eq!(b.charge_timer, 60);
        }
        if b.is_firing && first_shot.is_none() {
            first_shot = Some(frame);
            assert_eq!(c, Some(RangerColor::Red));
        }
    }
    assert_eq!(first_shot, Some(61));
    assert_eq!(b, new_ranger_brain());
}

#[test]
fn ranger_aims_then_fires_whatever_the_player_does() {
    let mut b = RangerBrain { state: RangerState::Aiming, charge_timer: 60, is_firing: false, fire_frame: 0 };
    let bands = [RangeBand::TooClose, RangeBand::InRange, RangeBand::TooFar];
    for n in 1..=65 {
        ranger_step(&mut b, bands[n % 3]);
        if n <= 59 {
            assert_eq!(b.state, RangerState::Aiming);
            assert_eq!(b.charge_timer, 60 - n as i32);
        } else if n == 60 {
            assert_eq!(b.state, RangerState::Firing);
            assert!(b.is_firing);
            assert_eq!(b.fire_frame, 5);
        } else if n <= 64 {
            assert!(b.is_firing);
        } else {
            assert!(!b.is_firing);
            assert_eq!(b.state, RangerState::Positioning);
        }
    }
}

#[test]
fn ranger_positions_itself() {
    let mut b = new_ranger_brain();
    assert_eq!(ranger_step(&mut b, RangeBand::TooClose), (RangerMove::Flee, Some(RangerColor::Cyan)));
    assert_eq!(ranger_step(&mut b, RangeBand::TooFar), (RangerMove::Approach, Some(RangerColor::Cyan)));
    assert_eq!(b, new_ranger_brain());
    ranger_step(&mut b, RangeBand::InRange);
    // aiming goes on whatever the range
    let (m, c) = ranger_step(&mut b, RangeBand::TooFar);
    assert_eq!(m, RangerMove::Aim);
    assert_eq!(b.charge_timer, 59);
    assert_eq!(c, Some(RangerColor::Cyan));
    for _ in 0..4 {
        ranger_step(&mut b, RangeBand::TooFar);
    }
    // 55 frames left: 55 % 10 = 5, cyan; 54: white
    assert_eq!(b.charge_timer, 55);
    assert_eq!(ranger_step(&mut b, RangeBand::TooFar).1, Some(RangerColor::White));
}

#[test]
fn sentinel_alert_search_patrol() {
    let mut b = new_sentinel_brain();
    assert_eq!(sentinel_step(&mut b, sight(false, false, false, true)), (SentinelMove::Patrol { new_target: true }, None));
    assert_eq!(sentinel_step(&mut b, sight(true, false, false, false)), (SentinelMove::Chase, Some(SentinelColor::Red)));
    assert_eq!(b.state, SentinelState::Alert);
    assert_eq!(sentinel_step(&mut b, sight(true, true, false, false)).0, SentinelMove::Hold);
    assert_eq!(sentinel_step(&mut b, sight(false, false, false, false)), (SentinelMove::SeekLastSeen, Some(SentinelColor::Orange)));
    assert_eq!(b.state, SentinelState::Search);
    assert_eq!(b.search_timer, 180);
    for _ in 0..179 {
        assert_eq!(sentinel_step(&mut b, sight(false, false, true, false)).0, SentinelMove::LookAround);
    }
    assert_eq!(b.search_timer, 1);
    assert_eq!(sentinel_step(&mut b, sight(false, false, true, false)), (SentinelMove::GiveUp, Some(SentinelColor::Blue)));
    assert_eq!(b.state, SentinelState::Patrol);
}
