//! The decisions of the creatures, frame by frame: their states, timers
//! and which way they head. Distances and angles are the caller's: it
//! hands over what it measured (is the player in sight, in range, ...) and
//! applies the move asked for.

use vstd::prelude::*;
use rand_chacha::ChaCha8Rng;
use crate::entity_kind::EntityKind;
use crate::rng::{rng_below_u32, thread_rng_below_u32};

verus! {

/// The kind of creature a spawn draw in `0..6` picks.
pub open spec fn spawn_kind_spec(roll: u32) -> EntityKind {
    if roll == 0 {
        EntityKind::RandomWalker
    } else if roll == 1 {
        EntityKind::Stalker
    } else if roll == 2 {
        EntityKind::Swarmer
    } else if roll == 3 {
        EntityKind::Sentinel
    } else if roll == 4 {
        EntityKind::Ranger
    } else {
        EntityKind::Tadpole
    }
}

/// The kind of creature a spawn draw picks (see `spawn_kind_spec`).
pub fn spawn_kind(roll: u32) -> (k: EntityKind)
    ensures
        k == spawn_kind_spec(roll),
{
    if roll == 0 {
        EntityKind::RandomWalker
    } else if roll == 1 {
        EntityKind::Stalker
    } else if roll == 2 {
        EntityKind::Swarmer
    } else if roll == 3 {
        EntityKind::Sentinel
    } else if roll == 4 {
        EntityKind::Ranger
    } else {
        EntityKind::Tadpole
    }
}

/// Draws the kind of a new creature from the spawner's generator: each of
/// the six kinds for one value of a draw in `0..6`.
pub fn draw_spawn_kind(rng: &mut ChaCha8Rng) -> (r: (u32, EntityKind))
    ensures
        r.0 < 6,
        r.1 == spawn_kind_spec(r.0),
{
    let roll = rng_below_u32(rng, 6);
    (roll, spawn_kind(roll))
}

// ── Random walker ─────────────────────────────────────────────────────

/// A walker turns at random when it would hit a wall, or after 120 frames
/// of walking straight.
pub open spec fn walker_step_spec(timer: i32, hit_ahead: bool) -> (i32, bool) {
    let t = timer + 1;
    if hit_ahead || t > 120 {
        (0, true)
    } else {
        (t as i32, false)
    }
}

/// One frame of a walker's timer: returns the new timer and whether to
/// turn to a random heading (otherwise it walks on).
pub fn walker_step(timer: i32, hit_ahead: bool) -> (r: (i32, bool))
    requires
        timer < i32::MAX,
    ensures
        r == walker_step_spec(timer, hit_ahead),
        r.0 <= 120,
{
    let t = timer + 1;
    if hit_ahead || t > 120 {
        (0, true)
    } else {
        (t, false)
    }
}

// ── Swarmer ───────────────────────────────────────────────────────────

/// The moods of a swarmer.
#[derive(Debug, Clone, Copy, PartialEq, Eq, Structural)]
pub enum SwarmerState {
    Passive,
    Aggressive,
}

/// What a swarmer does this frame.
#[derive(Debug, Clone, Copy, PartialEq, Eq, Structural)]
pub enum SwarmerMove {
    /// Runs away from the player, who is near.
    Flee,
    /// Wanders on at half speed.
    Wander,
    /// Turns to a random heading, then wanders on.
    NewHeading,
    /// Turns towards the player and goes for them.
    Pursue,
    /// Stays put.
    Stay,
}

/// One frame of a swarmer and its wandering timer. Aggressive, it
/// goes for the player unless already on them (within 25). Passive, near
/// the player (within 200) it flees and the timer waits; otherwise the timer
/// runs down, and when it runs out the swarmer turns and waits 30 to 100
/// frames more.
pub fn swarmer_step(state: SwarmerState, timer: i32, player_near: bool, player_on_it: bool) -> (r: (i32, SwarmerMove))
    requires
        timer > i32::MIN,
    ensures
        state == SwarmerState::Aggressive ==> r == (timer, if player_on_it { SwarmerMove::Stay } else { SwarmerMove::Pursue }),
        state == SwarmerState::Passive && player_near ==> r == (timer, SwarmerMove::Flee),
        state == SwarmerState::Passive && !player_near && timer > 1 ==> r == ((timer - 1) as i32, SwarmerMove::Wander),
        state == SwarmerState::Passive && !player_near && timer <= 1 ==> 30 <= r.0 <= 100 && r.1 == SwarmerMove::NewHeading,
{
    match state {
        SwarmerState::Aggressive => {
            if player_on_it {
                (timer, SwarmerMove::Stay)
            } else {
                (timer, SwarmerMove::Pursue)
            }
        },
        SwarmerState::Passive => {
            if player_near {
                (timer, SwarmerMove::Flee)
            } else {
                let t = timer - 1;
                if t <= 0 {
                    let wait = 30 + thread_rng_below_u32(71) as i32;
                    (wait, SwarmerMove::NewHeading)
                } else {
                    (t, SwarmerMove::Wander)
                }
            }
        },
    }
}

// ── Chaser ────────────────────────────────────────────────────────────

/// The phases of a chaser: idling on the spot, or dashing ahead.
#[derive(Debug, Clone, Copy, PartialEq, Eq, Structural)]
pub enum ChaserState {
    Idle,
    Moving,
}

/// The first half of a chaser's frame: the timer runs
/// down, and when it runs out an idle chaser dashes for 60 to 200 frames on
/// a new random heading, a dashing one idles for 30 to 90 frames. Returns
/// the new state and timer, and whether to take a new random heading.
pub fn chaser_timer_step(state: ChaserState, timer: i32) -> (r: (ChaserState, i32, bool))
    requires
        timer > i32::MIN,
    ensures
        timer > 1 ==> r == (state, (timer - 1) as i32, false),
        timer <= 1 && state == ChaserState::Idle ==> r.0 == ChaserState::Moving && 60 <= r.1 <= 200 && r.2,
        timer <= 1 && state == ChaserState::Moving ==> r.0 == ChaserState::Idle && 30 <= r.1 <= 90 && !r.2,
{
    let t = timer - 1;
    if t <= 0 {
        match state {
            ChaserState::Idle => (ChaserState::Moving, 60 + thread_rng_below_u32(141) as i32, true),
            ChaserState::Moving => (ChaserState::Idle, 30 + thread_rng_below_u32(61) as i32, false),
        }
    } else {
        (state, t, false)
    }
}

/// What a chaser does in the second half of its frame.
#[derive(Debug, Clone, Copy, PartialEq, Eq, Structural)]
pub enum ChaserMove {
    /// Turns slowly on the spot.
    Spin,
    /// Dashes on along its heading.
    Dash,
    /// Stops.
    Stop,
}

/// The second half of a chaser's frame: a dashing chaser stops for 60
/// frames when on the player (within 30), or for 10 to 30 frames before a
/// wall ahead, and dashes on otherwise; an idle one turns on the spot.
pub fn chaser_move_step(state: ChaserState, timer: i32, player_close: bool, wall_ahead: bool) -> (r: (ChaserState, i32, ChaserMove))
    ensures
        state == ChaserState::Idle ==> r == (state, timer, ChaserMove::Spin),
        state == ChaserState::Moving && player_close ==> r == (ChaserState::Idle, 60i32, ChaserMove::Stop),
        state == ChaserState::Moving && !player_close && wall_ahead ==> r.0 == ChaserState::Idle && 10 <= r.1 <= 30 && r.2 == ChaserMove::Stop,
        state == ChaserState::Moving && !player_close && !wall_ahead ==> r == (state, timer, ChaserMove::Dash),
{
    match state {
        ChaserState::Idle => (state, timer, ChaserMove::Spin),
        ChaserState::Moving => {
            if player_close {
                (ChaserState::Idle, 60, ChaserMove::Stop)
            } else if wall_ahead {
                (ChaserState::Idle, 10 + thread_rng_below_u32(21) as i32, ChaserMove::Stop)
            } else {
                (state, timer, ChaserMove::Dash)
            }
        },
    }
}

// ── Ranger ────────────────────────────────────────────────────────────

/// The phases of a ranger.
#[derive(Debug, Clone, Copy, PartialEq, Eq, Structural)]
pub enum RangerState {
    Positioning,
    Aiming,
    Firing,
}

/// A ranger's state and timers.
#[derive(Debug, Clone, Copy, PartialEq, Eq, Structural)]
pub struct RangerBrain {
    pub state: RangerState,
    /// Frames of aiming left.
    pub charge_timer: i32,
    pub is_firing: bool,
    /// Frames of firing left.
    pub fire_frame: i32,
}

/// Where the player stands from a ranger's preferred distance (50 either
/// way).
#[derive(Debug, Clone, Copy, PartialEq, Eq, Structural)]
pub enum RangeBand {
    TooClose,
    InRange,
    TooFar,
}

/// The colours a ranger shows.
#[derive(Debug, Clone, Copy, PartialEq, Eq, Structural)]
pub enum RangerColor {
    Cyan,
    White,
    Red,
}

/// What a ranger does this frame.
#[derive(Debug, Clone, Copy, PartialEq, Eq, Structural)]
pub enum RangerMove {
    /// Nothing but the state changes.
    Stay,
    /// Backs away from the player.
    Flee,
    /// Closes in on the player.
    Approach,
    /// Faces the player.
    Aim,
}

impl RangerBrain {
    /// The timers stay within their ranges, and a running count has a
    /// frame left.
    pub open spec fn wf(&self) -> bool {
        &&& 0 <= self.charge_timer <= 60
        &&& 0 <= self.fire_frame <= 5
        &&& self.is_firing ==> self.fire_frame >= 1
        &&& (self.state == RangerState::Aiming && !self.is_firing) ==> self.charge_timer >= 1
    }
}

/// A new ranger: positioning, timers at 0.
pub fn new_ranger_brain() -> (b: RangerBrain)
    ensures
        b.wf(),
        b == (RangerBrain { state: RangerState::Positioning, charge_timer: 0, is_firing: false, fire_frame: 0 }),
{
    RangerBrain { state: RangerState::Positioning, charge_timer: 0, is_firing: false, fire_frame: 0 }
}

/// One frame of a ranger: while firing it counts down its 5 firing frames
/// and then positions itself again; positioning, it backs off or closes in
/// until the player is in range, then aims for 60 frames, blinking white
/// (the first five frames of every ten counted down), and fires.
pub open spec fn ranger_step_spec(b: RangerBrain, band: RangeBand) -> (RangerBrain, RangerMove, Option<RangerColor>) {
    if b.is_firing {
        let f = b.fire_frame - 1;
        if f <= 0 {
            (RangerBrain { fire_frame: f as i32, is_firing: false, state: RangerState::Positioning, ..b }, RangerMove::Stay, None)
        } else {
            (RangerBrain { fire_frame: f as i32, ..b }, RangerMove::Stay, None)
        }
    } else {
        match b.state {
            RangerState::Positioning => match band {
                RangeBand::TooClose => (b, RangerMove::Flee, Some(RangerColor::Cyan)),
                RangeBand::TooFar => (b, RangerMove::Approach, Some(RangerColor::Cyan)),
                RangeBand::InRange => (
                    RangerBrain { state: RangerState::Aiming, charge_timer: 60, ..b },
                    RangerMove::Stay,
                    Some(RangerColor::Cyan),
                ),
            },
            RangerState::Aiming => {
                let c = b.charge_timer - 1;
                if c <= 0 {
                    (
                        RangerBrain { state: RangerState::Firing, charge_timer: c as i32, is_firing: true, fire_frame: 5 },
                        RangerMove::Aim,
                        Some(RangerColor::Red),
                    )
                } else {
                    (
                        RangerBrain { charge_timer: c as i32, ..b },
                        RangerMove::Aim,
                        Some(if c % 10 < 5 { RangerColor::White } else { RangerColor::Cyan }),
                    )
                }
            },
            RangerState::Firing => (b, RangerMove::Stay, None),
        }
    }
}

/// One frame of a ranger (see `ranger_step_spec`); returns the move and
/// the colour to show, if it changes.
pub fn ranger_step(b: &mut RangerBrain, band: RangeBand) -> (r: (RangerMove, Option<RangerColor>))
    requires
        old(b).is_firing ==> old(b).fire_frame > i32::MIN,
        old(b).state == RangerState::Aiming && !old(b).is_firing ==> old(b).charge_timer > i32::MIN,
    ensures
        old(b).wf() ==> final(b).wf(),
        (*final(b), r.0, r.1) == ranger_step_spec(*old(b), band),
{
    if b.is_firing {
        b.fire_frame = b.fire_frame - 1;
        if b.fire_frame <= 0 {
            b.is_firing = false;
            b.state = RangerState::Positioning;
        }
        return (RangerMove::Stay, None);
    }
    match b.state {
        RangerState::Positioning => match band {
            RangeBand::TooClose => (RangerMove::Flee, Some(RangerColor::Cyan)),
            RangeBand::TooFar => (RangerMove::Approach, Some(RangerColor::Cyan)),
            RangeBand::InRange => {
                b.state = RangerState::Aiming;
                b.charge_timer = 60;
                (RangerMove::Stay, Some(RangerColor::Cyan))
            },
        },
        RangerState::Aiming => {
            b.charge_timer = b.charge_timer - 1;
            if b.charge_timer <= 0 {
                b.state = RangerState::Firing;
                b.is_firing = true;
                b.fire_frame = 5;
                (RangerMove::Aim, Some(RangerColor::Red))
            } else if b.charge_timer % 10 < 5 {
                (RangerMove::Aim, Some(RangerColor::White))
            } else {
                (RangerMove::Aim, Some(RangerColor::Cyan))
            }
        },
        RangerState::Firing => (RangerMove::Stay, None),
    }
}

/// `n` frames of a ranger that keeps the player in range.
pub open spec fn ranger_run(b: RangerBrain, n: nat) -> RangerBrain
    decreases n,
{
    if n == 0 {
        b
    } else {
        ranger_step_spec(ranger_run(b, (n - 1) as nat), RangeBand::InRange).0
    }
}

proof fn lemma_ranger_aiming(k: nat)
    requires
        k <= 59,
    ensures
        ranger_run(new_ranger_brain_spec(), 1 + k) == (RangerBrain {
            state: RangerState::Aiming,
            charge_timer: (60 - k) as i32,
            is_firing: false,
            fire_frame: 0,
        }),
    decreases k,
{
    if k > 0 {
        lemma_ranger_aiming((k - 1) as nat);
    } else {
        assert(ranger_run(new_ranger_brain_spec(), 0) == new_ranger_brain_spec());
    }
}

proof fn lemma_ranger_firing(k: nat)
    requires
        1 <= k <= 6,
    ensures
        ranger_run(new_ranger_brain_spec(), 60 + k) == (RangerBrain {
            state: if k == 6 { RangerState::Positioning } else { RangerState::Firing },
            charge_timer: 0,
            is_firing: k < 6,
            fire_frame: (6 - k) as i32,
        }),
    decreases k,
{
    if k > 1 {
        lemma_ranger_firing((k - 1) as nat);
    } else {
        lemma_ranger_aiming(59);
    }
}

/// A new ranger, as a value.
pub open spec fn new_ranger_brain_spec() -> RangerBrain {
    RangerBrain { state: RangerState::Positioning, charge_timer: 0, is_firing: false, fire_frame: 0 }
}

/// A ranger that keeps the player in range from its start aims from the
/// first frame on, starts firing on the 61st, fires five more frames, and
/// after the 66th is back where it started: a shot every 66 frames.
pub proof fn lemma_ranger_cycle()
    ensures
        ranger_run(new_ranger_brain_spec(), 60).state == RangerState::Aiming,
        ranger_run(new_ranger_brain_spec(), 61).is_firing,
        ranger_run(new_ranger_brain_spec(), 65).is_firing,
        ranger_run(new_ranger_brain_spec(), 66) == new_ranger_brain_spec(),
{
    lemma_ranger_aiming(59);
    lemma_ranger_firing(1);
    lemma_ranger_firing(5);
    lemma_ranger_firing(6);
}

/// The ranger after one frame per band of `bands`, the player standing in
/// band `bands[i]` on frame `i`: the brain that calling `ranger_step` once
/// with each band in turn leaves (its contract is `ranger_step_spec`).
pub open spec fn ranger_frames(b: RangerBrain, bands: Seq<RangeBand>) -> RangerBrain
    decreases bands.len(),
{
    if bands.len() == 0 {
        b
    } else {
        ranger_step_spec(ranger_frames(b, bands.drop_last()), bands.last()).0
    }
}

proof fn lemma_ranger_frames_aiming(b: RangerBrain, bands: Seq<RangeBand>, k: int)
    requires
        b.state == RangerState::Aiming,
        b.charge_timer == 60,
        !b.is_firing,
        0 <= k <= 59,
        k <= bands.len(),
    ensures
        ranger_frames(b, bands.take(k)) == (RangerBrain { charge_timer: (60 - k) as i32, ..b }),
    decreases k,
{
    if k > 0 {
        lemma_ranger_frames_aiming(b, bands, k - 1);
        assert(bands.take(k).drop_last() =~= bands.take(k - 1));
    } else {
        assert(bands.take(0).len() == 0);
    }
}

proof fn lemma_ranger_frames_firing(b: RangerBrain, bands: Seq<RangeBand>, k: int)
    requires
        b.state == RangerState::Aiming,
        b.charge_timer == 60,
        !b.is_firing,
        0 <= k <= 5,
        60 + k <= bands.len(),
    ensures
        ranger_frames(b, bands.take(60 + k)) == (RangerBrain {
            state: if k == 5 {
                RangerState::Positioning
            } else {
                RangerState::Firing
            },
            charge_timer: 0,
            is_firing: k < 5,
            fire_frame: (5 - k) as i32,
        }),
    decreases k,
{
    assert(bands.take(60 + k).drop_last() =~= bands.take(59 + k));
    if k > 0 {
        lemma_ranger_frames_firing(b, bands, k - 1);
    } else {
        lemma_ranger_frames_aiming(b, bands, 59);
    }
}

/// A ranger that starts aiming with its full charge of 60 frames, whatever
/// the player does meanwhile, aims for 59 frames, fires on the 60th (with
/// its 5 firing frames ahead), keeps firing through the 64th, and after
/// the 65th positions itself again; on none of these 65 frames does it
/// move (it only aims or stays), so it stays where it stood.
pub proof fn lemma_ranger_aim_and_fire(b: RangerBrain, bands: Seq<RangeBand>)
    requires
        b.state == RangerState::Aiming,
        b.charge_timer == 60,
        !b.is_firing,
        bands.len() >= 65,
    ensures
        forall|n: int| 1 <= n <= 59 ==> (#[trigger] ranger_frames(b, bands.take(n))).state
            == RangerState::Aiming,
        ranger_frames(b, bands.take(60)).state == RangerState::Firing,
        ranger_frames(b, bands.take(60)).is_firing,
        ranger_frames(b, bands.take(60)).fire_frame == 5,
        forall|n: int| 61 <= n <= 64 ==> (#[trigger] ranger_frames(b, bands.take(n))).is_firing,
        !ranger_frames(b, bands.take(65)).is_firing,
        ranger_frames(b, bands.take(65)).state == RangerState::Positioning,
        forall|n: int|
            0 <= n < 65 ==> {
                let mv = (#[trigger] ranger_step_spec(ranger_frames(b, bands.take(n)), bands[n])).1;
                mv == RangerMove::Aim || mv == RangerMove::Stay
            },
{
    assert forall|n: int| 1 <= n <= 59 implies (#[trigger] ranger_frames(b, bands.take(n))).state
        == RangerState::Aiming by {
        lemma_ranger_frames_aiming(b, bands, n);
    }
    lemma_ranger_frames_firing(b, bands, 0);
    assert forall|n: int| 61 <= n <= 64 implies (#[trigger] ranger_frames(b, bands.take(n))).is_firing by {
        lemma_ranger_frames_firing(b, bands, n - 60);
    }
    lemma_ranger_frames_firing(b, bands, 5);
    assert forall|n: int| 0 <= n < 65 implies {
        let mv = (#[trigger] ranger_step_spec(ranger_frames(b, bands.take(n)), bands[n])).1;
        mv == RangerMove::Aim || mv == RangerMove::Stay
    } by {
        if n < 60 {
            lemma_ranger_frames_aiming(b, bands, n);
        } else {
            lemma_ranger_frames_firing(b, bands, n - 60);
        }
    }
}

// ── Sentinel ──────────────────────────────────────────────────────────

/// The phases of a sentinel.
#[derive(Debug, Clone, Copy, PartialEq, Eq, Structural)]
pub enum SentinelState {
    Patrol,
    Alert,
    Search,
}

/// A sentinel's phase, whether it knows where the player was last seen,
/// and its search timer.
#[derive(Debug, Clone, Copy, PartialEq, Eq, Structural)]
pub struct SentinelBrain {
    pub state: SentinelState,
    pub knows_last_seen: bool,
    pub search_timer: i32,
}

/// What a sentinel measured this frame.
#[derive(Debug, Clone, Copy, PartialEq, Eq, Structural)]
pub struct SentinelSight {
    /// The player is within sight (400).
    pub sees_player: bool,
    /// The player is within reach (40).
    pub player_close: bool,
    /// The sentinel stands where it last saw the player (within 20).
    pub at_last_seen: bool,
    /// The sentinel reached its patrol target (within 10).
    pub at_patrol_target: bool,
}

/// The colours a sentinel shows.
#[derive(Debug, Clone, Copy, PartialEq, Eq, Structural)]
pub enum SentinelColor {
    Red,
    Orange,
    Blue,
}

/// What a sentinel does this frame.
#[derive(Debug, Clone, Copy, PartialEq, Eq, Structural)]
pub enum SentinelMove {
    /// Stays put.
    Hold,
    /// Heads for the player.
    Chase,
    /// Heads for where the player was last seen.
    SeekLastSeen,
    /// Turns on the spot, looking about.
    LookAround,
    /// Turns on the spot, then picks a new patrol target near by.
    GiveUp,
    /// Heads for its patrol target, after picking a new one near by if it
    /// reached the last.
    Patrol { new_target: bool },
}

/// One frame of a sentinel: seeing the player alerts it (and it remembers
/// where); losing sight of the player while alert starts a search of 180
/// frames. Alert, it chases the player unless close; searching, it goes to
/// where it last saw the player and looks about there until the search
/// runs out, then patrols again; patrolling, it walks to random targets.
pub open spec fn sentinel_step_spec(b: SentinelBrain, s: SentinelSight) -> (SentinelBrain, SentinelMove, Option<SentinelColor>) {
    let (b1, color) = if s.sees_player {
        (SentinelBrain { state: SentinelState::Alert, knows_last_seen: true, ..b }, Some(SentinelColor::Red))
    } else if b.state == SentinelState::Alert {
        (SentinelBrain { state: SentinelState::Search, search_timer: 180, ..b }, Some(SentinelColor::Orange))
    } else {
        (b, None)
    };
    match b1.state {
        SentinelState::Alert => (b1, if s.player_close { SentinelMove::Hold } else { SentinelMove::Chase }, color),
        SentinelState::Search => if !b1.knows_last_seen {
            (b1, SentinelMove::Hold, color)
        } else if s.at_last_seen {
            let t = b1.search_timer - 1;
            if t <= 0 {
                (
                    SentinelBrain { state: SentinelState::Patrol, search_timer: t as i32, ..b1 },
                    SentinelMove::GiveUp,
                    Some(SentinelColor::Blue),
                )
            } else {
                (SentinelBrain { search_timer: t as i32, ..b1 }, SentinelMove::LookAround, color)
            }
        } else {
            (b1, SentinelMove::SeekLastSeen, color)
        },
        SentinelState::Patrol => (b1, SentinelMove::Patrol { new_target: s.at_patrol_target }, color),
    }
}

impl SentinelBrain {
    /// The search timer stays within `0..=180`, with a frame left while
    /// searching.
    pub open spec fn wf(&self) -> bool {
        &&& 0 <= self.search_timer <= 180
        &&& self.state == SentinelState::Search ==> self.search_timer >= 1
    }
}

/// A new sentinel: patrolling, having seen nothing.
pub fn new_sentinel_brain() -> (b: SentinelBrain)
    ensures
        b.wf(),
        b == (SentinelBrain { state: SentinelState::Patrol, knows_last_seen: false, search_timer: 0 }),
{
    SentinelBrain { state: SentinelState::Patrol, knows_last_seen: false, search_timer: 0 }
}

/// One frame of a sentinel (see `sentinel_step_spec`); when it sees the
/// player the caller records where. Returns the move and the colour to
/// show, if it changes.
pub fn sentinel_step(b: &mut SentinelBrain, s: SentinelSight) -> (r: (SentinelMove, Option<SentinelColor>))
    requires
        old(b).search_timer > i32::MIN,
    ensures
        old(b).wf() ==> final(b).wf(),
        (*final(b), r.0, r.1) == sentinel_step_spec(*old(b), s),
{
    let mut color: Option<SentinelColor> = None;
    if s.sees_player {
        b.state = SentinelState::Alert;
        b.knows_last_seen = true;
        color = Some(SentinelColor::Red);
    } else if b.state == SentinelState::Alert {
        b.state = SentinelState::Search;
        b.search_timer = 180;
        color = Some(SentinelColor::Orange);
    }
    match b.state {
        SentinelState::Alert => {
            if s.player_close {
                (SentinelMove::Hold, color)
            } else {
                (SentinelMove::Chase, color)
            }
        },
        SentinelState::Search => {
            if !b.knows_last_seen {
                (SentinelMove::Hold, color)
            } else if s.at_last_seen {
                b.search_timer = b.search_timer - 1;
                if b.search_timer <= 0 {
                    b.state = SentinelState::Patrol;
                    (SentinelMove::GiveUp, Some(SentinelColor::Blue))
                } else {
                    (SentinelMove::LookAround, color)
                }
            } else {
                (SentinelMove::SeekLastSeen, color)
            }
        },
        SentinelState::Patrol => (SentinelMove::Patrol { new_target: s.at_patrol_target }, color),
    }
}

/// `n` frames of a searching sentinel that stands where it last saw the
/// player and does not see them.
pub open spec fn sentinel_search_run(b: SentinelBrain, n: nat) -> SentinelBrain
    decreases n,
{
    if n == 0 {
        b
    } else {
        sentinel_step_spec(
            sentinel_search_run(b, (n - 1) as nat),
            SentinelSight { sees_player: false, player_close: false, at_last_seen: true, at_patrol_target: false },
        ).0
    }
}

proof fn lemma_search_countdown(b: SentinelBrain, k: nat)
    requires
        b.state == SentinelState::Search,
        b.knows_last_seen,
        k < b.search_timer,
    ensures
        sentinel_search_run(b, k) == (SentinelBrain { search_timer: (b.search_timer - k) as i32, ..b }),
    decreases k,
{
    if k > 0 {
        lemma_search_countdown(b, (k - 1) as nat);
    }
}

/// A sentinel that starts searching where it last saw the player, and does
/// not see them again, looks about there for 179 frames and patrols again
/// on the 180th.
pub proof fn lemma_sentinel_gives_up(b: SentinelBrain)
    requires
        b.state == SentinelState::Search,
        b.knows_last_seen,
        b.search_timer == 180,
    ensures
        sentinel_search_run(b, 179).state == SentinelState::Search,
        sentinel_search_run(b, 180).state == SentinelState::Patrol,
{
    lemma_search_countdown(b, 179);
}


/// A patrolling sentinel that does not see the player keeps patrolling, and
/// asks for a new patrol target exactly when it has reached its current
/// one; it changes neither its state nor its colour.
pub proof fn lemma_sentinel_patrol_target(b: SentinelBrain, s: SentinelSight)
    requires
        b.state == SentinelState::Patrol,
        !s.sees_player,
    ensures
        sentinel_step_spec(b, s).1 == (SentinelMove::Patrol { new_target: s.at_patrol_target }),
        sentinel_step_spec(b, s).0 == b,
        sentinel_step_spec(b, s).2 is None,
{
}


/// A walker turns, and starts counting again from 0, exactly when a wall is
/// ahead or it has walked straight for 120 frames; otherwise it walks on,
/// one frame more.
pub proof fn lemma_walker_turns(timer: i32, hit_ahead: bool)
    requires
        0 <= timer <= 120,
    ensures
        walker_step_spec(timer, hit_ahead).1 == (hit_ahead || timer == 120),
        walker_step_spec(timer, hit_ahead).1 ==> walker_step_spec(timer, hit_ahead).0 == 0,
        !walker_step_spec(timer, hit_ahead).1 ==> walker_step_spec(timer, hit_ahead).0 == timer + 1,
{
}

/// A positioning ranger that is not firing backs away from a player too
/// close, closes in on one too far, both showing cyan and staying in that
/// phase, and starts aiming with its full charge of 60 frames once the
/// player is in range.
pub proof fn lemma_ranger_positions(b: RangerBrain)
    requires
        b.state == RangerState::Positioning,
        !b.is_firing,
    ensures
        ranger_step_spec(b, RangeBand::TooClose) == (b, RangerMove::Flee, Some(RangerColor::Cyan)),
        ranger_step_spec(b, RangeBand::TooFar) == (b, RangerMove::Approach, Some(RangerColor::Cyan)),
        ranger_step_spec(b, RangeBand::InRange).0.state == RangerState::Aiming,
        ranger_step_spec(b, RangeBand::InRange).0.charge_timer == 60,
        ranger_step_spec(b, RangeBand::InRange).1 == RangerMove::Stay,
{
}

/// A sentinel that sees the player turns red and alert, remembers where
/// it saw the player, and chases unless already close, where it holds; an
/// alert one that loses sight turns orange and searches for 180 frames.
pub proof fn lemma_sentinel_alert(b: SentinelBrain, s: SentinelSight)
    ensures
        s.sees_player ==> {
            let (b2, m, c) = sentinel_step_spec(b, s);
            &&& b2.state == SentinelState::Alert
            &&& b2.knows_last_seen
            &&& c == Some(SentinelColor::Red)
            &&& m == (if s.player_close {
                SentinelMove::Hold
            } else {
                SentinelMove::Chase
            })
        },
        !s.sees_player && b.state == SentinelState::Alert ==> {
            let (b2, m, c) = sentinel_step_spec(b, s);
            &&& b2.state == SentinelState::Search
            &&& c == Some(SentinelColor::Orange)
            &&& (b2.search_timer == 180 || m == SentinelMove::LookAround)
        },
{
}


/// Each of the six spawn draws gives its own kind of creature: walker,
/// stalker, swarmer, sentinel, ranger and tadpole, in that order.
pub proof fn lemma_spawn_table()
    ensures
        spawn_kind_spec(0) == EntityKind::RandomWalker,
        spawn_kind_spec(1) == EntityKind::Stalker,
        spawn_kind_spec(2) == EntityKind::Swarmer,
        spawn_kind_spec(3) == EntityKind::Sentinel,
        spawn_kind_spec(4) == EntityKind::Ranger,
        spawn_kind_spec(5) == EntityKind::Tadpole,
{
}

} // verus!
