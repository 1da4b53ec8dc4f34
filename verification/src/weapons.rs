//! The player's two weapons and their cooldowns, counted in frames.

use vstd::prelude::*;

verus! {

/// Frames a shot keeps the gun cold.
pub const SHOOT_COOLDOWN: i32 = 45;

/// Frames a shockwave keeps the emitter cold.
pub const SHOCKWAVE_COOLDOWN: i32 = 60;

/// The frames left before each weapon can fire again (0 or less: ready).
#[derive(Debug, Clone, Copy, PartialEq, Eq, Structural)]
pub struct Weapons {
    pub shoot_cooldown: i32,
    pub shockwave_cooldown: i32,
}

/// One frame of a cooldown: down by one while above 0.
pub open spec fn cooled(c: i32) -> i32 {
    if c > 0 {
        (c - 1) as i32
    } else {
        c
    }
}

impl Weapons {
    /// Both weapons ready.
    pub fn new() -> (w: Weapons)
        ensures
            w.shoot_cooldown == 0,
            w.shockwave_cooldown == 0,
    {
        Weapons { shoot_cooldown: 0, shockwave_cooldown: 0 }
    }

    /// Fires the gun if it is ready, which makes it cold for
    /// `SHOOT_COOLDOWN` frames; says whether it fired.
    pub fn try_shoot(&mut self) -> (fired: bool)
        ensures
            fired == (old(self).shoot_cooldown <= 0),
            final(self).shoot_cooldown == if fired {
                SHOOT_COOLDOWN
            } else {
                old(self).shoot_cooldown
            },
            final(self).shockwave_cooldown == old(self).shockwave_cooldown,
    {
        if self.shoot_cooldown <= 0 {
            self.shoot_cooldown = SHOOT_COOLDOWN;
            true
        } else {
            false
        }
    }

    /// Fires a shockwave if the emitter is ready, which makes it cold for
    /// `SHOCKWAVE_COOLDOWN` frames; says whether it fired.
    pub fn try_shockwave(&mut self) -> (fired: bool)
        ensures
            fired == (old(self).shockwave_cooldown <= 0),
            final(self).shockwave_cooldown == if fired {
                SHOCKWAVE_COOLDOWN
            } else {
                old(self).shockwave_cooldown
            },
            final(self).shoot_cooldown == old(self).shoot_cooldown,
    {
        if self.shockwave_cooldown <= 0 {
            self.shockwave_cooldown = SHOCKWAVE_COOLDOWN;
            true
        } else {
            false
        }
    }

    /// One frame: both cooldowns run down by one, then the weapons asked
    /// for fire if they are ready. Returns whether a shot and a shockwave
    /// were fired.
    pub fn update(&mut self, wants_shoot: bool, wants_shockwave: bool) -> (r: (bool, bool))
        ensures
            r.0 == (wants_shoot && cooled(old(self).shoot_cooldown) <= 0),
            r.1 == (wants_shockwave && cooled(old(self).shockwave_cooldown) <= 0),
            final(self).shoot_cooldown == if r.0 {
                SHOOT_COOLDOWN
            } else {
                cooled(old(self).shoot_cooldown)
            },
            final(self).shockwave_cooldown == if r.1 {
                SHOCKWAVE_COOLDOWN
            } else {
                cooled(old(self).shockwave_cooldown)
            },
    {
        if self.shoot_cooldown > 0 {
            self.shoot_cooldown -= 1;
        }
        if self.shockwave_cooldown > 0 {
            self.shockwave_cooldown -= 1;
        }
        let mut fired_shot = false;
        let mut fired_wave = false;
        if wants_shoot {
            fired_shot = self.try_shoot();
        }
        if wants_shockwave {
            fired_wave = self.try_shockwave();
        }
        (fired_shot, fired_wave)
    }
}

/// The state after `n` frames in which both weapons are asked for, and how
/// many shots were fired in them.
pub open spec fn held_fire(w: Weapons, n: nat) -> (Weapons, nat)
    decreases n,
{
    if n == 0 {
        (w, 0)
    } else {
        let (v, shots) = held_fire(w, (n - 1) as nat);
        let c = cooled(v.shoot_cooldown);
        let d = cooled(v.shockwave_cooldown);
        let fired = c <= 0;
        let nv = Weapons {
            shoot_cooldown: if fired { SHOOT_COOLDOWN } else { c },
            shockwave_cooldown: if d <= 0 { SHOCKWAVE_COOLDOWN } else { d },
        };
        (nv, if fired { shots + 1 } else { shots })
    }
}

/// Holding the trigger from ready weapons fires a shot on the first frame
/// and then once every `SHOOT_COOLDOWN` frames: `n` frames fire
/// `1 + (n - 1) / 45` shots.
pub proof fn lemma_held_fire_rate(n: nat)
    requires
        n >= 1,
    ensures
        held_fire(Weapons { shoot_cooldown: 0, shockwave_cooldown: 0 }, n).1 == 1 + (n - 1) / 45,
        held_fire(Weapons { shoot_cooldown: 0, shockwave_cooldown: 0 }, n).0.shoot_cooldown == 45 - (n - 1) % 45,
    decreases n,
{
    let w0 = Weapons { shoot_cooldown: 0, shockwave_cooldown: 0 };
    if n == 1 {
        assert(held_fire(w0, 0) == (w0, 0nat));
    } else {
        lemma_held_fire_rate((n - 1) as nat);
        let m = n - 2;
        let p = held_fire(w0, (n - 1) as nat);
        assert(p.0.shoot_cooldown == 45 - m % 45);
        assert(p.1 == 1 + m / 45);
        if m % 45 == 44 {
            assert((m + 1) % 45 == 0 && (m + 1) / 45 == m / 45 + 1) by (nonlinear_arith)
                requires
                    m >= 0,
                    m % 45 == 44,
            ;
        } else {
            assert((m + 1) % 45 == m % 45 + 1 && (m + 1) / 45 == m / 45) by (nonlinear_arith)
                requires
                    m >= 0,
                    m % 45 < 44,
            ;
        }
    }
}

} // verus!
