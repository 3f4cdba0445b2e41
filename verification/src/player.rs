//! The discrete part of the player's update: taking hits and dying.

use vstd::prelude::*;

verus! {

/// What a frame's collision check did to the player.
#[derive(PartialEq, Eq, Structural)]
pub struct HitOutcome {
    /// The player's hit points after the frame.
    pub hp: usize,
    /// Whether the player was hit this frame, which restarts the hit cooldown.
    pub hit: bool,
}

impl HitOutcome {
    /// Whether the player has died: no hit points are left.
    pub fn dead(&self) -> (dead: bool)
        ensures
            dead == (self.hp == 0),
    {
        self.hp == 0
    }
}

/// Whether a frame hits the player.
pub open spec fn is_hit(cooldown_over: bool, invincible: bool, colliding: bool) -> bool {
    cooldown_over && !invincible && colliding
}

/// The hit points left after a frame that `hit` the player or not.
pub open spec fn hp_after(hp: nat, hit: bool) -> nat {
    if hit && hp > 0 {
        (hp - 1) as nat
    } else {
        hp
    }
}

/// Decides whether a frame hurts the player with `hp` hit points: the player
/// is hit when the cooldown since the last hit is over, no dash makes them
/// invincible, and they touch an obstacle. A hit takes one hit point, never
/// going below zero.
pub fn resolve_hit(hp: usize, cooldown_over: bool, invincible: bool, colliding: bool) -> (outcome:
    HitOutcome)
    ensures
        outcome.hit == is_hit(cooldown_over, invincible, colliding),
        outcome.hp == hp_after(hp as nat, outcome.hit),
        outcome.hit <==> (cooldown_over && !invincible && colliding),
        !outcome.hit ==> outcome.hp == hp,
        outcome.hit ==> outcome.hp == if hp == 0 { 0 } else { hp - 1 },
{
    proof {
        law_hit_needs_cooldown_no_dash_and_contact(hp as nat, cooldown_over, invincible, colliding);
    }
    if cooldown_over && !invincible && colliding {
        HitOutcome { hp: hp.saturating_sub(1), hit: true }
    } else {
        HitOutcome { hp, hit: false }
    }
}

/// Hit points never grow, and a frame takes at most one of them; a player
/// with hit points left dies from a frame only when it is a hit and they had
/// exactly one left.
pub proof fn law_hits_only_lower_hp(hp: nat, hit: bool)
    ensures
        hp_after(hp, hit) <= hp,
        hp - hp_after(hp, hit) <= 1,
        !hit ==> hp_after(hp, hit) == hp,
        (hp > 0 && hp_after(hp, hit) == 0) ==> (hit && hp == 1),
{
}

/// A frame is a hit exactly when the cooldown since the last hit is over,
/// the player is not dashing, and the player touches an obstacle. A frame
/// that is not a hit (in particular any frame spent touching nothing, or
/// dashing, or within the cooldown) leaves the hit points as they were; a
/// hit takes one, stopping at zero.
pub proof fn law_hit_needs_cooldown_no_dash_and_contact(
    hp: nat,
    cooldown_over: bool,
    invincible: bool,
    colliding: bool,
)
    ensures
        is_hit(cooldown_over, invincible, colliding) <==> (cooldown_over && !invincible && colliding),
        !colliding ==> !is_hit(cooldown_over, invincible, colliding),
        invincible ==> !is_hit(cooldown_over, invincible, colliding),
        !cooldown_over ==> !is_hit(cooldown_over, invincible, colliding),
        hp_after(hp, false) == hp,
        hp_after(hp, true) == if hp == 0 { 0 } else { hp - 1 },
{
}

} // verus!
