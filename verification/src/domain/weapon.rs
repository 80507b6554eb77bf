//! The ship's weapon: ready to fire, or cooling down.

use vstd::prelude::*;

use crate::domain::time::Duration;

verus! {

/// Whether the weapon can fire.
#[derive(Debug, Clone, Copy, PartialEq, Eq)]
pub enum WeaponState {
    Ready,
    CoolingDown { remaining: Duration },
}

/// The nanoseconds of cooldown a state still has to wait, or `None` when it
/// is ready.
pub open spec fn pending_of(state: WeaponState) -> Option<nat> {
    match state {
        WeaponState::Ready => None,
        WeaponState::CoolingDown { remaining } => Some(remaining@),
    }
}

/// One frame of `dt` nanoseconds on a cooldown: it runs down, and the weapon
/// is ready again once nothing remains.
pub open spec fn cooldown_step(pending: Option<nat>, dt: nat) -> Option<nat> {
    match pending {
        None => None,
        Some(r) => if r <= dt {
            None
        } else {
            Some((r - dt) as nat)
        },
    }
}

/// The cooldown after frames of the given lengths, in order.
pub open spec fn cooldown_after(pending: Option<nat>, dts: Seq<nat>) -> Option<nat>
    decreases dts.len(),
{
    if dts.len() == 0 {
        pending
    } else {
        cooldown_step(cooldown_after(pending, dts.drop_last()), dts.last())
    }
}

/// The sum of a sequence of frame lengths.
pub open spec fn total(dts: Seq<nat>) -> nat
    decreases dts.len(),
{
    if dts.len() == 0 {
        0
    } else {
        total(dts.drop_last()) + dts.last()
    }
}

/// A weapon that starts cooling down for `r` nanoseconds is ready again
/// exactly when at least one frame has passed and the frames since then add
/// up to at least `r`; until then
/// what remains is `r` minus the time elapsed.
pub proof fn lemma_cooldown_elapses(r: nat, dts: Seq<nat>)
    ensures
        cooldown_after(Some(r), dts) is None <==> (dts.len() > 0 && total(dts) >= r),
        total(dts) < r ==> cooldown_after(Some(r), dts) == Some((r - total(dts)) as nat),
    decreases dts.len(),
{
    if dts.len() > 0 {
        lemma_cooldown_elapses(r, dts.drop_last());
    }
}

/// The ship's weapon.
#[derive(Debug)]
pub struct Weapon {
    cooldown: Duration,
    state: WeaponState,
}

impl Weapon {
    /// How long the weapon cools down after each shot, in nanoseconds.
    pub closed spec fn cooldown(&self) -> nat {
        self.cooldown@
    }

    /// The cooldown still to wait, or `None` when ready.
    pub closed spec fn pending(&self) -> Option<nat> {
        pending_of(self.state)
    }

    /// A ready weapon with the given cooldown.
    pub fn new(cooldown: Duration) -> (w: Weapon)
        ensures
            w.cooldown() == cooldown@,
            w.pending() is None,
    {
        Weapon { cooldown, state: WeaponState::Ready }
    }

    /// Try to fire: consumes the cooldown when ready, returns whether a shot
    /// was fired.
    pub fn fire(&mut self) -> (fired: bool)
        ensures
            fired == old(self).pending() is None,
            !fired ==> *final(self) == *old(self),
            final(self).cooldown() == old(self).cooldown(),
            final(self).pending() == if fired {
                Some(old(self).cooldown())
            } else {
                old(self).pending()
            },
    {
        if let WeaponState::Ready = self.state {
            self.state = WeaponState::CoolingDown { remaining: self.cooldown };
            true
        } else {
            false
        }
    }

    /// Let `dt` pass.
    pub fn update(&mut self, dt: Duration)
        ensures
            final(self).cooldown() == old(self).cooldown(),
            final(self).pending() == cooldown_step(old(self).pending(), dt@),
    {
        if let WeaponState::CoolingDown { remaining } = self.state {
            let left = remaining.saturating_sub(dt);
            if left.is_zero() {
                self.state = WeaponState::Ready;
            } else {
                self.state = WeaponState::CoolingDown { remaining: left };
            }
        }
    }
}

} // verus!
