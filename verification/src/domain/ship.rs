//! The ship's life cycle: flying, freshly spawned and invulnerable, or
//! waiting to respawn.

use vstd::prelude::*;

use crate::domain::config::GameConfig;
use crate::domain::physics::Physics;
use crate::domain::time::Duration;

verus! {

/// A turn of the ship, as the player asked for it.
#[derive(Debug, Clone, Copy, PartialEq, Eq, Structural)]
pub enum Turn {
    Left,
    Right,
}

/// The three states a ship can be in. There is no "dead" state: a dead ship
/// is either respawning or the game is over.
#[derive(Debug)]
pub enum ShipState<S> {
    Active(S),
    /// Recently respawned; the ship exists but collisions are ignored.
    Invulnerable { ship: S, remaining: Duration },
    /// Waiting to respawn; there is no ship at all.
    Respawning { remaining: Duration },
}

impl<S> ShipState<S> {
    /// The countdown of an invulnerable or respawning ship, in nanoseconds;
    /// zero for an active one.
    pub open spec fn timer(&self) -> nat {
        match self {
            ShipState::Active(_) => 0,
            ShipState::Invulnerable { remaining, .. } => remaining@,
            ShipState::Respawning { remaining } => remaining@,
        }
    }

    /// The ship, when one exists.
    pub open spec fn flying_ship(&self) -> S
        recommends
            self.has_ship(),
    {
        match self {
            ShipState::Active(s) => *s,
            ShipState::Invulnerable { ship, .. } => *ship,
            ShipState::Respawning { .. } => arbitrary(),
        }
    }

    /// Whether a ship exists.
    pub open spec fn has_ship(&self) -> bool {
        !(self is Respawning)
    }

    /// The same state, up to where the ship is and how it moves.
    pub open spec fn same_phase(&self, other: ShipState<S>) -> bool {
        &&& (self is Active <==> other is Active)
        &&& (self is Invulnerable <==> other is Invulnerable)
        &&& (self is Respawning <==> other is Respawning)
        &&& self.timer() == other.timer()
    }

    /// `self` is `before` with its ship, if there is one, replaced by a ship
    /// that `moved` relates to it; a respawning state stays as it is.
    pub open spec fn carries_moved_ship(&self, before: ShipState<S>, moved: spec_fn(S, S) -> bool) -> bool {
        match before {
            ShipState::Active(s) => self matches ShipState::Active(t) && moved(s, *t),
            ShipState::Invulnerable { ship: s, remaining } => self matches ShipState::Invulnerable {
                ship: t,
                remaining: r,
            } && *r == remaining && moved(s, *t),
            ShipState::Respawning { .. } => *self == before,
        }
    }

    /// `self` is what one frame of `dt` nanoseconds makes of `before`, when a
    /// respawned ship stays invulnerable for `invulnerability` nanoseconds:
    /// countdowns run down; an expired invulnerability leaves the ship
    /// active, an expired respawn wait brings a new, invulnerable ship.
    pub open spec fn stepped_from(&self, before: ShipState<S>, dt: nat, invulnerability: nat) -> bool {
        match before {
            ShipState::Active(_) => self is Active,
            ShipState::Invulnerable { remaining, .. } => if remaining@ <= dt {
                self is Active
            } else {
                self is Invulnerable && self.timer() == remaining@ - dt
            },
            ShipState::Respawning { remaining } => if remaining@ <= dt {
                self is Invulnerable && self.timer() == invulnerability
            } else {
                self is Respawning && self.timer() == remaining@ - dt
            },
        }
    }

    /// The life cycle only moves forward: a respawning ship can only stay
    /// respawning or come back invulnerable, an invulnerable one can only
    /// stay so or become active, and an active one stays active; every
    /// countdown that has not expired has run down by exactly `dt`.
    pub proof fn lemma_life_cycle_order(after: ShipState<S>, before: ShipState<S>, dt: nat, invulnerability: nat)
        requires
            after.stepped_from(before, dt, invulnerability),
        ensures
            before is Active ==> after is Active,
            before is Invulnerable ==> after is Invulnerable || after is Active,
            before is Respawning ==> after is Respawning || after is Invulnerable,
            after.same_phase(before) ==> dt == 0 || before is Active,
            (before is Respawning && after is Respawning) || (before is Invulnerable && after is Invulnerable)
                ==> after.timer() + dt == before.timer(),
    {
    }

    /// The countdowns of the life cycle, frame by frame: spawn protection
    /// lasts until its time has fully run out, so a ship protected for longer
    /// than the frame is still protected after it, with exactly `dt` less
    /// left, and a protected ship becomes active only in the frame in which
    /// its protection runs out; likewise a ship waits to respawn until the
    /// wait has run out, and then comes back protected for the full
    /// `invulnerability`.
    pub proof fn lemma_countdowns(after: ShipState<S>, before: ShipState<S>, dt: nat, invulnerability: nat)
        requires
            after.stepped_from(before, dt, invulnerability),
        ensures
            before matches ShipState::Invulnerable { remaining, .. } ==> {
                &&& remaining@ > dt ==> (after matches ShipState::Invulnerable { remaining: left, .. } && left@ + dt
                    == remaining@)
                &&& remaining@ <= dt <==> after is Active
            },
            before matches ShipState::Respawning { remaining } ==> {
                &&& remaining@ > dt ==> (after matches ShipState::Respawning { remaining: left } && left@ + dt
                    == remaining@)
                &&& remaining@ <= dt ==> (after matches ShipState::Invulnerable { remaining: left, .. } && left@
                    == invulnerability)
            },
            before is Active ==> after is Active,
    {
    }

    /// `self` holds the ship that one frame of `dt` makes of `before`'s: the
    /// ship as the physics moved it while one exists, or a ship the physics
    /// spawned once the respawn wait is over.
    pub open spec fn holds_ship_from<P: Physics<Ship = S>>(&self, before: ShipState<S>, dt: Duration, physics: &P) -> bool {
        &&& before.has_ship() ==> call_ensures(
            P::updated_ship,
            (physics, &before.flying_ship(), dt),
            self.flying_ship(),
        )
        &&& (before is Respawning && self is Invulnerable) ==> call_ensures(
            P::spawn_ship,
            (physics,),
            self.flying_ship(),
        )
    }

    /// `self` is what one frame of `dt` makes of `before`, under `config`:
    /// the life cycle steps as [`Self::stepped_from`] says and the ship is
    /// the one [`Self::holds_ship_from`] says.
    pub open spec fn advanced_from<P: Physics<Ship = S>>(
        &self,
        before: ShipState<S>,
        dt: Duration,
        config: GameConfig,
        physics: &P,
    ) -> bool {
        &&& self.stepped_from(before, dt@, config.invulnerability_time@)
        &&& self.holds_ship_from(before, dt, physics)
    }

    /// Advance one frame: the ship, if any, moves; countdowns run down.
    pub fn update<P: Physics<Ship = S>>(
        &mut self,
        dt: Duration,
        config: &GameConfig,
        physics: &P,
    )
        ensures
            final(self).advanced_from(*old(self), dt, *config, physics),
            *old(self) matches ShipState::Invulnerable { remaining, .. } ==> {
                &&& remaining@ > dt@ ==> (*final(self) matches ShipState::Invulnerable { remaining: left, .. } && left@
                    + dt@ == remaining@)
                &&& remaining@ <= dt@ <==> *final(self) is Active
            },
            *old(self) matches ShipState::Respawning { remaining } ==> {
                &&& remaining@ > dt@ ==> (*final(self) matches ShipState::Respawning { remaining: left } && left@ + dt@
                    == remaining@)
                &&& remaining@ <= dt@ ==> (*final(self) matches ShipState::Invulnerable { remaining: left, .. }
                    && left@ == config.invulnerability_time@)
            },
            *old(self) is Active ==> *final(self) is Active,
    {
        let mut expired = false;
        match self {
            ShipState::Active(ship) => {
                *ship = physics.updated_ship(&*ship, dt);
            },
            ShipState::Invulnerable { ship, remaining } => {
                *ship = physics.updated_ship(&*ship, dt);
                *remaining = remaining.saturating_sub(dt);
                expired = remaining.is_zero();
            },
            ShipState::Respawning { remaining } => {
                *remaining = remaining.saturating_sub(dt);
                expired = remaining.is_zero();
            },
        }
        if expired {
            let mut state = ShipState::Respawning { remaining: dt };
            std::mem::swap(self, &mut state);
            *self = match state {
                ShipState::Invulnerable { ship, .. } => ShipState::Active(ship),
                _ => ShipState::Invulnerable {
                    ship: physics.spawn_ship(),
                    remaining: config.invulnerability_time,
                },
            };
        }
    }

    /// The ship, if one currently exists.
    pub fn ship(&self) -> (s: Option<&S>)
        ensures
            s is Some <==> self.has_ship(),
            s matches Some(ship) ==> (self matches ShipState::Active(t) && t == *ship) || (
            self matches ShipState::Invulnerable { ship: t, .. } && t == *ship),
    {
        match self {
            ShipState::Active(ship) => Some(ship),
            ShipState::Invulnerable { ship, .. } => Some(ship),
            ShipState::Respawning { .. } => None,
        }
    }

    /// The ship, if one currently exists, to be moved in place.
    pub fn ship_mut(&mut self) -> (s: Option<&mut S>)
        ensures
            s is Some <==> old(self).has_ship(),
            s matches Some(r) ==> *r == match *old(self) {
                ShipState::Active(t) => t,
                ShipState::Invulnerable { ship: t, .. } => t,
                ShipState::Respawning { .. } => *r,
            },
            s matches Some(r) ==> *final(self) == match *old(self) {
                ShipState::Active(_) => ShipState::Active(*final(r)),
                ShipState::Invulnerable { remaining, .. } => ShipState::Invulnerable {
                    ship: *final(r),
                    remaining,
                },
                ShipState::Respawning { remaining } => ShipState::Respawning { remaining },
            },
            s is None ==> *final(self) == *old(self),
    {
        match self {
            ShipState::Active(ship) => Some(ship),
            ShipState::Invulnerable { ship, .. } => Some(ship),
            ShipState::Respawning { .. } => None,
        }
    }
}

} // verus!
