//! The player: remaining lives, the ship in whatever state it is in, and the
//! ship's weapon.

use vstd::prelude::*;

use crate::domain::bullet::Bullet;
use crate::domain::config::GameConfig;
use crate::domain::counters::{LifeLoss, NonZeroLives};
use crate::domain::physics::Physics;
use crate::domain::ship::{ShipState, Turn};
use crate::domain::time::Duration;
use crate::domain::weapon::{cooldown_step, Weapon};

verus! {

/// What a weapon's cooldown becomes when the player asks to fire: a shot
/// starts the full cooldown, but only when a ship exists to fire it and the
/// weapon is ready.
pub open spec fn pending_after_trigger(pending: Option<nat>, cooldown: nat, has_ship: bool) -> Option<nat> {
    if has_ship && pending is None {
        Some(cooldown)
    } else {
        pending
    }
}

/// The player of a session.
#[derive(Debug)]
pub struct Player<S> {
    config: GameConfig,
    lives: NonZeroLives,
    ship: ShipState<S>,
    weapon: Weapon,
}

impl<S> Player<S> {
    pub closed spec fn spec_config(&self) -> GameConfig {
        self.config
    }

    pub closed spec fn spec_lives(&self) -> NonZeroLives {
        self.lives
    }

    pub closed spec fn spec_ship(&self) -> ShipState<S> {
        self.ship
    }

    pub closed spec fn spec_weapon(&self) -> Weapon {
        self.weapon
    }

    /// `self` is `before` after one frame of `dt`: the ship's life cycle has
    /// advanced and the weapon has cooled down; lives and rules are kept.
    pub open spec fn updated_from<P: Physics<Ship = S>>(self, before: Player<S>, dt: Duration, physics: &P) -> bool {
        &&& self.spec_config() == before.spec_config()
        &&& self.spec_lives() == before.spec_lives()
        &&& self.spec_ship().advanced_from(before.spec_ship(), dt, before.spec_config(), physics)
        &&& self.spec_weapon().cooldown() == before.spec_weapon().cooldown()
        &&& self.spec_weapon().pending() == cooldown_step(before.spec_weapon().pending(), dt@)
    }

    /// `self` is `before` with its ship, if any, turned by the physics.
    pub open spec fn turned_from<P: Physics<Ship = S>>(
        self,
        before: Player<S>,
        turn: Turn,
        dt: Duration,
        physics: &P,
    ) -> bool {
        &&& self.spec_config() == before.spec_config()
        &&& self.spec_lives() == before.spec_lives()
        &&& self.spec_weapon() == before.spec_weapon()
        &&& self.spec_ship().same_phase(before.spec_ship())
        &&& self.spec_ship().carries_moved_ship(
            before.spec_ship(),
            |a: S, b: S| call_ensures(P::rotated_ship, (physics, &a, turn, dt), b),
        )
    }

    /// `self` is `before` with its ship, if any, thrust by the physics.
    pub open spec fn thrust_from<P: Physics<Ship = S>>(self, before: Player<S>, dt: Duration, physics: &P) -> bool {
        &&& self.spec_config() == before.spec_config()
        &&& self.spec_lives() == before.spec_lives()
        &&& self.spec_weapon() == before.spec_weapon()
        &&& self.spec_ship().same_phase(before.spec_ship())
        &&& self.spec_ship().carries_moved_ship(
            before.spec_ship(),
            |a: S, b: S| call_ensures(P::accelerated_ship, (physics, &a, dt), b),
        )
    }

    /// `self` is `before` after pulling the trigger, which gave `shot`: a
    /// bullet leaves the ship, with the body the physics gives it and the full
    /// lifetime, exactly when there is a ship and the weapon is ready, and
    /// that starts the cooldown.
    pub open spec fn fired_from<P: Physics<Ship = S>>(
        self,
        before: Player<S>,
        shot: Option<Bullet<P::Bullet>>,
        physics: &P,
    ) -> bool {
        &&& shot is Some <==> (before.spec_ship().has_ship() && before.spec_weapon().pending() is None)
        &&& shot matches Some(b) ==> {
            &&& b.lifetime() == before.spec_config().bullet_lifetime@
            &&& call_ensures(P::fire_from, (physics, &before.spec_ship().flying_ship()), b.spec_body())
        }
        &&& self.spec_config() == before.spec_config()
        &&& self.spec_lives() == before.spec_lives()
        &&& self.spec_ship() == before.spec_ship()
        &&& self.spec_weapon().cooldown() == before.spec_weapon().cooldown()
        &&& self.spec_weapon().pending() == pending_after_trigger(
            before.spec_weapon().pending(),
            before.spec_weapon().cooldown(),
            before.spec_ship().has_ship(),
        )
    }

    /// Pulling the trigger fires exactly when a ship exists and the weapon is
    /// ready, and then starts the full cooldown; otherwise no bullet leaves
    /// and the weapon is left exactly as it was, so a trigger pulled while
    /// waiting to respawn does not use up the weapon.
    pub proof fn lemma_trigger<P: Physics<Ship = S>>(
        after: Player<S>,
        before: Player<S>,
        shot: Option<Bullet<P::Bullet>>,
        physics: &P,
    )
        requires
            after.fired_from(before, shot, physics),
        ensures
            before.spec_ship() is Respawning ==> shot is None,
            before.spec_ship() is Respawning ==> after.spec_weapon().pending() == before.spec_weapon().pending(),
            before.spec_weapon().pending() is Some ==> shot is None,
            before.spec_weapon().pending() is Some ==> after.spec_weapon().pending() == before.spec_weapon().pending(),
            !(before.spec_ship() is Respawning) && before.spec_weapon().pending() is None ==> shot is Some,
            !(before.spec_ship() is Respawning) && before.spec_weapon().pending() is None ==> after.spec_weapon().pending()
                == Some(before.spec_weapon().cooldown()),
            after.spec_weapon().cooldown() == before.spec_weapon().cooldown(),
            after.spec_ship() == before.spec_ship(),
            after.spec_lives() == before.spec_lives(),
    {
    }

    /// Steering asks the physics to turn the ship by exactly the turn the
    /// player gave, and thrust to accelerate it; the ship keeps its place in
    /// its life cycle, a protected ship keeps its remaining protection, and
    /// with no ship nothing changes.
    pub proof fn lemma_steering<P: Physics<Ship = S>>(
        turned: Player<S>,
        thrust: Player<S>,
        before: Player<S>,
        turn: Turn,
        dt: Duration,
        physics: &P,
    )
        requires
            turned.turned_from(before, turn, dt, physics),
            thrust.thrust_from(before, dt, physics),
        ensures
            before.spec_ship() matches ShipState::Active(s) ==> (turned.spec_ship() matches ShipState::Active(t)
                && call_ensures(P::rotated_ship, (physics, &s, turn, dt), t)),
            before.spec_ship() matches ShipState::Invulnerable { ship: s, remaining } ==> (
            turned.spec_ship() matches ShipState::Invulnerable { ship: t, remaining: r } && r == remaining
                && call_ensures(P::rotated_ship, (physics, &s, turn, dt), t)),
            before.spec_ship() matches ShipState::Active(s) ==> (thrust.spec_ship() matches ShipState::Active(t)
                && call_ensures(P::accelerated_ship, (physics, &s, dt), t)),
            before.spec_ship() matches ShipState::Invulnerable { ship: s, remaining } ==> (
            thrust.spec_ship() matches ShipState::Invulnerable { ship: t, remaining: r } && r == remaining
                && call_ensures(P::accelerated_ship, (physics, &s, dt), t)),
            before.spec_ship() is Respawning ==> turned.spec_ship() == before.spec_ship() && thrust.spec_ship()
                == before.spec_ship(),
            turned.spec_weapon() == before.spec_weapon() && thrust.spec_weapon() == before.spec_weapon(),
            turned.spec_lives() == before.spec_lives() && thrust.spec_lives() == before.spec_lives(),
    {
    }

    /// A player with the starting lives, a ready weapon and a freshly
    /// spawned ship. Spawn protection: the ship starts invulnerable.
    pub fn new<P: Physics<Ship = S>>(config: GameConfig, physics: &P) -> (p: Player<S>)
        ensures
            p.spec_config() == config,
            p.spec_lives() == config.starting_lives,
            p.spec_ship() is Invulnerable,
            p.spec_ship().timer() == config.invulnerability_time@,
            p.spec_weapon().pending() is None,
            p.spec_weapon().cooldown() == config.fire_cooldown@,
            call_ensures(P::spawn_ship, (physics,), p.spec_ship().flying_ship()),
    {
        Player {
            config,
            lives: config.starting_lives,
            ship: ShipState::Invulnerable {
                ship: physics.spawn_ship(),
                remaining: config.invulnerability_time,
            },
            weapon: Weapon::new(config.fire_cooldown),
        }
    }

    /// A player assembled from the given parts, to set up a particular
    /// situation (a ship that can be hit at once, a weapon cooling down).
    pub fn from_parts(config: GameConfig, lives: NonZeroLives, ship: ShipState<S>, weapon: Weapon) -> (p: Player<S>)
        ensures
            p.spec_config() == config,
            p.spec_lives() == lives,
            p.spec_ship() == ship,
            p.spec_weapon() == weapon,
    {
        Player { config, lives, ship, weapon }
    }

    pub fn lives(&self) -> (l: NonZeroLives)
        ensures
            l == self.spec_lives(),
    {
        self.lives
    }

    pub fn ship(&self) -> (s: &ShipState<S>)
        ensures
            *s == self.spec_ship(),
    {
        &self.ship
    }

    /// Advance one frame: the ship's life cycle and the weapon's cooldown.
    pub fn update<P: Physics<Ship = S>>(&mut self, dt: Duration, physics: &P)
        ensures
            final(self).updated_from(*old(self), dt, physics),
    {
        self.ship.update(dt, &self.config, physics);
        self.weapon.update(dt);
    }

    /// The ship was hit by an asteroid: it loses a life and starts
    /// respawning, unless that was the last life. Invulnerable and
    /// respawning ships are unaffected. Returns `true` when the player has
    /// no lives left, i.e. the game is over; the player is then left as it
    /// was.
    pub fn hit(&mut self) -> (game_over: bool)
        ensures
            game_over == (old(self).spec_ship() is Active && old(self).spec_lives()@ == 1),
            !(old(self).spec_ship() is Active && old(self).spec_lives()@ > 1) ==> *final(self) == *old(self),
            old(self).spec_ship() is Active && old(self).spec_lives()@ > 1 ==> {
                &&& final(self).spec_lives()@ + 1 == old(self).spec_lives()@
                &&& final(self).spec_ship() is Respawning
                &&& final(self).spec_ship().timer() == old(self).spec_config().respawn_time@
                &&& final(self).spec_config() == old(self).spec_config()
                &&& final(self).spec_weapon() == old(self).spec_weapon()
            },
    {
        if let ShipState::Active(_) = self.ship {
        } else {
            return false;
        }
        match self.lives.lose_one() {
            LifeLoss::Remaining(lives) => {
                self.lives = lives;
                self.ship = ShipState::Respawning { remaining: self.config.respawn_time };
                false
            },
            LifeLoss::GameOver => true,
        }
    }

    /// Turn the ship, if there is one, as the physics says.
    pub fn rotate<P: Physics<Ship = S>>(&mut self, turn: Turn, dt: Duration, physics: &P)
        ensures
            final(self).turned_from(*old(self), turn, dt, physics),
            old(self).spec_ship() matches ShipState::Active(s) ==> (final(self).spec_ship() matches ShipState::Active(t)
                && call_ensures(P::rotated_ship, (physics, &s, turn, dt), t)),
            old(self).spec_ship() matches ShipState::Invulnerable { ship: s, remaining } ==> (
            final(self).spec_ship() matches ShipState::Invulnerable { ship: t, remaining: r } && r == remaining
                && call_ensures(P::rotated_ship, (physics, &s, turn, dt), t)),
            old(self).spec_ship() is Respawning ==> *final(self) == *old(self),
    {
        if let Some(ship) = self.ship.ship_mut() {
            *ship = physics.rotated_ship(&*ship, turn, dt);
        }
    }

    /// Thrust the ship, if there is one, as the physics says.
    pub fn accelerate<P: Physics<Ship = S>>(&mut self, dt: Duration, physics: &P)
        ensures
            final(self).thrust_from(*old(self), dt, physics),
            old(self).spec_ship() matches ShipState::Active(s) ==> (final(self).spec_ship() matches ShipState::Active(t)
                && call_ensures(P::accelerated_ship, (physics, &s, dt), t)),
            old(self).spec_ship() matches ShipState::Invulnerable { ship: s, remaining } ==> (
            final(self).spec_ship() matches ShipState::Invulnerable { ship: t, remaining: r } && r == remaining
                && call_ensures(P::accelerated_ship, (physics, &s, dt), t)),
            old(self).spec_ship() is Respawning ==> *final(self) == *old(self),
    {
        if let Some(ship) = self.ship.ship_mut() {
            *ship = physics.accelerated_ship(&*ship, dt);
        }
    }

    /// Pull the trigger: a bullet leaves the ship when there is a ship and
    /// the weapon is ready, which starts the weapon's cooldown.
    pub fn fire<P: Physics<Ship = S>>(&mut self, physics: &P) -> (bullet: Option<Bullet<P::Bullet>>)
        ensures
            final(self).fired_from(*old(self), bullet, physics),
            old(self).spec_ship() is Respawning ==> bullet is None && *final(self) == *old(self),
            old(self).spec_weapon().pending() is Some ==> bullet is None && *final(self) == *old(self),
            !(old(self).spec_ship() is Respawning) && old(self).spec_weapon().pending() is None ==> {
                &&& bullet is Some
                &&& final(self).spec_weapon().pending() == Some(old(self).spec_weapon().cooldown())
            },
    {
        let ship = match self.ship.ship() {
            Some(ship) => ship,
            None => {
                return None;
            },
        };
        if !self.weapon.fire() {
            return None;
        }
        Some(Bullet::new(physics.fire_from(ship), self.config.bullet_lifetime))
    }
}

} // verus!
