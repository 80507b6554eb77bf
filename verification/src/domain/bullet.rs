//! Bullets in flight.

use vstd::prelude::*;

use crate::domain::physics::Physics;
use crate::domain::time::Duration;

verus! {

/// `a - b`, or zero when `b` is larger.
pub open spec fn saturating_sub_nat(a: nat, b: nat) -> nat {
    if a >= b {
        (a - b) as nat
    } else {
        0
    }
}

/// A bullet in flight: its body and the lifetime it has left. It dies when
/// the lifetime runs out or it leaves the playfield (bullets do not wrap).
#[derive(Debug, Clone, Copy)]
pub struct Bullet<B> {
    body: B,
    remaining: Duration,
}

impl<B> Bullet<B> {
    /// The bullet's body.
    pub closed spec fn spec_body(&self) -> B {
        self.body
    }

    /// The lifetime left, in nanoseconds.
    pub closed spec fn lifetime(&self) -> nat {
        self.remaining@
    }

    pub fn new(body: B, remaining: Duration) -> (b: Bullet<B>)
        ensures
            b.spec_body() == body,
            b.lifetime() == remaining@,
    {
        Bullet { body, remaining }
    }

    pub fn body(&self) -> (b: &B)
        ensures
            *b == self.spec_body(),
    {
        &self.body
    }

    pub fn remaining(&self) -> (d: Duration)
        ensures
            d@ == self.lifetime(),
    {
        self.remaining
    }

    /// Let `dt` of the lifetime pass, given whether the bullet, already moved
    /// for this frame, is still on the playfield; returns whether it lives
    /// on.
    pub fn tick(&mut self, dt: Duration, on_screen: bool) -> (alive: bool)
        ensures
            final(self).spec_body() == old(self).spec_body(),
            final(self).lifetime() == saturating_sub_nat(old(self).lifetime(), dt@),
            alive == (final(self).lifetime() > 0 && on_screen),
    {
        self.remaining = self.remaining.saturating_sub(dt);
        !self.remaining.is_zero() && on_screen
    }

    /// `self` is what one frame of `dt` makes of `before`, and `alive`
    /// whether it lives on: the body is as the physics moved it, the lifetime
    /// has run down, and the bullet lives on exactly when lifetime is left
    /// and the physics reported it still on the playfield.
    pub open spec fn flown_from<P: Physics<Bullet = B>>(&self, before: Bullet<B>, dt: Duration, physics: &P, alive: bool) -> bool {
        &&& self.lifetime() == saturating_sub_nat(before.lifetime(), dt@)
        &&& exists|on_screen: bool|
            {
                &&& #[trigger] call_ensures(
                    P::moved_bullet,
                    (physics, &before.spec_body(), dt),
                    (self.spec_body(), on_screen),
                )
                &&& alive == (self.lifetime() > 0 && on_screen)
            }
    }

    /// Advance one frame: the bullet moves and its lifetime runs down;
    /// returns `false` when the bullet should be removed.
    pub fn update<P: Physics<Bullet = B>>(&mut self, dt: Duration, physics: &P) -> (alive: bool)
        ensures
            final(self).flown_from(*old(self), dt, physics, alive),
    {
        let (body, on_screen) = physics.moved_bullet(&self.body, dt);
        self.body = body;
        let alive = self.tick(dt, on_screen);
        assert(call_ensures(P::moved_bullet, (physics, &old(self).spec_body(), dt), (self.spec_body(), on_screen)));
        alive
    }
}

} // verus!
