//! The kinematics that the domain delegates: where bodies are, how they move
//! and whether they touch.

use vstd::prelude::*;

use crate::domain::asteroid::AsteroidKind;
use crate::domain::ship::Turn;
use crate::domain::time::Duration;

verus! {

/// Positions, velocities and headings of the ship, the bullets and the
/// asteroids, together with the random numbers that new asteroids are drawn
/// from.
///
/// The domain never looks inside a body: it only keeps each one with the
/// discrete state it belongs to (a ship's life cycle, a bullet's remaining
/// lifetime, an asteroid's size class) and asks this trait to move bodies,
/// test them for contact and create new ones. No method here promises
/// anything about its result, so every rule the domain proves holds whatever
/// an implementation answers; where the domain hands a result on, its
/// contracts say which call produced it. New bodies draw on a random number
/// generator that an implementation keeps behind a shared reference.
pub trait Physics {
    /// The player's ship: position, velocity and heading.
    type Ship;
    /// A bullet in flight: position and velocity.
    type Bullet;
    /// An asteroid's body: position, velocity, rotation and spin.
    type Body;

    /// A fresh ship at the spawn point, at rest.
    fn spawn_ship(&self) -> Self::Ship;

    /// The ship after `dt`: drag, motion and wrapping at the edges.
    fn updated_ship(&self, ship: &Self::Ship, dt: Duration) -> Self::Ship;

    /// The ship turned for `dt`.
    fn rotated_ship(&self, ship: &Self::Ship, turn: Turn, dt: Duration) -> Self::Ship;

    /// The ship after thrusting along its facing for `dt`, up to the speed
    /// limit.
    fn accelerated_ship(&self, ship: &Self::Ship, dt: Duration) -> Self::Ship;

    /// The body of a bullet leaving the ship's nose along its facing.
    fn fire_from(&self, ship: &Self::Ship) -> Self::Bullet;

    /// A bullet after `dt`, and whether it is still on the playfield
    /// (bullets do not wrap).
    fn moved_bullet(&self, bullet: &Self::Bullet, dt: Duration) -> (Self::Bullet, bool);

    /// An asteroid's body after `dt`: motion, spin and wrapping at the edges.
    fn moved_body(&self, body: &Self::Body, dt: Duration) -> Self::Body;

    /// Whether a bullet touches an asteroid of the given size class.
    fn bullet_hits(&self, bullet: &Self::Bullet, body: &Self::Body, kind: AsteroidKind) -> bool;

    /// Whether the ship touches an asteroid of the given size class.
    fn ship_hits(&self, ship: &Self::Ship, body: &Self::Body, kind: AsteroidKind) -> bool;

    /// A fragment's body: at the parent's position, with a random velocity,
    /// rotation and spin.
    fn fragment_body(&self, parent: &Self::Body) -> Self::Body;

    /// A new asteroid's body: at a random point of the playfield's edge,
    /// with a random velocity, rotation and spin.
    fn edge_body(&self) -> Self::Body;
}

} // verus!
