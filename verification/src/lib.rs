//! The game domain for Asteroids, kept free of any rendering, windowing or
//! floating-point kinematics so that its rules can be verified.
//!
//! Everything here is discrete: lives, timers, the weapon's cooldown, the
//! ship's life cycle, asteroid size classes and how they split, scoring and
//! wave progression. Positions, velocities and headings are carried as opaque
//! bodies whose motion and collisions an implementation of
//! [`domain::physics::Physics`] computes.

pub mod domain;
