//! Game-domain types for Asteroids.
//!
//! The simulation is driven frame by frame through [`game::Game::update`],
//! which takes an [`session::Input`], the frame's [`time::Duration`] and a
//! [`physics::Physics`] value that moves the bodies, tests them for contact
//! and draws the random numbers that new asteroids need.
//!
//! Invalid states are not representable:
//! - a ship cannot exist while the player is respawning ([`ship::ShipState`]),
//! - a weapon cannot be on cooldown and ready at once ([`weapon::WeaponState`]),
//! - a game-over screen cannot still own a live world ([`game::GameState`]),
//! - lives are non-zero ([`counters::NonZeroLives`]) and waves are non-zero
//!   ([`counters::Wave`]),
//! - the asteroid size class carries its own score and what it splits into.

pub mod time;
pub mod counters;
pub mod weapon;
pub mod physics;
pub mod ship;
pub mod bullet;
pub mod asteroid;
pub mod config;
pub mod player;
pub mod session;
pub mod game;

pub use self::asteroid::{
    Asteroid, AsteroidDestruction, AsteroidKind, LargeAsteroid, MediumAsteroid, SmallAsteroid,
};
pub use self::bullet::Bullet;
pub use self::config::GameConfig;
pub use self::counters::{LifeLoss, NonZeroLives, Score, Wave};
pub use self::game::{Game, GameOver, GameState};
pub use self::physics::Physics;
pub use self::player::Player;
pub use self::session::{Input, PlayOutcome, PlayingGame};
pub use self::ship::{ShipState, Turn};
pub use self::time::Duration;
pub use self::weapon::{Weapon, WeaponState};
