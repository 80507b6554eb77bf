//! The discrete tuning of a game.

use vstd::prelude::*;

use crate::domain::counters::NonZeroLives;
use crate::domain::time::Duration;

verus! {

/// The gameplay rules that the domain itself applies. [`Default`] reproduces
/// the classic arcade feel; override fields via struct-update syntax for
/// variants or tests. How the bodies move is tuned separately, by the
/// [`crate::domain::physics::Physics`] in use.
#[derive(Debug, Clone, Copy)]
pub struct GameConfig {
    pub starting_lives: NonZeroLives,
    /// Large asteroids in the first wave; each later wave brings one more.
    pub starting_asteroids: usize,
    /// How long a destroyed ship waits before it respawns.
    pub respawn_time: Duration,
    /// How long a freshly spawned ship ignores collisions.
    pub invulnerability_time: Duration,
    pub bullet_lifetime: Duration,
    /// The weapon's cooldown after each shot.
    pub fire_cooldown: Duration,
}

impl core::default::Default for GameConfig {
    fn default() -> (config: GameConfig)
        ensures
            config.starting_lives@ == 3,
            config.starting_asteroids == 4,
            config.respawn_time@ == 1_500_000_000,
            config.invulnerability_time@ == 2_000_000_000,
            config.bullet_lifetime@ == 1_100_000_000,
            config.fire_cooldown@ == 250_000_000,
    {
        GameConfig {
            starting_lives: NonZeroLives::new(3).unwrap(),
            starting_asteroids: 4,
            respawn_time: Duration::from_millis(1_500),
            invulnerability_time: Duration::from_secs(2),
            bullet_lifetime: Duration::from_millis(1_100),
            fire_cooldown: Duration::from_millis(250),
        }
    }
}

} // verus!
