use std::cell::RefCell;
use std::f32::consts::TAU;

use asteroids::domain::{
    Asteroid, AsteroidDestruction, AsteroidKind, Bullet, Duration, Game, GameConfig, GameState,
    Input, LifeLoss, NonZeroLives, Physics, PlayOutcome, Player, PlayingGame, Score, ShipState,
    Turn, Wave, Weapon,
};
use glam::Vec2;
use rand::rngs::StdRng;
use rand::{RngExt, SeedableRng};

// ---------------------------------------------------------------------------
// Kinematics for the tests: the classic tuning, on an 800 x 600 playfield.
// ---------------------------------------------------------------------------

const WIDTH: f32 = 800.0;
const HEIGHT: f32 = 600.0;
const ROTATION_SPEED: f32 = 3.5;
const THRUST: f32 = 220.0;
const DRAG: f32 = 0.60;
const MAX_SPEED: f32 = 380.0;
const SHIP_SIZE: f32 = 20.0;
const SHIP_COLLISION_RADIUS: f32 = 12.0;
const BULLET_SPEED: f32 = 520.0;
const BULLET_RADIUS: f32 = 2.0;

#[derive(Debug, Clone, Copy, PartialEq)]
struct ShipBody {
    position: Vec2,
    velocity: Vec2,
    heading: f32,
}

#[derive(Debug, Clone, Copy, PartialEq)]
struct BulletBody {
    position: Vec2,
    velocity: Vec2,
}

#[derive(Debug, Clone, Copy, PartialEq)]
struct AsteroidBody {
    position: Vec2,
    velocity: Vec2,
    rotation: f32,
    angular_velocity: f32,
}

struct World {
    rng: RefCell<StdRng>,
}

fn world() -> World {
    World { rng: RefCell::new(StdRng::seed_from_u64(0x5EED_CAFE)) }
}

fn secs(dt: Duration) -> f32 {
    std::time::Duration::new(dt.as_secs(), dt.subsec_nanos()).as_secs_f32()
}

fn wrap(mut pos: Vec2) -> Vec2 {
    if pos.x < 0.0 {
        pos.x += WIDTH;
    }
    if pos.x > WIDTH {
        pos.x -= WIDTH;
    }
    if pos.y < 0.0 {
        pos.y += HEIGHT;
    }
    if pos.y > HEIGHT {
        pos.y -= HEIGHT;
    }
    pos
}

fn radius(kind: AsteroidKind) -> f32 {
    match kind {
        AsteroidKind::Large => 40.0,
        AsteroidKind::Medium => 22.0,
        AsteroidKind::Small => 12.0,
    }
}

fn circle_collide(a: Vec2, radius_a: f32, b: Vec2, radius_b: f32) -> bool {
    (a - b).length() < radius_a + radius_b
}

fn facing(ship: &ShipBody) -> Vec2 {
    let (sin, cos) = ship.heading.sin_cos();
    Vec2::new(sin, -cos)
}

impl World {
    fn random_at(&self, position: Vec2) -> AsteroidBody {
        let mut rng = self.rng.borrow_mut();
        let angle = rng.random_range(0.0..TAU);
        let speed = rng.random_range(40.0..110.0);
        AsteroidBody {
            position,
            velocity: Vec2::from_angle(angle) * speed,
            rotation: rng.random_range(0.0..TAU),
            angular_velocity: rng.random_range(-2.0..2.0),
        }
    }
}

impl Physics for World {
    type Ship = ShipBody;
    type Bullet = BulletBody;
    type Body = AsteroidBody;

    fn spawn_ship(&self) -> ShipBody {
        ShipBody { position: Vec2::new(WIDTH / 2.0, HEIGHT / 2.0), velocity: Vec2::ZERO, heading: 0.0 }
    }

    fn updated_ship(&self, ship: &ShipBody, dt: Duration) -> ShipBody {
        let dt = secs(dt);
        let mut ship = *ship;
        ship.velocity *= DRAG.powf(dt);
        ship.position += ship.velocity * dt;
        ship.position = wrap(ship.position);
        ship
    }

    fn rotated_ship(&self, ship: &ShipBody, turn: Turn, dt: Duration) -> ShipBody {
        let direction = match turn {
            Turn::Left => -1.0,
            Turn::Right => 1.0,
        };
        let mut ship = *ship;
        ship.heading += direction * ROTATION_SPEED * secs(dt);
        ship
    }

    fn accelerated_ship(&self, ship: &ShipBody, dt: Duration) -> ShipBody {
        let mut ship = *ship;
        ship.velocity += facing(&ship) * (THRUST * secs(dt));
        let speed = ship.velocity.length();
        if speed > MAX_SPEED {
            ship.velocity *= MAX_SPEED / speed;
        }
        ship
    }

    fn fire_from(&self, ship: &ShipBody) -> BulletBody {
        let facing = facing(ship);
        BulletBody { position: ship.position + facing * SHIP_SIZE, velocity: facing * BULLET_SPEED }
    }

    fn moved_bullet(&self, bullet: &BulletBody, dt: Duration) -> (BulletBody, bool) {
        let mut bullet = *bullet;
        bullet.position += bullet.velocity * secs(dt);
        let p = bullet.position;
        (bullet, p.x >= 0.0 && p.x <= WIDTH && p.y >= 0.0 && p.y <= HEIGHT)
    }

    fn moved_body(&self, body: &AsteroidBody, dt: Duration) -> AsteroidBody {
        let dt = secs(dt);
        let mut body = *body;
        body.position += body.velocity * dt;
        body.rotation += body.angular_velocity * dt;
        body.position = wrap(body.position);
        body
    }

    fn bullet_hits(&self, bullet: &BulletBody, body: &AsteroidBody, kind: AsteroidKind) -> bool {
        circle_collide(bullet.position, BULLET_RADIUS, body.position, radius(kind))
    }

    fn ship_hits(&self, ship: &ShipBody, body: &AsteroidBody, kind: AsteroidKind) -> bool {
        circle_collide(ship.position, SHIP_COLLISION_RADIUS, body.position, radius(kind))
    }

    fn fragment_body(&self, parent: &AsteroidBody) -> AsteroidBody {
        self.random_at(parent.position)
    }

    fn edge_body(&self) -> AsteroidBody {
        let position = {
            let mut rng = self.rng.borrow_mut();
            if rng.random_bool(0.5) {
                let x = if rng.random_bool(0.5) { 0.0 } else { WIDTH };
                let y = rng.random_range(0.0..HEIGHT);
                Vec2::new(x, y)
            } else {
                let x = rng.random_range(0.0..WIDTH);
                let y = if rng.random_bool(0.5) { 0.0 } else { HEIGHT };
                Vec2::new(x, y)
            }
        };
        self.random_at(position)
    }
}

fn body_at(position: Vec2) -> AsteroidBody {
    AsteroidBody { position, velocity: Vec2::ZERO, rotation: 0.0, angular_velocity: 0.0 }
}

/// A session with no asteroids yet, so tests can set up the exact world they
/// need. [`PlayingGame::new`] additionally spawns the first wave.
fn empty_playing(config: GameConfig) -> PlayingGame<World> {
    PlayingGame::from_parts(
        config,
        Player::new(config, &world()),
        Vec::new(),
        Vec::new(),
        Score::zero(),
        Wave::first(),
    )
}

/// Like [`empty_playing`], with the given asteroids and bullets and a ship
/// that can be hit right away.
fn playing_with(
    config: GameConfig,
    active_ship: bool,
    asteroids: Vec<Asteroid<AsteroidBody>>,
    bullets: Vec<Bullet<BulletBody>>,
) -> PlayingGame<World> {
    let player = if active_ship {
        Player::from_parts(
            config,
            config.starting_lives,
            ShipState::Active(world().spawn_ship()),
            Weapon::new(config.fire_cooldown),
        )
    } else {
        Player::new(config, &world())
    };
    PlayingGame::from_parts(config, player, asteroids, bullets, Score::zero(), Wave::first())
}

fn center() -> Vec2 {
    Vec2::new(WIDTH / 2.0, HEIGHT / 2.0)
}

// ---------------------------------------------------------------------------
// The domain's own scenarios
// ---------------------------------------------------------------------------

#[test]
fn score_saturates_instead_of_overflowing() {
    let mut score = Score::new(u32::MAX - 1);
    score += Score::new(5);
    assert_eq!(score.value(), u32::MAX);
}

#[test]
fn wave_starts_at_one_and_increments() {
    assert_eq!(Wave::first().value(), 1);
    assert_eq!(Wave::first().next().unwrap().value(), 2);
}

#[test]
fn a_new_game_starts_with_the_first_wave() {
    let config = GameConfig { starting_asteroids: 3, ..GameConfig::default() };
    let playing = PlayingGame::new(config, &world());

    assert_eq!(playing.wave().value(), 1);
    assert_eq!(playing.asteroids().len(), 3);
    assert!(playing.asteroids().iter().all(|a| matches!(a, Asteroid::Large(_))));
    // The ship spawns with invulnerability (and its blink) active.
    assert!(matches!(playing.player().ship(), ShipState::Invulnerable { .. }));
}

#[test]
fn losing_the_last_life_is_game_over() {
    assert!(matches!(NonZeroLives::new(1).unwrap().lose_one(), LifeLoss::GameOver));
    assert!(matches!(NonZeroLives::new(3).unwrap().lose_one(), LifeLoss::Remaining(_)));
}

#[test]
fn ship_respawns_then_becomes_invulnerable_then_active() {
    let config = GameConfig::default();
    let physics = world();

    let mut state: ShipState<ShipBody> =
        ShipState::Respawning { remaining: Duration::from_millis(500) };
    state.update(Duration::from_millis(400), &config, &physics);
    assert!(matches!(state, ShipState::Respawning { .. }));

    state.update(Duration::from_millis(100), &config, &physics);
    assert!(matches!(state, ShipState::Invulnerable { .. }));
    assert!(state.ship().is_some());

    state.update(Duration::from_secs(3), &config, &physics);
    assert!(matches!(state, ShipState::Active(_)));
}

#[test]
fn invulnerable_ship_ignores_hits() {
    let config = GameConfig::default();
    let mut player = Player::from_parts(
        config,
        config.starting_lives,
        ShipState::Invulnerable { ship: world().spawn_ship(), remaining: Duration::from_secs(1) },
        Weapon::new(config.fire_cooldown),
    );

    assert!(!player.hit());
    assert_eq!(player.lives().value(), 3);
}

#[test]
fn weapon_respects_cooldown() {
    let mut weapon = Weapon::new(Duration::from_millis(250));

    assert!(weapon.fire());
    assert!(!weapon.fire());

    weapon.update(Duration::from_millis(249));
    assert!(!weapon.fire());

    weapon.update(Duration::from_millis(1));
    assert!(weapon.fire());
}

#[test]
fn bullet_expires_and_is_culled_offscreen() {
    let physics = world();

    let mut bullet = Bullet::new(
        BulletBody { position: Vec2::new(400.0, 300.0), velocity: Vec2::ZERO },
        Duration::from_millis(100),
    );
    assert!(bullet.update(Duration::from_millis(99), &physics));
    assert!(!bullet.update(Duration::from_millis(1), &physics));

    let mut offscreen = Bullet::new(
        BulletBody { position: Vec2::new(801.0, 300.0), velocity: Vec2::ZERO },
        Duration::from_secs(1),
    );
    assert!(!offscreen.update(Duration::zero(), &physics));
}

#[test]
fn large_asteroid_splits_into_two_mediums() {
    let asteroid = Asteroid::new(AsteroidKind::Large, body_at(Vec2::new(100.0, 100.0)));

    match asteroid.destroy(&world()) {
        AsteroidDestruction::Fragments(first, second) => {
            let fragments = [first, second];
            assert_eq!(fragments.len(), 2);
            assert!(fragments.iter().all(|a| matches!(a, Asteroid::Medium(_))));
            assert_eq!(fragments[0].body().position, Vec2::new(100.0, 100.0));
            assert_eq!(fragments[1].body().position, Vec2::new(100.0, 100.0));
        }
        AsteroidDestruction::Destroyed => panic!("a large asteroid must split"),
    }
}

#[test]
fn small_asteroid_is_destroyed_outright() {
    let asteroid = Asteroid::new(AsteroidKind::Small, body_at(Vec2::ZERO));

    assert!(matches!(asteroid.destroy(&world()), AsteroidDestruction::Destroyed));
}

#[test]
fn bullet_destroys_asteroid_and_scores() {
    let mut playing = playing_with(
        GameConfig::default(),
        false,
        vec![Asteroid::new(AsteroidKind::Large, body_at(Vec2::new(200.0, 200.0)))],
        vec![Bullet::new(
            BulletBody { position: Vec2::new(200.0, 200.0), velocity: Vec2::ZERO },
            Duration::from_secs(1),
        )],
    );

    let outcome = playing.update(&Input::default(), Duration::zero(), &world());

    assert_eq!(outcome, PlayOutcome::Continued);
    assert_eq!(playing.score().value(), 20);
    assert!(playing.bullets().is_empty());
    assert_eq!(playing.asteroids().len(), 2);
    assert!(playing.asteroids().iter().all(|a| matches!(a, Asteroid::Medium(_))));
}

#[test]
fn ship_hit_drains_a_life_and_respawns() {
    // The ship spawns invulnerable; make it hittable for this test.
    let mut playing = playing_with(
        GameConfig::default(),
        true,
        vec![Asteroid::new(AsteroidKind::Small, body_at(center()))],
        Vec::new(),
    );

    let outcome = playing.update(&Input::default(), Duration::zero(), &world());

    assert_eq!(outcome, PlayOutcome::Continued);
    assert_eq!(playing.player().lives().value(), 2);
    assert!(matches!(playing.player().ship(), ShipState::Respawning { .. }));
}

#[test]
fn losing_the_last_ship_ends_the_game() {
    let config = GameConfig { starting_lives: NonZeroLives::new(1).unwrap(), ..GameConfig::default() };
    // The ship spawns invulnerable; make it hittable for this test.
    let mut playing =
        playing_with(config, true, vec![Asteroid::new(AsteroidKind::Small, body_at(center()))], Vec::new());

    let outcome = playing.update(&Input::default(), Duration::zero(), &world());

    assert_eq!(outcome, PlayOutcome::PlayerKilled(Score::zero()));
}

#[test]
fn clearing_a_wave_spawns_the_next() {
    let mut playing = playing_with(
        GameConfig { starting_asteroids: 1, ..GameConfig::default() },
        false,
        vec![Asteroid::new(AsteroidKind::Small, body_at(Vec2::new(200.0, 200.0)))],
        vec![Bullet::new(
            BulletBody { position: Vec2::new(200.0, 200.0), velocity: Vec2::ZERO },
            Duration::from_secs(1),
        )],
    );

    let outcome = playing.update(&Input::default(), Duration::zero(), &world());

    assert_eq!(outcome, PlayOutcome::Continued);
    // Wave 2 spawns `starting_asteroids + 1` large asteroids.
    assert_eq!(playing.wave().value(), 2);
    assert_eq!(playing.asteroids().len(), 2);
    assert!(playing.asteroids().iter().all(|a| matches!(a, Asteroid::Large(_))));
}

#[test]
fn firing_is_rate_limited_by_the_weapon() {
    let mut playing = empty_playing(GameConfig::default());

    let fire = Input { fire: true, ..Input::default() };
    playing.update(&fire, Duration::zero(), &world());
    assert_eq!(playing.bullets().len(), 1);

    // Holding fire during the cooldown produces no extra bullets.
    playing.update(&fire, Duration::from_millis(100), &world());
    assert_eq!(playing.bullets().len(), 1);

    // This frame drains the last 150ms of cooldown, but the fire attempt
    // happens before the drain, so no shot.
    playing.update(&fire, Duration::from_millis(200), &world());
    assert_eq!(playing.bullets().len(), 1);

    // Cooldown is over; the next frame fires again.
    playing.update(&fire, Duration::zero(), &world());
    assert_eq!(playing.bullets().len(), 2);
}

// ---------------------------------------------------------------------------
// Further scenarios
// ---------------------------------------------------------------------------

#[test]
fn durations_count_nanoseconds() {
    assert_eq!(Duration::from_millis(1_500).as_nanos(), 1_500_000_000);
    assert_eq!(Duration::from_secs(2).as_nanos(), 2_000_000_000);
    assert_eq!(Duration::from_micros(7).as_nanos(), 7_000);
    assert_eq!(Duration::from_nanos(9).as_nanos(), 9);
    let d = Duration::new(1, 2_500_000_000);
    assert_eq!(d.as_secs(), 3);
    assert_eq!(d.subsec_nanos(), 500_000_000);
    assert!(Duration::zero().is_zero());
    assert!(!d.is_zero());
}

#[test]
fn durations_subtract_down_to_zero() {
    let long = Duration::from_millis(250);
    let short = Duration::from_millis(100);
    assert_eq!(long.saturating_sub(short).as_nanos(), 150_000_000);
    assert!(short.saturating_sub(long).is_zero());
    assert!(long.saturating_sub(long).is_zero());
}

#[test]
fn the_largest_duration_converts_back() {
    let d = Duration::new(u64::MAX, 999_999_999);
    assert_eq!(d.as_secs(), u64::MAX);
    assert_eq!(d.subsec_nanos(), 999_999_999);
    assert_eq!(d.as_nanos(), u64::MAX as u128 * 1_000_000_000 + 999_999_999);
}

#[test]
fn score_adds_points() {
    let mut score = Score::default();
    assert_eq!(score.value(), 0);
    score += Score::new(20);
    score += Score::new(50);
    assert_eq!(score, Score::new(70));
    assert_eq!(Score::new(u32::MAX).saturating_add(Score::new(1)).value(), u32::MAX);
    assert_eq!(Score::new(3).saturating_add(Score::new(4)).value(), 7);
}

#[test]
fn zero_lives_are_refused() {
    assert!(NonZeroLives::new(0).is_none());
    assert_eq!(NonZeroLives::new(5).unwrap().value(), 5);
    match NonZeroLives::new(3).unwrap().lose_one() {
        LifeLoss::Remaining(rest) => assert_eq!(rest.value(), 2),
        LifeLoss::GameOver => panic!("two lives are left"),
    }
}

#[test]
fn waves_count_up() {
    let mut wave = Wave::first();
    for expected in 2..=10 {
        wave = wave.next().unwrap();
        assert_eq!(wave.value(), expected);
    }
}

#[test]
fn a_weapon_without_cooldown_is_ready_after_any_frame() {
    let mut weapon = Weapon::new(Duration::zero());
    assert!(weapon.fire());
    assert!(!weapon.fire());
    weapon.update(Duration::zero());
    assert!(weapon.fire());
}

#[test]
fn cooldown_ends_once_the_frames_add_up() {
    let mut weapon = Weapon::new(Duration::from_millis(250));
    assert!(weapon.fire());
    for _ in 0..4 {
        weapon.update(Duration::from_millis(60));
    }
    // 240ms elapsed: still cooling down.
    assert!(!weapon.fire());
    weapon.update(Duration::from_millis(60));
    // 300ms elapsed: ready again.
    assert!(weapon.fire());
}

#[test]
fn asteroids_score_by_size() {
    let large = Asteroid::new(AsteroidKind::Large, body_at(Vec2::ZERO));
    let medium = Asteroid::new(AsteroidKind::Medium, body_at(Vec2::ZERO));
    let small = Asteroid::new(AsteroidKind::Small, body_at(Vec2::ZERO));
    assert_eq!(large.score().value(), 20);
    assert_eq!(medium.score().value(), 50);
    assert_eq!(small.score().value(), 100);
    assert_eq!(large.kind(), AsteroidKind::Large);
    assert_eq!(medium.kind(), AsteroidKind::Medium);
    assert_eq!(small.kind(), AsteroidKind::Small);
}

#[test]
fn medium_asteroid_splits_into_two_smalls() {
    let asteroid = Asteroid::new(AsteroidKind::Medium, body_at(Vec2::new(30.0, 40.0)));
    match asteroid.destroy(&world()) {
        AsteroidDestruction::Fragments(first, second) => {
            assert_eq!(first.kind(), AsteroidKind::Small);
            assert_eq!(second.kind(), AsteroidKind::Small);
            assert_eq!(first.body().position, Vec2::new(30.0, 40.0));
            assert_eq!(second.body().position, Vec2::new(30.0, 40.0));
        }
        AsteroidDestruction::Destroyed => panic!("a medium asteroid must split"),
    }
}

#[test]
fn asteroids_keep_their_class_as_they_move() {
    let mut asteroid = Asteroid::new(
        AsteroidKind::Medium,
        AsteroidBody { position: Vec2::new(799.0, 10.0), velocity: Vec2::new(100.0, 0.0), rotation: 0.0, angular_velocity: 1.0 },
    );
    asteroid.update(Duration::from_millis(100), &world());
    assert_eq!(asteroid.kind(), AsteroidKind::Medium);
    // It wrapped around the right edge.
    assert!((asteroid.body().position.x - 9.0).abs() < 1e-3);
}

#[test]
fn a_bullet_ticks_down_its_lifetime() {
    let mut bullet = Bullet::new(
        BulletBody { position: Vec2::new(400.0, 300.0), velocity: Vec2::ZERO },
        Duration::from_millis(100),
    );
    assert!(bullet.tick(Duration::from_millis(30), true));
    assert_eq!(bullet.remaining().as_nanos(), 70_000_000);
    assert!(!bullet.tick(Duration::from_millis(30), false));
    assert_eq!(bullet.remaining().as_nanos(), 40_000_000);
    assert!(!bullet.tick(Duration::from_millis(50), true));
    assert!(bullet.remaining().is_zero());
}

#[test]
fn an_active_ship_stays_active() {
    let config = GameConfig::default();
    let physics = world();
    let mut state = ShipState::Active(physics.spawn_ship());
    state.update(Duration::from_secs(5), &config, &physics);
    assert!(matches!(state, ShipState::Active(_)));
}

#[test]
fn a_respawned_ship_gets_the_full_protection() {
    let config = GameConfig::default();
    let physics = world();
    let mut state: ShipState<ShipBody> = ShipState::Respawning { remaining: Duration::from_millis(10) };
    // The frame is longer than the wait; the protection still starts whole.
    state.update(Duration::from_secs(1), &config, &physics);
    match state {
        ShipState::Invulnerable { remaining, .. } => {
            assert_eq!(remaining.as_nanos(), config.invulnerability_time.as_nanos())
        }
        _ => panic!("the ship must be back, invulnerable"),
    }
}

#[test]
fn only_an_existing_ship_can_be_moved() {
    let physics = world();
    let mut flying = ShipState::Active(physics.spawn_ship());
    let ship = flying.ship_mut().unwrap();
    ship.heading = 1.0;
    assert_eq!(flying.ship().unwrap().heading, 1.0);

    let mut waiting: ShipState<ShipBody> = ShipState::Respawning { remaining: Duration::from_secs(1) };
    assert!(waiting.ship_mut().is_none());
    assert!(waiting.ship().is_none());
}

#[test]
fn an_active_ship_that_is_hit_loses_a_life() {
    let config = GameConfig::default();
    let mut player = Player::from_parts(
        config,
        config.starting_lives,
        ShipState::Active(world().spawn_ship()),
        Weapon::new(config.fire_cooldown),
    );
    assert!(!player.hit());
    assert_eq!(player.lives().value(), 2);
    match player.ship() {
        ShipState::Respawning { remaining } => {
            assert_eq!(remaining.as_nanos(), config.respawn_time.as_nanos())
        }
        _ => panic!("the ship must be respawning"),
    }
    // A respawning ship cannot be hit again.
    assert!(!player.hit());
    assert_eq!(player.lives().value(), 2);
}

#[test]
fn the_last_life_ends_the_game_without_touching_the_player() {
    let config = GameConfig { starting_lives: NonZeroLives::new(1).unwrap(), ..GameConfig::default() };
    let mut player = Player::from_parts(
        config,
        config.starting_lives,
        ShipState::Active(world().spawn_ship()),
        Weapon::new(config.fire_cooldown),
    );
    assert!(player.hit());
    assert_eq!(player.lives().value(), 1);
    assert!(matches!(player.ship(), ShipState::Active(_)));
}

#[test]
fn a_fired_bullet_leaves_the_nose_with_its_lifetime() {
    let config = GameConfig::default();
    let physics = world();
    let mut player = Player::new(config, &physics);
    let bullet = player.fire(&physics).unwrap();
    assert_eq!(bullet.remaining().as_nanos(), config.bullet_lifetime.as_nanos());
    assert_eq!(bullet.body().position, Vec2::new(400.0, 280.0));
    assert!((bullet.body().velocity.y + BULLET_SPEED).abs() < 1e-3);
    // The weapon is now cooling down.
    assert!(player.fire(&physics).is_none());
}

#[test]
fn no_ship_no_shot() {
    let config = GameConfig::default();
    let physics = world();
    let mut player = Player::from_parts(
        config,
        config.starting_lives,
        ShipState::Respawning { remaining: Duration::from_secs(1) },
        Weapon::new(config.fire_cooldown),
    );
    assert!(player.fire(&physics).is_none());
    // The trigger did not use up the weapon.
    player.update(Duration::from_secs(2), &physics);
    assert!(player.fire(&physics).is_some());
}

#[test]
fn turning_and_thrust_move_only_an_existing_ship() {
    let config = GameConfig::default();
    let physics = world();
    let mut player = Player::new(config, &physics);
    player.rotate(Turn::Right, Duration::from_secs(1), &physics);
    player.accelerate(Duration::from_secs(1), &physics);
    let ship = player.ship().ship().unwrap();
    assert!((ship.heading - ROTATION_SPEED).abs() < 1e-6);
    assert!(ship.velocity.length() > 0.0);
    // Still invulnerable, with its countdown untouched.
    assert!(matches!(player.ship(), ShipState::Invulnerable { .. }));
}

#[test]
fn a_bullet_through_a_medium_asteroid_leaves_two_smalls() {
    let mut playing = playing_with(
        GameConfig::default(),
        false,
        vec![
            Asteroid::new(AsteroidKind::Large, body_at(Vec2::new(600.0, 100.0))),
            Asteroid::new(AsteroidKind::Medium, body_at(Vec2::new(200.0, 200.0))),
        ],
        vec![
            Bullet::new(BulletBody { position: Vec2::new(200.0, 200.0), velocity: Vec2::ZERO }, Duration::from_secs(1)),
            Bullet::new(BulletBody { position: Vec2::new(50.0, 500.0), velocity: Vec2::ZERO }, Duration::from_secs(1)),
        ],
    );

    let outcome = playing.update(&Input::default(), Duration::zero(), &world());

    assert_eq!(outcome, PlayOutcome::Continued);
    assert_eq!(playing.score().value(), 50);
    assert_eq!(playing.bullets().len(), 1);
    assert_eq!(playing.asteroids().len(), 3);
    let smalls = playing.asteroids().iter().filter(|a| a.kind() == AsteroidKind::Small).count();
    assert_eq!(smalls, 2);
}

#[test]
fn fragments_are_hittable_in_the_same_frame() {
    // Two bullets on one large asteroid: the first splits it, the second hits
    // one of the mediums left at the same spot.
    let mut playing = playing_with(
        GameConfig::default(),
        false,
        vec![Asteroid::new(AsteroidKind::Large, body_at(Vec2::new(200.0, 200.0)))],
        vec![
            Bullet::new(BulletBody { position: Vec2::new(200.0, 200.0), velocity: Vec2::ZERO }, Duration::from_secs(1)),
            Bullet::new(BulletBody { position: Vec2::new(201.0, 200.0), velocity: Vec2::ZERO }, Duration::from_secs(1)),
        ],
    );

    playing.update(&Input::default(), Duration::zero(), &world());

    assert_eq!(playing.score().value(), 70);
    assert!(playing.bullets().is_empty());
    assert_eq!(playing.asteroids().len(), 3);
}

#[test]
fn expired_bullets_are_dropped_in_order() {
    let bullet = |x: f32, millis: u64| {
        Bullet::new(BulletBody { position: Vec2::new(x, 550.0), velocity: Vec2::ZERO }, Duration::from_millis(millis))
    };
    let mut playing = playing_with(
        GameConfig::default(),
        false,
        vec![Asteroid::new(AsteroidKind::Large, body_at(Vec2::new(700.0, 100.0)))],
        vec![bullet(10.0, 50), bullet(20.0, 500), bullet(30.0, 100), bullet(40.0, 900)],
    );

    playing.update(&Input::default(), Duration::from_millis(100), &world());

    let left: Vec<f32> = playing.bullets().iter().map(|b| b.body().position.x).collect();
    assert_eq!(left, vec![20.0, 40.0]);
    assert!(playing.bullets().iter().all(|b| !b.remaining().is_zero()));
}

#[test]
fn a_new_game_is_under_way() {
    let game = Game::new(GameConfig::default(), &world());
    assert!(!game.is_game_over());
    assert_eq!(game.config().starting_asteroids, 4);
    match game.state() {
        GameState::Playing(playing) => {
            assert_eq!(playing.asteroids().len(), 4);
            assert_eq!(playing.score().value(), 0);
            assert_eq!(playing.player().lives().value(), 3);
        }
        GameState::GameOver(_) => panic!("a new game is being played"),
    }
}

/// Physics in which the ship is always touching an asteroid.
struct Doomed(World);

impl Physics for Doomed {
    type Ship = ShipBody;
    type Bullet = BulletBody;
    type Body = AsteroidBody;

    fn spawn_ship(&self) -> ShipBody {
        self.0.spawn_ship()
    }
    fn updated_ship(&self, ship: &ShipBody, dt: Duration) -> ShipBody {
        self.0.updated_ship(ship, dt)
    }
    fn rotated_ship(&self, ship: &ShipBody, turn: Turn, dt: Duration) -> ShipBody {
        self.0.rotated_ship(ship, turn, dt)
    }
    fn accelerated_ship(&self, ship: &ShipBody, dt: Duration) -> ShipBody {
        self.0.accelerated_ship(ship, dt)
    }
    fn fire_from(&self, ship: &ShipBody) -> BulletBody {
        self.0.fire_from(ship)
    }
    fn moved_bullet(&self, bullet: &BulletBody, dt: Duration) -> (BulletBody, bool) {
        self.0.moved_bullet(bullet, dt)
    }
    fn moved_body(&self, body: &AsteroidBody, dt: Duration) -> AsteroidBody {
        self.0.moved_body(body, dt)
    }
    fn bullet_hits(&self, _: &BulletBody, _: &AsteroidBody, _: AsteroidKind) -> bool {
        false
    }
    fn ship_hits(&self, _: &ShipBody, _: &AsteroidBody, _: AsteroidKind) -> bool {
        true
    }
    fn fragment_body(&self, parent: &AsteroidBody) -> AsteroidBody {
        self.0.fragment_body(parent)
    }
    fn edge_body(&self) -> AsteroidBody {
        self.0.edge_body()
    }
}

#[test]
fn the_game_ends_with_the_last_life_and_then_stands_still() {
    let config = GameConfig { starting_lives: NonZeroLives::new(2).unwrap(), ..GameConfig::default() };
    let physics = Doomed(world());
    let mut game = Game::new(config, &physics);
    let idle = Input::default();

    // Protection, then the first hit, the respawn wait and protection again.
    let mut frames = 0;
    while !game.is_game_over() {
        game.update(&idle, Duration::from_millis(500), &physics);
        frames += 1;
        assert!(frames < 100);
    }
    match game.state() {
        GameState::GameOver(over) => assert_eq!(over.final_score().value(), 0),
        GameState::Playing(_) => unreachable!(),
    }

    // The game-over screen ignores further frames.
    game.update(&idle, Duration::from_secs(10), &physics);
    assert!(game.is_game_over());

    let game = game.restart(&physics);
    assert!(!game.is_game_over());
    match game.state() {
        GameState::Playing(playing) => {
            assert_eq!(playing.player().lives().value(), 2);
            assert_eq!(playing.wave().value(), 1);
        }
        GameState::GameOver(_) => unreachable!(),
    }
}

#[test]
fn score_never_drops_and_lives_never_grow_over_a_long_game() {
    let physics = world();
    let mut game = Game::new(GameConfig::default(), &physics);
    let mut last_score = 0;
    let mut last_lives = 3;
    for frame in 0..2_000u32 {
        let input = Input {
            turn: if frame % 7 < 3 { Some(Turn::Left) } else { Some(Turn::Right) },
            thrust: frame % 5 == 0,
            fire: true,
        };
        game.update(&input, Duration::from_millis(16), &physics);
        match game.state() {
            GameState::Playing(playing) => {
                assert!(playing.score().value() >= last_score);
                assert!(playing.player().lives().value() <= last_lives);
                assert!(playing.bullets().iter().all(|b| !b.remaining().is_zero()));
                last_score = playing.score().value();
                last_lives = playing.player().lives().value();
            }
            GameState::GameOver(over) => {
                assert!(over.final_score().value() >= last_score);
                break;
            }
        }
    }
}
