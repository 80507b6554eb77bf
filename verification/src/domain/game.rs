//! The top-level game: a live session or the game-over screen.

use vstd::prelude::*;

use crate::domain::config::GameConfig;
use crate::domain::counters::Score;
use crate::domain::physics::Physics;
use crate::domain::session::{kinds_of, larges, Input, PlayOutcome, PlayingGame};
use crate::domain::time::Duration;

verus! {

/// The game-over screen. Owns only the score: the world is gone.
#[derive(Debug, Clone, Copy, PartialEq, Eq, Structural)]
pub struct GameOver {
    final_score: Score,
}

impl GameOver {
    pub closed spec fn spec_final_score(&self) -> Score {
        self.final_score
    }

    pub fn final_score(&self) -> (s: Score)
        ensures
            s == self.spec_final_score(),
    {
        self.final_score
    }
}

/// The two mutually exclusive phases of a game session.
pub enum GameState<P: Physics> {
    Playing(PlayingGame<P>),
    GameOver(GameOver),
}

/// `session` is a session freshly started with `config`: the first wave is
/// in place, drawn at the edges by `physics`, and the player has its
/// starting lives and a protected ship that `physics` spawned.
pub open spec fn is_fresh<P: Physics>(session: PlayingGame<P>, config: GameConfig, physics: &P) -> bool {
    &&& session.spec_config() == config
    &&& session.spec_player().spec_config() == config
    &&& session.spec_player().spec_lives() == config.starting_lives
    &&& session.spec_player().spec_ship() is Invulnerable
    &&& session.spec_player().spec_ship().timer() == config.invulnerability_time@
    &&& session.spec_player().spec_weapon().pending() is None
    &&& session.spec_player().spec_weapon().cooldown() == config.fire_cooldown@
    &&& session.spec_bullets().len() == 0
    &&& session.spec_score()@ == 0
    &&& session.spec_wave()@ == 1
    &&& kinds_of(session.spec_asteroids()) == larges(config.starting_asteroids as nat)
    &&& call_ensures(P::spawn_ship, (physics,), session.spec_player().spec_ship().flying_ship())
    &&& forall|k: int|
        0 <= k < session.spec_asteroids().len() ==> call_ensures(
            P::edge_body,
            (physics,),
            #[trigger] session.spec_asteroids()[k].spec_body(),
        )
}

/// The game: either a live session or the game-over screen.
pub struct Game<P: Physics> {
    config: GameConfig,
    state: GameState<P>,
}

impl<P: Physics> Game<P> {
    pub closed spec fn spec_config(&self) -> GameConfig {
        self.config
    }

    pub closed spec fn spec_state(&self) -> GameState<P> {
        self.state
    }

    /// Whether the next frame can be played: the wave after the current one
    /// must not bring more asteroids than a `usize` can count.
    pub open spec fn can_update(&self) -> bool {
        self.spec_state() matches GameState::Playing(session) ==> session.spec_config().starting_asteroids
            + session.spec_wave()@ <= usize::MAX
    }

    /// A new game, with its first session under way.
    pub fn new(config: GameConfig, physics: &P) -> (game: Game<P>)
        ensures
            game.spec_config() == config,
            game.spec_state() matches GameState::Playing(session) && is_fresh(session, config, physics),
    {
        Game { config, state: GameState::Playing(PlayingGame::new(config, physics)) }
    }

    pub fn config(&self) -> (c: GameConfig)
        ensures
            c == self.spec_config(),
    {
        self.config
    }

    pub fn state(&self) -> (s: &GameState<P>)
        ensures
            *s == self.spec_state(),
    {
        &self.state
    }

    pub fn is_game_over(&self) -> (over: bool)
        ensures
            over == self.spec_state() is GameOver,
    {
        match self.state {
            GameState::Playing(_) => false,
            GameState::GameOver(_) => true,
        }
    }

    /// Start a fresh game with the same configuration.
    pub fn restart(self, physics: &P) -> (game: Game<P>)
        ensures
            game.spec_config() == self.spec_config(),
            game.spec_state() matches GameState::Playing(session) && is_fresh(session, self.spec_config(), physics),
    {
        Game { config: self.config, state: GameState::Playing(PlayingGame::new(self.config, physics)) }
    }

    /// Advance the simulation by one frame. No-op while on the game-over
    /// screen; start a new game with [`Self::restart`] instead. A session
    /// whose player loses the last ship gives way to the game-over screen,
    /// which keeps the score reached.
    pub fn update(&mut self, input: &Input, dt: Duration, physics: &P)
        requires
            old(self).can_update(),
        ensures
            final(self).spec_config() == old(self).spec_config(),
            old(self).spec_state() is GameOver ==> *final(self) == *old(self),
            old(self).spec_state() matches GameState::Playing(before) ==> match final(self).spec_state() {
                GameState::Playing(after) => before.frame(after, *input, dt, physics, PlayOutcome::Continued),
                GameState::GameOver(over) => exists|after: PlayingGame<P>|
                    before.frame(
                        after,
                        *input,
                        dt,
                        physics,
                        PlayOutcome::PlayerKilled(over.spec_final_score()),
                    ),
            },
    {
        let outcome = match &mut self.state {
            GameState::Playing(playing) => playing.update(input, dt, physics),
            GameState::GameOver(_) => {
                return;
            },
        };
        let ghost played = self.state;
        if let PlayOutcome::PlayerKilled(score) = outcome {
            self.state = GameState::GameOver(GameOver { final_score: score });
            proof {
                let before = old(self).spec_state()->Playing_0;
                let after = played->Playing_0;
                assert(before.frame(
                    after,
                    *input,
                    dt,
                    physics,
                    PlayOutcome::PlayerKilled(self.spec_state()->GameOver_0.spec_final_score()),
                ));
            }
        }
    }
}

} // verus!
