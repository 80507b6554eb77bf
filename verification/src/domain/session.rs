//! A live session: the player, every asteroid and every bullet in flight.

use vstd::multiset::Multiset;
use vstd::prelude::*;

use crate::domain::asteroid::{Asteroid, AsteroidDestruction, AsteroidKind};
use crate::domain::bullet::{saturating_sub_nat, Bullet};
use crate::domain::config::GameConfig;
use crate::domain::counters::{saturating_add_u32, Score, Wave};
use crate::domain::physics::Physics;
use crate::domain::player::{pending_after_trigger, Player};
use crate::domain::ship::{ShipState, Turn};
use crate::domain::time::Duration;
use crate::domain::weapon::cooldown_step;

verus! {

broadcast use {vstd::seq_lib::group_to_multiset_ensures, vstd::multiset::group_multiset_axioms};

/// What the player asked for this frame, already read from whatever
/// input devices exist.
#[derive(Debug, Clone, Copy)]
pub struct Input {
    pub turn: Option<Turn>,
    pub thrust: bool,
    pub fire: bool,
}

impl core::default::Default for Input {
    /// No turn, no thrust, no fire.
    fn default() -> (input: Input)
        ensures
            input.turn is None,
            !input.thrust,
            !input.fire,
    {
        Input { turn: None, thrust: false, fire: false }
    }
}

/// How a frame of play ended.
#[derive(Debug, Clone, Copy, PartialEq, Eq, Structural)]
pub enum PlayOutcome {
    /// The session continues.
    Continued,
    /// The player lost their last ship; the score is the final score.
    PlayerKilled(Score),
}

/// The size classes of a sequence of asteroids.
pub open spec fn kinds_of<A>(asteroids: Seq<Asteroid<A>>) -> Seq<AsteroidKind> {
    asteroids.map_values(|a: Asteroid<A>| a.spec_kind())
}

/// A score of `start` after destroying asteroids of the given classes, in
/// order, each adding its points and the total saturating at `u32::MAX`.
pub open spec fn score_after(start: nat, destroyed: Seq<AsteroidKind>) -> nat
    decreases destroyed.len(),
{
    if destroyed.len() == 0 {
        start
    } else {
        saturating_add_u32(score_after(start, destroyed.drop_last()), destroyed.last().points())
    }
}

/// Destroying asteroids never lowers a score, and a score that fits in a
/// `u32` still fits afterwards.
pub proof fn lemma_score_after_grows(start: nat, destroyed: Seq<AsteroidKind>)
    ensures
        score_after(start, destroyed) >= start || score_after(start, destroyed) == u32::MAX,
        start <= u32::MAX ==> start <= score_after(start, destroyed) <= u32::MAX,
    decreases destroyed.len(),
{
    if destroyed.len() > 0 {
        lemma_score_after_grows(start, destroyed.drop_last());
    }
}

/// The classes of the fragments that destroying one asteroid of class
/// `kind` leaves, in the order they join the field.
pub open spec fn fragment_kinds(kind: AsteroidKind) -> Seq<AsteroidKind> {
    match kind.fragment_kind() {
        Some(f) => seq![f, f],
        None => seq![],
    }
}

/// All the fragments that destroying asteroids of the given classes leaves.
pub open spec fn fragments_of(destroyed: Seq<AsteroidKind>) -> Multiset<AsteroidKind>
    decreases destroyed.len(),
{
    if destroyed.len() == 0 {
        Multiset::empty()
    } else {
        fragments_of(destroyed.drop_last()).add(fragment_kinds(destroyed.last()).to_multiset())
    }
}

/// `n` large asteroids' worth of size classes.
pub open spec fn larges(n: nat) -> Seq<AsteroidKind> {
    Seq::new(n, |i: int| AsteroidKind::Large)
}

/// Removing element `j` by moving the last element into its place takes
/// exactly that element out of the multiset.
proof fn lemma_swap_remove_to_multiset<T>(s: Seq<T>, j: int)
    requires
        0 <= j < s.len(),
    ensures
        s.update(j, s.last()).drop_last().to_multiset() == s.to_multiset().remove(s[j]),
{
    let u = s.update(j, s.last());
    assert(u.drop_last() =~= u.remove(u.len() - 1));
    assert(u[u.len() - 1] == s.last());
    assert(u.drop_last().to_multiset() =~= s.to_multiset().remove(s[j]));
}

/// `answer` is an answer the physics can give to whether `bullet` touches
/// `asteroid`.
pub open spec fn bullet_answer<P: Physics>(
    physics: &P,
    bullet: Bullet<P::Bullet>,
    asteroid: Asteroid<P::Body>,
    answer: bool,
) -> bool {
    call_ensures(P::bullet_hits, (physics, &bullet.spec_body(), &asteroid.spec_body(), asteroid.spec_kind()), answer)
}

/// `answer` is an answer the physics can give to whether `ship` touches
/// `asteroid`.
pub open spec fn ship_answer<P: Physics>(physics: &P, ship: P::Ship, asteroid: Asteroid<P::Body>, answer: bool) -> bool {
    call_ensures(P::ship_hits, (physics, &ship, &asteroid.spec_body(), asteroid.spec_kind()), answer)
}

/// The bullets of `moved` whose flag in `alive` is set, in order.
pub open spec fn kept<B>(moved: Seq<Bullet<B>>, alive: Seq<bool>) -> Seq<Bullet<B>>
    decreases moved.len(),
{
    if moved.len() == 0 {
        seq![]
    } else {
        let rest = kept(moved.drop_last(), alive.drop_last());
        if alive.last() {
            rest.push(moved.last())
        } else {
            rest
        }
    }
}

/// `after` is what one frame of `dt` leaves of the bullets `before`: each
/// one flies as the physics moves it, and those that live on stay, in order.
pub open spec fn bullets_flown<P: Physics>(
    before: Seq<Bullet<P::Bullet>>,
    after: Seq<Bullet<P::Bullet>>,
    dt: Duration,
    physics: &P,
) -> bool {
    exists|moved: Seq<Bullet<P::Bullet>>, alive: Seq<bool>|
        {
            &&& moved.len() == before.len()
            &&& alive.len() == before.len()
            &&& forall|k: int| 0 <= k < before.len() ==> #[trigger] moved[k].flown_from(before[k], dt, physics, alive[k])
            &&& after == kept(moved, alive)
        }
}

/// Each bullet that `kept` keeps is one of `moved` whose flag in `alive` is
/// set.
proof fn lemma_kept_from<B>(moved: Seq<Bullet<B>>, alive: Seq<bool>)
    requires
        moved.len() == alive.len(),
    ensures
        kept(moved, alive).len() <= moved.len(),
        forall|i: int|
            #![trigger kept(moved, alive)[i]]
            0 <= i < kept(moved, alive).len() ==> exists|k: int|
                0 <= k < moved.len() && alive[k] && #[trigger] moved[k] == kept(moved, alive)[i],
    decreases moved.len(),
{
    if moved.len() > 0 {
        let (m, a) = (moved.drop_last(), alive.drop_last());
        lemma_kept_from(m, a);
        let rest = kept(m, a);
        assert forall|i: int|
            #![trigger kept(moved, alive)[i]]
            0 <= i < kept(moved, alive).len() implies exists|k: int|
            0 <= k < moved.len() && alive[k] && #[trigger] moved[k] == kept(moved, alive)[i] by {
            if i < rest.len() {
                let k = choose|k: int| 0 <= k < m.len() && a[k] && #[trigger] m[k] == rest[i];
                assert(moved[k] == m[k] && alive[k] == a[k]);
            } else {
                assert(moved[moved.len() - 1] == kept(moved, alive)[i]);
            }
        }
    }
}

/// `bullet` is one of the bullets `before` as the physics moved it for a
/// frame of `dt` and reported it still on the playfield, with its lifetime
/// run down by the frame and some of it left.
pub open spec fn moved_on_playfield<P: Physics>(
    bullet: Bullet<P::Bullet>,
    before: Seq<Bullet<P::Bullet>>,
    dt: Duration,
    physics: &P,
) -> bool {
    exists|k: int|
        {
            &&& 0 <= k < before.len()
            &&& #[trigger] call_ensures(
                P::moved_bullet,
                (physics, &before[k].spec_body(), dt),
                (bullet.spec_body(), true),
            )
            &&& bullet.lifetime() == saturating_sub_nat(before[k].lifetime(), dt@)
            &&& bullet.lifetime() > 0
        }
}

/// Every bullet still in flight after a frame is one of the bullets before
/// it, as the physics moved it for that frame and reported it still on the
/// playfield, with its lifetime run down by the frame and some of it left:
/// a bullet that leaves the playfield, or whose lifetime runs out, is never
/// kept. No bullet is added.
pub proof fn lemma_bullets_in_flight<P: Physics>(
    before: Seq<Bullet<P::Bullet>>,
    after: Seq<Bullet<P::Bullet>>,
    dt: Duration,
    physics: &P,
)
    requires
        bullets_flown(before, after, dt, physics),
    ensures
        after.len() <= before.len(),
        forall|i: int| 0 <= i < after.len() ==> #[trigger] moved_on_playfield(after[i], before, dt, physics),
{
    let (moved, alive) = choose|moved: Seq<Bullet<P::Bullet>>, alive: Seq<bool>|
        {
            &&& moved.len() == before.len()
            &&& alive.len() == before.len()
            &&& forall|k: int| 0 <= k < before.len() ==> #[trigger] moved[k].flown_from(before[k], dt, physics, alive[k])
            &&& after == kept(moved, alive)
        };
    lemma_kept_from(moved, alive);
    assert forall|i: int| 0 <= i < after.len() implies #[trigger] moved_on_playfield(after[i], before, dt, physics) by {
        assert(after[i] == kept(moved, alive)[i]);
        let k = choose|k: int| 0 <= k < moved.len() && alive[k] && #[trigger] moved[k] == kept(moved, alive)[i];
        assert(moved[k].flown_from(before[k], dt, physics, alive[k]));
        let on_screen = choose|on_screen: bool|
            {
                &&& #[trigger] call_ensures(
                    P::moved_bullet,
                    (physics, &before[k].spec_body(), dt),
                    (moved[k].spec_body(), on_screen),
                )
                &&& alive[k] == (moved[k].lifetime() > 0 && on_screen)
            };
        assert(on_screen);
        assert(call_ensures(P::moved_bullet, (physics, &before[k].spec_body(), dt), (after[i].spec_body(), true)));
    }
}

/// Whether one frame of `dt` nanoseconds leaves `ship` active.
pub open spec fn active_after<S>(ship: ShipState<S>, dt: nat) -> bool {
    ship is Active || (ship is Invulnerable && ship.timer() <= dt)
}

/// A live session.
pub struct PlayingGame<P: Physics> {
    config: GameConfig,
    player: Player<P::Ship>,
    asteroids: Vec<Asteroid<P::Body>>,
    bullets: Vec<Bullet<P::Bullet>>,
    score: Score,
    wave: Wave,
}

impl<P: Physics> PlayingGame<P> {
    pub closed spec fn spec_config(&self) -> GameConfig {
        self.config
    }

    pub closed spec fn spec_player(&self) -> Player<P::Ship> {
        self.player
    }

    pub closed spec fn spec_asteroids(&self) -> Seq<Asteroid<P::Body>> {
        self.asteroids@
    }

    pub closed spec fn spec_bullets(&self) -> Seq<Bullet<P::Bullet>> {
        self.bullets@
    }

    pub closed spec fn spec_score(&self) -> Score {
        self.score
    }

    pub closed spec fn spec_wave(&self) -> Wave {
        self.wave
    }

    /// The same session, field by field.
    pub open spec fn same_as(self, other: PlayingGame<P>) -> bool {
        &&& self.spec_config() == other.spec_config()
        &&& self.spec_player() == other.spec_player()
        &&& self.spec_asteroids() == other.spec_asteroids()
        &&& self.spec_bullets() == other.spec_bullets()
        &&& self.spec_score() == other.spec_score()
        &&& self.spec_wave() == other.spec_wave()
    }

    /// `next` is this session after bullet `bullet_index` destroyed asteroid
    /// `asteroid_index`: both left the field (the last of each took its
    /// place), the asteroid's points were scored, and its fragments, with
    /// bodies the physics drew from its body, joined the field at the end.
    pub open spec fn hit_taken(self, next: PlayingGame<P>, bullet_index: int, asteroid_index: int, physics: &P) -> bool {
        let target = self.spec_asteroids()[asteroid_index];
        let rest = self.spec_asteroids().update(asteroid_index, self.spec_asteroids().last()).drop_last();
        &&& next.spec_config() == self.spec_config()
        &&& next.spec_player() == self.spec_player()
        &&& next.spec_wave() == self.spec_wave()
        &&& next.spec_score()@ == saturating_add_u32(self.spec_score()@, target.spec_kind().points())
        &&& next.spec_bullets() == self.spec_bullets().update(bullet_index, self.spec_bullets().last()).drop_last()
        &&& next.spec_asteroids().len() == rest.len() + fragment_kinds(target.spec_kind()).len()
        &&& next.spec_asteroids().subrange(0, rest.len() as int) == rest
        &&& forall|k: int|
            #![trigger next.spec_asteroids()[k]]
            rest.len() <= k < next.spec_asteroids().len() ==> {
                &&& next.spec_asteroids()[k].spec_kind() == fragment_kinds(target.spec_kind())[k - rest.len()]
                &&& call_ensures(P::fragment_body, (physics, &target.spec_body()), next.spec_asteroids()[k].spec_body())
            }
    }

    /// One step of hit resolution, from this session with bullet
    /// `bullet_index` next to check to `next` with `next_index` next: the
    /// physics answered that the bullet touches no asteroid, and the next
    /// bullet is checked; or it answered that the bullet touches asteroid
    /// `j` and none before it, and that hit is taken.
    pub open spec fn resolve_step(self, bullet_index: int, next: PlayingGame<P>, next_index: int, physics: &P) -> bool {
        &&& 0 <= bullet_index < self.spec_bullets().len()
        &&& {
            ||| {
                &&& next.same_as(self)
                &&& next_index == bullet_index + 1
                &&& forall|k: int|
                    0 <= k < self.spec_asteroids().len() ==> #[trigger] bullet_answer(
                        physics,
                        self.spec_bullets()[bullet_index],
                        self.spec_asteroids()[k],
                        false,
                    )
            }
            ||| {
                &&& next_index == bullet_index
                &&& exists|j: int|
                    {
                        &&& 0 <= j < self.spec_asteroids().len()
                        &&& bullet_answer(physics, self.spec_bullets()[bullet_index], self.spec_asteroids()[j], true)
                        &&& forall|k: int|
                            0 <= k < j ==> #[trigger] bullet_answer(
                                physics,
                                self.spec_bullets()[bullet_index],
                                self.spec_asteroids()[k],
                                false,
                            )
                        &&& #[trigger] self.hit_taken(next, bullet_index, j, physics)
                    }
            }
        }
    }

    /// `next` is what resolving every bullet's hits, first bullet first,
    /// makes of this session, as the physics answered: a chain of
    /// [`Self::resolve_step`]s from the first bullet until none is left to
    /// check.
    pub open spec fn resolved_to(self, next: PlayingGame<P>, physics: &P) -> bool {
        exists|trace: Seq<(PlayingGame<P>, int)>|
            {
                &&& trace.len() >= 1
                &&& trace[0].0.same_as(self)
                &&& trace[0].1 == 0
                &&& trace.last().0.same_as(next)
                &&& trace.last().1 == next.spec_bullets().len()
                &&& forall|t: int|
                    0 <= t < trace.len() - 1 ==> #[trigger] trace[t].0.resolve_step(
                        trace[t].1,
                        trace[t + 1].0,
                        trace[t + 1].1,
                        physics,
                    )
            }
    }

    /// `next` is how a frame ends from this session with `outcome`, once
    /// the physics has answered `ship_hit` to whether an asteroid touches the
    /// ship: an active ship that is hit costs a life, and on the last life
    /// the session ends, as it is, with the score reached; otherwise a
    /// cleared field brings the next wave, its asteroids placed at the edges
    /// by the physics.
    pub open spec fn concluded_with(self, next: PlayingGame<P>, ship_hit: bool, outcome: PlayOutcome, physics: &P) -> bool {
        let player = self.spec_player();
        let last_life_lost = ship_hit && player.spec_ship() is Active && player.spec_lives()@ == 1;
        let life_lost = ship_hit && player.spec_ship() is Active && player.spec_lives()@ > 1;
        &&& next.spec_config() == self.spec_config()
        &&& next.spec_score() == self.spec_score()
        &&& next.spec_bullets() == self.spec_bullets()
        &&& last_life_lost ==> outcome == PlayOutcome::PlayerKilled(self.spec_score()) && next.same_as(self)
        &&& !last_life_lost ==> {
            &&& outcome is Continued
            &&& !life_lost ==> next.spec_player() == player
            &&& life_lost ==> {
                &&& next.spec_player().spec_lives()@ + 1 == player.spec_lives()@
                &&& next.spec_player().spec_ship() is Respawning
                &&& next.spec_player().spec_ship().timer() == player.spec_config().respawn_time@
                &&& next.spec_player().spec_config() == player.spec_config()
                &&& next.spec_player().spec_weapon() == player.spec_weapon()
            }
            &&& self.spec_asteroids().len() > 0 ==> {
                &&& next.spec_asteroids() == self.spec_asteroids()
                &&& next.spec_wave() == self.spec_wave()
            }
            &&& self.spec_asteroids().len() == 0 ==> {
                &&& next.spec_wave()@ == if self.spec_wave()@ == u32::MAX {
                    self.spec_wave()@
                } else {
                    self.spec_wave()@ + 1
                }
                &&& kinds_of(next.spec_asteroids()) == larges(next.wave_size() as nat)
                &&& forall|k: int|
                    0 <= k < next.spec_asteroids().len() ==> call_ensures(
                        P::edge_body,
                        (physics,),
                        #[trigger] next.spec_asteroids()[k].spec_body(),
                    )
            }
        }
    }

    /// `next` is how a frame ends from this session with `outcome`: the
    /// physics answered whether the ship, if there is one, touches an
    /// asteroid of the field (yes for some asteroid, or no for every one),
    /// and the frame ended as [`Self::concluded_with`] says for that answer.
    /// So a life is lost, or the session ends, only when the physics reported
    /// the active ship touching an asteroid, and always when it did.
    pub open spec fn concluded(self, next: PlayingGame<P>, outcome: PlayOutcome, physics: &P) -> bool {
        let ship = self.spec_player().spec_ship();
        exists|ship_hit: bool|
            {
                &&& ship_hit ==> ship.has_ship() && exists|k: int|
                    0 <= k < self.spec_asteroids().len() && #[trigger] ship_answer(
                        physics,
                        ship.flying_ship(),
                        self.spec_asteroids()[k],
                        true,
                    )
                &&& !ship_hit && ship.has_ship() ==> forall|k: int|
                    0 <= k < self.spec_asteroids().len() ==> #[trigger] ship_answer(
                        physics,
                        ship.flying_ship(),
                        self.spec_asteroids()[k],
                        false,
                    )
                &&& #[trigger] self.concluded_with(next, ship_hit, outcome, physics)
            }
    }

    /// The number of large asteroids that the current wave brings.
    pub open spec fn wave_size(&self) -> int {
        self.spec_config().starting_asteroids + self.spec_wave()@ - 1
    }

    /// This session with another player, everything else the same.
    pub open spec fn same_but_player(self, other: PlayingGame<P>) -> bool {
        &&& self.spec_config() == other.spec_config()
        &&& self.spec_asteroids() == other.spec_asteroids()
        &&& self.spec_bullets() == other.spec_bullets()
        &&& self.spec_score() == other.spec_score()
        &&& self.spec_wave() == other.spec_wave()
    }

    /// The stages of one frame of `dt` from this session to `next`, through
    /// the intermediate sessions named after each stage:
    /// - the ship turns and thrusts as asked;
    /// - the trigger, if pulled, gives `shot`, which joins the bullets at the
    ///   end;
    /// - the player's ship and weapon advance;
    /// - every bullet flies, and those that live on stay, in order;
    /// - every asteroid drifts as the physics moves it;
    /// - the hits are resolved as the physics answers;
    /// - the frame ends as [`Self::concluded`] says.
    pub open spec fn frame_through(
        self,
        turned: PlayingGame<P>,
        thrust: PlayingGame<P>,
        shot: Option<Bullet<P::Bullet>>,
        fired: PlayingGame<P>,
        updated: PlayingGame<P>,
        flown: PlayingGame<P>,
        drifted: PlayingGame<P>,
        resolved: PlayingGame<P>,
        next: PlayingGame<P>,
        input: Input,
        dt: Duration,
        physics: &P,
        outcome: PlayOutcome,
    ) -> bool {
        &&& turned.same_but_player(self)
        &&& match input.turn {
            Some(turn) => turned.spec_player().turned_from(self.spec_player(), turn, dt, physics),
            None => turned.spec_player() == self.spec_player(),
        }
        &&& thrust.same_but_player(turned)
        &&& if input.thrust {
            thrust.spec_player().thrust_from(turned.spec_player(), dt, physics)
        } else {
            thrust.spec_player() == turned.spec_player()
        }
        &&& fired.spec_config() == thrust.spec_config()
        &&& fired.spec_asteroids() == thrust.spec_asteroids()
        &&& fired.spec_score() == thrust.spec_score()
        &&& fired.spec_wave() == thrust.spec_wave()
        &&& if input.fire {
            &&& fired.spec_player().fired_from(thrust.spec_player(), shot, physics)
            &&& fired.spec_bullets() == thrust.spec_bullets() + match shot {
                Some(b) => seq![b],
                None => seq![],
            }
        } else {
            &&& shot is None
            &&& fired.spec_player() == thrust.spec_player()
            &&& fired.spec_bullets() == thrust.spec_bullets()
        }
        &&& updated.same_but_player(fired)
        &&& updated.spec_player().updated_from(fired.spec_player(), dt, physics)
        &&& flown.spec_config() == updated.spec_config()
        &&& flown.spec_player() == updated.spec_player()
        &&& flown.spec_asteroids() == updated.spec_asteroids()
        &&& flown.spec_score() == updated.spec_score()
        &&& flown.spec_wave() == updated.spec_wave()
        &&& bullets_flown(updated.spec_bullets(), flown.spec_bullets(), dt, physics)
        &&& drifted.spec_config() == flown.spec_config()
        &&& drifted.spec_player() == flown.spec_player()
        &&& drifted.spec_bullets() == flown.spec_bullets()
        &&& drifted.spec_score() == flown.spec_score()
        &&& drifted.spec_wave() == flown.spec_wave()
        &&& drifted.spec_asteroids().len() == flown.spec_asteroids().len()
        &&& forall|k: int|
            #![trigger drifted.spec_asteroids()[k]]
            0 <= k < drifted.spec_asteroids().len() ==> {
                &&& drifted.spec_asteroids()[k].spec_kind() == flown.spec_asteroids()[k].spec_kind()
                &&& call_ensures(
                    P::moved_body,
                    (physics, &flown.spec_asteroids()[k].spec_body(), dt),
                    drifted.spec_asteroids()[k].spec_body(),
                )
            }
        &&& drifted.resolved_to(resolved, physics)
        &&& resolved.concluded(next, outcome, physics)
    }

    /// One frame of `dt` goes from this session to `next` through some
    /// intermediate sessions, as [`Self::frame_through`] says.
    pub open spec fn staged(self, next: PlayingGame<P>, input: Input, dt: Duration, physics: &P, outcome: PlayOutcome) -> bool {
        exists|
            turned: PlayingGame<P>,
            thrust: PlayingGame<P>,
            shot: Option<Bullet<P::Bullet>>,
            fired: PlayingGame<P>,
            updated: PlayingGame<P>,
            flown: PlayingGame<P>,
            drifted: PlayingGame<P>,
            resolved: PlayingGame<P>,
        |
            #[trigger] self.frame_through(
                turned,
                thrust,
                shot,
                fired,
                updated,
                flown,
                drifted,
                resolved,
                next,
                input,
                dt,
                physics,
                outcome,
            )
    }

    /// `next` is what one frame of `dt` nanoseconds, with the player's
    /// `input`, can make of this session when it ends with `outcome`,
    /// whatever the physics answered:
    /// - the weapon fired if asked to and able, then cooled down for `dt`;
    /// - the ship went through its life cycle for `dt`, unless it was hit
    ///   while active, which costs a life and starts the respawn wait; a hit
    ///   on the last life ends the session, with the score reached;
    /// - the score only grew, by the points of the asteroids destroyed, each
    ///   of which took a bullet and left its fragments in the field; every
    ///   bullet still in flight has lifetime left;
    /// - once the field is cleared the next wave arrives, made of
    ///   `wave_size` large asteroids;
    /// - and, stage by stage, the frame went as [`Self::frame_through`]
    ///   says, with the physics' answers deciding every contact.
    pub open spec fn frame(self, next: PlayingGame<P>, input: Input, dt: Duration, physics: &P, outcome: PlayOutcome) -> bool {
        let before = self.spec_player();
        let after = next.spec_player();
        let rules = before.spec_config();
        let requested = if input.fire {
            pending_after_trigger(
                before.spec_weapon().pending(),
                before.spec_weapon().cooldown(),
                before.spec_ship().has_ship(),
            )
        } else {
            before.spec_weapon().pending()
        };
        let fires = input.fire && before.spec_ship().has_ship() && before.spec_weapon().pending() is None;
        &&& next.spec_config() == self.spec_config()
        &&& after.spec_config() == rules
        &&& after.spec_weapon().cooldown() == before.spec_weapon().cooldown()
        &&& after.spec_weapon().pending() == cooldown_step(requested, dt@)
        &&& after.spec_lives() == before.spec_lives() ==> after.spec_ship().stepped_from(
            before.spec_ship(),
            dt@,
            rules.invulnerability_time@,
        )
        &&& after.spec_lives() != before.spec_lives() ==> {
            &&& after.spec_lives()@ + 1 == before.spec_lives()@
            &&& after.spec_ship() is Respawning
            &&& after.spec_ship().timer() == rules.respawn_time@
            &&& active_after(before.spec_ship(), dt@)
        }
        &&& outcome matches PlayOutcome::PlayerKilled(score) ==> {
            &&& score == next.spec_score()
            &&& before.spec_lives()@ == 1
            &&& after.spec_lives() == before.spec_lives()
            &&& active_after(before.spec_ship(), dt@)
            &&& next.spec_wave() == self.spec_wave()
        }
        &&& exists|destroyed: Seq<AsteroidKind>, spawned: nat|
            {
                &&& next.spec_score()@ == score_after(self.spec_score()@, destroyed)
                &&& next.spec_bullets().len() + destroyed.len() <= self.spec_bullets().len() + if fires {
                    1int
                } else {
                    0int
                }
                &&& spawned == 0 || spawned == next.wave_size()
                &&& kinds_of(next.spec_asteroids()).to_multiset().add(destroyed.to_multiset())
                    == kinds_of(self.spec_asteroids()).to_multiset().add(fragments_of(destroyed)).add(
                    larges(spawned).to_multiset(),
                )
            }
        &&& forall|i: int|
            0 <= i < next.spec_bullets().len() ==> #[trigger] next.spec_bullets()[i].lifetime() > 0
        &&& next.spec_wave()@ == self.spec_wave()@ || next.spec_wave()@ == self.spec_wave()@ + 1
        &&& next.spec_wave()@ == self.spec_wave()@ + 1 ==> kinds_of(next.spec_asteroids()) == larges(
            next.wave_size() as nat,
        )
        &&& outcome is Continued ==> next.spec_asteroids().len() > 0 || next.wave_size() == 0
        &&& self.staged(next, input, dt, physics, outcome)
    }

    /// A fresh session with the first wave already spawned.
    pub fn new(config: GameConfig, physics: &P) -> (game: PlayingGame<P>)
        ensures
            game.spec_config() == config,
            game.spec_player().spec_config() == config,
            game.spec_player().spec_lives() == config.starting_lives,
            game.spec_player().spec_ship() is Invulnerable,
            game.spec_player().spec_ship().timer() == config.invulnerability_time@,
            game.spec_player().spec_weapon().pending() is None,
            game.spec_player().spec_weapon().cooldown() == config.fire_cooldown@,
            game.spec_bullets().len() == 0,
            game.spec_score()@ == 0,
            game.spec_wave()@ == 1,
            kinds_of(game.spec_asteroids()) == larges(config.starting_asteroids as nat),
            call_ensures(P::spawn_ship, (physics,), game.spec_player().spec_ship().flying_ship()),
            forall|k: int|
                0 <= k < game.spec_asteroids().len() ==> call_ensures(
                    P::edge_body,
                    (physics,),
                    #[trigger] game.spec_asteroids()[k].spec_body(),
                ),
    {
        let mut game = PlayingGame {
            config,
            player: Player::new(config, physics),
            asteroids: Vec::with_capacity(16),
            bullets: Vec::with_capacity(8),
            score: Score::zero(),
            wave: Wave::first(),
        };
        assert(kinds_of(game.asteroids@) =~= Seq::<AsteroidKind>::empty());
        game.spawn_wave(physics);
        assert(kinds_of(game.asteroids@) =~= larges(config.starting_asteroids as nat));
        game
    }

    /// Advance one frame: input, physics, collisions, wave progression.
    pub fn update(&mut self, input: &Input, dt: Duration, physics: &P) -> (outcome: PlayOutcome)
        requires
            old(self).spec_config().starting_asteroids + old(self).spec_wave()@ <= usize::MAX,
        ensures
            old(self).frame(*final(self), *input, dt, physics, outcome),
    {
        let ghost start = *self;
        if let Some(turn) = input.turn {
            self.player.rotate(turn, dt, physics);
        }
        let ghost turned = *self;
        if input.thrust {
            self.player.accelerate(dt, physics);
        }
        let ghost thrust = *self;
        let ghost mut shot: Option<Bullet<P::Bullet>> = None;
        if input.fire {
            let bullet = self.player.fire(physics);
            proof {
                shot = bullet;
            }
            if let Some(bullet) = bullet {
                self.bullets.push(bullet);
            }
            assert(self.bullets@ =~= thrust.bullets@ + match shot {
                Some(b) => seq![b],
                None => seq![],
            });
        }
        let ghost fired = *self;
        assert(self.player.spec_ship().same_phase(start.player.spec_ship()));
        assert(self.bullets@.len() <= start.bullets@.len() + 1);
        self.player.update(dt, physics);
        let ghost updated = *self;
        assert(self.player.spec_ship().stepped_from(
            start.player.spec_ship(),
            dt@,
            start.player.spec_config().invulnerability_time@,
        ));
        self.update_bullets(dt, physics);
        let ghost flown = *self;
        self.update_asteroids(dt, physics);
        let ghost moved = *self;
        self.resolve_bullet_hits(physics);
        let ghost destroyed = choose|destroyed: Seq<AsteroidKind>|
            {
                &&& self.spec_score()@ == score_after(moved.spec_score()@, destroyed)
                &&& self.spec_bullets().len() + destroyed.len() == moved.spec_bullets().len()
                &&& kinds_of(self.spec_asteroids()).to_multiset().add(destroyed.to_multiset())
                    == kinds_of(moved.spec_asteroids()).to_multiset().add(fragments_of(destroyed))
            };
        assert(self.spec_score()@ == score_after(start.spec_score()@, destroyed));
        assert(self.spec_bullets().len() + destroyed.len() <= start.spec_bullets().len() + 1);
        assert forall|i: int| 0 <= i < self.spec_bullets().len() implies #[trigger] self.spec_bullets()[i].lifetime() > 0 by {
            assert(self.spec_bullets().to_multiset().count(self.spec_bullets()[i]) > 0);
            assert(moved.spec_bullets().to_multiset().count(self.spec_bullets()[i]) > 0);
            assert(moved.spec_bullets().contains(self.spec_bullets()[i]));
        }

        assert(kinds_of(moved.spec_asteroids()) == kinds_of(start.spec_asteroids()));
        assert(larges(0).to_multiset() =~= Multiset::empty());
        assert(kinds_of(self.spec_asteroids()).to_multiset().add(destroyed.to_multiset())
            =~= kinds_of(start.spec_asteroids()).to_multiset().add(fragments_of(destroyed)).add(
            larges(0).to_multiset(),
        ));

        let ship_hit = self.ship_is_hit(physics);
        let ghost resolved = *self;
        let outcome = self.conclude_frame(ship_hit, physics);
        proof {
            assert(resolved.concluded_with(*self, ship_hit, outcome, physics));
            assert(resolved.concluded(*self, outcome, physics));
            assert(start.frame_through(
                turned,
                thrust,
                shot,
                fired,
                updated,
                flown,
                moved,
                resolved,
                *self,
                *input,
                dt,
                physics,
                outcome,
            ));
            assert(kinds_of(self.spec_asteroids()).len() == self.spec_asteroids().len());
            if self.spec_asteroids() != resolved.spec_asteroids() {
                let spawned = self.wave_size() as nat;
                assert(kinds_of(resolved.spec_asteroids()) =~= Seq::<AsteroidKind>::empty());
                assert(kinds_of(self.spec_asteroids()).to_multiset().add(destroyed.to_multiset())
                    =~= kinds_of(start.spec_asteroids()).to_multiset().add(fragments_of(destroyed)).add(
                    larges(spawned).to_multiset(),
                ));
            }
        }
        outcome
    }

    /// The end of a frame, once the physics has told whether an asteroid
    /// touches the ship: an active ship that is hit costs a life, and on the
    /// last life the session ends with the score reached; otherwise a
    /// cleared field brings the next wave.
    fn conclude_frame(&mut self, ship_hit: bool, physics: &P) -> (outcome: PlayOutcome)
        requires
            ship_hit ==> old(self).spec_player().spec_ship().has_ship(),
            old(self).spec_config().starting_asteroids + old(self).spec_wave()@ <= usize::MAX,
        ensures
            old(self).concluded_with(*final(self), ship_hit, outcome, physics),
    {
        if ship_hit && self.player.hit() {
            return PlayOutcome::PlayerKilled(self.score);
        }
        if self.asteroids.len() == 0 {
            if let Some(next) = self.wave.next() {
                self.wave = next;
            }
            let ghost cleared = self.asteroids@;
            self.spawn_wave(physics);
            assert(kinds_of(cleared) =~= Seq::<AsteroidKind>::empty());
            assert(kinds_of(self.asteroids@) =~= larges(self.wave_size() as nat));
        }
        PlayOutcome::Continued
    }

    /// A session assembled from the given parts, to set up a particular
    /// situation (a chosen field of asteroids and bullets, a given score).
    pub fn from_parts(
        config: GameConfig,
        player: Player<P::Ship>,
        asteroids: Vec<Asteroid<P::Body>>,
        bullets: Vec<Bullet<P::Bullet>>,
        score: Score,
        wave: Wave,
    ) -> (game: PlayingGame<P>)
        ensures
            game.spec_config() == config,
            game.spec_player() == player,
            game.spec_asteroids() == asteroids@,
            game.spec_bullets() == bullets@,
            game.spec_score() == score,
            game.spec_wave() == wave,
    {
        PlayingGame { config, player, asteroids, bullets, score, wave }
    }

    pub fn player(&self) -> (p: &Player<P::Ship>)
        ensures
            *p == self.spec_player(),
    {
        &self.player
    }

    pub fn asteroids(&self) -> (a: &[Asteroid<P::Body>])
        ensures
            a@ == self.spec_asteroids(),
    {
        self.asteroids.as_slice()
    }

    pub fn bullets(&self) -> (b: &[Bullet<P::Bullet>])
        ensures
            b@ == self.spec_bullets(),
    {
        self.bullets.as_slice()
    }

    pub fn score(&self) -> (s: Score)
        ensures
            s == self.spec_score(),
    {
        self.score
    }

    pub fn wave(&self) -> (w: Wave)
        ensures
            w == self.spec_wave(),
    {
        self.wave
    }

    /// The index of the first asteroid that bullet `bullet_index` touches:
    /// the physics is asked about each asteroid in turn, and answered no for
    /// every one before it; `None` when it answered no for all of them.
    fn first_hit(&self, bullet_index: usize, physics: &P) -> (hit: Option<usize>)
        requires
            bullet_index < self.bullets@.len(),
        ensures
            hit matches Some(j) ==> {
                &&& j < self.asteroids@.len()
                &&& bullet_answer(physics, self.bullets@[bullet_index as int], self.asteroids@[j as int], true)
                &&& forall|k: int|
                    0 <= k < j ==> #[trigger] bullet_answer(
                        physics,
                        self.bullets@[bullet_index as int],
                        self.asteroids@[k],
                        false,
                    )
            },
            hit is None ==> forall|k: int|
                0 <= k < self.asteroids@.len() ==> #[trigger] bullet_answer(
                    physics,
                    self.bullets@[bullet_index as int],
                    self.asteroids@[k],
                    false,
                ),
    {
        let bullet = &self.bullets[bullet_index];
        let mut j: usize = 0;
        while j < self.asteroids.len()
            invariant
                j <= self.asteroids@.len(),
                bullet_index < self.bullets@.len(),
                *bullet == self.bullets@[bullet_index as int],
                forall|k: int|
                    0 <= k < j ==> #[trigger] bullet_answer(
                        physics,
                        self.bullets@[bullet_index as int],
                        self.asteroids@[k],
                        false,
                    ),
            decreases self.asteroids@.len() - j,
        {
            let asteroid = &self.asteroids[j];
            if physics.bullet_hits(bullet.body(), asteroid.body(), asteroid.kind()) {
                return Some(j);
            }
            j = j + 1;
        }
        None
    }

    /// Bullet `bullet_index` hit asteroid `asteroid_index`: both leave the
    /// field (the last of each takes its place), the asteroid's points are
    /// scored and its fragments, if any, join the field at the end. Returns
    /// the class of the asteroid destroyed.
    fn take_hit(&mut self, bullet_index: usize, asteroid_index: usize, physics: &P) -> (kind: AsteroidKind)
        requires
            bullet_index < old(self).spec_bullets().len(),
            asteroid_index < old(self).spec_asteroids().len(),
        ensures
            kind == old(self).spec_asteroids()[asteroid_index as int].spec_kind(),
            final(self).spec_config() == old(self).spec_config(),
            final(self).spec_player() == old(self).spec_player(),
            final(self).spec_wave() == old(self).spec_wave(),
            final(self).spec_score()@ == saturating_add_u32(old(self).spec_score()@, kind.points()),
            final(self).spec_bullets() == old(self).spec_bullets().update(
                bullet_index as int,
                old(self).spec_bullets().last(),
            ).drop_last(),
            kinds_of(final(self).spec_asteroids()) == kinds_of(old(self).spec_asteroids()).update(
                asteroid_index as int,
                kinds_of(old(self).spec_asteroids()).last(),
            ).drop_last() + fragment_kinds(kind),
            old(self).hit_taken(*final(self), bullet_index as int, asteroid_index as int, physics),
    {
        let ghost target = self.asteroids@[asteroid_index as int];
        let asteroid = self.asteroids.swap_remove(asteroid_index);
        let kind = asteroid.kind();
        self.score = self.score.saturating_add(asteroid.score());
        let ghost removed = self.asteroids@;
        assert(kinds_of(removed) =~= kinds_of(old(self).asteroids@).update(
            asteroid_index as int,
            kinds_of(old(self).asteroids@).last(),
        ).drop_last());
        match asteroid.destroy(physics) {
            AsteroidDestruction::Fragments(first, second) => {
                self.asteroids.push(first);
                self.asteroids.push(second);
                assert(kinds_of(self.asteroids@) =~= kinds_of(removed) + fragment_kinds(kind));
                assert(self.asteroids@.subrange(0, removed.len() as int) =~= removed);
            },
            AsteroidDestruction::Destroyed => {
                assert(kinds_of(self.asteroids@) =~= kinds_of(removed) + fragment_kinds(kind));
                assert(self.asteroids@.subrange(0, removed.len() as int) =~= removed);
            },
        }
        self.bullets.swap_remove(bullet_index);
        kind
    }

    /// Destroy every asteroid a bullet touches, scoring the hits and
    /// spawning fragments. Bullets and asteroids are removed in place, and
    /// fragments spawned mid-frame are immediately hittable.
    ///
    /// The result is what [`Self::resolved_to`] says: every bullet is checked
    /// in turn against the asteroids then in the field, and a hit is taken
    /// exactly where the physics answered that they touch. So the asteroids
    /// destroyed, `destroyed`, are accounted for exactly: each took one
    /// bullet, added its points to the score, and left its fragments in the
    /// field.
    fn resolve_bullet_hits(&mut self, physics: &P)
        ensures
            final(self).spec_config() == old(self).spec_config(),
            final(self).spec_player() == old(self).spec_player(),
            final(self).spec_wave() == old(self).spec_wave(),
            exists|destroyed: Seq<AsteroidKind>|
                {
                    &&& final(self).spec_score()@ == score_after(old(self).spec_score()@, destroyed)
                    &&& final(self).spec_bullets().len() + destroyed.len() == old(self).spec_bullets().len()
                    &&& kinds_of(final(self).spec_asteroids()).to_multiset().add(destroyed.to_multiset())
                        == kinds_of(old(self).spec_asteroids()).to_multiset().add(fragments_of(destroyed))
                },
            final(self).spec_bullets().to_multiset().subset_of(old(self).spec_bullets().to_multiset()),
            old(self).resolved_to(*final(self), physics),
    {
        let ghost start = *self;
        let ghost mut trace: Seq<(PlayingGame<P>, int)> = seq![(*self, 0int)];
        let ghost start_score = self.score@;
        let ghost start_bullets = self.bullets@;
        let ghost start_kinds = kinds_of(self.asteroids@);
        let ghost mut destroyed: Seq<AsteroidKind> = Seq::empty();
        assert(start_kinds.to_multiset().add(destroyed.to_multiset()) =~= start_kinds.to_multiset().add(fragments_of(destroyed)));

        let mut bullet_index: usize = 0;
        while bullet_index < self.bullets.len()
            invariant
                bullet_index <= self.bullets@.len(),
                self.config == old(self).config,
                self.player == old(self).player,
                self.wave == old(self).wave,
                self.score@ == score_after(start_score, destroyed),
                self.bullets@.len() + destroyed.len() == start_bullets.len(),
                kinds_of(self.asteroids@).to_multiset().add(destroyed.to_multiset())
                    == start_kinds.to_multiset().add(fragments_of(destroyed)),
                self.bullets@.to_multiset().subset_of(start_bullets.to_multiset()),
                start == *old(self),
                trace.len() >= 1,
                trace[0] == (start, 0int),
                trace.last() == (*self, bullet_index as int),
                forall|t: int|
                    0 <= t < trace.len() - 1 ==> #[trigger] trace[t].0.resolve_step(
                        trace[t].1,
                        trace[t + 1].0,
                        trace[t + 1].1,
                        physics,
                    ),
            decreases self.bullets@.len() - bullet_index,
        {
            let ghost current = *self;
            match self.first_hit(bullet_index, physics) {
                Some(asteroid_index) => {
                    let ghost before = self.asteroids@;
                    let ghost bullets_before = self.bullets@;
                    let kind = self.take_hit(bullet_index, asteroid_index, physics);
                    proof {
                        assert(current.hit_taken(*self, bullet_index as int, asteroid_index as int, physics));
                        assert(current.resolve_step(bullet_index as int, *self, bullet_index as int, physics));
                        let next_trace = trace.push((*self, bullet_index as int));
                        assert forall|t: int|
                            0 <= t < next_trace.len() - 1 implies #[trigger] next_trace[t].0.resolve_step(
                                next_trace[t].1,
                                next_trace[t + 1].0,
                                next_trace[t + 1].1,
                                physics,
                            ) by {
                            if t < trace.len() - 1 {
                                assert(next_trace[t] == trace[t] && next_trace[t + 1] == trace[t + 1]);
                            }
                        }
                        trace = next_trace;
                    }
                    proof {
                        let m = kinds_of(before).to_multiset();
                        let rest = kinds_of(before).update(asteroid_index as int, kinds_of(before).last()).drop_last();
                        lemma_swap_remove_to_multiset(kinds_of(before), asteroid_index as int);
                        lemma_swap_remove_to_multiset(bullets_before, bullet_index as int);
                        assert(kinds_of(before)[asteroid_index as int] == kind);
                        assert(kinds_of(before).contains(kind));
                        assert(m.count(kind) > 0);
                        vstd::seq_lib::lemma_multiset_commutative(rest, fragment_kinds(kind));
                        let next = destroyed.push(kind);
                        assert(next.drop_last() =~= destroyed);
                        assert(fragments_of(next) == fragments_of(destroyed).add(fragment_kinds(kind).to_multiset()));
                        assert(next.to_multiset() == destroyed.to_multiset().insert(kind));
                        assert(m.add(destroyed.to_multiset()) == start_kinds.to_multiset().add(
                            fragments_of(destroyed),
                        ));
                        assert forall|x: AsteroidKind|
                            #[trigger] m.remove(kind).add(fragment_kinds(kind).to_multiset()).add(
                                next.to_multiset(),
                            ).count(x) == start_kinds.to_multiset().add(fragments_of(next)).count(x) by {
                            assert(m.add(destroyed.to_multiset()).count(x) == start_kinds.to_multiset().add(
                                fragments_of(destroyed),
                            ).count(x));
                        }
                        assert(kinds_of(self.asteroids@).to_multiset().add(next.to_multiset())
                            =~= start_kinds.to_multiset().add(fragments_of(next)));
                        destroyed = next;
                    }
                },
                None => {
                    bullet_index = bullet_index + 1;
                    proof {
                        assert(current.resolve_step((bullet_index - 1) as int, *self, bullet_index as int, physics));
                        let next_trace = trace.push((*self, bullet_index as int));
                        assert forall|t: int|
                            0 <= t < next_trace.len() - 1 implies #[trigger] next_trace[t].0.resolve_step(
                                next_trace[t].1,
                                next_trace[t + 1].0,
                                next_trace[t + 1].1,
                                physics,
                            ) by {
                            if t < trace.len() - 1 {
                                assert(next_trace[t] == trace[t] && next_trace[t + 1] == trace[t + 1]);
                            }
                        }
                        trace = next_trace;
                    }
                },
            }
        }
        assert(trace.last().0.same_as(*self));
        assert(trace[0].0.same_as(*old(self)));
        assert({
            &&& self.spec_score()@ == score_after(old(self).spec_score()@, destroyed)
            &&& self.spec_bullets().len() + destroyed.len() == old(self).spec_bullets().len()
            &&& kinds_of(self.spec_asteroids()).to_multiset().add(destroyed.to_multiset())
                == kinds_of(old(self).spec_asteroids()).to_multiset().add(fragments_of(destroyed))
        });
    }

    /// Advance every bullet one frame, dropping those whose lifetime ran out
    /// or that left the playfield; the survivors keep their order.
    fn update_bullets(&mut self, dt: Duration, physics: &P)
        ensures
            final(self).spec_config() == old(self).spec_config(),
            final(self).spec_player() == old(self).spec_player(),
            final(self).spec_asteroids() == old(self).spec_asteroids(),
            final(self).spec_score() == old(self).spec_score(),
            final(self).spec_wave() == old(self).spec_wave(),
            final(self).spec_bullets().len() <= old(self).spec_bullets().len(),
            forall|i: int|
                0 <= i < final(self).spec_bullets().len() ==> #[trigger] final(self).spec_bullets()[i].lifetime() > 0,
            bullets_flown(old(self).spec_bullets(), final(self).spec_bullets(), dt, physics),
            forall|i: int|
                0 <= i < final(self).spec_bullets().len() ==> #[trigger] moved_on_playfield(
                    final(self).spec_bullets()[i],
                    old(self).spec_bullets(),
                    dt,
                    physics,
                ),
    {
        let ghost start = self.bullets@;
        let ghost mut moved: Seq<Bullet<P::Bullet>> = seq![];
        let ghost mut alive: Seq<bool> = seq![];
        let mut i: usize = 0;
        while i < self.bullets.len()
            invariant
                i <= self.bullets@.len(),
                self.bullets@.len() <= old(self).bullets@.len(),
                self.config == old(self).config,
                self.player == old(self).player,
                self.asteroids == old(self).asteroids,
                self.score == old(self).score,
                self.wave == old(self).wave,
                forall|k: int| 0 <= k < i ==> #[trigger] self.bullets@[k].lifetime() > 0,
                start == old(self).bullets@,
                moved.len() == alive.len(),
                moved.len() <= start.len(),
                i == kept(moved, alive).len(),
                self.bullets@ == kept(moved, alive) + start.skip(moved.len() as int),
                forall|k: int| 0 <= k < moved.len() ==> #[trigger] moved[k].flown_from(start[k], dt, physics, alive[k]),
            decreases self.bullets@.len() - i,
        {
            let ghost before = self.bullets@;
            let ghost m = moved.len() as int;
            assert(before[i as int] == start[m]);
            let live = self.bullets[i].update(dt, physics);
            proof {
                let next_moved = moved.push(self.bullets@[i as int]);
                let next_alive = alive.push(live);
                assert(next_moved.drop_last() =~= moved);
                assert(next_alive.drop_last() =~= alive);
                moved = next_moved;
                alive = next_alive;
            }
            if live {
                i = i + 1;
                assert(self.bullets@ =~= kept(moved, alive) + start.skip(moved.len() as int));
            } else {
                self.bullets.remove(i);
                assert(self.bullets@ =~= kept(moved, alive) + start.skip(moved.len() as int));
            }
        }
        assert(start.skip(moved.len() as int) =~= Seq::<Bullet<P::Bullet>>::empty());
        assert(self.bullets@ =~= kept(moved, alive));
        assert(moved.len() == start.len());
        proof {
            lemma_bullets_in_flight(start, self.bullets@, dt, physics);
        }
    }

    /// Advance every asteroid one frame; none changes its size class.
    fn update_asteroids(&mut self, dt: Duration, physics: &P)
        ensures
            final(self).spec_config() == old(self).spec_config(),
            final(self).spec_player() == old(self).spec_player(),
            final(self).spec_bullets() == old(self).spec_bullets(),
            final(self).spec_score() == old(self).spec_score(),
            final(self).spec_wave() == old(self).spec_wave(),
            kinds_of(final(self).spec_asteroids()) == kinds_of(old(self).spec_asteroids()),
            final(self).spec_asteroids().len() == old(self).spec_asteroids().len(),
            forall|k: int|
                0 <= k < final(self).spec_asteroids().len() ==> #[trigger] final(self).spec_asteroids()[k].spec_kind()
                    == old(self).spec_asteroids()[k].spec_kind(),
            forall|k: int|
                0 <= k < final(self).spec_asteroids().len() ==> call_ensures(
                    P::moved_body,
                    (physics, &old(self).spec_asteroids()[k].spec_body(), dt),
                    #[trigger] final(self).spec_asteroids()[k].spec_body(),
                ),
    {
        let mut i: usize = 0;
        while i < self.asteroids.len()
            invariant
                i <= self.asteroids@.len(),
                self.asteroids@.len() == old(self).asteroids@.len(),
                self.config == old(self).config,
                self.player == old(self).player,
                self.bullets == old(self).bullets,
                self.score == old(self).score,
                self.wave == old(self).wave,
                forall|k: int|
                    0 <= k < self.asteroids@.len() ==> #[trigger] self.asteroids@[k].spec_kind()
                        == old(self).asteroids@[k].spec_kind(),
                forall|k: int|
                    0 <= k < i ==> call_ensures(
                        P::moved_body,
                        (physics, &old(self).asteroids@[k].spec_body(), dt),
                        #[trigger] self.asteroids@[k].spec_body(),
                    ),
                forall|k: int| i <= k < self.asteroids@.len() ==> #[trigger] self.asteroids@[k] == old(self).asteroids@[k],
            decreases self.asteroids@.len() - i,
        {
            self.asteroids[i].update(dt, physics);
            i = i + 1;
        }
        assert(kinds_of(self.asteroids@) =~= kinds_of(old(self).asteroids@));
    }

    /// Whether an asteroid currently overlaps the player's ship: the physics
    /// answered yes for some asteroid, or no for every one; never when there
    /// is no ship.
    fn ship_is_hit(&self, physics: &P) -> (hit: bool)
        ensures
            hit ==> self.spec_player().spec_ship().has_ship(),
            hit ==> exists|k: int|
                0 <= k < self.asteroids@.len() && #[trigger] ship_answer(
                    physics,
                    self.spec_player().spec_ship().flying_ship(),
                    self.asteroids@[k],
                    true,
                ),
            !hit && self.spec_player().spec_ship().has_ship() ==> forall|k: int|
                0 <= k < self.asteroids@.len() ==> #[trigger] ship_answer(
                    physics,
                    self.spec_player().spec_ship().flying_ship(),
                    self.asteroids@[k],
                    false,
                ),
    {
        let ship = match self.player.ship().ship() {
            Some(ship) => ship,
            None => {
                return false;
            },
        };
        let mut j: usize = 0;
        while j < self.asteroids.len()
            invariant
                j <= self.asteroids@.len(),
                self.spec_player().spec_ship().has_ship(),
                *ship == self.spec_player().spec_ship().flying_ship(),
                forall|k: int|
                    0 <= k < j ==> #[trigger] ship_answer(
                        physics,
                        self.spec_player().spec_ship().flying_ship(),
                        self.asteroids@[k],
                        false,
                    ),
            decreases self.asteroids@.len() - j,
        {
            let asteroid = &self.asteroids[j];
            if physics.ship_hits(ship, asteroid.body(), asteroid.kind()) {
                assert(ship_answer(
                    physics,
                    self.spec_player().spec_ship().flying_ship(),
                    self.asteroids@[j as int],
                    true,
                ));
                return true;
            }
            j = j + 1;
        }
        false
    }

    /// Bring in the current wave: `starting_asteroids + wave - 1` large
    /// asteroids at the edges of the playfield, after those already there.
    fn spawn_wave(&mut self, physics: &P)
        requires
            old(self).spec_config().starting_asteroids + old(self).spec_wave()@ - 1 <= usize::MAX,
        ensures
            final(self).spec_asteroids().len() == old(self).spec_asteroids().len() + old(self).spec_config().starting_asteroids
                + old(self).spec_wave()@ - 1,
            forall|k: int|
                old(self).spec_asteroids().len() <= k < final(self).spec_asteroids().len() ==> (
                #[trigger] final(self).spec_asteroids()[k]).spec_kind() == AsteroidKind::Large,
            final(self).spec_config() == old(self).spec_config(),
            final(self).spec_player() == old(self).spec_player(),
            final(self).spec_bullets() == old(self).spec_bullets(),
            final(self).spec_score() == old(self).spec_score(),
            final(self).spec_wave() == old(self).spec_wave(),
            kinds_of(final(self).spec_asteroids()) == kinds_of(old(self).spec_asteroids()) + larges(old(self).wave_size() as nat),
            final(self).spec_asteroids().subrange(0, old(self).spec_asteroids().len() as int)
                == old(self).spec_asteroids(),
            forall|k: int|
                old(self).spec_asteroids().len() <= k < final(self).spec_asteroids().len() ==> call_ensures(
                    P::edge_body,
                    (physics,),
                    #[trigger] final(self).spec_asteroids()[k].spec_body(),
                ),
    {
        let count = self.config.starting_asteroids + (self.wave.value() as usize - 1);
        let mut i: usize = 0;
        while i < count
            invariant
                i <= count,
                count == old(self).wave_size(),
                self.config == old(self).config,
                self.player == old(self).player,
                self.bullets == old(self).bullets,
                self.score == old(self).score,
                self.wave == old(self).wave,
                kinds_of(self.asteroids@) == kinds_of(old(self).asteroids@) + larges(i as nat),
                self.asteroids@.len() == old(self).asteroids@.len() + i,
                self.asteroids@.subrange(0, old(self).asteroids@.len() as int) == old(self).asteroids@,
                forall|k: int|
                    old(self).asteroids@.len() <= k < self.asteroids@.len() ==> call_ensures(
                        P::edge_body,
                        (physics,),
                        #[trigger] self.asteroids@[k].spec_body(),
                    ),
            decreases count - i,
        {
            let body = physics.edge_body();
            let ghost prev = self.asteroids@;
            self.asteroids.push(Asteroid::new(AsteroidKind::Large, body));
            assert(kinds_of(self.asteroids@) =~= kinds_of(prev).push(AsteroidKind::Large));
            assert(self.asteroids@.subrange(0, old(self).asteroids@.len() as int) =~= old(self).asteroids@);
            i = i + 1;
            assert(kinds_of(self.asteroids@) =~= kinds_of(old(self).asteroids@) + larges(i as nat));
        }
        assert forall|k: int|
            old(self).spec_asteroids().len() <= k < self.spec_asteroids().len() implies (
            #[trigger] self.spec_asteroids()[k]).spec_kind() == AsteroidKind::Large by {
            assert(kinds_of(self.asteroids@)[k] == self.asteroids@[k].spec_kind());
            assert((kinds_of(old(self).asteroids@) + larges(count as nat))[k] == AsteroidKind::Large);
        }
    }
}

/// Over any frame the score never drops, the lives never grow and drop by
/// at most one, and the wave never goes back.
pub proof fn lemma_frame_monotone<P: Physics>(
    before: PlayingGame<P>,
    after: PlayingGame<P>,
    input: Input,
    dt: Duration,
    physics: &P,
    outcome: PlayOutcome,
)
    requires
        before.frame(after, input, dt, physics, outcome),
    ensures
        after.spec_score()@ >= before.spec_score()@,
        after.spec_player().spec_lives()@ <= before.spec_player().spec_lives()@ <= after.spec_player().spec_lives()@ + 1,
        after.spec_wave()@ >= before.spec_wave()@,
{
    let (destroyed, spawned) = choose|destroyed: Seq<AsteroidKind>, spawned: nat|
        {
            &&& after.spec_score()@ == score_after(before.spec_score()@, destroyed)
            &&& after.spec_bullets().len() + destroyed.len() <= before.spec_bullets().len() + if input.fire
                && before.spec_player().spec_ship().has_ship()
                && before.spec_player().spec_weapon().pending() is None {
                1int
            } else {
                0int
            }
            &&& spawned == 0 || spawned == after.wave_size()
            &&& kinds_of(after.spec_asteroids()).to_multiset().add(destroyed.to_multiset())
                == kinds_of(before.spec_asteroids()).to_multiset().add(fragments_of(destroyed)).add(
                larges(spawned).to_multiset(),
            )
        };
    Score::lemma_fits(before.spec_score());
    lemma_score_after_grows(before.spec_score()@, destroyed);
}

/// A frame that moves the session on to wave `n` leaves the field holding
/// exactly `starting_asteroids + n - 1` asteroids, every one of them large.
pub proof fn lemma_next_wave_size<P: Physics>(
    before: PlayingGame<P>,
    after: PlayingGame<P>,
    input: Input,
    dt: Duration,
    physics: &P,
    outcome: PlayOutcome,
)
    requires
        before.frame(after, input, dt, physics, outcome),
        after.spec_wave()@ == before.spec_wave()@ + 1,
    ensures
        after.spec_asteroids().len() == before.spec_config().starting_asteroids + after.spec_wave()@ - 1,
        forall|k: int|
            0 <= k < after.spec_asteroids().len() ==> (#[trigger] after.spec_asteroids()[k]).spec_kind()
                == AsteroidKind::Large,
{
    let kinds = kinds_of(after.spec_asteroids());
    assert(kinds == larges(after.wave_size() as nat));
    assert(kinds.len() == after.spec_asteroids().len());
    assert forall|k: int| 0 <= k < after.spec_asteroids().len() implies (
    #[trigger] after.spec_asteroids()[k]).spec_kind() == AsteroidKind::Large by {
        assert(kinds[k] == after.spec_asteroids()[k].spec_kind());
    }
}

/// Spawn protection holds for its whole time: a ship protected for longer
/// than a frame comes through that frame unharmed, whatever it touched (no
/// life is lost and the session goes on), and is still protected after it,
/// with exactly `dt` less protection left. A life is lost, or the session
/// ends, only when the ship was active or its protection ran out within the
/// frame.
pub proof fn lemma_spawn_protection<P: Physics>(
    before: PlayingGame<P>,
    after: PlayingGame<P>,
    input: Input,
    dt: Duration,
    physics: &P,
    outcome: PlayOutcome,
)
    requires
        before.frame(after, input, dt, physics, outcome),
    ensures
        before.spec_player().spec_ship() matches ShipState::Invulnerable { remaining, .. } ==> (remaining@ > dt@
            ==> {
            &&& after.spec_player().spec_lives() == before.spec_player().spec_lives()
            &&& outcome is Continued
            &&& after.spec_player().spec_ship() is Invulnerable
            &&& after.spec_player().spec_ship().timer() + dt@ == remaining@
        }),
        after.spec_player().spec_lives() != before.spec_player().spec_lives() || outcome is PlayerKilled ==> (
        before.spec_player().spec_ship() is Active || (before.spec_player().spec_ship() matches ShipState::Invulnerable {
            remaining,
            ..
        } && remaining@ <= dt@)),
{
    let b = before.spec_player();
    let a = after.spec_player();
    if a.spec_lives() == b.spec_lives() {
        ShipState::lemma_countdowns(a.spec_ship(), b.spec_ship(), dt@, b.spec_config().invulnerability_time@);
    }
}

/// With no ship, pulling the trigger fires nothing: the weapon only cools
/// down over the frame, exactly as it would have without the trigger, and
/// no bullet joins those in flight.
pub proof fn lemma_no_ship_no_shot<P: Physics>(
    before: PlayingGame<P>,
    after: PlayingGame<P>,
    input: Input,
    dt: Duration,
    physics: &P,
    outcome: PlayOutcome,
)
    requires
        before.frame(after, input, dt, physics, outcome),
        before.spec_player().spec_ship() is Respawning,
    ensures
        after.spec_player().spec_weapon().pending() == cooldown_step(before.spec_player().spec_weapon().pending(), dt@),
        after.spec_player().spec_weapon().cooldown() == before.spec_player().spec_weapon().cooldown(),
        after.spec_bullets().len() <= before.spec_bullets().len(),
{
    let (destroyed, spawned) = choose|destroyed: Seq<AsteroidKind>, spawned: nat|
        {
            &&& after.spec_score()@ == score_after(before.spec_score()@, destroyed)
            &&& after.spec_bullets().len() + destroyed.len() <= before.spec_bullets().len() + if input.fire
                && before.spec_player().spec_ship().has_ship()
                && before.spec_player().spec_weapon().pending() is None {
                1int
            } else {
                0int
            }
            &&& spawned == 0 || spawned == after.wave_size()
            &&& kinds_of(after.spec_asteroids()).to_multiset().add(destroyed.to_multiset())
                == kinds_of(before.spec_asteroids()).to_multiset().add(fragments_of(destroyed)).add(
                larges(spawned).to_multiset(),
            )
        };
}

} // verus!
