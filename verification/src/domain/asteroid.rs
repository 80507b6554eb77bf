//! Asteroids and their size classes.

use vstd::prelude::*;

use crate::domain::counters::Score;
use crate::domain::physics::Physics;
use crate::domain::time::Duration;

verus! {

/// The size class of an asteroid; determines how it splits and what it
/// scores.
#[derive(Debug, Clone, Copy, PartialEq, Eq, Structural)]
pub enum AsteroidKind {
    Large,
    Medium,
    Small,
}

impl AsteroidKind {
    /// What destroying an asteroid of this class scores.
    pub open spec fn points(self) -> nat {
        match self {
            AsteroidKind::Large => 20,
            AsteroidKind::Medium => 50,
            AsteroidKind::Small => 100,
        }
    }

    /// The class of the two fragments an asteroid of this class splits into;
    /// small asteroids do not split.
    pub open spec fn fragment_kind(self) -> Option<AsteroidKind> {
        match self {
            AsteroidKind::Large => Some(AsteroidKind::Medium),
            AsteroidKind::Medium => Some(AsteroidKind::Small),
            AsteroidKind::Small => None,
        }
    }
}

/// An asteroid of the largest class.
#[derive(Debug)]
pub struct LargeAsteroid<A> {
    body: A,
}

/// An asteroid of the middle class.
#[derive(Debug)]
pub struct MediumAsteroid<A> {
    body: A,
}

/// An asteroid of the smallest class.
#[derive(Debug)]
pub struct SmallAsteroid<A> {
    body: A,
}

impl<A> LargeAsteroid<A> {
    /// Split into two mediums, spawned at this asteroid's position.
    fn split<P: Physics<Body = A>>(self, physics: &P) -> (parts: (MediumAsteroid<A>, MediumAsteroid<A>))
        ensures
            call_ensures(P::fragment_body, (physics, &self.body), parts.0.body),
            call_ensures(P::fragment_body, (physics, &self.body), parts.1.body),
    {
        let first = MediumAsteroid { body: physics.fragment_body(&self.body) };
        let second = MediumAsteroid { body: physics.fragment_body(&self.body) };
        (first, second)
    }
}

impl<A> MediumAsteroid<A> {
    /// Split into two smalls, spawned at this asteroid's position.
    fn split<P: Physics<Body = A>>(self, physics: &P) -> (parts: (SmallAsteroid<A>, SmallAsteroid<A>))
        ensures
            call_ensures(P::fragment_body, (physics, &self.body), parts.0.body),
            call_ensures(P::fragment_body, (physics, &self.body), parts.1.body),
    {
        let first = SmallAsteroid { body: physics.fragment_body(&self.body) };
        let second = SmallAsteroid { body: physics.fragment_body(&self.body) };
        (first, second)
    }
}

/// An asteroid of any size; the size class determines its score, what it
/// splits into and, for the physics, its radius.
#[derive(Debug)]
pub enum Asteroid<A> {
    Large(LargeAsteroid<A>),
    Medium(MediumAsteroid<A>),
    Small(SmallAsteroid<A>),
}

/// The result of destroying an asteroid.
#[derive(Debug)]
pub enum AsteroidDestruction<A> {
    /// The asteroid split into two fragments of the next-smaller size.
    Fragments(Asteroid<A>, Asteroid<A>),
    /// Small asteroids are destroyed outright.
    Destroyed,
}

impl<A> Asteroid<A> {
    /// The asteroid's size class.
    pub open spec fn spec_kind(&self) -> AsteroidKind {
        match self {
            Asteroid::Large(_) => AsteroidKind::Large,
            Asteroid::Medium(_) => AsteroidKind::Medium,
            Asteroid::Small(_) => AsteroidKind::Small,
        }
    }

    /// The asteroid's body.
    pub closed spec fn spec_body(&self) -> A {
        match self {
            Asteroid::Large(a) => a.body,
            Asteroid::Medium(a) => a.body,
            Asteroid::Small(a) => a.body,
        }
    }

    /// An asteroid of the given class.
    pub fn new(kind: AsteroidKind, body: A) -> (a: Asteroid<A>)
        ensures
            a.spec_kind() == kind,
            a.spec_body() == body,
    {
        match kind {
            AsteroidKind::Large => Asteroid::Large(LargeAsteroid { body }),
            AsteroidKind::Medium => Asteroid::Medium(MediumAsteroid { body }),
            AsteroidKind::Small => Asteroid::Small(SmallAsteroid { body }),
        }
    }

    #[verifier::when_used_as_spec(spec_kind)]
    pub fn kind(&self) -> (k: AsteroidKind)
        ensures
            k == self.spec_kind(),
    {
        match self {
            Asteroid::Large(_) => AsteroidKind::Large,
            Asteroid::Medium(_) => AsteroidKind::Medium,
            Asteroid::Small(_) => AsteroidKind::Small,
        }
    }

    pub fn body(&self) -> (b: &A)
        ensures
            *b == self.spec_body(),
    {
        match self {
            Asteroid::Large(a) => &a.body,
            Asteroid::Medium(a) => &a.body,
            Asteroid::Small(a) => &a.body,
        }
    }

    /// What destroying this asteroid scores.
    pub fn score(&self) -> (s: Score)
        ensures
            s@ == self.kind().points(),
    {
        match self {
            Asteroid::Large(_) => Score::new(20),
            Asteroid::Medium(_) => Score::new(50),
            Asteroid::Small(_) => Score::new(100),
        }
    }

    /// Advance one frame: the body moves as the physics says; the size
    /// class does not change.
    pub fn update<P: Physics<Body = A>>(&mut self, dt: Duration, physics: &P)
        ensures
            final(self).kind() == old(self).kind(),
            call_ensures(P::moved_body, (physics, &old(self).spec_body(), dt), final(self).spec_body()),
    {
        match self {
            Asteroid::Large(a) => a.body = physics.moved_body(&a.body, dt),
            Asteroid::Medium(a) => a.body = physics.moved_body(&a.body, dt),
            Asteroid::Small(a) => a.body = physics.moved_body(&a.body, dt),
        }
    }

    /// Destroy the asteroid: large and medium ones split in two fragments of
    /// the next-smaller class, whose bodies the physics draws from this
    /// asteroid's body (at its position); small ones vanish.
    pub fn destroy<P: Physics<Body = A>>(self, physics: &P) -> (d: AsteroidDestruction<A>)
        ensures
            match self.kind().fragment_kind() {
                Some(k) => d matches AsteroidDestruction::Fragments(first, second) && first.kind() == k
                    && second.kind() == k && call_ensures(
                    P::fragment_body,
                    (physics, &self.spec_body()),
                    first.spec_body(),
                ) && call_ensures(P::fragment_body, (physics, &self.spec_body()), second.spec_body()),
                None => d is Destroyed,
            },
    {
        match self {
            Asteroid::Large(asteroid) => {
                let (first, second) = asteroid.split(physics);
                AsteroidDestruction::Fragments(Asteroid::Medium(first), Asteroid::Medium(second))
            },
            Asteroid::Medium(asteroid) => {
                let (first, second) = asteroid.split(physics);
                AsteroidDestruction::Fragments(Asteroid::Small(first), Asteroid::Small(second))
            },
            Asteroid::Small(_) => AsteroidDestruction::Destroyed,
        }
    }
}

} // verus!
