//! The small counters of a session: score, wave number and remaining lives.

use vstd::prelude::*;

verus! {

/// `a + b`, clamped to `u32::MAX`.
pub open spec fn saturating_add_u32(a: nat, b: nat) -> nat {
    if a + b > u32::MAX {
        u32::MAX as nat
    } else {
        a + b
    }
}

/// The player's score, a non-negative value that saturates instead of
/// overflowing.
#[derive(Debug, Clone, Copy, PartialEq, Eq, Structural, PartialOrd, Ord)]
pub struct Score(u32);

impl View for Score {
    type V = nat;

    closed spec fn view(&self) -> nat {
        self.0 as nat
    }
}

impl Score {
    /// A score fits in a `u32`.
    pub broadcast proof fn lemma_fits(s: Score)
        ensures
            #[trigger] s@ <= u32::MAX,
    {
    }

    pub fn zero() -> (s: Score)
        ensures
            s@ == 0,
    {
        Score(0)
    }

    pub fn new(value: u32) -> (s: Score)
        ensures
            s@ == value,
    {
        Score(value)
    }

    pub fn value(self) -> (v: u32)
        ensures
            v == self@,
    {
        self.0
    }

    /// `self + rhs`, clamped at `u32::MAX`.
    pub fn saturating_add(self, rhs: Score) -> (s: Score)
        ensures
            s@ == saturating_add_u32(self@, rhs@),
    {
        Score(self.0.saturating_add(rhs.0))
    }
}

impl core::default::Default for Score {
    fn default() -> (s: Score)
        ensures
            s@ == 0,
    {
        Score(0)
    }
}

impl core::ops::AddAssign for Score {
    /// Adds `rhs`, clamping at `u32::MAX` instead of overflowing.
    fn add_assign(&mut self, rhs: Score)
        ensures
            final(self)@ == saturating_add_u32(old(self)@, rhs@),
    {
        *self = self.saturating_add(rhs);
    }
}

/// A wave number, always at least 1.
#[derive(Debug, Clone, Copy, PartialEq, Eq, Structural, PartialOrd, Ord)]
pub struct Wave(u32);

impl View for Wave {
    type V = nat;

    closed spec fn view(&self) -> nat {
        self.0 as nat
    }
}

impl Wave {
    #[verifier::type_invariant]
    closed spec fn non_zero(self) -> bool {
        self.0 >= 1
    }

    /// The first wave of a session.
    pub fn first() -> (w: Wave)
        ensures
            w@ == 1,
    {
        Wave(1)
    }

    pub fn value(self) -> (v: u32)
        ensures
            v == self@,
            v >= 1,
    {
        proof {
            use_type_invariant(&self);
        }
        self.0
    }

    /// The following wave, or `None` once the count cannot grow.
    pub fn next(self) -> (n: Option<Wave>)
        ensures
            n matches Some(w) ==> w@ == self@ + 1,
            n is None <==> self@ == u32::MAX,
    {
        proof {
            use_type_invariant(&self);
        }
        match self.0.checked_add(1) {
            Some(v) => Some(Wave(v)),
            None => None,
        }
    }
}

/// Remaining lives, guaranteed non-zero: a game over is represented by
/// [`LifeLoss::GameOver`], not by a zero.
#[derive(Debug, Clone, Copy, PartialEq, Eq, Structural, PartialOrd, Ord)]
pub struct NonZeroLives(u8);

impl View for NonZeroLives {
    type V = nat;

    closed spec fn view(&self) -> nat {
        self.0 as nat
    }
}

/// What losing a life leaves.
#[derive(Debug, Clone, Copy)]
pub enum LifeLoss {
    Remaining(NonZeroLives),
    GameOver,
}

impl NonZeroLives {
    #[verifier::type_invariant]
    closed spec fn non_zero(self) -> bool {
        self.0 >= 1
    }

    /// `None` for zero lives.
    pub fn new(value: u8) -> (l: Option<NonZeroLives>)
        ensures
            l is Some <==> value != 0,
            l matches Some(lives) ==> lives@ == value,
    {
        if value == 0 {
            None
        } else {
            Some(NonZeroLives(value))
        }
    }

    pub fn value(self) -> (v: u8)
        ensures
            v == self@,
            v >= 1,
    {
        proof {
            use_type_invariant(&self);
        }
        self.0
    }

    /// One life fewer: the rest, or a game over when this was the last.
    pub fn lose_one(self) -> (r: LifeLoss)
        ensures
            self@ >= 1,
            r is GameOver <==> self@ == 1,
            r matches LifeLoss::Remaining(rest) ==> rest@ + 1 == self@,
    {
        proof {
            use_type_invariant(&self);
        }
        if self.0 == 1 {
            LifeLoss::GameOver
        } else {
            LifeLoss::Remaining(NonZeroLives(self.0 - 1))
        }
    }
}

} // verus!
