//! The direction state of the scale-factor equation da/dt = s · a · H0 · |E(a0/a)|.
//!
//! The sign `s` says whether the universe expands (+1), contracts (−1) or has
//! collapsed for good (0). Each evaluation of the right-hand side reports two
//! facts about the point it was evaluated at: whether the radicand of E is
//! negative there (a turning point was overshot) and whether the scale factor is
//! below the collapse floor. The tracker turns them into the sign to apply.
use vstd::prelude::*;

verus! {

/// What one evaluation of the right-hand side found at its point.
#[derive(Debug, Clone, Copy, PartialEq, Eq, Structural)]
pub struct Observation {
    /// The radicand of the expansion rate is negative: a turning point.
    pub radicand_negative: bool,
    /// The scale factor is below the collapse floor.
    pub below_floor: bool,
}

/// Sign state threaded through every step of one solve of the scale-factor
/// equation. The flag `flipped_last_step` keeps a single turning-point crossing
/// from flipping the sign twice while the stepper hovers around it.
#[derive(Debug, Clone, Copy, PartialEq, Eq, Structural)]
pub struct SignTracker {
    sign: i8,
    flipped_last_step: bool,
}

/// The model of a tracker: its sign and whether the previous evaluation flipped it.
pub type SignState = (int, bool);

impl View for SignTracker {
    type V = SignState;

    closed spec fn view(&self) -> SignState {
        (self.sign as int, self.flipped_last_step)
    }
}

/// The state after observing `o` in state `s`. At a turning point the sign
/// flips unless the previous evaluation already flipped it; the flag then
/// records whether this evaluation was at a turning point. Below the floor the
/// sign is pinned to zero.
pub open spec fn next_state(s: SignState, o: Observation) -> SignState {
    let sign = if o.below_floor {
        0
    } else if o.radicand_negative && !s.1 {
        -s.0
    } else {
        s.0
    };
    (sign, o.radicand_negative)
}

/// The state after observing each of `obs` in turn, starting from `s`.
pub open spec fn run(s: SignState, obs: Seq<Observation>) -> SignState
    decreases obs.len(),
{
    if obs.len() == 0 {
        s
    } else {
        next_state(run(s, obs.drop_last()), obs.last())
    }
}

/// The sign is one of -1, 0, +1.
pub open spec fn valid_state(s: SignState) -> bool {
    -1 <= s.0 <= 1
}

impl SignTracker {
    /// A tracker with the given sign and flag.
    pub fn new(sign: i8, flipped_last_step: bool) -> (t: SignTracker)
        requires
            -1 <= sign <= 1,
        ensures
            t@ == (sign as int, flipped_last_step),
    {
        SignTracker { sign, flipped_last_step }
    }

    /// The sign applied to the right-hand side.
    pub fn sign(&self) -> (r: i8)
        ensures
            r == self@.0,
    {
        self.sign
    }

    /// Whether the previous evaluation flipped the sign.
    pub fn flipped_last_step(&self) -> (r: bool)
        ensures
            r == self@.1,
    {
        self.flipped_last_step
    }

    /// Takes in what one evaluation found and returns the sign that the
    /// evaluation multiplies its derivative by.
    pub fn observe(&mut self, o: Observation) -> (r: i8)
        requires
            valid_state(old(self)@),
        ensures
            final(self)@ == next_state(old(self)@, o),
            r == final(self)@.0,
    {
        if o.radicand_negative {
            if !self.flipped_last_step {
                self.sign = -self.sign;
            }
            self.flipped_last_step = true;
        } else {
            self.flipped_last_step = false;
        }
        if o.below_floor {
            self.sign = 0;
        }
        self.sign
    }
}

/// Every state reached from a well-formed state is well formed.
pub proof fn lemma_run_wf(s: SignState, obs: Seq<Observation>)
    requires
        valid_state(s),
    ensures
        valid_state(run(s, obs)),
    decreases obs.len(),
{
    if obs.len() > 0 {
        lemma_run_wf(s, obs.drop_last());
    }
}

/// A collapsed universe stays collapsed: from sign zero, every later sign is
/// zero, whatever the expansion rate does.
pub proof fn lemma_zero_sign_stays(s: SignState, obs: Seq<Observation>)
    requires
        s.0 == 0,
    ensures
        run(s, obs).0 == 0,
    decreases obs.len(),
{
    if obs.len() > 0 {
        lemma_zero_sign_stays(s, obs.drop_last());
    }
}

/// Once the scale factor has fallen below the floor, every later evaluation of
/// the same solve gets sign zero, so its derivative is exactly zero.
pub proof fn lemma_floor_is_absorbing(s: SignState, obs: Seq<Observation>, i: int, j: int)
    requires
        0 <= i <= j < obs.len(),
        obs[i].below_floor,
    ensures
        run(s, obs.take(j + 1)).0 == 0,
{
    let upto_i = obs.take(i + 1);
    assert(upto_i.drop_last() =~= obs.take(i));
    assert(upto_i.last() == obs[i]);
    assert(run(s, upto_i).0 == 0);
    lemma_run_append(s, upto_i, obs.subrange(i + 1, j + 1));
    assert(upto_i + obs.subrange(i + 1, j + 1) =~= obs.take(j + 1));
    lemma_zero_sign_stays(run(s, upto_i), obs.subrange(i + 1, j + 1));
}

/// Observing `a` and then `b` is observing `a + b`.
pub proof fn lemma_run_append(s: SignState, a: Seq<Observation>, b: Seq<Observation>)
    ensures
        run(s, a + b) == run(run(s, a), b),
    decreases b.len(),
{
    if b.len() == 0 {
        assert(a + b =~= a);
    } else {
        assert((a + b).drop_last() =~= a + b.drop_last());
        assert((a + b).last() == b.last());
        lemma_run_append(s, a, b.drop_last());
    }
}

/// One turning-point crossing flips the sign once: two evaluations in a row
/// that both see a negative radicand above the floor leave the sign negated
/// once from a state that had not just flipped, and unchanged from one that had.
pub proof fn lemma_single_flip_per_crossing(s: SignState, o1: Observation, o2: Observation)
    requires
        valid_state(s),
        o1.radicand_negative && !o1.below_floor,
        o2.radicand_negative && !o2.below_floor,
    ensures
        run(s, seq![o1, o2]).0 == if s.1 {
            s.0
        } else {
            -s.0
        },
{
    let one = seq![o1];
    assert(one.drop_last() =~= Seq::<Observation>::empty());
    assert(run(s, one.drop_last()) == s);
    assert(one.last() == o1);
    assert(run(s, one) == next_state(s, o1));
    assert(seq![o1, o2].drop_last() =~= one);
    assert(seq![o1, o2].last() == o2);
    assert(run(s, seq![o1, o2]) == next_state(next_state(s, o1), o2));
}

} // verus!
