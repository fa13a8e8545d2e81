//! Driving a one-step integrator over a caller-given sequence of points.
use vstd::prelude::*;

verus! {

/// Number of values produced for `n` points: one per point, and at least the
/// initial value.
pub open spec fn trajectory_len(n: nat) -> nat {
    if n == 0 {
        1
    } else {
        n
    }
}

/// Values of a solution at each of `xs`, the first being `y0`. Each later value
/// comes from one call `step(x_prev, x_next, y_prev, state)`, which returns the
/// value at `x_next` and the state handed on to the next call: the steps may go
/// in either direction and need not be even, and whatever a step does to the
/// state persists for the steps after it. Returns the values and the final state.
pub fn integrate_at_points<X: Copy, Y: Copy, S, F: Fn(X, X, Y, S) -> (Y, S)>(
    step: &F,
    xs: &Vec<X>,
    y0: Y,
    state: S,
) -> (r: (Vec<Y>, S))
    requires
        forall|x0: X, x1: X, y: Y, s: S| #[trigger] step.requires((x0, x1, y, s)),
    ensures
        r.0@.len() == trajectory_len(xs@.len()),
        r.0@[0] == y0,
        exists|states: Seq<S>|
            {
                &&& states.len() == r.0@.len()
                &&& states[0] == state
                &&& states.last() == r.1
                &&& forall|i: int|
                    1 <= i < r.0@.len() ==> #[trigger] step.ensures(
                        (xs@[i - 1], xs@[i], r.0@[i - 1], states[i - 1]),
                        (r.0@[i], states[i]),
                    )
            },
{
    let mut ys: Vec<Y> = Vec::new();
    ys.push(y0);
    let mut st = state;
    let ghost mut states: Seq<S> = seq![st];
    let mut i: usize = 1;
    while i < xs.len()
        invariant
            forall|x0: X, x1: X, y: Y, s: S| #[trigger] step.requires((x0, x1, y, s)),
            1 <= i,
            xs.len() == 0 ==> i == 1,
            xs.len() > 0 ==> i <= xs.len(),
            ys@.len() == i,
            ys@[0] == y0,
            states.len() == i,
            states[0] == state,
            states.last() == st,
            forall|k: int|
                1 <= k < i ==> #[trigger] step.ensures(
                    (xs@[k - 1], xs@[k], ys@[k - 1], states[k - 1]),
                    (ys@[k], states[k]),
                ),
        decreases xs.len() - i,
    {
        let x0 = xs[i - 1];
        let x1 = xs[i];
        let y = ys[i - 1];
        let (y1, next) = step(x0, x1, y, st);
        proof {
            states = states.push(next);
        }
        ys.push(y1);
        st = next;
        i = i + 1;
    }
    (ys, st)
}

} // verus!
