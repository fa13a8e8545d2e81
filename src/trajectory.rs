//! Joining two trajectories that were integrated in opposite directions from a
//! common point into one trajectory in time order.
use vstd::prelude::*;

verus! {

/// `backward` reversed, then `forward` without its first element: a trajectory
/// integrated backward in time from a point, followed by one integrated forward
/// from the same point, with that point kept once.
pub open spec fn stitched<T>(backward: Seq<T>, forward: Seq<T>) -> Seq<T>
    recommends
        forward.len() >= 1,
{
    Seq::new(backward.len(), |i: int| backward[backward.len() - 1 - i]) + forward.drop_first()
}

/// Joins `backward`, read from its end, with `forward` from its second element on.
pub fn stitch<T: Copy>(backward: &Vec<T>, forward: &Vec<T>) -> (r: Vec<T>)
    requires
        forward.len() >= 1,
        backward.len() + forward.len() <= usize::MAX,
    ensures
        r@ == stitched(backward@, forward@),
{
    let mut r: Vec<T> = Vec::with_capacity(backward.len() + forward.len() - 1);
    let n = backward.len();
    let mut i: usize = 0;
    while i < n
        invariant
            n == backward.len(),
            i <= n,
            r@ =~= Seq::new(i as nat, |k: int| backward@[n - 1 - k]),
        decreases n - i,
    {
        r.push(backward[n - 1 - i]);
        i = i + 1;
    }
    let mut j: usize = 1;
    while j < forward.len()
        invariant
            n == backward.len(),
            1 <= j <= forward.len(),
            r@ =~= Seq::new(n as nat, |k: int| backward@[n - 1 - k]) + forward@.subrange(1, j as int),
        decreases forward.len() - j,
    {
        r.push(forward[j]);
        j = j + 1;
    }
    r
}

} // verus!
