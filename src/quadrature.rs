//! The schedule of adaptive Simpson quadrature.
//!
//! The integration range is rescaled to the unit range [0, 1]. A piece `(k, d)`
//! stands for the dyadic interval [k / 2^d, (k + 1) / 2^d]. The schedule keeps
//! the pieces still to be integrated as a stack whose top is the active piece:
//! accepting it moves on to the piece on its right, bisecting it makes its left
//! half active and leaves its right half as the continuation. Each pending piece
//! carries a payload of the caller's choosing (its bounds and cached samples).
use vstd::arithmetic::power::lemma_pow0;
use vstd::arithmetic::power2::{lemma_pow2_unfold, pow2};
use vstd::prelude::*;

verus! {

/// A dyadic piece of the unit range: `(k, d)` is [k / 2^d, (k + 1) / 2^d].
pub type Piece = (int, nat);

/// The piece lies inside the unit range.
pub open spec fn in_unit(p: Piece) -> bool {
    0 <= p.0 < pow2(p.1)
}

/// The right end of `left` is the left end of `right`.
pub open spec fn meets(left: Piece, right: Piece) -> bool {
    (left.0 + 1) * pow2(right.1) == right.0 * pow2(left.1)
}

/// The left half of a piece.
pub open spec fn left_half(p: Piece) -> Piece {
    (2 * p.0, p.1 + 1)
}

/// The right half of a piece.
pub open spec fn right_half(p: Piece) -> Piece {
    (2 * p.0 + 1, p.1 + 1)
}

/// The pieces, in order, cover the unit range without gap or overlap: the first
/// starts at 0, each ends where the next starts, and the last ends at 1.
pub open spec fn tiles_unit(c: Seq<Piece>) -> bool {
    &&& c.len() > 0
    &&& c[0].0 == 0
    &&& c.last().0 + 1 == pow2(c.last().1)
    &&& forall|i: int| 0 <= i < c.len() ==> #[trigger] in_unit(c[i])
    &&& forall|i: int| 0 <= i < c.len() - 1 ==> meets(#[trigger] c[i], c[i + 1])
}

/// What the schedule does with the active piece, given how it compares with the
/// minimum width and whether its two Simpson estimates agree.
#[derive(Debug, Clone, Copy, PartialEq, Eq, Structural)]
pub enum Verdict {
    /// The piece is no wider than the minimum width: the quadrature fails.
    Fail,
    /// The estimates agree: the finer one is kept and the piece is done.
    Accept,
    /// The estimates disagree: the piece is split in two halves.
    Bisect,
}

/// The verdict on the active piece. The width is tested first: a piece no wider
/// than the floor fails even where its estimates agree, so that a floor wider
/// than the whole range fails at once.
pub fn judge(wider_than_floor: bool, estimates_agree: bool) -> (v: Verdict)
    ensures
        !wider_than_floor ==> v == Verdict::Fail,
        wider_than_floor && estimates_agree ==> v == Verdict::Accept,
        wider_than_floor && !estimates_agree ==> v == Verdict::Bisect,
{
    if !wider_than_floor {
        Verdict::Fail
    } else if estimates_agree {
        Verdict::Accept
    } else {
        Verdict::Bisect
    }
}

/// The stack of pieces still to be integrated, each with its payload.
pub struct IntervalStack<T> {
    /// Payloads of the pending pieces; the last one is the active piece.
    stack: Vec<T>,
    /// Positions of the pending pieces, from left to right: the first is the
    /// active piece, the one of `stack`'s last payload.
    pending: Ghost<Seq<Piece>>,
    /// Positions of the accepted pieces, in the order they were accepted.
    accepted: Ghost<Seq<Piece>>,
}

impl<T> IntervalStack<T> {
    /// Positions of the pieces still to be integrated, from left to right; the
    /// first is the active piece.
    pub closed spec fn pending(&self) -> Seq<Piece> {
        self.pending@
    }

    /// Positions of the pieces accepted so far, from left to right.
    pub closed spec fn accepted(&self) -> Seq<Piece> {
        self.accepted@
    }

    /// Payloads of the pending pieces, from the rightmost to the active one.
    pub closed spec fn payloads(&self) -> Seq<T> {
        self.stack@
    }

    /// The accepted pieces followed by the pending ones tile the unit range,
    /// and each pending piece has its payload.
    pub closed spec fn wf(&self) -> bool {
        &&& self.pending@.len() >= 1
        &&& self.stack@.len() == self.pending@.len()
        &&& tiles_unit(self.accepted@ + self.pending@)
    }

    /// A schedule whose only piece is the whole range.
    pub fn new(whole: T) -> (s: Self)
        ensures
            s.wf(),
            s.pending() == seq![(0int, 0nat)],
            s.accepted() == Seq::<Piece>::empty(),
            s.payloads() == seq![whole],
    {
        proof {
            lemma_pow0(2);
            let c = Seq::<Piece>::empty() + seq![(0int, 0nat)];
            assert(c =~= seq![(0int, 0nat)]);
        }
        let ghost first = seq![(0int, 0nat)];
        let ghost none = Seq::<Piece>::empty();
        let mut stack = Vec::new();
        stack.push(whole);
        IntervalStack { stack, pending: Ghost(first), accepted: Ghost(none) }
    }

    /// Number of pieces still to be integrated, the active one included.
    pub fn len(&self) -> (n: usize)
        requires
            self.wf(),
        ensures
            n == self.pending().len(),
    {
        self.stack.len()
    }

    /// The payload of the active piece.
    pub fn active(&self) -> (r: &T)
        requires
            self.wf(),
        ensures
            *r == self.payloads().last(),
    {
        let n = self.stack.len();
        &self.stack[n - 1]
    }

    /// Puts `payload` in place of the active piece's payload and hands back the
    /// one it replaces. The positions stay as they are.
    pub fn replace_active(&mut self, payload: T) -> (prev: T)
        requires
            old(self).wf(),
        ensures
            final(self).wf(),
            prev == old(self).payloads().last(),
            final(self).payloads() == old(self).payloads().drop_last().push(payload),
            final(self).pending() == old(self).pending(),
            final(self).accepted() == old(self).accepted(),
    {
        let prev = self.stack.pop().unwrap();
        self.stack.push(payload);
        prev
    }

    /// Splits the active piece: its left half becomes the active piece, with
    /// payload `left`, and its right half stays pending right after it, with the
    /// payload that the active piece had.
    pub fn bisect(&mut self, left: T)
        requires
            old(self).wf(),
            old(self).payloads().len() < usize::MAX,
        ensures
            final(self).wf(),
            final(self).pending() == seq![
                left_half(old(self).pending()[0]),
                right_half(old(self).pending()[0]),
            ] + old(self).pending().drop_first(),
            final(self).accepted() == old(self).accepted(),
            final(self).payloads() == old(self).payloads().push(left),
    {
        let ghost old_acc = self.accepted@;
        let ghost old_pen = self.pending@;
        let ghost p = old_pen[0];
        let ghost l = left_half(p);
        let ghost r = right_half(p);
        let ghost new_pen = seq![l, r] + old_pen.drop_first();
        self.stack.push(left);
        self.pending = Ghost(new_pen);
        proof {
            let oc = old_acc + old_pen;
            let nc = old_acc + new_pen;
            let k = old_acc.len() as int;
            lemma_pow2_unfold(p.1 + 1);
            assert(pow2(p.1 + 1) == 2 * pow2(p.1));
            assert(oc[k] == p);
            assert(in_unit(p));
            assert(nc.len() == oc.len() + 1);
            assert(nc[k] == l);
            assert(nc[k + 1] == r);
            assert forall|i: int| 0 <= i < k implies nc[i] == oc[i] by {}
            assert forall|i: int| k + 1 < i < nc.len() implies nc[i] == oc[i - 1] by {}
            lemma_halves_in_unit(p);
            assert forall|i: int| 0 <= i < nc.len() implies #[trigger] in_unit(nc[i]) by {
                if i < k {
                    assert(in_unit(oc[i]));
                } else if i > k + 1 {
                    assert(in_unit(oc[i - 1]));
                }
            }
            assert forall|i: int| 0 <= i < nc.len() - 1 implies meets(#[trigger] nc[i], nc[i + 1]) by {
                if i < k - 1 {
                    assert(meets(oc[i], oc[i + 1]));
                } else if i == k - 1 {
                    assert(meets(oc[i], oc[i + 1]));
                    lemma_meets_left_half(oc[i], p);
                } else if i == k + 1 {
                    assert(meets(oc[k], oc[k + 1]));
                    lemma_right_half_meets(p, oc[k + 1]);
                } else if i > k + 1 {
                    assert(meets(oc[i - 1], oc[i]));
                }
            }
            if k == 0 {
                assert(nc[0] == l);
            } else {
                assert(nc[0] == oc[0]);
            }
            if k + 1 == nc.len() - 1 {
                assert(oc.last() == p);
                assert(nc.last() == r);
            } else {
                assert(nc.last() == oc.last());
            }
            assert(tiles_unit(nc));
        }
    }

    /// Accepts the active piece. Where a piece is pending after it, that piece
    /// becomes active and the accepted one's payload is handed back. Where none
    /// is, the schedule is complete: nothing changes and `None` comes back, and
    /// the accepted pieces with the active one tile the unit range.
    pub fn accept(&mut self) -> (r: Option<T>)
        requires
            old(self).wf(),
        ensures
            final(self).wf(),
            r.is_none() <==> old(self).pending().len() == 1,
            r.is_none() ==> *final(self) == *old(self),
            r.is_none() ==> tiles_unit(old(self).accepted().push(old(self).pending()[0])),
            r.is_some() ==> {
                &&& r.unwrap() == old(self).payloads().last()
                &&& final(self).payloads() == old(self).payloads().drop_last()
                &&& final(self).accepted() == old(self).accepted().push(old(self).pending()[0])
                &&& final(self).pending() == old(self).pending().drop_first()
            },
    {
        if self.stack.len() == 1 {
            proof {
                assert(self.accepted@ + self.pending@ =~= self.accepted@.push(self.pending@[0]));
            }
            None
        } else {
            let ghost old_acc = self.accepted@;
            let ghost old_pen = self.pending@;
            let done = self.stack.pop().unwrap();
            self.accepted = Ghost(old_acc.push(old_pen[0]));
            self.pending = Ghost(old_pen.drop_first());
            proof {
                assert(old_acc + old_pen =~= old_acc.push(old_pen[0]) + old_pen.drop_first());
            }
            Some(done)
        }
    }
}

/// Both halves of a piece inside the unit range lie inside it, and they meet.
proof fn lemma_halves_in_unit(p: Piece)
    requires
        in_unit(p),
    ensures
        in_unit(left_half(p)),
        in_unit(right_half(p)),
        meets(left_half(p), right_half(p)),
{
    lemma_pow2_unfold(p.1 + 1);
}

/// A piece that meets `p` meets `p`'s left half.
proof fn lemma_meets_left_half(q: Piece, p: Piece)
    requires
        meets(q, p),
    ensures
        meets(q, left_half(p)),
{
    lemma_pow2_unfold(q.1 + 1);
    lemma_pow2_unfold(p.1 + 1);
    let a = q.0 + 1;
    let b = pow2(p.1) as int;
    let c = pow2(q.1) as int;
    assert(a * b == p.0 * c);
    assert(a * (2 * b) == (2 * p.0) * c) by (nonlinear_arith)
        requires
            a * b == p.0 * c,
    ;
}

/// The right half of `p` meets whatever `p` meets.
proof fn lemma_right_half_meets(p: Piece, q: Piece)
    requires
        meets(p, q),
    ensures
        meets(right_half(p), q),
{
    lemma_pow2_unfold(p.1 + 1);
    let a = p.0 + 1;
    let b = pow2(q.1) as int;
    let c = pow2(p.1) as int;
    assert(a * b == q.0 * c);
    assert((2 * p.0 + 2) * b == q.0 * (2 * c)) by (nonlinear_arith)
        requires
            a * b == q.0 * c,
            a == p.0 + 1,
    ;
}

} // verus!
