use vstd::prelude::*;
use crate::pieces::{Piece, Side};

verus! {

/// A piece of `side` that has been captured.
pub open spec fn captured_of(pc: Piece, side: Side) -> bool {
    pc.side == side && !pc.movable
}

pub open spec fn one_if(b: bool) -> nat {
    if b {
        1
    } else {
        0
    }
}

/// How many pieces of `side` the sequence holds.
pub open spec fn count_side(s: Seq<Piece>, side: Side) -> nat
    decreases s.len(),
{
    if s.len() == 0 {
        0
    } else {
        count_side(s.drop_last(), side) + one_if(s.last().side == side)
    }
}

/// How many captured pieces of `side` the sequence holds.
pub open spec fn count_captured(s: Seq<Piece>, side: Side) -> nat
    decreases s.len(),
{
    if s.len() == 0 {
        0
    } else {
        count_captured(s.drop_last(), side) + one_if(captured_of(s.last(), side))
    }
}

pub proof fn lemma_count_update(s: Seq<Piece>, i: int, p: Piece, side: Side)
    requires
        0 <= i < s.len(),
    ensures
        count_side(s.update(i, p), side) + one_if(s[i].side == side) == count_side(s, side)
            + one_if(p.side == side),
        count_captured(s.update(i, p), side) + one_if(captured_of(s[i], side)) == count_captured(
            s,
            side,
        ) + one_if(captured_of(p, side)),
    decreases s.len(),
{
    let t = s.update(i, p);
    if i == s.len() - 1 {
        assert(t.drop_last() =~= s.drop_last());
    } else {
        lemma_count_update(s.drop_last(), i, p, side);
        assert(t.drop_last() =~= s.drop_last().update(i, p));
    }
}

/// Sequences that agree on every piece's side and capture give equal counts.
pub proof fn lemma_count_agree(s: Seq<Piece>, t: Seq<Piece>, side: Side)
    requires
        s.len() == t.len(),
        forall|k: int|
            0 <= k < s.len() ==> (#[trigger] s[k]).side == t[k].side && s[k].movable == t[k].movable,
    ensures
        count_side(s, side) == count_side(t, side),
        count_captured(s, side) == count_captured(t, side),
    decreases s.len(),
{
    if s.len() > 0 {
        lemma_count_agree(s.drop_last(), t.drop_last(), side);
    }
}

pub proof fn lemma_count_concat(a: Seq<Piece>, b: Seq<Piece>, side: Side)
    ensures
        count_side(a + b, side) == count_side(a, side) + count_side(b, side),
        count_captured(a + b, side) == count_captured(a, side) + count_captured(b, side),
    decreases b.len(),
{
    if b.len() == 0 {
        assert(a + b =~= a);
    } else {
        lemma_count_concat(a, b.drop_last(), side);
        assert((a + b).drop_last() =~= a + b.drop_last());
    }
}

/// Counts over a sequence of uncaptured pieces that all share one side.
pub proof fn lemma_count_uniform(s: Seq<Piece>, of: Side, side: Side)
    requires
        forall|k: int| 0 <= k < s.len() ==> (#[trigger] s[k]).side == of && s[k].movable,
    ensures
        count_side(s, side) == if of == side {
            s.len()
        } else {
            0
        },
        count_captured(s, side) == 0,
    decreases s.len(),
{
    if s.len() > 0 {
        lemma_count_uniform(s.drop_last(), of, side);
    }
}

pub proof fn lemma_captured_at_most(s: Seq<Piece>, side: Side)
    ensures
        count_captured(s, side) <= count_side(s, side),
    decreases s.len(),
{
    if s.len() > 0 {
        lemma_captured_at_most(s.drop_last(), side);
    }
}

/// A side with an uncaptured piece has fewer captured pieces than pieces.
pub proof fn lemma_captured_below(s: Seq<Piece>, side: Side, i: int)
    requires
        0 <= i < s.len(),
        s[i].side == side,
        s[i].movable,
    ensures
        count_captured(s, side) < count_side(s, side),
    decreases s.len(),
{
    if i == s.len() - 1 {
        lemma_captured_at_most(s.drop_last(), side);
    } else {
        lemma_captured_below(s.drop_last(), side, i);
    }
}

} // verus!
