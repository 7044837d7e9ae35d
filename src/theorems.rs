//! Laws of the game that relate several steps or hold over every state.
use vstd::prelude::*;
use crate::gameplay::{
    GameView, TickInput, at_most_one_active, captures, friendly_overlap, game_wf, grabbable,
    in_promotion_band, index_in, is_first_grab, lemma_first_grab_unique, lemma_index_in,
    lemma_take_upto, lemma_tick_wf, none_in, spec_drag, spec_drop, spec_grab, spec_promote,
    spec_resolve, spec_tick, take_upto,
};
use crate::geometry::{PIECE_HALF, Point, overlaps};
use crate::pieces::{
    CAPTURED_SCALE, FULL_SCALE, Interaction, Piece, PieceType, Promotion, Side, back_rank_kind,
    fresh, home_rank, lemma_opening_at, opening, pawn_rank, side_layout,
};
use crate::position::{CaptureZone, CaptureZones, MOVEOVER, PIECES_PER_SIDE, slot_at, square_pos};

verus! {

/// Each side's layout is its eight back-rank pieces, Rook, Knight, Bishop,
/// Queen, King, Bishop, Knight, Rook, on the squares of its home rank, then its
/// eight pawns on the squares of the next rank in.
pub proof fn lemma_side_layout(side: Side)
    ensures
        side_layout(side).len() == PIECES_PER_SIDE,
        forall|f: int|
            0 <= f < 8 ==> #[trigger] side_layout(side)[f] == fresh(
                side,
                back_rank_kind(f),
                square_pos(f, home_rank(side)),
            ) && back_rank_kind(f) != PieceType::Pawn,
        forall|f: int|
            0 <= f < 8 ==> #[trigger] side_layout(side)[8 + f] == fresh(
                side,
                PieceType::Pawn,
                square_pos(f, pawn_rank(side)),
            ),
{
}

/// No two pieces of the opening layout share a world position.
pub proof fn lemma_opening_distinct()
    ensures
        opening().len() == 2 * PIECES_PER_SIDE,
        forall|i: int, j: int|
            0 <= i < opening().len() && 0 <= j < opening().len() && i != j ==> (
            #[trigger] opening()[i]).pos != (#[trigger] opening()[j]).pos,
{
    lemma_opening_at(0);
    assert forall|i: int, j: int|
        0 <= i < opening().len() && 0 <= j < opening().len() && i != j implies (
        #[trigger] opening()[i]).pos != (#[trigger] opening()[j]).pos by {
        lemma_opening_at(i);
        lemma_opening_at(j);
    }
}

/// The state after each input of `inputs` in turn.
pub open spec fn run(v: GameView, inputs: Seq<TickInput>) -> GameView
    decreases inputs.len(),
{
    if inputs.len() == 0 {
        v
    } else {
        run(spec_tick(v, inputs[0]), inputs.drop_first())
    }
}

/// Whatever the inputs, at most one piece is being dragged at any tick.
pub proof fn lemma_single_drag(v: GameView, inputs: Seq<TickInput>)
    requires
        game_wf(v),
    ensures
        game_wf(run(v, inputs)),
        forall|i: int, j: int|
            0 <= i < run(v, inputs).pieces.len() && 0 <= j < run(v, inputs).pieces.len() && (
            #[trigger] run(v, inputs).pieces[i]).state == Interaction::Dragging && (
            #[trigger] run(v, inputs).pieces[j]).state == Interaction::Dragging ==> i == j,
    decreases inputs.len(),
{
    if inputs.len() > 0 {
        lemma_tick_wf(v, inputs[0]);
        lemma_single_drag(spec_tick(v, inputs[0]), inputs.drop_first());
    }
    let w = run(v, inputs);
    assert(at_most_one_active(w.pieces));
}

/// A tick that presses the primary button at `p`.
pub open spec fn press_at(p: Point) -> TickInput {
    TickInput { pointer: Some(p), press: true, release: false, promote: None, reset: false }
}

/// A tick that releases the primary button at `q`.
pub open spec fn release_at(q: Point) -> TickInput {
    TickInput { pointer: Some(q), press: false, release: true, promote: None, reset: false }
}

/// A capture pass in which nothing is captured changes nothing.
pub proof fn lemma_take_nothing(v: GameView, d: int, k: nat)
    requires
        forall|j: int| 0 <= j < v.pieces.len() ==> !#[trigger] captures(v.pieces, d, j),
        k <= v.pieces.len(),
    ensures
        take_upto(v, d, k) == v,
    decreases k,
{
    if k > 0 {
        lemma_take_nothing(v, d, (k - 1) as nat);
    }
}

/// Releasing the dragged piece where the box of no other uncaptured piece
/// overlaps it leaves it at the pointer's last position, at rest, with every
/// other piece and both capture zones unchanged.
pub proof fn lemma_free_drop(v: GameView, d: int, q: Point)
    requires
        game_wf(v),
        0 <= d < v.pieces.len(),
        v.pieces[d].state == Interaction::Dragging,
        forall|j: int|
            0 <= j < v.pieces.len() && j != d && (#[trigger] v.pieces[j]).movable ==> !overlaps(
                v.pieces[j].pos,
                q,
            ),
    ensures
        spec_tick(v, release_at(q)).pieces[d].pos == q,
        spec_tick(v, release_at(q)).pieces[d].state == Interaction::Idle,
        spec_tick(v, release_at(q)).zones == v.zones,
        forall|j: int|
            0 <= j < v.pieces.len() && j != d ==> #[trigger] spec_tick(v, release_at(q)).pieces[j]
                == v.pieces[j],
{
    let input = release_at(q);
    let g = spec_grab(v, input.pointer, input.press);
    assert(g == v);
    lemma_index_in(v.pieces, Interaction::Dragging, d);
    let dg = spec_drag(v, input.pointer);
    lemma_index_in(dg.pieces, Interaction::Dragging, d);
    let dp = spec_drop(dg, true);
    lemma_index_in(dp.pieces, Interaction::JustDropped, d);
    assert(!friendly_overlap(dp.pieces, d));
    assert forall|j: int| 0 <= j < dp.pieces.len() implies !#[trigger] captures(dp.pieces, d, j) by {
        if j != d && dp.pieces[j].movable {
            assert(!overlaps(v.pieces[j].pos, q));
        }
    }
    lemma_take_nothing(dp, d, dp.pieces.len());
}

/// Dropping a piece onto the box of an uncaptured piece of its own side puts
/// it back exactly where it was picked up; repeating the same grab and drop
/// from there changes nothing.
pub proof fn lemma_illegal_drop_reverts(v: GameView, p: Point, q: Point, i: int, f: int)
    requires
        game_wf(v),
        forall|k: int| 0 <= k < v.pieces.len() ==> (#[trigger] v.pieces[k]).state == Interaction::Idle,
        is_first_grab(v.pieces, p, i),
        0 <= f < v.pieces.len(),
        f != i,
        v.pieces[f].side == v.pieces[i].side,
        v.pieces[f].movable,
        overlaps(v.pieces[f].pos, q),
    ensures
        spec_tick(spec_tick(v, press_at(p)), release_at(q)).pieces[i].pos == v.pieces[i].pos,
        spec_tick(spec_tick(v, press_at(p)), release_at(q)).pieces[i].state == Interaction::Idle,
        spec_tick(spec_tick(v, press_at(p)), release_at(q)).zones == v.zones,
        forall|k: int|
            0 <= k < v.pieces.len() && k != i ==> #[trigger] spec_tick(
                spec_tick(v, press_at(p)),
                release_at(q),
            ).pieces[k] == v.pieces[k],
        spec_tick(
            spec_tick(spec_tick(spec_tick(v, press_at(p)), release_at(q)), press_at(p)),
            release_at(q),
        ) == spec_tick(spec_tick(v, press_at(p)), release_at(q)),
{
    let w = lemma_grab_then_illegal_drop(v, p, q, i, f);
    assert forall|k: int| 0 <= k < w.pieces.len() implies grabbable(#[trigger] w.pieces[k], p)
        == grabbable(v.pieces[k], p) by {
        if k != i {
            assert(w.pieces[k] == v.pieces[k]);
        }
    }
    assert(is_first_grab(w.pieces, p, i));
    let w2 = lemma_grab_then_illegal_drop(w, p, q, i, f);
    assert(w2.pieces =~= w.pieces);
}

/// One grab at `p` of piece `i` and a drop at `q` on its own side's piece
/// `f`: the result, returned.
proof fn lemma_grab_then_illegal_drop(v: GameView, p: Point, q: Point, i: int, f: int) -> (w:
    GameView)
    requires
        game_wf(v),
        forall|k: int| 0 <= k < v.pieces.len() ==> (#[trigger] v.pieces[k]).state == Interaction::Idle,
        is_first_grab(v.pieces, p, i),
        0 <= f < v.pieces.len(),
        f != i,
        v.pieces[f].side == v.pieces[i].side,
        v.pieces[f].movable,
        overlaps(v.pieces[f].pos, q),
    ensures
        w == spec_tick(spec_tick(v, press_at(p)), release_at(q)),
        game_wf(w),
        w.pieces.len() == v.pieces.len(),
        w.pieces[i] == (Piece {
            depth: crate::pieces::REST_DEPTH,
            state: Interaction::Idle,
            ..v.pieces[i]
        }),
        w.previous == v.pieces[i].pos,
        w.zones == v.zones,
        forall|k: int| 0 <= k < v.pieces.len() && k != i ==> #[trigger] w.pieces[k] == v.pieces[k],
        forall|k: int| 0 <= k < v.pieces.len() ==> (#[trigger] w.pieces[k]).state == Interaction::Idle,
{
    lemma_first_grab_unique(v.pieces, p, choose|c: int| is_first_grab(v.pieces, p, c), i);
    let g = spec_grab(v, Some(p), true);
    assert(forall|k: int| 0 <= k < v.pieces.len() && k != i ==> #[trigger] g.pieces[k] == v.pieces[k]);
    lemma_index_in(g.pieces, Interaction::Dragging, i);
    let dg = spec_drag(g, Some(p));
    let v1 = spec_tick(v, press_at(p));
    lemma_index_in(dg.pieces, Interaction::Dragging, i);
    assert(none_in(dg.pieces, Interaction::JustDropped));
    assert(v1 == dg);
    lemma_tick_wf(v, press_at(p));
    lemma_index_in(v1.pieces, Interaction::Dragging, i);
    let dg2 = spec_drag(v1, Some(q));
    lemma_index_in(dg2.pieces, Interaction::Dragging, i);
    let dp = spec_drop(dg2, true);
    lemma_index_in(dp.pieces, Interaction::JustDropped, i);
    assert(dp.pieces[f] == v.pieces[f]);
    assert(friendly_overlap(dp.pieces, i));
    let w = spec_tick(v1, release_at(q));
    lemma_tick_wf(v1, release_at(q));
    assert forall|k: int| 0 <= k < v.pieces.len() implies (#[trigger] w.pieces[k]).state
        == Interaction::Idle by {
        if k != i {
            assert(w.pieces[k] == v.pieces[k]);
        }
    }
    w
}

/// Dropping a piece onto the box of exactly one uncaptured opposing piece,
/// and of no piece of its own side, sends that piece to the next free slot of
/// its side's capture zone, shrunk and no longer movable, and moves that
/// zone's cursor on by one slot.
pub proof fn lemma_capture(v: GameView, d: int, q: Point, c: int)
    requires
        game_wf(v),
        0 <= d < v.pieces.len(),
        v.pieces[d].state == Interaction::Dragging,
        forall|j: int|
            0 <= j < v.pieces.len() && j != d && (#[trigger] v.pieces[j]).side == v.pieces[d].side
                && v.pieces[j].movable ==> !overlaps(v.pieces[j].pos, q),
        0 <= c < v.pieces.len(),
        v.pieces[c].side != v.pieces[d].side,
        v.pieces[c].movable,
        overlaps(v.pieces[c].pos, q),
        forall|j: int|
            0 <= j < v.pieces.len() && j != c && (#[trigger] v.pieces[j]).side != v.pieces[d].side
                && v.pieces[j].movable ==> !overlaps(v.pieces[j].pos, q),
    ensures
        spec_tick(v, release_at(q)).pieces[c] == (Piece {
            pos: v.zones.zone(v.pieces[c].side).next,
            scale: CAPTURED_SCALE,
            movable: false,
            ..v.pieces[c]
        }),
        spec_tick(v, release_at(q)).zones == v.zones.advanced(v.pieces[c].side),
        spec_tick(v, release_at(q)).pieces[d].pos == q,
{
    let input = release_at(q);
    lemma_index_in(v.pieces, Interaction::Dragging, d);
    let dg = spec_drag(v, input.pointer);
    crate::gameplay::lemma_drag_wf(v, input.pointer);
    lemma_index_in(dg.pieces, Interaction::Dragging, d);
    let dp = spec_drop(dg, true);
    crate::gameplay::lemma_drop_wf(dg, true);
    lemma_index_in(dp.pieces, Interaction::JustDropped, d);
    assert(!friendly_overlap(dp.pieces, d));
    assert(captures(dp.pieces, d, c));
    assert forall|j: int| 0 <= j < dp.pieces.len() && j != c implies !#[trigger] captures(dp.pieces, d, j) by {
        if j != d && dp.pieces[j].side != dp.pieces[d].side && dp.pieces[j].movable {
            assert(!overlaps(v.pieces[j].pos, q));
        }
    }
    let n = dp.pieces.len();
    lemma_take_single(dp, d, c, n);
}

/// In a capture pass where only piece `c` is captured, the pass up to `k`
/// has captured it exactly when it has reached it.
proof fn lemma_take_single(v: GameView, d: int, c: int, k: nat)
    requires
        game_wf(v),
        0 <= d < v.pieces.len(),
        v.pieces[d].state == Interaction::JustDropped,
        0 <= c < v.pieces.len(),
        captures(v.pieces, d, c),
        forall|j: int| 0 <= j < v.pieces.len() && j != c ==> !#[trigger] captures(v.pieces, d, j),
        k <= v.pieces.len(),
    ensures
        take_upto(v, d, k) == (if k <= c {
            v
        } else {
            GameView {
                pieces: v.pieces.update(
                    c,
                    Piece {
                        pos: v.zones.zone(v.pieces[c].side).next,
                        scale: CAPTURED_SCALE,
                        movable: false,
                        ..v.pieces[c]
                    },
                ),
                previous: v.previous,
                zones: v.zones.advanced(v.pieces[c].side),
            }
        }),
    decreases k,
{
    if k > 0 {
        lemma_take_single(v, d, c, (k - 1) as nat);
        let u = take_upto(v, d, (k - 1) as nat);
        let j = k - 1;
        if j != c {
            assert(u.pieces[j] == v.pieces[j]);
            assert(u.pieces[d] == v.pieces[d]);
            assert(!captures(v.pieces, d, j));
            assert(!captures(u.pieces, d, j));
        }
    }
}

/// Two different slots of one capture zone lie at least one step apart on
/// some axis: boxes shrunk to the captured scale placed on them do not
/// overlap.
pub proof fn lemma_slots_apart(side: Side, m: int, n: int)
    requires
        0 <= m < n <= PIECES_PER_SIDE,
    ensures
        ({
            let a = slot_at(side, m);
            let b = slot_at(side, n);
            a.x - b.x >= MOVEOVER || b.x - a.x >= MOVEOVER || a.y - b.y >= MOVEOVER || b.y - a.y
                >= MOVEOVER
        }),
        2 * PIECE_HALF * CAPTURED_SCALE < MOVEOVER * FULL_SCALE,
{
}

/// The cursor of a zone moves on to a slot apart from the one it handed out.
pub proof fn lemma_next_slot_apart(z: CaptureZone)
    requires
        z.wf(),
        z.taken < PIECES_PER_SIDE,
    ensures
        z.advanced().wf(),
        z.advanced().taken == z.taken + 1,
        ({
            let a = z.next;
            let b = z.advanced().next;
            a.x - b.x >= MOVEOVER || b.x - a.x >= MOVEOVER || a.y - b.y >= MOVEOVER || b.y - a.y
                >= MOVEOVER
        }),
{
    lemma_slots_apart(z.side, z.taken as int, z.taken + 1);
}

/// A pawn in its promotion band, with no piece picked up, becomes a Queen on
/// the Queen key, and nothing else about it changes.
pub proof fn lemma_promote_queen(v: GameView, k: int, pointer: Option<Point>)
    requires
        game_wf(v),
        forall|j: int| 0 <= j < v.pieces.len() ==> (#[trigger] v.pieces[j]).state == Interaction::Idle,
        0 <= k < v.pieces.len(),
        v.pieces[k].kind == PieceType::Pawn,
        in_promotion_band(v.pieces[k]),
    ensures
        spec_tick(
            v,
            TickInput {
                pointer,
                press: false,
                release: false,
                promote: Some(Promotion::Queen),
                reset: false,
            },
        ).pieces[k] == (Piece { kind: PieceType::Queen, ..v.pieces[k] }),
{
    let input = TickInput {
        pointer,
        press: false,
        release: false,
        promote: Some(Promotion::Queen),
        reset: false,
    };
    let dp = spec_drop(spec_drag(spec_grab(v, pointer, false), pointer), false);
    assert(dp == v);
    assert(spec_resolve(v) == v);
}

/// A tick without a promotion key or reset changes no piece's kind; so a
/// promoted pawn stays what it became.
pub proof fn lemma_kinds_stay(v: GameView, input: TickInput)
    requires
        game_wf(v),
        input.promote == None::<Promotion>,
        !input.reset,
    ensures
        spec_tick(v, input).pieces.len() == v.pieces.len(),
        forall|k: int|
            0 <= k < v.pieces.len() ==> (#[trigger] spec_tick(v, input).pieces[k]).kind
                == v.pieces[k].kind,
{
    lemma_kinds_stay_but_promotion(v, input);
}

/// No tick but a reset changes the kind of a piece that is not a pawn: a
/// promotion happens at most once.
pub proof fn lemma_promotion_once(v: GameView, input: TickInput)
    requires
        game_wf(v),
        !input.reset,
    ensures
        spec_tick(v, input).pieces.len() == v.pieces.len(),
        forall|k: int|
            0 <= k < v.pieces.len() && v.pieces[k].kind != PieceType::Pawn ==> (
            #[trigger] spec_tick(v, input).pieces[k]).kind == v.pieces[k].kind,
{
    lemma_kinds_stay_but_promotion(v, input);
}

proof fn lemma_kinds_stay_but_promotion(v: GameView, input: TickInput)
    requires
        game_wf(v),
        !input.reset,
    ensures
        ({
            let r = spec_resolve(
                spec_drop(spec_drag(spec_grab(v, input.pointer, input.press), input.pointer), input.release),
            );
            &&& r.pieces.len() == v.pieces.len()
            &&& forall|k: int| 0 <= k < v.pieces.len() ==> (#[trigger] r.pieces[k]).kind == v.pieces[k].kind
            &&& spec_tick(v, input) == spec_promote(r, input.promote)
        }),
        spec_tick(v, input).pieces.len() == v.pieces.len(),
        input.promote == None::<Promotion> ==> forall|k: int|
            0 <= k < v.pieces.len() ==> (#[trigger] spec_tick(v, input).pieces[k]).kind
                == v.pieces[k].kind,
        forall|k: int|
            0 <= k < v.pieces.len() && v.pieces[k].kind != PieceType::Pawn ==> (
            #[trigger] spec_tick(v, input).pieces[k]).kind == v.pieces[k].kind,
{
    crate::gameplay::lemma_grab_wf(v, input.pointer, input.press);
    let g = spec_grab(v, input.pointer, input.press);
    crate::gameplay::lemma_drag_wf(g, input.pointer);
    let dg = spec_drag(g, input.pointer);
    crate::gameplay::lemma_drop_wf(dg, input.release);
    let dp = spec_drop(dg, input.release);
    if !none_in(dp.pieces, Interaction::JustDropped) {
        let d = index_in(dp.pieces, Interaction::JustDropped);
        lemma_take_upto(dp, d, dp.pieces.len());
    }
}

/// A reset, whatever came before, discards every piece, captured or not, and
/// brings back the thirty-two pieces of the opening layout, at rest and
/// movable, with both capture zones empty and their cursors at their first slots.
pub proof fn lemma_reset(v: GameView, input: TickInput)
    requires
        input.reset,
    ensures
        spec_tick(v, input).pieces == opening(),
        spec_tick(v, input).pieces.len() == 2 * PIECES_PER_SIDE,
        forall|k: int|
            0 <= k < 2 * PIECES_PER_SIDE ==> (#[trigger] spec_tick(v, input).pieces[k]).movable
                && spec_tick(v, input).pieces[k].state == Interaction::Idle
                && spec_tick(v, input).pieces[k].scale == FULL_SCALE,
        spec_tick(v, input).zones == CaptureZones::initial(),
        spec_tick(v, input).zones.white_pos.next == slot_at(Side::White, 0),
        spec_tick(v, input).zones.black_pos.next == slot_at(Side::Black, 0),
        spec_tick(v, input).zones.white_pos.taken == 0,
        spec_tick(v, input).zones.black_pos.taken == 0,
{
    assert forall|k: int| 0 <= k < 2 * PIECES_PER_SIDE implies (#[trigger] spec_tick(
        v,
        input,
    ).pieces[k]).movable && spec_tick(v, input).pieces[k].state == Interaction::Idle
        && spec_tick(v, input).pieces[k].scale == FULL_SCALE by {
        lemma_opening_at(k);
    }
}

} // verus!
