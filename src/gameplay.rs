use vstd::prelude::*;
use crate::counting::{
    count_captured, count_side, lemma_captured_below, lemma_count_agree, lemma_count_update,
};
use crate::geometry::{Point, check_for_collisions, contains, hit, overlaps};
use crate::pieces::{
    BAND_FAR, BAND_HALF_WIDTH, BAND_NEAR, CAPTURED_SCALE, DRAG_DEPTH, Interaction, Piece, PieceType,
    Promotion, REST_DEPTH, Side, lemma_opening_at, lemma_opening_counts, opening, promoted_kind,
    spawn_pieces,
};
use crate::position::{CaptureZones, PIECES_PER_SIDE, Placement, setup_placement, setup_profiles};

verus! {

/// What the pointer and keyboard report for one update tick.
#[derive(Clone, Copy, Debug, PartialEq, Eq, Structural)]
pub struct TickInput {
    /// The pointer's world position, `None` when it is off the window.
    pub pointer: Option<Point>,
    /// The primary button went down this tick.
    pub press: bool,
    /// The primary button went up this tick.
    pub release: bool,
    /// A promotion key went down this tick.
    pub promote: Option<crate::pieces::Promotion>,
    /// The reset key is down.
    pub reset: bool,
}

/// The game state as Verus reasons about it.
pub ghost struct GameView {
    pub pieces: Seq<Piece>,
    pub previous: Point,
    pub zones: CaptureZones,
}

/// The live pieces, the position the last grabbed piece was taken from, and
/// the two capture zones.
pub struct Game {
    pub pieces: Vec<Piece>,
    pub previous: Point,
    pub zones: CaptureZones,
    pub board: Placement,
}

impl View for Game {
    type V = GameView;

    open spec fn view(&self) -> GameView {
        GameView { pieces: self.pieces@, previous: self.previous, zones: self.zones }
    }
}

/// No two pieces are out of the resting state at once.
pub open spec fn at_most_one_active(s: Seq<Piece>) -> bool {
    forall|i: int, j: int|
        #![trigger s[i], s[j]]
        0 <= i < s.len() && 0 <= j < s.len() && s[i].state != Interaction::Idle && s[j].state
            != Interaction::Idle ==> i == j
}

pub open spec fn none_in(s: Seq<Piece>, st: Interaction) -> bool {
    forall|k: int| 0 <= k < s.len() ==> (#[trigger] s[k]).state != st
}

/// The piece in state `st`; meaningful when exactly one is.
pub open spec fn index_in(s: Seq<Piece>, st: Interaction) -> int {
    choose|k: int| 0 <= k < s.len() && (#[trigger] s[k]).state == st
}

/// The invariant of a game: thirty-two pieces, sixteen a side; at most one
/// piece picked up, and only a movable one; each capture zone has handed out
/// one slot per captured piece of its side.
pub open spec fn game_wf(v: GameView) -> bool {
    &&& v.pieces.len() == 2 * PIECES_PER_SIDE
    &&& at_most_one_active(v.pieces)
    &&& forall|k: int|
        0 <= k < v.pieces.len() && (#[trigger] v.pieces[k]).state != Interaction::Idle
            ==> v.pieces[k].movable
    &&& v.zones.wf()
    &&& count_side(v.pieces, Side::White) == PIECES_PER_SIDE
    &&& count_side(v.pieces, Side::Black) == PIECES_PER_SIDE
    &&& v.zones.white_pos.taken == count_captured(v.pieces, Side::White)
    &&& v.zones.black_pos.taken == count_captured(v.pieces, Side::Black)
}

pub proof fn lemma_index_in(s: Seq<Piece>, st: Interaction, k: int)
    requires
        at_most_one_active(s),
        st != Interaction::Idle,
        0 <= k < s.len(),
        s[k].state == st,
    ensures
        index_in(s, st) == k,
{
    let c = index_in(s, st);
    assert(s[c].state == st);
}

/// The pointer `p` may pick up `pc`.
pub open spec fn grabbable(pc: Piece, p: Point) -> bool {
    pc.movable && hit(pc.pos, p)
}

/// `i` is the first piece, in registry order, that the pointer may pick up.
pub open spec fn is_first_grab(s: Seq<Piece>, p: Point, i: int) -> bool {
    &&& 0 <= i < s.len()
    &&& grabbable(s[i], p)
    &&& forall|j: int| 0 <= j < i ==> !grabbable(#[trigger] s[j], p)
}

/// Grab: on a press with no piece being dragged, the first movable piece
/// under the pointer is picked up, its position remembered, and any piece
/// left from the previous drop returns to rest.
pub open spec fn spec_grab(v: GameView, pointer: Option<Point>, press: bool) -> GameView {
    match pointer {
        Some(p) => if press && none_in(v.pieces, Interaction::Dragging) && exists|i: int|
            is_first_grab(v.pieces, p, i) {
            let i = choose|i: int| is_first_grab(v.pieces, p, i);
            GameView {
                pieces: Seq::new(
                    v.pieces.len(),
                    |k: int|
                        if k == i {
                            Piece { state: Interaction::Dragging, ..v.pieces[k] }
                        } else if v.pieces[k].state == Interaction::JustDropped {
                            Piece { state: Interaction::Idle, ..v.pieces[k] }
                        } else {
                            v.pieces[k]
                        },
                ),
                previous: v.pieces[i].pos,
                zones: v.zones,
            }
        } else {
            v
        },
        None => v,
    }
}

pub proof fn lemma_first_grab_unique(s: Seq<Piece>, p: Point, i: int, j: int)
    requires
        is_first_grab(s, p, i),
        is_first_grab(s, p, j),
    ensures
        i == j,
{
    if i < j {
        assert(!grabbable(s[i], p));
    } else if j < i {
        assert(!grabbable(s[j], p));
    }
}

/// Facts that hold of a sequence whose sides and captures are those of `s`.
pub proof fn lemma_wf_same_sides(v: GameView, t: Seq<Piece>)
    requires
        game_wf(v),
        t.len() == v.pieces.len(),
        forall|k: int|
            0 <= k < t.len() ==> (#[trigger] t[k]).side == v.pieces[k].side && t[k].movable
                == v.pieces[k].movable,
    ensures
        count_side(t, Side::White) == PIECES_PER_SIDE,
        count_side(t, Side::Black) == PIECES_PER_SIDE,
        v.zones.white_pos.taken == count_captured(t, Side::White),
        v.zones.black_pos.taken == count_captured(t, Side::Black),
{
    lemma_count_agree(v.pieces, t, Side::White);
    lemma_count_agree(v.pieces, t, Side::Black);
}

pub proof fn lemma_grab_wf(v: GameView, pointer: Option<Point>, press: bool)
    requires
        game_wf(v),
    ensures
        game_wf(spec_grab(v, pointer, press)),
{
    let w = spec_grab(v, pointer, press);
    if w != v {
        lemma_wf_same_sides(v, w.pieces);
        let p = pointer->Some_0;
        let i = choose|i: int| is_first_grab(v.pieces, p, i);
        assert forall|a: int, b: int|
            #![trigger w.pieces[a], w.pieces[b]]
            0 <= a < w.pieces.len() && 0 <= b < w.pieces.len() && w.pieces[a].state
                != Interaction::Idle && w.pieces[b].state != Interaction::Idle implies a == b by {
            assert(a == i) by {
                if a != i {
                    assert(v.pieces[a].state != Interaction::Dragging);
                }
            }
            assert(b == i) by {
                if b != i {
                    assert(v.pieces[b].state != Interaction::Dragging);
                }
            }
        }
    }
}

/// Pieces whose states changed only by coming to rest, or by moving between
/// the two picked-up states of a movable piece, keep the invariant's state part.
pub proof fn lemma_active_subset(s: Seq<Piece>, t: Seq<Piece>)
    requires
        at_most_one_active(s),
        s.len() == t.len(),
        forall|k: int|
            0 <= k < t.len() && (#[trigger] t[k]).state != Interaction::Idle ==> s[k].state
                != Interaction::Idle && t[k].movable,
    ensures
        at_most_one_active(t),
        forall|k: int|
            0 <= k < t.len() && (#[trigger] t[k]).state != Interaction::Idle ==> t[k].movable,
{
    assert forall|a: int, b: int|
        #![trigger t[a], t[b]]
        0 <= a < t.len() && 0 <= b < t.len() && t[a].state != Interaction::Idle && t[b].state
            != Interaction::Idle implies a == b by {
        assert(s[a].state != Interaction::Idle && s[b].state != Interaction::Idle);
    }
}

/// Drag: the piece being dragged follows the pointer, in front of the others.
pub open spec fn spec_drag(v: GameView, pointer: Option<Point>) -> GameView {
    match pointer {
        Some(p) => if !none_in(v.pieces, Interaction::Dragging) {
            let d = index_in(v.pieces, Interaction::Dragging);
            GameView {
                pieces: v.pieces.update(d, Piece { pos: p, depth: DRAG_DEPTH, ..v.pieces[d] }),
                ..v
            }
        } else {
            v
        },
        None => v,
    }
}

/// Drop: on a release, the piece being dragged is put down at rest depth and
/// marked as just dropped.
pub open spec fn spec_drop(v: GameView, release: bool) -> GameView {
    if release && !none_in(v.pieces, Interaction::Dragging) {
        let d = index_in(v.pieces, Interaction::Dragging);
        GameView {
            pieces: v.pieces.update(
                d,
                Piece { state: Interaction::JustDropped, depth: REST_DEPTH, ..v.pieces[d] },
            ),
            ..v
        }
    } else {
        v
    }
}

/// Another uncaptured piece of the dropped piece's side overlaps it.
pub open spec fn friendly_overlap(s: Seq<Piece>, d: int) -> bool {
    exists|j: int|
        0 <= j < s.len() && j != d && (#[trigger] s[j]).side == s[d].side && s[j].movable
            && overlaps(s[j].pos, s[d].pos)
}

/// The dropped piece `d` captures piece `j`: an uncaptured piece of the other
/// side whose box overlaps it.
pub open spec fn captures(s: Seq<Piece>, d: int, j: int) -> bool {
    &&& j != d
    &&& s[j].side != s[d].side
    &&& s[j].movable
    &&& overlaps(s[j].pos, s[d].pos)
}

/// Piece `j`, if captured by `d`, goes to the next slot of its side's zone,
/// shrunk, and can no longer be picked up.
pub open spec fn take_one(v: GameView, d: int, j: int) -> GameView {
    if captures(v.pieces, d, j) {
        let side = v.pieces[j].side;
        GameView {
            pieces: v.pieces.update(
                j,
                Piece {
                    pos: v.zones.zone(side).next,
                    scale: CAPTURED_SCALE,
                    movable: false,
                    ..v.pieces[j]
                },
            ),
            previous: v.previous,
            zones: v.zones.advanced(side),
        }
    } else {
        v
    }
}

/// The capture pass over the first `k` pieces, in registry order.
pub open spec fn take_upto(v: GameView, d: int, k: nat) -> GameView
    decreases k,
{
    if k == 0 {
        v
    } else {
        take_one(take_upto(v, d, (k - 1) as nat), d, k - 1)
    }
}

/// Resolve a drop: a piece dropped onto one of its own side goes back to where
/// it was picked up; otherwise it captures every opposing piece it overlaps.
/// Either way it comes to rest.
pub open spec fn spec_resolve(v: GameView) -> GameView {
    if !none_in(v.pieces, Interaction::JustDropped) {
        let d = index_in(v.pieces, Interaction::JustDropped);
        if friendly_overlap(v.pieces, d) {
            GameView {
                pieces: v.pieces.update(
                    d,
                    Piece { pos: v.previous, state: Interaction::Idle, ..v.pieces[d] },
                ),
                ..v
            }
        } else {
            let w = take_upto(v, d, v.pieces.len());
            GameView {
                pieces: w.pieces.update(d, Piece { state: Interaction::Idle, ..w.pieces[d] }),
                ..w
            }
        }
    } else {
        v
    }
}

/// A pawn in the band at the far end of the board from its side.
pub open spec fn in_promotion_band(pc: Piece) -> bool {
    &&& -BAND_HALF_WIDTH <= pc.pos.x <= BAND_HALF_WIDTH
    &&& match pc.side {
        Side::White => BAND_NEAR <= pc.pos.y <= BAND_FAR,
        Side::Black => -BAND_FAR <= pc.pos.y <= -BAND_NEAR,
    }
}

pub open spec fn promotes(pc: Piece) -> bool {
    pc.kind == PieceType::Pawn && in_promotion_band(pc)
}

/// Promotion: on a promotion key, every pawn in its promotion band becomes
/// the chosen kind.
pub open spec fn spec_promote(v: GameView, choice: Option<Promotion>) -> GameView {
    match choice {
        Some(c) => GameView {
            pieces: Seq::new(
                v.pieces.len(),
                |k: int|
                    if promotes(v.pieces[k]) {
                        Piece { kind: promoted_kind(c), ..v.pieces[k] }
                    } else {
                        v.pieces[k]
                    },
            ),
            ..v
        },
        None => v,
    }
}

/// Reset: every piece is discarded and the opening layout spawned afresh, with
/// both capture zones empty.
pub open spec fn spec_reset(v: GameView) -> GameView {
    GameView { pieces: opening(), previous: v.previous, zones: CaptureZones::initial() }
}

/// One update tick: a reset, or else grab, drag, drop, the drop's resolution
/// and promotion, in that order.
pub open spec fn spec_tick(v: GameView, input: TickInput) -> GameView {
    if input.reset {
        spec_reset(v)
    } else {
        spec_promote(
            spec_resolve(
                spec_drop(spec_drag(spec_grab(v, input.pointer, input.press), input.pointer), input.release),
            ),
            input.promote,
        )
    }
}

pub proof fn lemma_drag_wf(v: GameView, pointer: Option<Point>)
    requires
        game_wf(v),
    ensures
        game_wf(spec_drag(v, pointer)),
{
    let w = spec_drag(v, pointer);
    lemma_wf_same_sides(v, w.pieces);
    lemma_active_subset(v.pieces, w.pieces);
}

pub proof fn lemma_drop_wf(v: GameView, release: bool)
    requires
        game_wf(v),
    ensures
        game_wf(spec_drop(v, release)),
{
    let w = spec_drop(v, release);
    lemma_wf_same_sides(v, w.pieces);
    lemma_active_subset(v.pieces, w.pieces);
}

/// The capture pass keeps the invariant, leaves the dropped piece and the
/// pieces not yet reached alone, and changes no piece's side, kind or state.
pub proof fn lemma_take_upto(v: GameView, d: int, k: nat)
    requires
        game_wf(v),
        0 <= d < v.pieces.len(),
        v.pieces[d].state == Interaction::JustDropped,
        k <= v.pieces.len(),
    ensures
        game_wf(take_upto(v, d, k)),
        take_upto(v, d, k).pieces.len() == v.pieces.len(),
        take_upto(v, d, k).pieces[d] == v.pieces[d],
        take_upto(v, d, k).previous == v.previous,
        forall|j: int| k <= j < v.pieces.len() ==> #[trigger] take_upto(v, d, k).pieces[j] == v.pieces[j],
        forall|j: int|
            0 <= j < v.pieces.len() ==> (#[trigger] take_upto(v, d, k).pieces[j]).state
                == v.pieces[j].state && take_upto(v, d, k).pieces[j].side == v.pieces[j].side
                && take_upto(v, d, k).pieces[j].kind == v.pieces[j].kind,
    decreases k,
{
    if k > 0 {
        let j = k - 1;
        lemma_take_upto(v, d, (k - 1) as nat);
        let u = take_upto(v, d, (k - 1) as nat);
        let w = take_upto(v, d, k);
        assert(w == take_one(u, d, j));
        if captures(u.pieces, d, j) {
            let side = u.pieces[j].side;
            let pc = w.pieces[j];
            lemma_captured_below(u.pieces, side, j);
            lemma_count_update(u.pieces, j, pc, Side::White);
            lemma_count_update(u.pieces, j, pc, Side::Black);
            assert(u.pieces[j].state == Interaction::Idle) by {
                assert(u.pieces[d].state != Interaction::Idle);
            }
            lemma_active_subset(u.pieces, w.pieces);
        }
    }
}

pub proof fn lemma_resolve_wf(v: GameView)
    requires
        game_wf(v),
    ensures
        game_wf(spec_resolve(v)),
{
    if !none_in(v.pieces, Interaction::JustDropped) {
        let d = index_in(v.pieces, Interaction::JustDropped);
        let r = spec_resolve(v);
        if friendly_overlap(v.pieces, d) {
            lemma_wf_same_sides(v, r.pieces);
            lemma_active_subset(v.pieces, r.pieces);
        } else {
            let w = take_upto(v, d, v.pieces.len());
            lemma_take_upto(v, d, v.pieces.len());
            lemma_wf_same_sides(w, r.pieces);
            lemma_active_subset(w.pieces, r.pieces);
        }
    }
}

pub proof fn lemma_promote_wf(v: GameView, choice: Option<Promotion>)
    requires
        game_wf(v),
    ensures
        game_wf(spec_promote(v, choice)),
{
    let w = spec_promote(v, choice);
    lemma_wf_same_sides(v, w.pieces);
    lemma_active_subset(v.pieces, w.pieces);
}

pub proof fn lemma_reset_wf(v: GameView)
    ensures
        game_wf(spec_reset(v)),
{
    let w = spec_reset(v);
    lemma_opening_counts();
    assert forall|a: int, b: int|
        #![trigger w.pieces[a], w.pieces[b]]
        0 <= a < w.pieces.len() && 0 <= b < w.pieces.len() && w.pieces[a].state
            != Interaction::Idle && w.pieces[b].state != Interaction::Idle implies a == b by {
        lemma_opening_at(a);
    }
    assert forall|k: int|
        0 <= k < w.pieces.len() && (#[trigger] w.pieces[k]).state != Interaction::Idle implies w.pieces[k].movable by {
        lemma_opening_at(k);
    }
}

/// Every tick keeps the invariant.
pub proof fn lemma_tick_wf(v: GameView, input: TickInput)
    requires
        game_wf(v),
    ensures
        game_wf(spec_tick(v, input)),
{
    if input.reset {
        lemma_reset_wf(v);
    } else {
        let g = spec_grab(v, input.pointer, input.press);
        lemma_grab_wf(v, input.pointer, input.press);
        let dg = spec_drag(g, input.pointer);
        lemma_drag_wf(g, input.pointer);
        let dp = spec_drop(dg, input.release);
        lemma_drop_wf(dg, input.release);
        lemma_resolve_wf(dp);
        lemma_promote_wf(spec_resolve(dp), input.promote);
    }
}

impl Game {
    pub open spec fn wf(&self) -> bool {
        self.board.wf() && game_wf(self@)
    }

    /// Index of the piece in state `st`, if any.
    fn find_in(&self, st: Interaction) -> (r: Option<usize>)
        requires
            self.wf(),
            st != Interaction::Idle,
        ensures
            match r {
                Some(k) => k < self.pieces@.len() && self.pieces@[k as int].state == st && k
                    == index_in(self.pieces@, st),
                None => none_in(self.pieces@, st),
            },
    {
        let n = self.pieces.len();
        let mut k: usize = 0;
        while k < n
            invariant
                self.wf(),
                st != Interaction::Idle,
                n == self.pieces@.len(),
                k <= n,
                forall|j: int| 0 <= j < k ==> (#[trigger] self.pieces@[j]).state != st,
            decreases n - k,
        {
            if self.pieces[k].state == st {
                proof {
                    lemma_index_in(self.pieces@, st, k as int);
                }
                return Some(k);
            }
            k += 1;
        }
        None
    }

    /// The first piece, in registry order, that the pointer `p` may pick up.
    fn first_grab(&self, p: Point) -> (r: Option<usize>)
        ensures
            match r {
                Some(i) => is_first_grab(self.pieces@, p, i as int),
                None => forall|i: int| !is_first_grab(self.pieces@, p, i),
            },
    {
        let n = self.pieces.len();
        let mut i: usize = 0;
        while i < n
            invariant
                n == self.pieces@.len(),
                i <= n,
                forall|j: int| 0 <= j < i ==> !grabbable(#[trigger] self.pieces@[j], p),
            decreases n - i,
        {
            if self.pieces[i].movable && contains(self.pieces[i].pos, p) {
                return Some(i);
            }
            i += 1;
        }
        proof {
            assert forall|c: int| !is_first_grab(self.pieces@, p, c) by {
                if 0 <= c < n {
                    assert(!grabbable(self.pieces@[c], p));
                }
            }
        }
        None
    }

    /// Grab: see `spec_grab`.
    pub fn grab(&mut self, pointer: Option<Point>, press: bool)
        requires
            old(self).wf(),
        ensures
            final(self)@ == spec_grab(old(self)@, pointer, press),
            final(self).wf(),
            final(self).board == old(self).board,
    {
        proof {
            lemma_grab_wf(self@, pointer, press);
        }
        if !press {
            return;
        }
        let p = match pointer {
            Some(p) => p,
            None => return,
        };
        if self.find_in(Interaction::Dragging).is_some() {
            return;
        }
        let i = match self.first_grab(p) {
            Some(i) => i,
            None => return,
        };
        let n = self.pieces.len();
        proof {
            lemma_first_grab_unique(self.pieces@, p, choose|c: int| is_first_grab(self.pieces@, p, c), i as int);
        }
        let ghost target = spec_grab(self@, pointer, press).pieces;
        self.previous = self.pieces[i].pos;
        let mut k: usize = 0;
        while k < n
            invariant
                n == self.pieces@.len(),
                n == target.len(),
                i < n,
                self.previous == old(self).pieces@[i as int].pos,
                self.zones == old(self).zones,
                self.board == old(self).board,
                k <= n,
                forall|j: int| 0 <= j < k ==> (#[trigger] self.pieces@[j]) == target[j],
                forall|j: int| k <= j < n ==> target[j] == (if j == i {
                    Piece { state: Interaction::Dragging, ..self.pieces@[j] }
                } else if self.pieces@[j].state == Interaction::JustDropped {
                    Piece { state: Interaction::Idle, ..self.pieces@[j] }
                } else {
                    self.pieces@[j]
                }),
            decreases n - k,
        {
            let pc = self.pieces[k];
            if k == i {
                self.pieces.set(k, Piece { state: Interaction::Dragging, ..pc });
            } else if pc.state == Interaction::JustDropped {
                self.pieces.set(k, Piece { state: Interaction::Idle, ..pc });
            }
            k += 1;
        }
        assert(self.pieces@ =~= target);
    }
    /// Drag: see `spec_drag`.
    pub fn drag(&mut self, pointer: Option<Point>)
        requires
            old(self).wf(),
        ensures
            final(self)@ == spec_drag(old(self)@, pointer),
            final(self).wf(),
            final(self).board == old(self).board,
    {
        proof {
            lemma_drag_wf(self@, pointer);
        }
        if let Some(p) = pointer {
            if let Some(d) = self.find_in(Interaction::Dragging) {
                let pc = self.pieces[d];
                self.pieces.set(d, Piece { pos: p, depth: DRAG_DEPTH, ..pc });
            }
        }
    }

    /// Drop: see `spec_drop`.
    pub fn drop(&mut self, release: bool)
        requires
            old(self).wf(),
        ensures
            final(self)@ == spec_drop(old(self)@, release),
            final(self).wf(),
            final(self).board == old(self).board,
    {
        proof {
            lemma_drop_wf(self@, release);
        }
        if release {
            if let Some(d) = self.find_in(Interaction::Dragging) {
                let pc = self.pieces[d];
                self.pieces.set(d, Piece { state: Interaction::JustDropped, depth: REST_DEPTH, ..pc });
            }
        }
    }

    /// Whether another uncaptured piece of the dropped piece's side overlaps it.
    fn illegal_move(&self, d: usize) -> (r: bool)
        requires
            d < self.pieces@.len(),
        ensures
            r == friendly_overlap(self.pieces@, d as int),
    {
        let n = self.pieces.len();
        let dropped = self.pieces[d];
        let mut j: usize = 0;
        while j < n
            invariant
                n == self.pieces@.len(),
                d < n,
                dropped == self.pieces@[d as int],
                j <= n,
                forall|i: int|
                    0 <= i < j ==> !(i != d && (#[trigger] self.pieces@[i]).side == dropped.side
                        && self.pieces@[i].movable && overlaps(self.pieces@[i].pos, dropped.pos)),
            decreases n - j,
        {
            let pc = self.pieces[j];
            if j != d && pc.side == dropped.side && pc.movable && check_for_collisions(pc.pos, dropped.pos) {
                return true;
            }
            j += 1;
        }
        false
    }

    /// The capture pass of the piece `d` just dropped: see `take_upto`.
    fn take(&mut self, d: usize)
        requires
            old(self).wf(),
            d < old(self).pieces@.len(),
            old(self).pieces@[d as int].state == Interaction::JustDropped,
        ensures
            final(self)@ == take_upto(old(self)@, d as int, old(self).pieces@.len()),
            final(self).board == old(self).board,
    {
        let n = self.pieces.len();
        let mut j: usize = 0;
        while j < n
            invariant
                n == old(self).pieces@.len(),
                d < n,
                j <= n,
                old(self).wf(),
                old(self).pieces@[d as int].state == Interaction::JustDropped,
                self@ == take_upto(old(self)@, d as int, j as nat),
                self.board == old(self).board,
            decreases n - j,
        {
            proof {
                lemma_take_upto(old(self)@, d as int, j as nat);
            }
            let pc = self.pieces[j];
            let dropped = self.pieces[d];
            if j != d && pc.side != dropped.side && pc.movable && check_for_collisions(pc.pos, dropped.pos) {
                proof {
                    lemma_captured_below(self.pieces@, pc.side, j as int);
                }
                let slot = self.zones.next_slot(pc.side);
                self.pieces.set(j, Piece { pos: slot, scale: CAPTURED_SCALE, movable: false, ..pc });
            }
            j += 1;
        }
    }

    /// Resolve the drop, if a piece has just been dropped: see `spec_resolve`.
    pub fn resolve(&mut self)
        requires
            old(self).wf(),
        ensures
            final(self)@ == spec_resolve(old(self)@),
            final(self).wf(),
            final(self).board == old(self).board,
    {
        proof {
            lemma_resolve_wf(self@);
        }
        if let Some(d) = self.find_in(Interaction::JustDropped) {
            if self.illegal_move(d) {
                let pc = self.pieces[d];
                self.pieces.set(d, Piece { pos: self.previous, state: Interaction::Idle, ..pc });
            } else {
                proof {
                    lemma_take_upto(self@, d as int, self.pieces@.len());
                }
                self.take(d);
                let pc = self.pieces[d];
                self.pieces.set(d, Piece { state: Interaction::Idle, ..pc });
            }
        }
    }

    /// Promotion: see `spec_promote`.
    pub fn promote(&mut self, choice: Option<Promotion>)
        requires
            old(self).wf(),
        ensures
            final(self)@ == spec_promote(old(self)@, choice),
            final(self).wf(),
            final(self).board == old(self).board,
    {
        proof {
            lemma_promote_wf(self@, choice);
        }
        let c = match choice {
            Some(c) => c,
            None => return,
        };
        let kind = c.kind();
        let ghost target = spec_promote(self@, choice).pieces;
        let n = self.pieces.len();
        let mut k: usize = 0;
        while k < n
            invariant
                n == self.pieces@.len(),
                n == target.len(),
                k <= n,
                kind == promoted_kind(c),
                choice == Some(c),
                self.previous == old(self).previous,
                self.zones == old(self).zones,
                self.board == old(self).board,
                forall|j: int| 0 <= j < k ==> (#[trigger] self.pieces@[j]) == target[j],
                forall|j: int| k <= j < n ==> target[j] == (if promotes(self.pieces@[j]) {
                    Piece { kind: promoted_kind(c), ..self.pieces@[j] }
                } else {
                    self.pieces@[j]
                }),
            decreases n - k,
        {
            let pc = self.pieces[k];
            if pc.kind == PieceType::Pawn && in_band(pc) {
                self.pieces.set(k, Piece { kind, ..pc });
            }
            k += 1;
        }
        assert(self.pieces@ =~= target);
    }

    /// Reset: see `spec_reset`.
    pub fn reset(&mut self)
        requires
            old(self).wf(),
        ensures
            final(self)@ == spec_reset(old(self)@),
            final(self).wf(),
            final(self).board == old(self).board,
    {
        proof {
            lemma_reset_wf(self@);
        }
        self.pieces = spawn_pieces(&self.board);
        self.zones = setup_profiles();
    }

    /// A new game in the opening layout.
    pub fn new() -> (r: Game)
        ensures
            r.wf(),
            r@ == (GameView {
                pieces: opening(),
                previous: Point { x: 0, y: 0 },
                zones: CaptureZones::initial(),
            }),
    {
        let board = setup_placement();
        let pieces = spawn_pieces(&board);
        let zones = setup_profiles();
        proof {
            lemma_reset_wf(GameView { pieces: opening(), previous: Point { x: 0, y: 0 }, zones });
        }
        Game { pieces, previous: Point { x: 0, y: 0 }, zones, board }
    }

    /// One update tick: see `spec_tick`.
    pub fn tick(&mut self, input: TickInput)
        requires
            old(self).wf(),
        ensures
            final(self)@ == spec_tick(old(self)@, input),
            final(self).wf(),
    {
        if input.reset {
            self.reset();
        } else {
            self.grab(input.pointer, input.press);
            self.drag(input.pointer);
            self.drop(input.release);
            self.resolve();
            self.promote(input.promote);
        }
    }
}

/// Whether a piece lies in its promotion band.
pub fn in_band(pc: Piece) -> (r: bool)
    ensures
        r == in_promotion_band(pc),
{
    let x_ok = -BAND_HALF_WIDTH <= pc.pos.x && pc.pos.x <= BAND_HALF_WIDTH;
    match pc.side {
        Side::White => x_ok && BAND_NEAR <= pc.pos.y && pc.pos.y <= BAND_FAR,
        Side::Black => x_ok && -BAND_FAR <= pc.pos.y && pc.pos.y <= -BAND_NEAR,
    }
}

} // verus!
