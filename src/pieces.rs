use vstd::prelude::*;
use crate::geometry::Point;
use crate::counting::{count_captured, count_side, lemma_count_concat, lemma_count_uniform};
use crate::position::{PIECES_PER_SIDE, Placement, square_pos};

verus! {

/// Depth of a piece at rest.
pub const REST_DEPTH: u8 = 1;
/// Depth of the piece being dragged, in front of all others.
pub const DRAG_DEPTH: u8 = 2;
/// Scale of a piece in play, in tenths.
pub const FULL_SCALE: u8 = 10;
/// Scale of a captured piece, in tenths.
pub const CAPTURED_SCALE: u8 = 4;
/// A pawn's promotion band spans the board's width, to this distance either
/// side of its centre line...
pub const BAND_HALF_WIDTH: i32 = 4000;
/// ...and lies between these distances from it, towards the far side.
pub const BAND_NEAR: i32 = 3000;
pub const BAND_FAR: i32 = 4000;

#[derive(Clone, Copy, Debug, PartialEq, Eq, Structural)]
pub enum Side {
    White,
    Black,
}

#[derive(Clone, Copy, Debug, PartialEq, Eq, Structural)]
pub enum PieceType {
    King,
    Queen,
    Bishop,
    Knight,
    Rook,
    Pawn,
}

/// The kinds a pawn may be promoted to.
#[derive(Clone, Copy, Debug, PartialEq, Eq, Structural)]
pub enum Promotion {
    Queen,
    Rook,
    Knight,
    Bishop,
}

/// Where a piece stands in the pick-up / drag / drop cycle.
#[derive(Clone, Copy, Debug, PartialEq, Eq, Structural)]
pub enum Interaction {
    Idle,
    Dragging,
    JustDropped,
}

#[derive(Clone, Copy, Debug, PartialEq, Eq, Structural)]
pub struct Piece {
    pub side: Side,
    pub kind: PieceType,
    pub pos: Point,
    pub depth: u8,
    /// In tenths.
    pub scale: u8,
    /// Cleared for good when the piece is captured.
    pub movable: bool,
    pub state: Interaction,
}

pub open spec fn promoted_kind(p: Promotion) -> PieceType {
    match p {
        Promotion::Queen => PieceType::Queen,
        Promotion::Rook => PieceType::Rook,
        Promotion::Knight => PieceType::Knight,
        Promotion::Bishop => PieceType::Bishop,
    }
}

impl Promotion {
    pub fn kind(self) -> (r: PieceType)
        ensures
            r == promoted_kind(self),
    {
        match self {
            Promotion::Queen => PieceType::Queen,
            Promotion::Rook => PieceType::Rook,
            Promotion::Knight => PieceType::Knight,
            Promotion::Bishop => PieceType::Bishop,
        }
    }
}

/// A piece as it is spawned: at rest, full size, movable.
pub open spec fn fresh(side: Side, kind: PieceType, pos: Point) -> Piece {
    Piece {
        side,
        kind,
        pos,
        depth: REST_DEPTH,
        scale: FULL_SCALE,
        movable: true,
        state: Interaction::Idle,
    }
}

impl Piece {
    pub fn new(side: Side, kind: PieceType, pos: Point) -> (r: Piece)
        ensures
            r == fresh(side, kind, pos),
    {
        Piece {
            side,
            kind,
            pos,
            depth: REST_DEPTH,
            scale: FULL_SCALE,
            movable: true,
            state: Interaction::Idle,
        }
    }
}

/// The kind on each file of a back rank.
pub open spec fn back_rank_kind(file: int) -> PieceType {
    if file == 0 || file == 7 {
        PieceType::Rook
    } else if file == 1 || file == 6 {
        PieceType::Knight
    } else if file == 2 || file == 5 {
        PieceType::Bishop
    } else if file == 3 {
        PieceType::Queen
    } else {
        PieceType::King
    }
}

pub open spec fn home_rank(side: Side) -> int {
    match side {
        Side::White => 0,
        Side::Black => 7,
    }
}

pub open spec fn pawn_rank(side: Side) -> int {
    match side {
        Side::White => 1,
        Side::Black => 6,
    }
}

pub open spec fn back_rank(side: Side) -> Seq<Piece> {
    Seq::new(8, |f: int| fresh(side, back_rank_kind(f), square_pos(f, home_rank(side))))
}

pub open spec fn pawn_row(side: Side) -> Seq<Piece> {
    Seq::new(8, |f: int| fresh(side, PieceType::Pawn, square_pos(f, pawn_rank(side))))
}

/// One side's sixteen pieces: its back rank, then its pawns.
pub open spec fn side_layout(side: Side) -> Seq<Piece> {
    back_rank(side) + pawn_row(side)
}

/// The opening layout, in spawn order.
pub open spec fn opening() -> Seq<Piece> {
    back_rank(Side::White) + pawn_row(Side::White) + pawn_row(Side::Black) + back_rank(
        Side::Black,
    )
}

/// The rank of each eight-piece row of the opening layout.
pub open spec fn opening_rank(row: int) -> int {
    if row == 0 {
        0
    } else if row == 1 {
        1
    } else if row == 2 {
        6
    } else {
        7
    }
}

/// The `k`-th piece of the opening layout.
pub proof fn lemma_opening_at(k: int)
    requires
        0 <= k < 2 * PIECES_PER_SIDE,
    ensures
        opening().len() == 2 * PIECES_PER_SIDE,
        opening()[k] == fresh(
            if k < PIECES_PER_SIDE {
                Side::White
            } else {
                Side::Black
            },
            if 8 <= k < 24 {
                PieceType::Pawn
            } else {
                back_rank_kind(k % 8)
            },
            square_pos(k % 8, opening_rank(k / 8)),
        ),
{
}

/// The opening layout holds sixteen pieces a side, none captured.
pub proof fn lemma_opening_counts()
    ensures
        opening().len() == 2 * PIECES_PER_SIDE,
        count_side(opening(), Side::White) == PIECES_PER_SIDE,
        count_side(opening(), Side::Black) == PIECES_PER_SIDE,
        count_captured(opening(), Side::White) == 0,
        count_captured(opening(), Side::Black) == 0,
{
    let a = back_rank(Side::White);
    let b = pawn_row(Side::White);
    let c = pawn_row(Side::Black);
    let d = back_rank(Side::Black);
    assert forall|side: Side|
        count_side(opening(), side) == (if side == Side::White { 16nat } else { 0nat }) + (
        if side == Side::Black {
            16nat
        } else {
            0nat
        }) && count_captured(opening(), side) == 0 by {
        lemma_count_concat(a, b, side);
        lemma_count_concat(a + b, c, side);
        lemma_count_concat(a + b + c, d, side);
        lemma_count_uniform(a, Side::White, side);
        lemma_count_uniform(b, Side::White, side);
        lemma_count_uniform(c, Side::Black, side);
        lemma_count_uniform(d, Side::Black, side);
    }
    assert(count_side(opening(), Side::White) == PIECES_PER_SIDE);
    assert(count_side(opening(), Side::Black) == PIECES_PER_SIDE);
}

fn back_rank_kind_at(file: usize) -> (r: PieceType)
    requires
        file < 8,
    ensures
        r == back_rank_kind(file as int),
{
    if file == 0 || file == 7 {
        PieceType::Rook
    } else if file == 1 || file == 6 {
        PieceType::Knight
    } else if file == 2 || file == 5 {
        PieceType::Bishop
    } else if file == 3 {
        PieceType::Queen
    } else {
        PieceType::King
    }
}

/// Appends one row of eight pieces: a side's back rank, or its pawns.
fn spawn_row(pieces: &mut Vec<Piece>, board: &Placement, side: Side, pawns: bool)
    requires
        board.wf(),
    ensures
        final(pieces)@ == old(pieces)@ + (if pawns {
            pawn_row(side)
        } else {
            back_rank(side)
        }),
{
    let ghost row = if pawns {
        pawn_row(side)
    } else {
        back_rank(side)
    };
    let rank: usize = if pawns {
        match side {
            Side::White => 1,
            Side::Black => 6,
        }
    } else {
        match side {
            Side::White => 0,
            Side::Black => 7,
        }
    };
    let mut file: usize = 0;
    while file < 8
        invariant
            file <= 8,
            board.wf(),
            rank < 8,
            rank == (if pawns { pawn_rank(side) } else { home_rank(side) }),
            row == (if pawns { pawn_row(side) } else { back_rank(side) }),
            pieces@ == old(pieces)@ + row.subrange(0, file as int),
        decreases 8 - file,
    {
        let kind = if pawns {
            PieceType::Pawn
        } else {
            back_rank_kind_at(file)
        };
        let pos = board.at(file, rank);
        pieces.push(Piece::new(side, kind, pos));
        assert(row.subrange(0, file as int + 1) =~= row.subrange(0, file as int).push(row[file as int]));
        file += 1;
    }
    assert(row.subrange(0, 8) =~= row);
}

/// Appends the white back rank: Rook, Knight, Bishop, Queen, King, Bishop,
/// Knight, Rook on rank one.
pub fn spawn_white_pieces(pieces: &mut Vec<Piece>, board: &Placement)
    requires
        board.wf(),
    ensures
        final(pieces)@ == old(pieces)@ + back_rank(Side::White),
{
    spawn_row(pieces, board, Side::White, false);
}

/// Appends the black back rank, in the same order as White's, on rank eight.
pub fn spawn_black_pieces(pieces: &mut Vec<Piece>, board: &Placement)
    requires
        board.wf(),
    ensures
        final(pieces)@ == old(pieces)@ + back_rank(Side::Black),
{
    spawn_row(pieces, board, Side::Black, false);
}

/// Appends the white pawns on rank two, then the black pawns on rank seven.
pub fn spawn_pawns(pieces: &mut Vec<Piece>, board: &Placement)
    requires
        board.wf(),
    ensures
        final(pieces)@ == old(pieces)@ + pawn_row(Side::White) + pawn_row(Side::Black),
{
    spawn_row(pieces, board, Side::White, true);
    spawn_row(pieces, board, Side::Black, true);
}

/// Appends one side's sixteen pieces: its back rank, then its pawns.
pub fn spawn_side(pieces: &mut Vec<Piece>, board: &Placement, side: Side)
    requires
        board.wf(),
    ensures
        final(pieces)@ == old(pieces)@ + side_layout(side),
{
    spawn_row(pieces, board, side, false);
    spawn_row(pieces, board, side, true);
    proof {
        assert(old(pieces)@ + back_rank(side) + pawn_row(side) =~= old(pieces)@ + side_layout(side));
    }
}

/// The opening layout: White's back rank, both sides' pawns, Black's back rank.
pub fn spawn_pieces(board: &Placement) -> (r: Vec<Piece>)
    requires
        board.wf(),
    ensures
        r@ == opening(),
{
    let mut pieces: Vec<Piece> = Vec::new();
    spawn_white_pieces(&mut pieces, board);
    spawn_pawns(&mut pieces, board);
    spawn_black_pieces(&mut pieces, board);
    proof {
        assert(pieces@ =~= opening());
    }
    pieces
}

} // verus!
