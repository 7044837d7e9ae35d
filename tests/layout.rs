use garden_chess::geometry::Point;
use garden_chess::pieces::{
    spawn_black_pieces, spawn_pawns, spawn_pieces, spawn_side, spawn_white_pieces, Interaction,
    PieceType, Side, FULL_SCALE, REST_DEPTH,
};
use garden_chess::position::{place, setup_placement};

const BACK_RANK: [PieceType; 8] = [
    PieceType::Rook,
    PieceType::Knight,
    PieceType::Bishop,
    PieceType::Queen,
    PieceType::King,
    PieceType::Bishop,
    PieceType::Knight,
    PieceType::Rook,
];

#[test]
fn place_corners_and_steps() {
    assert_eq!(place(0, 0), Point::new(-3500, -3500));
    assert_eq!(place(7, 7), Point::new(3500, 3500));
    assert_eq!(place(1, 0), Point::new(-2500, -3500));
    assert_eq!(place(0, 1), Point::new(-3500, -2500));
    assert_eq!(place(3, 6), Point::new(-500, 2500));
}

#[test]
fn placement_table_matches_layout() {
    let board = setup_placement();
    assert_eq!(board.positions.len(), 64);
    for rank in 0..8 {
        for file in 0..8 {
            assert_eq!(board.at(file, rank), place(file, rank));
        }
    }
    assert_eq!(board.at(1, 0), Point::new(-2500, -3500));
}

#[test]
fn spawn_side_white_and_black() {
    let board = setup_placement();
    for (side, home, pawns) in [(Side::White, 0, 1), (Side::Black, 7, 6)] {
        let mut pieces = Vec::new();
        spawn_side(&mut pieces, &board, side);
        assert_eq!(pieces.len(), 16);
        for f in 0..8 {
            let back = pieces[f];
            assert_eq!(back.side, side);
            assert_eq!(back.kind, BACK_RANK[f]);
            assert_eq!(back.pos, place(f, home));
            let pawn = pieces[8 + f];
            assert_eq!(pawn.side, side);
            assert_eq!(pawn.kind, PieceType::Pawn);
            assert_eq!(pawn.pos, place(f, pawns));
        }
        assert_eq!(pieces.iter().filter(|p| p.kind == PieceType::Pawn).count(), 8);
        for p in &pieces {
            assert!(p.movable);
            assert_eq!(p.state, Interaction::Idle);
            assert_eq!(p.depth, REST_DEPTH);
            assert_eq!(p.scale, FULL_SCALE);
        }
    }
}

#[test]
fn spawn_side_appends() {
    let board = setup_placement();
    let mut pieces = Vec::new();
    spawn_side(&mut pieces, &board, Side::White);
    spawn_side(&mut pieces, &board, Side::Black);
    assert_eq!(pieces.len(), 32);
    assert_eq!(pieces[16].side, Side::Black);
    assert_eq!(pieces[16].pos, Point::new(-3500, 3500));
}

#[test]
fn back_ranks_and_pawns() {
    let board = setup_placement();
    let mut white = Vec::new();
    spawn_white_pieces(&mut white, &board);
    assert_eq!(white.len(), 8);
    assert_eq!(white[3].kind, PieceType::Queen);
    assert_eq!(white[3].pos, Point::new(-500, -3500));
    assert_eq!(white[4].kind, PieceType::King);
    let mut black = Vec::new();
    spawn_black_pieces(&mut black, &board);
    assert_eq!(black.len(), 8);
    assert_eq!(black[3].kind, PieceType::Queen);
    assert_eq!(black[3].pos, Point::new(-500, 3500));
    assert!(black.iter().all(|p| p.side == Side::Black));
    let mut pawns = Vec::new();
    spawn_pawns(&mut pawns, &board);
    assert_eq!(pawns.len(), 16);
    assert_eq!(pawns[0].pos, Point::new(-3500, -2500));
    assert_eq!(pawns[0].side, Side::White);
    assert_eq!(pawns[15].pos, Point::new(3500, 2500));
    assert_eq!(pawns[15].side, Side::Black);
    assert!(pawns.iter().all(|p| p.kind == PieceType::Pawn));
}

#[test]
fn opening_layout_positions_distinct() {
    let board = setup_placement();
    let pieces = spawn_pieces(&board);
    assert_eq!(pieces.len(), 32);
    for i in 0..32 {
        for j in 0..32 {
            if i != j {
                assert_ne!(pieces[i].pos, pieces[j].pos);
            }
        }
    }
    assert_eq!(pieces.iter().filter(|p| p.side == Side::White).count(), 16);
    assert_eq!(pieces.iter().filter(|p| p.side == Side::Black).count(), 16);
    assert_eq!(pieces[0].kind, PieceType::Rook);
    assert_eq!(pieces[0].pos, Point::new(-3500, -3500));
    assert_eq!(pieces[1].kind, PieceType::Knight);
    assert_eq!(pieces[1].pos, Point::new(-2500, -3500));
    assert_eq!(pieces[31].pos, Point::new(3500, 3500));
}
