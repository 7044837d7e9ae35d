use garden_chess::gameplay::{in_band, Game, TickInput};
use garden_chess::geometry::Point;
use garden_chess::pieces::{
    Interaction, Piece, PieceType, Promotion, Side, CAPTURED_SCALE, DRAG_DEPTH, FULL_SCALE,
    REST_DEPTH,
};
use garden_chess::position::setup_profiles;

fn at(x: i32, y: i32) -> TickInput {
    TickInput { pointer: Some(Point::new(x, y)), press: false, release: false, promote: None, reset: false }
}

fn press(x: i32, y: i32) -> TickInput {
    TickInput { press: true, ..at(x, y) }
}

fn release(x: i32, y: i32) -> TickInput {
    TickInput { release: true, ..at(x, y) }
}

fn idle() -> TickInput {
    TickInput { pointer: None, press: false, release: false, promote: None, reset: false }
}

fn key(p: Promotion) -> TickInput {
    TickInput { promote: Some(p), ..idle() }
}

fn dragging(game: &Game) -> Vec<usize> {
    (0..game.pieces.len()).filter(|&k| game.pieces[k].state == Interaction::Dragging).collect()
}

/// Picks up the piece under `from` and drops it at `to`.
fn move_piece(game: &mut Game, from: (i32, i32), to: (i32, i32)) {
    game.tick(press(from.0, from.1));
    game.tick(at(to.0, to.1));
    game.tick(release(to.0, to.1));
}

#[test]
fn new_game_opening() {
    let game = Game::new();
    assert_eq!(game.pieces.len(), 32);
    assert_eq!(game.zones, setup_profiles());
    assert!(game.pieces.iter().all(|p| p.state == Interaction::Idle && p.movable));
}

#[test]
fn grab_picks_piece_under_pointer() {
    let mut game = Game::new();
    game.grab(Some(Point::new(-3400, -3600)), true);
    assert_eq!(dragging(&game), vec![0]);
    assert_eq!(game.previous, Point::new(-3500, -3500));
    assert_eq!(game.pieces[0].pos, Point::new(-3500, -3500));
}

#[test]
fn grab_needs_press_and_piece() {
    let mut game = Game::new();
    let before = game.pieces.clone();
    game.grab(Some(Point::new(-3500, -3500)), false);
    game.grab(None, true);
    game.grab(Some(Point::new(-3000, -3000)), true);
    game.grab(Some(Point::new(0, 0)), true);
    assert_eq!(game.pieces, before);
    assert!(dragging(&game).is_empty());
}

#[test]
fn drag_follows_pointer_in_front() {
    let mut game = Game::new();
    game.tick(press(-3500, -3500));
    assert_eq!(game.pieces[0].depth, DRAG_DEPTH);
    game.drag(Some(Point::new(123, -456)));
    assert_eq!(game.pieces[0].pos, Point::new(123, -456));
    game.drag(None);
    assert_eq!(game.pieces[0].pos, Point::new(123, -456));
    assert_eq!(game.pieces[0].state, Interaction::Dragging);
}

#[test]
fn drop_marks_then_resolve_rests() {
    let mut game = Game::new();
    game.tick(press(-3500, -3500));
    game.drag(Some(Point::new(-3500, -500)));
    game.drop(false);
    assert_eq!(game.pieces[0].state, Interaction::Dragging);
    game.drop(true);
    assert_eq!(game.pieces[0].state, Interaction::JustDropped);
    assert_eq!(game.pieces[0].depth, REST_DEPTH);
    game.resolve();
    assert_eq!(game.pieces[0].state, Interaction::Idle);
    assert_eq!(game.pieces[0].pos, Point::new(-3500, -500));
}

#[test]
fn second_press_while_dragging_grabs_nothing() {
    let mut game = Game::new();
    game.tick(press(-3500, -3500));
    game.tick(press(-2500, -3500));
    game.tick(press(-1500, -3500));
    assert_eq!(dragging(&game), vec![0]);
    assert_eq!(game.pieces[1].state, Interaction::Idle);
    assert_eq!(game.pieces[0].pos, Point::new(-1500, -3500));
    assert_eq!(game.previous, Point::new(-3500, -3500));
}

#[test]
fn overlapping_boxes_first_in_order_wins() {
    let mut game = Game::new();
    // Put the white king right next to the white queen.
    move_piece(&mut game, (-500, -3500), (-500, -500));
    move_piece(&mut game, (500, -3500), (0, -500));
    game.tick(press(-250, -500));
    assert_eq!(dragging(&game), vec![3]);
}

#[test]
fn illegal_drop_onto_own_piece_reverts() {
    // The white rook on A1 dropped onto the white knight on A2.
    let mut game = Game::new();
    game.tick(press(-3500, -3500));
    game.tick(at(-2500, -3500));
    game.tick(release(-2500, -3500));
    assert_eq!(game.pieces[0].pos, Point::new(-3500, -3500));
    assert_eq!(game.pieces[0].state, Interaction::Idle);
    assert_eq!(game.pieces[1].pos, Point::new(-2500, -3500));
    assert_eq!(game.zones, setup_profiles());
}

#[test]
fn illegal_drop_repeated_changes_nothing() {
    let mut game = Game::new();
    move_piece(&mut game, (-3500, -3500), (-2500, -3500));
    let pieces = game.pieces.clone();
    let zones = game.zones;
    let previous = game.previous;
    move_piece(&mut game, (-3500, -3500), (-2500, -3500));
    assert_eq!(game.pieces, pieces);
    assert_eq!(game.zones, zones);
    assert_eq!(game.previous, previous);
    game.tick(idle());
    assert_eq!(game.pieces, pieces);
}

#[test]
fn free_drop_stays_at_pointer() {
    // The white rook on A1 dropped on an empty square.
    let mut game = Game::new();
    let before = game.pieces.clone();
    game.tick(press(-3500, -3500));
    game.tick(at(-3500, -500));
    game.tick(release(-3500, -500));
    assert_eq!(game.pieces[0].pos, Point::new(-3500, -500));
    assert_eq!(game.pieces[0].state, Interaction::Idle);
    assert_eq!(game.pieces[0].scale, FULL_SCALE);
    for k in 1..32 {
        assert_eq!(game.pieces[k], before[k]);
    }
    assert_eq!(game.zones, setup_profiles());
}

#[test]
fn free_drop_off_board_accepted() {
    let mut game = Game::new();
    move_piece(&mut game, (-3500, -2500), (20000, -20000));
    assert_eq!(game.pieces[8].pos, Point::new(20000, -20000));
}

#[test]
fn release_position_is_last_pointer() {
    let mut game = Game::new();
    game.tick(press(-3500, -3500));
    game.tick(at(-1000, -1000));
    game.tick(TickInput { pointer: None, release: true, ..idle() });
    assert_eq!(game.pieces[0].pos, Point::new(-1000, -1000));
    assert_eq!(game.pieces[0].state, Interaction::Idle);
}

#[test]
fn capture_sends_piece_to_zone() {
    let mut game = Game::new();
    // The white pawn on B1 dropped onto the black pawn on G1.
    move_piece(&mut game, (-3500, -2500), (-3500, 2500));
    let taken: Piece = game.pieces[16];
    assert_eq!(taken.side, Side::Black);
    assert_eq!(taken.pos, Point::new(-6000, -2500));
    assert_eq!(taken.scale, CAPTURED_SCALE);
    assert!(!taken.movable);
    assert_eq!(game.zones.black_pos.taken, 1);
    assert_eq!(game.zones.black_pos.next, Point::new(-5600, -2500));
    assert_eq!(game.zones.white_pos, setup_profiles().white_pos);
    assert_eq!(game.pieces[8].pos, Point::new(-3500, 2500));
}

#[test]
fn second_capture_takes_next_slot() {
    let mut game = Game::new();
    move_piece(&mut game, (-3500, -2500), (-3500, 2500));
    move_piece(&mut game, (-2500, -2500), (-2500, 2500));
    assert_eq!(game.pieces[16].pos, Point::new(-6000, -2500));
    assert_eq!(game.pieces[17].pos, Point::new(-5600, -2500));
    assert_eq!(game.zones.black_pos.taken, 2);
    // A black capture goes to White's zone.
    move_piece(&mut game, (-1500, 2500), (-1500, -2500));
    assert_eq!(game.pieces[10].pos, Point::new(-6000, 3500));
    assert_eq!(game.zones.white_pos.taken, 1);
}

#[test]
fn straddling_drop_captures_both() {
    let mut game = Game::new();
    move_piece(&mut game, (-3500, -2500), (-3000, 2500));
    assert!(!game.pieces[16].movable);
    assert!(!game.pieces[17].movable);
    assert_eq!(game.pieces[16].pos, Point::new(-6000, -2500));
    assert_eq!(game.pieces[17].pos, Point::new(-5600, -2500));
    assert_eq!(game.zones.black_pos.taken, 2);
}

#[test]
fn captured_piece_cannot_be_grabbed() {
    let mut game = Game::new();
    move_piece(&mut game, (-3500, -2500), (-3500, 2500));
    game.tick(press(-6000, -2500));
    assert!(dragging(&game).is_empty());
}

#[test]
fn dropping_on_captured_piece_is_free() {
    let mut game = Game::new();
    move_piece(&mut game, (-3500, -2500), (-3500, 2500));
    move_piece(&mut game, (-2500, -2500), (-6000, -2500));
    assert_eq!(game.pieces[9].pos, Point::new(-6000, -2500));
    assert_eq!(game.zones.black_pos.taken, 1);
}

#[test]
fn own_overlap_vetoes_capture() {
    let mut game = Game::new();
    // A white pawn is moved up first; a second one is then dropped where it
    // overlaps that pawn and two black pawns at once.
    move_piece(&mut game, (-3500, -2500), (-3500, 1500));
    move_piece(&mut game, (-2500, -2500), (-3000, 2000));
    assert_eq!(game.pieces[9].pos, Point::new(-2500, -2500));
    assert!(game.pieces[16].movable);
    assert!(game.pieces[17].movable);
    assert_eq!(game.zones.black_pos.taken, 0);
}

#[test]
fn pawn_promotes_once() {
    let mut game = Game::new();
    // The white pawn on B4 goes to the far rank.
    move_piece(&mut game, (-500, -2500), (-500, 3500));
    assert_eq!(game.pieces[11].kind, PieceType::Pawn);
    assert!(in_band(game.pieces[11]));
    game.tick(key(Promotion::Queen));
    assert_eq!(game.pieces[11].kind, PieceType::Queen);
    game.tick(idle());
    assert_eq!(game.pieces[11].kind, PieceType::Queen);
    game.tick(key(Promotion::Rook));
    assert_eq!(game.pieces[11].kind, PieceType::Queen);
    let pawns = game.pieces.iter().filter(|p| p.kind == PieceType::Pawn).count();
    assert_eq!(pawns, 15);
}

#[test]
fn pawn_outside_band_stays() {
    let mut game = Game::new();
    game.tick(key(Promotion::Queen));
    assert_eq!(game.pieces.iter().filter(|p| p.kind == PieceType::Pawn).count(), 16);
    move_piece(&mut game, (-500, -2500), (-500, 2900));
    game.tick(key(Promotion::Knight));
    assert_eq!(game.pieces[11].kind, PieceType::Pawn);
    for _ in 0..3 {
        game.tick(idle());
    }
    assert_eq!(game.pieces[11].kind, PieceType::Pawn);
}

#[test]
fn black_pawn_promotes_in_its_band() {
    let mut game = Game::new();
    move_piece(&mut game, (500, 2500), (500, -3500));
    let pawn = game.pieces[20];
    assert_eq!(pawn.side, Side::Black);
    assert!(in_band(pawn));
    game.tick(key(Promotion::Knight));
    assert_eq!(game.pieces[20].kind, PieceType::Knight);
    game.promote(Some(Promotion::Bishop));
    assert_eq!(game.pieces[20].kind, PieceType::Knight);
}

#[test]
fn band_edges() {
    let mut pawn = Piece::new(Side::White, PieceType::Pawn, Point::new(4000, 3000));
    assert!(in_band(pawn));
    pawn.pos = Point::new(4001, 3500);
    assert!(!in_band(pawn));
    pawn.pos = Point::new(0, 4001);
    assert!(!in_band(pawn));
    pawn.pos = Point::new(0, -3500);
    assert!(!in_band(pawn));
    pawn.side = Side::Black;
    assert!(in_band(pawn));
    pawn.pos = Point::new(-4000, -2999);
    assert!(!in_band(pawn));
}

#[test]
fn promotion_kinds() {
    assert_eq!(Promotion::Queen.kind(), PieceType::Queen);
    assert_eq!(Promotion::Rook.kind(), PieceType::Rook);
    assert_eq!(Promotion::Knight.kind(), PieceType::Knight);
    assert_eq!(Promotion::Bishop.kind(), PieceType::Bishop);
}

#[test]
fn reset_restores_opening() {
    let fresh = Game::new();
    let mut game = Game::new();
    move_piece(&mut game, (-3500, -2500), (-3500, 2500));
    move_piece(&mut game, (-500, -2500), (-500, 3500));
    game.tick(key(Promotion::Queen));
    game.tick(press(-3500, -3500));
    assert_ne!(game.pieces, fresh.pieces);
    game.tick(TickInput { reset: true, ..idle() });
    assert_eq!(game.pieces, fresh.pieces);
    assert_eq!(game.zones, setup_profiles());
    assert_eq!(game.pieces.len(), 32);
}

#[test]
fn reset_tick_ignores_other_input() {
    let fresh = Game::new();
    let mut game = Game::new();
    game.tick(TickInput { reset: true, ..press(-3500, -3500) });
    assert_eq!(game.pieces, fresh.pieces);
    game.reset();
    assert_eq!(game.pieces, fresh.pieces);
}
