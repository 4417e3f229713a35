use chess_core::board::Board;
use chess_core::piece::{Colour, Piece, PieceType};
use chess_core::position::Position;

fn count_kind(pieces: &Vec<Piece>, colour: Colour, kind: PieceType) -> usize {
    let mut n = 0;
    for p in pieces {
        if p.get_colour() == colour && p.get_piece_type() == kind {
            n += 1;
        }
    }
    n
}

#[test]
fn starting_layout_counts() {
    let board = Board::new();
    let pieces = board.state();
    assert_eq!(pieces.len(), 32);
    for colour in [Colour::Black, Colour::White] {
        assert_eq!(count_kind(&pieces, colour, PieceType::Pawn), 8);
        assert_eq!(count_kind(&pieces, colour, PieceType::Rook), 2);
        assert_eq!(count_kind(&pieces, colour, PieceType::Knight), 2);
        assert_eq!(count_kind(&pieces, colour, PieceType::Bishop), 2);
        assert_eq!(count_kind(&pieces, colour, PieceType::Queen), 1);
        assert_eq!(count_kind(&pieces, colour, PieceType::King), 1);
    }
}

#[test]
fn starting_layout_squares() {
    let board = Board::new();
    let back_rank = [
        PieceType::Rook,
        PieceType::Knight,
        PieceType::Bishop,
        PieceType::Queen,
        PieceType::King,
        PieceType::Bishop,
        PieceType::Knight,
        PieceType::Rook,
    ];
    for col in 0..8 {
        assert_eq!(
            board.get_piece(Position::new(0, col)),
            Some(Piece::new(back_rank[col as usize], Colour::Black, Position::new(0, col)))
        );
        assert_eq!(
            board.get_piece(Position::new(1, col)),
            Some(Piece::new(PieceType::Pawn, Colour::Black, Position::new(1, col)))
        );
        assert_eq!(
            board.get_piece(Position::new(6, col)),
            Some(Piece::new(PieceType::Pawn, Colour::White, Position::new(6, col)))
        );
        assert_eq!(
            board.get_piece(Position::new(7, col)),
            Some(Piece::new(back_rank[col as usize], Colour::White, Position::new(7, col)))
        );
        for row in 2..6 {
            assert_eq!(board.get_piece(Position::new(row, col)), None);
        }
    }
}

#[test]
fn off_board_closure() {
    let board = Board::new();
    for pos in [
        Position::new(-1, 0),
        Position::new(8, 0),
        Position::new(0, -1),
        Position::new(0, 8),
        Position::new(-3, 12),
        Position::new(100, 100),
    ] {
        assert!(!board.has_piece(pos));
        assert!(board.has_no_piece(pos));
        assert_eq!(board.get_piece(pos), None);
        for colour in [Colour::Black, Colour::White] {
            assert!(!board.has_enemy_piece(pos, colour));
            assert!(!board.has_friendly_piece(pos, colour));
        }
    }
}

#[test]
fn occupancy_relations() {
    let board = Board::new();
    let black_rook_home = Position::new(0, 0);
    assert!(board.has_piece(black_rook_home));
    assert!(board.has_friendly_piece(black_rook_home, Colour::Black));
    assert!(board.has_enemy_piece(black_rook_home, Colour::White));
    assert!(!board.has_enemy_piece(black_rook_home, Colour::Black));
    let empty = Position::new(4, 4);
    assert!(board.has_no_piece(empty));
    assert!(!board.has_enemy_piece(empty, Colour::White));
    assert!(!board.has_friendly_piece(empty, Colour::White));
}

#[test]
fn pawn_double_step_from_start() {
    let board = Board::new();
    let pawn = board.get_piece(Position::new(6, 1)).unwrap();
    let moves = pawn.legal_moves(&board);
    // double step first, then the single step; no captures on a fresh board
    assert_eq!(moves, vec![Position::new(4, 1), Position::new(5, 1)]);
    let double_count = moves.iter().filter(|m| **m == Position::new(4, 1)).count();
    assert_eq!(double_count, 1);
}

#[test]
fn pawn_double_step_gone_after_moving() {
    let mut board = Board::new();
    let pawn = board.get_piece(Position::new(6, 1)).unwrap();
    board = board.move_piece(pawn, Position::new(5, 1), Colour::White);
    let pawn = board.get_piece(Position::new(5, 1)).unwrap();
    assert_eq!(pawn.get_piece_type(), PieceType::Pawn);
    assert_eq!(pawn.legal_moves(&board), vec![Position::new(4, 1)]);
}

#[test]
fn pawn_blocked_ahead_has_no_moves() {
    let mut board = Board::new();
    // push the two A pawns until they stand face to face
    let wp = board.get_piece(Position::new(6, 0)).unwrap();
    board = board.move_piece(wp, Position::new(4, 0), Colour::White);
    let bp = board.get_piece(Position::new(1, 0)).unwrap();
    board = board.move_piece(bp, Position::new(3, 0), Colour::Black);
    let wp = board.get_piece(Position::new(4, 0)).unwrap();
    // blocked straight ahead, no enemy on either forward diagonal
    assert_eq!(wp.legal_moves(&board), vec![]);
}

#[test]
fn pawn_diagonal_capture_requires_enemy_on_target() {
    let mut board = Board::new();
    let wp = board.get_piece(Position::new(6, 0)).unwrap();
    board = board.move_piece(wp, Position::new(4, 0), Colour::White);
    let bp = board.get_piece(Position::new(1, 1)).unwrap();
    board = board.move_piece(bp, Position::new(3, 1), Colour::Black);
    let wp = board.get_piece(Position::new(4, 0)).unwrap();
    // forward is empty; the right-forward diagonal holds an enemy pawn
    assert_eq!(wp.legal_moves(&board), vec![Position::new(3, 0), Position::new(3, 1)]);
}

#[test]
fn rook_fully_blocked_on_fresh_board() {
    let board = Board::new();
    let rook = board.get_piece(Position::new(7, 0)).unwrap();
    assert_eq!(rook.get_piece_type(), PieceType::Rook);
    // friendly pawn above, friendly knight beside, board edges elsewhere
    assert_eq!(rook.legal_moves(&board), vec![]);
}

#[test]
fn rook_ray_stops_at_enemy_capture() {
    let mut board = Board::new();
    // open the A file for White: advance the A pawn, then capture away
    let wp = board.get_piece(Position::new(6, 0)).unwrap();
    board = board.move_piece(wp, Position::new(4, 0), Colour::White);
    let bp = board.get_piece(Position::new(1, 1)).unwrap();
    board = board.move_piece(bp, Position::new(3, 1), Colour::Black);
    let wp = board.get_piece(Position::new(4, 0)).unwrap();
    board = board.move_piece(wp, Position::new(3, 1), Colour::White);
    let rook = board.get_piece(Position::new(7, 0)).unwrap();
    // the ray runs down the open file and ends on the enemy pawn at (1, 0);
    // the rook behind it at (0, 0) is not reachable
    assert_eq!(
        rook.legal_moves(&board),
        vec![
            Position::new(6, 0),
            Position::new(5, 0),
            Position::new(4, 0),
            Position::new(3, 0),
            Position::new(2, 0),
            Position::new(1, 0),
        ]
    );
}

#[test]
fn knight_moves_exclude_friendly_squares() {
    let board = Board::new();
    let knight = board.get_piece(Position::new(7, 1)).unwrap();
    assert_eq!(knight.get_piece_type(), PieceType::Knight);
    // (6, 3) holds a friendly pawn and is excluded; two empty squares remain
    assert_eq!(knight.legal_moves(&board), vec![Position::new(5, 2), Position::new(5, 0)]);
}

#[test]
fn king_queen_bishop_boxed_in_at_start() {
    let board = Board::new();
    for col in [2, 3, 4] {
        let piece = board.get_piece(Position::new(7, col)).unwrap();
        assert_eq!(piece.legal_moves(&board), vec![]);
    }
}

#[test]
fn move_relocates_piece_and_clears_origin() {
    let mut board = Board::new();
    let knight = board.get_piece(Position::new(7, 1)).unwrap();
    board = board.move_piece(knight, Position::new(5, 2), Colour::White);
    let moved = board.get_piece(Position::new(5, 2)).unwrap();
    assert_eq!(moved.get_piece_type(), PieceType::Knight);
    assert_eq!(moved.get_colour(), Colour::White);
    assert_eq!(moved.get_pos(), Position::new(5, 2));
    assert_eq!(board.get_piece(Position::new(7, 1)), None);
    assert_eq!(board.state().len(), 32);
}

#[test]
fn capture_removes_exactly_one_piece() {
    let mut board = Board::new();
    let wp = board.get_piece(Position::new(6, 0)).unwrap();
    board = board.move_piece(wp, Position::new(4, 0), Colour::White);
    let bp = board.get_piece(Position::new(1, 1)).unwrap();
    board = board.move_piece(bp, Position::new(3, 1), Colour::Black);
    assert_eq!(board.state().len(), 32);
    let wp = board.get_piece(Position::new(4, 0)).unwrap();
    board = board.move_piece(wp, Position::new(3, 1), Colour::White);
    // the capturing pawn stands on the target; the board lost one piece
    let capturer = board.get_piece(Position::new(3, 1)).unwrap();
    assert_eq!(capturer.get_colour(), Colour::White);
    assert_eq!(capturer.get_piece_type(), PieceType::Pawn);
    assert_eq!(board.get_piece(Position::new(4, 0)), None);
    assert_eq!(board.state().len(), 31);
}

#[test]
fn illegal_move_returns_identical_board() {
    let mut board = Board::new();
    let before = board.state();
    let rook = board.get_piece(Position::new(7, 0)).unwrap();
    board = board.move_piece(rook, Position::new(3, 3), Colour::White);
    assert_eq!(board.state(), before);
    let pawn = board.get_piece(Position::new(6, 1)).unwrap();
    board = board.move_piece(pawn, Position::new(3, 1), Colour::White);
    assert_eq!(board.state(), before);
}

#[test]
fn captured_piece_keeps_colour_and_stays_captured() {
    let mut piece = Piece::new(PieceType::Queen, Colour::Black, Position::new(0, 3));
    piece.set_captured();
    assert_eq!(piece, Piece::Captured(Colour::Black));
    // capturing again is a no-op
    piece.set_captured();
    assert_eq!(piece, Piece::Captured(Colour::Black));
}

#[test]
fn piece_accessors_and_set_pos() {
    let mut piece = Piece::new(PieceType::Bishop, Colour::White, Position::new(7, 2));
    assert_eq!(piece.get_piece_type(), PieceType::Bishop);
    assert_eq!(piece.get_colour(), Colour::White);
    assert_eq!(piece.get_pos(), Position::new(7, 2));
    piece.set_pos(Position::new(4, 5));
    assert_eq!(piece.get_pos(), Position::new(4, 5));
    assert_eq!(piece.get_piece_type(), PieceType::Bishop);
    assert_eq!(piece.get_colour(), Colour::White);
}

#[test]
fn colour_flip() {
    assert_eq!(Colour::White.flip(), Colour::Black);
    assert_eq!(Colour::Black.flip(), Colour::White);
}

#[test]
fn state_scans_row_major() {
    let board = Board::new();
    let pieces = board.state();
    assert_eq!(pieces[0], Piece::new(PieceType::Rook, Colour::Black, Position::new(0, 0)));
    assert_eq!(pieces[7], Piece::new(PieceType::Rook, Colour::Black, Position::new(0, 7)));
    assert_eq!(pieces[8], Piece::new(PieceType::Pawn, Colour::Black, Position::new(1, 0)));
    assert_eq!(pieces[16], Piece::new(PieceType::Pawn, Colour::White, Position::new(6, 0)));
    assert_eq!(pieces[31], Piece::new(PieceType::Rook, Colour::White, Position::new(7, 7)));
}

#[test]
fn bishop_runs_down_an_opened_diagonal() {
    let mut board = Board::new();
    let dp = board.get_piece(Position::new(6, 3)).unwrap();
    board = board.move_piece(dp, Position::new(5, 3), Colour::White);
    let bishop = board.get_piece(Position::new(7, 2)).unwrap();
    assert_eq!(bishop.get_piece_type(), PieceType::Bishop);
    // the south-east diagonal is open to the board edge; the south-west one
    // is still blocked by a friendly pawn
    assert_eq!(
        bishop.legal_moves(&board),
        vec![
            Position::new(6, 3),
            Position::new(5, 4),
            Position::new(4, 5),
            Position::new(3, 6),
            Position::new(2, 7),
        ]
    );
}

#[test]
fn knight_captures_enemy_piece() {
    let mut board = Board::new();
    let bp = board.get_piece(Position::new(1, 1)).unwrap();
    board = board.move_piece(bp, Position::new(3, 1), Colour::Black);
    let knight = board.get_piece(Position::new(7, 1)).unwrap();
    board = board.move_piece(knight, Position::new(5, 2), Colour::White);
    let knight = board.get_piece(Position::new(5, 2)).unwrap();
    let moves = knight.legal_moves(&board);
    assert!(moves.contains(&Position::new(3, 1)));
    board = board.move_piece(knight, Position::new(3, 1), Colour::White);
    let capturer = board.get_piece(Position::new(3, 1)).unwrap();
    assert_eq!(capturer.get_piece_type(), PieceType::Knight);
    assert_eq!(capturer.get_colour(), Colour::White);
    assert_eq!(board.state().len(), 31);
}

#[test]
fn queen_gains_both_ray_kinds_after_opening() {
    let mut board = Board::new();
    // open the queen's file and diagonal: push the D and E pawns
    let dp = board.get_piece(Position::new(6, 3)).unwrap();
    board = board.move_piece(dp, Position::new(4, 3), Colour::White);
    let queen = board.get_piece(Position::new(7, 3)).unwrap();
    assert_eq!(queen.get_piece_type(), PieceType::Queen);
    let moves = queen.legal_moves(&board);
    // down the file: two squares up to the pawn's back
    assert!(moves.contains(&Position::new(6, 3)));
    assert!(moves.contains(&Position::new(5, 3)));
    assert!(!moves.contains(&Position::new(4, 3)));
    // the diagonals are still blocked by the C and E pawns
    assert!(!moves.contains(&Position::new(6, 2)));
    assert!(!moves.contains(&Position::new(6, 4)));
    assert_eq!(moves.len(), 2);
}
