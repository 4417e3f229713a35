use chess_core::board::Board;
use chess_core::piece::Colour;
use chess_core::position::{interpret_position, Direction, Position};

#[test]
fn on_board_bounds() {
    assert!(Position::new(0, 0).is_on_board());
    assert!(Position::new(7, 7).is_on_board());
    assert!(Position::new(3, 5).is_on_board());
    assert!(Position::new(-1, 0).is_off_board());
    assert!(Position::new(0, -1).is_off_board());
    assert!(Position::new(8, 0).is_off_board());
    assert!(Position::new(0, 8).is_off_board());
    assert!(Position::new(100, -100).is_off_board());
}

#[test]
fn coordinate_accessors() {
    let p = Position::new(2, 5);
    assert_eq!(p.get_row(), 2);
    assert_eq!(p.get_col(), 5);
}

#[test]
fn diagonal_relation() {
    let p = Position::new(3, 3);
    assert!(p.is_diagonal_to(Position::new(5, 5)));
    assert!(p.is_diagonal_to(Position::new(0, 0)));
    assert!(p.is_diagonal_to(Position::new(5, 1)));
    assert!(p.is_diagonal_to(p));
    assert!(!p.is_diagonal_to(Position::new(3, 5)));
    assert!(!p.is_diagonal_to(Position::new(4, 6)));
}

#[test]
fn orthogonal_relation() {
    let p = Position::new(3, 3);
    assert!(p.is_orthogonal_to(Position::new(3, 7)));
    assert!(p.is_orthogonal_to(Position::new(0, 3)));
    assert!(p.is_orthogonal_to(p));
    assert!(!p.is_orthogonal_to(Position::new(4, 4)));
}

#[test]
fn adjacency() {
    let p = Position::new(3, 3);
    assert!(p.is_adjacent_to(Position::new(2, 3)));
    assert!(p.is_adjacent_to(Position::new(4, 3)));
    assert!(p.is_adjacent_to(Position::new(3, 2)));
    assert!(p.is_adjacent_to(Position::new(3, 4)));
    assert!(p.is_adjacent_to(Position::new(4, 4)));
    assert!(p.is_adjacent_to(Position::new(2, 2)));
    assert!(!p.is_adjacent_to(p));
    assert!(!p.is_adjacent_to(Position::new(5, 3)));
    assert!(!p.is_adjacent_to(Position::new(5, 4)));
}

#[test]
fn relative_order() {
    let p = Position::new(3, 3);
    assert!(p.is_below(Position::new(4, 3)));
    assert!(p.is_above(Position::new(2, 3)));
    assert!(p.is_left_of(Position::new(3, 4)));
    assert!(p.is_right_of(Position::new(3, 2)));
    assert!(!p.is_below(p) && !p.is_above(p) && !p.is_left_of(p) && !p.is_right_of(p));
}

#[test]
fn unit_steps() {
    let p = Position::new(3, 3);
    assert_eq!(p.next_above(), Position::new(4, 3));
    assert_eq!(p.next_below(), Position::new(2, 3));
    assert_eq!(p.next_left(), Position::new(3, 2));
    assert_eq!(p.next_right(), Position::new(3, 4));
    // step generators do not clamp to the board
    assert_eq!(Position::new(0, 0).next_below(), Position::new(-1, 0));
    assert_eq!(Position::new(0, 0).next_left(), Position::new(0, -1));
}

#[test]
fn pawn_direction_per_colour() {
    let p = Position::new(4, 2);
    // White marches towards row 0, Black towards row 7.
    assert_eq!(p.pawn_up(Colour::White), Position::new(3, 2));
    assert_eq!(p.pawn_up(Colour::Black), Position::new(5, 2));
    assert_eq!(p.pawn_back(Colour::White), Position::new(5, 2));
    assert_eq!(p.pawn_back(Colour::Black), Position::new(3, 2));
}

#[test]
fn pawn_starting_ranks() {
    assert!(Position::new(6, 0).is_starting_pawn(Colour::White));
    assert!(Position::new(6, 7).is_starting_pawn(Colour::White));
    assert!(!Position::new(5, 0).is_starting_pawn(Colour::White));
    assert!(Position::new(1, 3).is_starting_pawn(Colour::Black));
    assert!(!Position::new(6, 3).is_starting_pawn(Colour::Black));
}

#[test]
fn rook_corners() {
    assert!(Position::new(0, 7).is_kingside_rook());
    assert!(Position::new(7, 7).is_kingside_rook());
    assert!(!Position::new(3, 7).is_kingside_rook());
    assert!(Position::new(0, 0).is_queenside_rook());
    assert!(Position::new(7, 0).is_queenside_rook());
    assert!(!Position::new(0, 3).is_queenside_rook());
}

#[test]
fn knight_relation() {
    let p = Position::new(3, 3);
    assert!(p.is_knight_move(Position::new(5, 4)));
    assert!(p.is_knight_move(Position::new(1, 2)));
    assert!(p.is_knight_move(Position::new(4, 5)));
    assert!(p.is_knight_move(Position::new(2, 1)));
    assert!(!p.is_knight_move(Position::new(5, 5)));
    assert!(!p.is_knight_move(p));
}

#[test]
fn diagonal_rays() {
    let p = Position::new(0, 0);
    assert_eq!(
        p.diagonals_to(Position::new(3, 3)),
        vec![Position::new(1, 1), Position::new(2, 2), Position::new(3, 3)]
    );
    assert_eq!(
        Position::new(3, 3).diagonals_to(Position::new(1, 1)),
        vec![Position::new(2, 2), Position::new(1, 1)]
    );
    assert_eq!(
        Position::new(5, 2).diagonals_to(Position::new(3, 4)),
        vec![Position::new(4, 3), Position::new(3, 4)]
    );
    // not diagonally related: empty
    assert_eq!(p.diagonals_to(Position::new(1, 2)), vec![]);
    // a position is diagonal to itself at distance zero
    assert_eq!(p.diagonals_to(p), vec![]);
}

#[test]
fn orthogonal_rays() {
    let p = Position::new(0, 0);
    assert_eq!(
        p.orthogonals_to(Position::new(0, 3)),
        vec![Position::new(0, 1), Position::new(0, 2), Position::new(0, 3)]
    );
    assert_eq!(
        Position::new(5, 2).orthogonals_to(Position::new(2, 2)),
        vec![Position::new(4, 2), Position::new(3, 2), Position::new(2, 2)]
    );
    assert_eq!(p.orthogonals_to(Position::new(2, 3)), vec![]);
    assert_eq!(p.orthogonals_to(p), vec![]);
}

#[test]
fn max_travel_open_and_blocked() {
    let board = Board::new();
    // an empty middle file: from (5, 0) down towards Black's pawn on (1, 0),
    // which is an enemy of White and so is included as the boundary
    assert_eq!(
        Position::max_travel(&board, Position::new(5, 0), Colour::White, Direction::Down),
        Position::new(1, 0)
    );
    // one step from the enemy: exactly that square
    assert_eq!(
        Position::max_travel(&board, Position::new(2, 0), Colour::White, Direction::Down),
        Position::new(1, 0)
    );
    // friendly piece adjacent: no travel at all
    assert_eq!(
        Position::max_travel(&board, Position::new(7, 0), Colour::White, Direction::Down),
        Position::new(7, 0)
    );
    // board edge adjacent: no travel either
    assert_eq!(
        Position::max_travel(&board, Position::new(7, 0), Colour::White, Direction::Up),
        Position::new(7, 0)
    );
    // the same ray from Black's side runs into a friendly piece
    assert_eq!(
        Position::max_travel(&board, Position::new(5, 0), Colour::Black, Direction::Down),
        Position::new(2, 0)
    );
    // a diagonal: from (4, 3) north-east until White's pawn rank blocks
    assert_eq!(
        Position::max_travel(&board, Position::new(2, 1), Colour::Black, Direction::NorthEast),
        Position::new(6, 5)
    );
}

#[test]
fn notation_rendering() {
    assert_eq!(Board::position_to_notation(Position::new(7, 0)), "A1");
    assert_eq!(Board::position_to_notation(Position::new(0, 0)), "A8");
    assert_eq!(Board::position_to_notation(Position::new(0, 7)), "H8");
    assert_eq!(Board::position_to_notation(Position::new(7, 7)), "H1");
    assert_eq!(Board::position_to_notation(Position::new(6, 3)), "D2");
    assert_eq!(Board::position_to_notation(Position::new(-1, 0)), "Invalid position");
    assert_eq!(Board::position_to_notation(Position::new(0, 8)), "Invalid position");
}

#[test]
fn notation_parsing() {
    assert_eq!(interpret_position("A1"), Some(Position::new(7, 0)));
    assert_eq!(interpret_position("A8"), Some(Position::new(0, 0)));
    assert_eq!(interpret_position("H8"), Some(Position::new(0, 7)));
    assert_eq!(interpret_position("H1"), Some(Position::new(7, 7)));
    assert_eq!(interpret_position("D2"), Some(Position::new(6, 3)));
    assert_eq!(interpret_position("I1"), None);
    assert_eq!(interpret_position("A9"), None);
    assert_eq!(interpret_position("A0"), None);
    assert_eq!(interpret_position("a1"), None);
    assert_eq!(interpret_position(""), None);
    assert_eq!(interpret_position("A"), None);
    assert_eq!(interpret_position("A12"), None);
}

#[test]
fn notation_round_trip_all_squares() {
    for row in 0..8 {
        for col in 0..8 {
            let pos = Position::new(row, col);
            let name = Board::position_to_notation(pos);
            assert_eq!(interpret_position(&name), Some(pos));
        }
    }
}
