//! Piece kinds, colours, and the piece value itself.
//!
//! A piece is either live — one of the six kinds, carrying its colour and the
//! square it stands on — or captured, in which case only the colour remains.
//! Querying the position or kind of a captured piece is a caller error, so the
//! accessors demand a live piece.

use vstd::prelude::*;

use crate::board::Board;
use crate::position::{lemma_travel_ray_props, pos_at, Direction, Position};

verus! {

/// The six kinds of chess piece. Purely descriptive: the movement rules live
/// in `Piece::legal_moves`.
#[derive(Clone, Copy, Debug, PartialEq, Eq, Structural)]
pub enum PieceType {
    Pawn,
    Rook,
    Knight,
    Bishop,
    King,
    Queen,
}

/// The two sides of the game.
#[derive(Clone, Copy, Debug, PartialEq, Eq, Structural)]
pub enum Colour {
    Black,
    White,
}

impl Colour {
    /// The opposite colour.
    pub open spec fn spec_flip(self) -> Colour {
        match self {
            Colour::Black => Colour::White,
            Colour::White => Colour::Black,
        }
    }

    /// Produce the opposite colour, used to find the enemy side without
    /// re-branching at every call site.
    #[verifier::when_used_as_spec(spec_flip)]
    pub fn flip(self) -> (r: Colour)
        ensures
            r == self.spec_flip(),
    {
        match self {
            Colour::Black => Colour::White,
            Colour::White => Colour::Black,
        }
    }
}

/// A piece on the board, or the terminal captured state.
///
/// A live piece owns its colour and current position; a captured piece keeps
/// only its colour. The transition live -> captured is one-directional.
#[derive(Clone, Copy, Debug, PartialEq, Eq, Structural)]
pub enum Piece {
    King(Colour, Position),
    Queen(Colour, Position),
    Rook(Colour, Position),
    Bishop(Colour, Position),
    Knight(Colour, Position),
    Pawn(Colour, Position),
    Captured(Colour),
}

impl Piece {
    /// Whether this piece has been captured.
    pub open spec fn is_captured(self) -> bool {
        self is Captured
    }

    /// The colour of the piece; a captured piece keeps its colour.
    pub open spec fn spec_colour(self) -> Colour {
        match self {
            Piece::King(c, _) => c,
            Piece::Queen(c, _) => c,
            Piece::Rook(c, _) => c,
            Piece::Bishop(c, _) => c,
            Piece::Knight(c, _) => c,
            Piece::Pawn(c, _) => c,
            Piece::Captured(c) => c,
        }
    }

    /// The square a live piece stands on.
    pub open spec fn spec_pos(self) -> Position
        recommends
            !self.is_captured(),
    {
        match self {
            Piece::King(_, p) => p,
            Piece::Queen(_, p) => p,
            Piece::Rook(_, p) => p,
            Piece::Bishop(_, p) => p,
            Piece::Knight(_, p) => p,
            Piece::Pawn(_, p) => p,
            Piece::Captured(_) => vstd::pervasive::arbitrary(),
        }
    }

    /// The kind of a live piece.
    pub open spec fn spec_type(self) -> PieceType
        recommends
            !self.is_captured(),
    {
        match self {
            Piece::King(_, _) => PieceType::King,
            Piece::Queen(_, _) => PieceType::Queen,
            Piece::Rook(_, _) => PieceType::Rook,
            Piece::Bishop(_, _) => PieceType::Bishop,
            Piece::Knight(_, _) => PieceType::Knight,
            Piece::Pawn(_, _) => PieceType::Pawn,
            Piece::Captured(_) => vstd::pervasive::arbitrary(),
        }
    }

    /// The live piece of the given kind, colour and position.
    pub open spec fn spec_new(piece_type: PieceType, colour: Colour, position: Position) -> Piece {
        match piece_type {
            PieceType::King => Piece::King(colour, position),
            PieceType::Queen => Piece::Queen(colour, position),
            PieceType::Rook => Piece::Rook(colour, position),
            PieceType::Bishop => Piece::Bishop(colour, position),
            PieceType::Knight => Piece::Knight(colour, position),
            PieceType::Pawn => Piece::Pawn(colour, position),
        }
    }

    /// Build a live piece of the given kind, colour and position.
    pub fn new(piece_type: PieceType, colour: Colour, position: Position) -> (r: Piece)
        ensures
            r == Piece::spec_new(piece_type, colour, position),
            !r.is_captured(),
            r.spec_type() == piece_type,
            r.spec_colour() == colour,
            r.spec_pos() == position,
    {
        match piece_type {
            PieceType::King => Piece::King(colour, position),
            PieceType::Queen => Piece::Queen(colour, position),
            PieceType::Rook => Piece::Rook(colour, position),
            PieceType::Bishop => Piece::Bishop(colour, position),
            PieceType::Knight => Piece::Knight(colour, position),
            PieceType::Pawn => Piece::Pawn(colour, position),
        }
    }

    /// The square this piece stands on. Asking for the position of a captured
    /// piece is a caller error, so captured pieces are excluded.
    pub fn get_pos(&self) -> (r: Position)
        requires
            !self.is_captured(),
        ensures
            r == self.spec_pos(),
    {
        match self {
            Piece::King(_, p) => *p,
            Piece::Queen(_, p) => *p,
            Piece::Rook(_, p) => *p,
            Piece::Bishop(_, p) => *p,
            Piece::Knight(_, p) => *p,
            Piece::Pawn(_, p) => *p,
            Piece::Captured(_) => vstd::pervasive::unreached(),
        }
    }

    /// The kind of this piece; captured pieces have discarded theirs.
    pub fn get_piece_type(&self) -> (r: PieceType)
        requires
            !self.is_captured(),
        ensures
            r == self.spec_type(),
    {
        match self {
            Piece::King(_, _) => PieceType::King,
            Piece::Queen(_, _) => PieceType::Queen,
            Piece::Rook(_, _) => PieceType::Rook,
            Piece::Bishop(_, _) => PieceType::Bishop,
            Piece::Knight(_, _) => PieceType::Knight,
            Piece::Pawn(_, _) => PieceType::Pawn,
            Piece::Captured(_) => vstd::pervasive::unreached(),
        }
    }

    /// The colour of this live piece.
    pub fn get_colour(&self) -> (r: Colour)
        requires
            !self.is_captured(),
        ensures
            r == self.spec_colour(),
    {
        match self {
            Piece::King(c, _) => *c,
            Piece::Queen(c, _) => *c,
            Piece::Rook(c, _) => *c,
            Piece::Bishop(c, _) => *c,
            Piece::Knight(c, _) => *c,
            Piece::Pawn(c, _) => *c,
            Piece::Captured(_) => vstd::pervasive::unreached(),
        }
    }

    /// Mark this piece as captured, keeping only its colour. Capturing an
    /// already captured piece changes nothing.
    pub fn set_captured(&mut self)
        ensures
            *final(self) == Piece::Captured(old(self).spec_colour()),
    {
        let colour = match self {
            Piece::King(c, _) => *c,
            Piece::Queen(c, _) => *c,
            Piece::Rook(c, _) => *c,
            Piece::Bishop(c, _) => *c,
            Piece::Knight(c, _) => *c,
            Piece::Pawn(c, _) => *c,
            Piece::Captured(_) => {
                return;
            },
        };
        *self = Piece::Captured(colour);
    }

    /// A single-step destination: the candidate square itself when it is on
    /// the board and not occupied by a friendly piece, nothing otherwise.
    /// Shared by the king and knight rules.
    pub open spec fn spec_step_candidate(
        board: Board,
        colour: Colour,
        candidate: Position,
    ) -> Seq<Position> {
        if candidate.spec_on_board() && !board.spec_has_friendly(candidate, colour) {
            seq![candidate]
        } else {
            Seq::empty()
        }
    }

    /// A pawn's destinations: the double step from the starting rank when
    /// both squares ahead are empty, the single step ahead when empty, and
    /// each forward-diagonal square that holds an enemy piece.
    pub open spec fn spec_pawn_moves(board: Board, colour: Colour, pos: Position) -> Seq<Position> {
        let up = pos.spec_pawn_up(colour);
        let double_up = up.spec_pawn_up(colour);
        let up_left = pos_at(up.row as int, up.col - 1);
        let up_right = pos_at(up.row as int, up.col + 1);
        (if double_up.spec_on_board() && pos.spec_starting_pawn(colour) && board.spec_get(up)
            is None && board.spec_get(double_up) is None {
            seq![double_up]
        } else {
            Seq::empty()
        }) + (if up.spec_on_board() && board.spec_get(up) is None {
            seq![up]
        } else {
            Seq::empty()
        }) + (if up_left.spec_on_board() && board.spec_has_enemy(up_left, colour) {
            seq![up_left]
        } else {
            Seq::empty()
        }) + (if up_right.spec_on_board() && board.spec_has_enemy(up_right, colour) {
            seq![up_right]
        } else {
            Seq::empty()
        })
    }

    /// A king's destinations: each of the eight unit-step neighbours that is
    /// on the board and not friendly-occupied.
    pub open spec fn spec_king_moves(board: Board, colour: Colour, pos: Position) -> Seq<Position> {
        Piece::spec_step_candidate(board, colour, pos_at(pos.row + 1, pos.col as int))
            + Piece::spec_step_candidate(board, colour, pos_at(pos.row - 1, pos.col as int))
            + Piece::spec_step_candidate(board, colour, pos_at(pos.row as int, pos.col - 1))
            + Piece::spec_step_candidate(board, colour, pos_at(pos.row as int, pos.col + 1))
            + Piece::spec_step_candidate(board, colour, pos_at(pos.row + 1, pos.col - 1))
            + Piece::spec_step_candidate(board, colour, pos_at(pos.row + 1, pos.col + 1))
            + Piece::spec_step_candidate(board, colour, pos_at(pos.row - 1, pos.col - 1))
            + Piece::spec_step_candidate(board, colour, pos_at(pos.row - 1, pos.col + 1))
    }

    /// A knight's destinations: each of the eight (2, 1) offsets that is on
    /// the board and not friendly-occupied.
    pub open spec fn spec_knight_moves(
        board: Board,
        colour: Colour,
        pos: Position,
    ) -> Seq<Position> {
        Piece::spec_step_candidate(board, colour, pos_at(pos.row + 2, pos.col + 1))
            + Piece::spec_step_candidate(board, colour, pos_at(pos.row + 2, pos.col - 1))
            + Piece::spec_step_candidate(board, colour, pos_at(pos.row - 2, pos.col + 1))
            + Piece::spec_step_candidate(board, colour, pos_at(pos.row - 2, pos.col - 1))
            + Piece::spec_step_candidate(board, colour, pos_at(pos.row + 1, pos.col + 2))
            + Piece::spec_step_candidate(board, colour, pos_at(pos.row + 1, pos.col - 2))
            + Piece::spec_step_candidate(board, colour, pos_at(pos.row - 1, pos.col + 2))
            + Piece::spec_step_candidate(board, colour, pos_at(pos.row - 1, pos.col - 2))
    }

    /// A rook's destinations: the four orthogonal rays, each walked from the
    /// piece to its max-travel boundary.
    pub open spec fn spec_rook_moves(board: Board, colour: Colour, pos: Position) -> Seq<Position> {
        Position::spec_travel_ray(board, pos, colour, Direction::Up)
            + Position::spec_travel_ray(board, pos, colour, Direction::Down)
            + Position::spec_travel_ray(board, pos, colour, Direction::Left)
            + Position::spec_travel_ray(board, pos, colour, Direction::Right)
    }

    /// A bishop's destinations: the four diagonal rays, each walked from the
    /// piece to its max-travel boundary.
    pub open spec fn spec_bishop_moves(
        board: Board,
        colour: Colour,
        pos: Position,
    ) -> Seq<Position> {
        Position::spec_travel_ray(board, pos, colour, Direction::NorthEast)
            + Position::spec_travel_ray(board, pos, colour, Direction::NorthWest)
            + Position::spec_travel_ray(board, pos, colour, Direction::SouthEast)
            + Position::spec_travel_ray(board, pos, colour, Direction::SouthWest)
    }

    /// Every pseudo-legal destination of this piece on the given board, in
    /// rule order: pawn [double, single, captures], sliding pieces by
    /// direction table and near-to-far along each ray, king and knight by
    /// offset table. A captured piece has no moves.
    pub open spec fn spec_legal_moves(self, board: Board) -> Seq<Position> {
        match self {
            Piece::Pawn(c, pos) => Piece::spec_pawn_moves(board, c, pos),
            Piece::King(c, pos) => Piece::spec_king_moves(board, c, pos),
            Piece::Knight(c, pos) => Piece::spec_knight_moves(board, c, pos),
            Piece::Rook(c, pos) => Piece::spec_rook_moves(board, c, pos),
            Piece::Bishop(c, pos) => Piece::spec_bishop_moves(board, c, pos),
            Piece::Queen(c, pos) => Piece::spec_rook_moves(board, c, pos) + Piece::spec_bishop_moves(
                board,
                c,
                pos,
            ),
            Piece::Captured(_) => Seq::empty(),
        }
    }

    /// Enumerate this piece's pseudo-legal destinations on the given board.
    ///
    /// The list accounts for board edges, friendly and enemy occupancy, and
    /// blocking along sliding rays; it ignores check safety, castling, en
    /// passant and promotion.
    pub fn legal_moves(&self, board: &Board) -> (r: Vec<Position>)
        requires
            board.wf(),
            !self.is_captured(),
            self.spec_pos().spec_on_board(),
        ensures
            r@ == self.spec_legal_moves(*board),
    {
        let mut result: Vec<Position> = Vec::new();
        match *self {
            Piece::Pawn(ally_colour, pos) => {
                let up = pos.pawn_up(ally_colour);
                let double_up = up.pawn_up(ally_colour);
                let up_left = up.next_left();
                let up_right = up.next_right();
                if double_up.is_on_board() && pos.is_starting_pawn(ally_colour)
                    && board.has_no_piece(up) && board.has_no_piece(double_up) {
                    result.push(double_up);
                }
                if up.is_on_board() && board.has_no_piece(up) {
                    result.push(up);
                }
                if up_left.is_on_board() && board.has_enemy_piece(up_left, ally_colour) {
                    result.push(up_left);
                }
                if up_right.is_on_board() && board.has_enemy_piece(up_right, ally_colour) {
                    result.push(up_right);
                }
                proof {
                    assert(result@ =~= self.spec_legal_moves(*board));
                }
            },
            Piece::King(ally_colour, pos) => {
                let candidates: [Position; 8] = [
                    pos.next_above(),
                    pos.next_below(),
                    pos.next_left(),
                    pos.next_right(),
                    pos.next_above().next_left(),
                    pos.next_above().next_right(),
                    pos.next_below().next_left(),
                    pos.next_below().next_right(),
                ];
                let mut i: usize = 0;
                while i < 8
                    invariant
                        board.wf(),
                        0 <= i <= 8,
                        candidates@ =~= seq![
                            pos_at(pos.row + 1, pos.col as int),
                            pos_at(pos.row - 1, pos.col as int),
                            pos_at(pos.row as int, pos.col - 1),
                            pos_at(pos.row as int, pos.col + 1),
                            pos_at(pos.row + 1, pos.col - 1),
                            pos_at(pos.row + 1, pos.col + 1),
                            pos_at(pos.row - 1, pos.col - 1),
                            pos_at(pos.row - 1, pos.col + 1),
                        ],
                        result@ =~= candidate_prefix(*board, ally_colour, candidates@, i as int),
                    decreases 8 - i,
                {
                    let p = candidates[i];
                    if p.is_on_board() && !board.has_friendly_piece(p, ally_colour) {
                        result.push(p);
                    }
                    i = i + 1;
                }
                proof {
                    lemma_candidate_prefix_all(*board, ally_colour, candidates@);
                    assert(result@ =~= self.spec_legal_moves(*board));
                }
            },
            Piece::Knight(ally_colour, pos) => {
                let row = pos.get_row();
                let col = pos.get_col();
                let candidates: [Position; 8] = [
                    Position::new(row + 2, col + 1),
                    Position::new(row + 2, col - 1),
                    Position::new(row - 2, col + 1),
                    Position::new(row - 2, col - 1),
                    Position::new(row + 1, col + 2),
                    Position::new(row + 1, col - 2),
                    Position::new(row - 1, col + 2),
                    Position::new(row - 1, col - 2),
                ];
                let mut i: usize = 0;
                while i < 8
                    invariant
                        board.wf(),
                        0 <= i <= 8,
                        candidates@ =~= seq![
                            pos_at(pos.row + 2, pos.col + 1),
                            pos_at(pos.row + 2, pos.col - 1),
                            pos_at(pos.row - 2, pos.col + 1),
                            pos_at(pos.row - 2, pos.col - 1),
                            pos_at(pos.row + 1, pos.col + 2),
                            pos_at(pos.row + 1, pos.col - 2),
                            pos_at(pos.row - 1, pos.col + 2),
                            pos_at(pos.row - 1, pos.col - 2),
                        ],
                        result@ =~= candidate_prefix(*board, ally_colour, candidates@, i as int),
                    decreases 8 - i,
                {
                    let p = candidates[i];
                    if p.is_on_board() && !board.has_friendly_piece(p, ally_colour) {
                        result.push(p);
                    }
                    i = i + 1;
                }
                proof {
                    lemma_candidate_prefix_all(*board, ally_colour, candidates@);
                    assert(result@ =~= self.spec_legal_moves(*board));
                }
            },
            Piece::Rook(ally_colour, pos) => {
                push_orthogonal_rays(&mut result, board, pos, ally_colour);
                proof {
                    assert(result@ =~= self.spec_legal_moves(*board));
                }
            },
            Piece::Bishop(ally_colour, pos) => {
                push_diagonal_rays(&mut result, board, pos, ally_colour);
                proof {
                    assert(result@ =~= self.spec_legal_moves(*board));
                }
            },
            Piece::Queen(ally_colour, pos) => {
                push_orthogonal_rays(&mut result, board, pos, ally_colour);
                push_diagonal_rays(&mut result, board, pos, ally_colour);
                proof {
                    assert(result@ =~= self.spec_legal_moves(*board));
                }
            },
            Piece::Captured(_) => {
                proof {
                    assert(false);
                }
            },
        }
        result
    }

    /// Move this live piece to a new square, keeping kind and colour.
    pub fn set_pos(&mut self, new_pos: Position)
        requires
            !old(self).is_captured(),
        ensures
            *final(self) == Piece::spec_new(old(self).spec_type(), old(self).spec_colour(), new_pos),
    {
        match self {
            Piece::King(_, p) => *p = new_pos,
            Piece::Queen(_, p) => *p = new_pos,
            Piece::Rook(_, p) => *p = new_pos,
            Piece::Bishop(_, p) => *p = new_pos,
            Piece::Knight(_, p) => *p = new_pos,
            Piece::Pawn(_, p) => *p = new_pos,
            Piece::Captured(_) => {
                proof {
                    assert(false);
                }
            },
        }
    }
}

/// The destinations contributed by the first `n` entries of a fixed candidate
/// table, in table order.
pub open spec fn candidate_prefix(
    board: Board,
    colour: Colour,
    candidates: Seq<Position>,
    n: int,
) -> Seq<Position>
    decreases n,
{
    if n <= 0 {
        Seq::empty()
    } else {
        candidate_prefix(board, colour, candidates, n - 1) + Piece::spec_step_candidate(
            board,
            colour,
            candidates[n - 1],
        )
    }
}

/// Unrolls `candidate_prefix` over a full eight-entry candidate table.
proof fn lemma_candidate_prefix_all(board: Board, colour: Colour, candidates: Seq<Position>)
    requires
        candidates.len() == 8,
    ensures
        candidate_prefix(board, colour, candidates, 8) =~= Piece::spec_step_candidate(
            board,
            colour,
            candidates[0],
        ) + Piece::spec_step_candidate(board, colour, candidates[1]) + Piece::spec_step_candidate(
            board,
            colour,
            candidates[2],
        ) + Piece::spec_step_candidate(board, colour, candidates[3]) + Piece::spec_step_candidate(
            board,
            colour,
            candidates[4],
        ) + Piece::spec_step_candidate(board, colour, candidates[5]) + Piece::spec_step_candidate(
            board,
            colour,
            candidates[6],
        ) + Piece::spec_step_candidate(board, colour, candidates[7]),
{
    reveal_with_fuel(candidate_prefix, 9);
}

/// How many times the square `x` occurs in a move sequence.
pub open spec fn occurrences(s: Seq<Position>, x: Position) -> nat
    decreases s.len(),
{
    if s.len() == 0 {
        0
    } else {
        occurrences(s.drop_last(), x) + (if s.last() == x {
            1nat
        } else {
            0nat
        })
    }
}

/// Occurrence counts add up over concatenation.
proof fn lemma_occurrences_add(s1: Seq<Position>, s2: Seq<Position>, x: Position)
    ensures
        occurrences(s1 + s2, x) == occurrences(s1, x) + occurrences(s2, x),
    decreases s2.len(),
{
    if s2.len() == 0 {
        assert(s1 + s2 =~= s1);
    } else {
        assert((s1 + s2).drop_last() =~= s1 + s2.drop_last());
        assert((s1 + s2).last() == s2.last());
        lemma_occurrences_add(s1, s2.drop_last(), x);
    }
}

/// A one-element sequence holds one occurrence of its element and none of any
/// other square.
proof fn lemma_occurrences_singleton(p: Position, x: Position)
    ensures
        occurrences(seq![p], x) == (if p == x {
            1nat
        } else {
            0nat
        }),
{
    assert(seq![p].drop_last() =~= Seq::<Position>::empty());
    assert(occurrences(Seq::<Position>::empty(), x) == 0);
}

/// The pawn double-step boundary: a pawn on its starting rank whose two
/// squares ahead are both empty is offered the double-step destination
/// exactly once; a pawn anywhere else is never offered it, whatever the
/// occupancy.
pub proof fn lemma_pawn_double_step(board: Board, colour: Colour, pos: Position)
    requires
        pos.spec_on_board(),
    ensures
        ({
            let up = pos.spec_pawn_up(colour);
            let double_up = up.spec_pawn_up(colour);
            let moves = Piece::spec_pawn_moves(board, colour, pos);
            &&& (pos.spec_starting_pawn(colour) && double_up.spec_on_board() && board.spec_get(up)
                is None && board.spec_get(double_up) is None) ==> occurrences(moves, double_up)
                == 1
            &&& !pos.spec_starting_pawn(colour) ==> !moves.contains(double_up)
        }),
{
    let up = pos.spec_pawn_up(colour);
    let double_up = up.spec_pawn_up(colour);
    let up_left = pos_at(up.row as int, up.col - 1);
    let up_right = pos_at(up.row as int, up.col + 1);
    let s1 = if double_up.spec_on_board() && pos.spec_starting_pawn(colour) && board.spec_get(up)
        is None && board.spec_get(double_up) is None {
        seq![double_up]
    } else {
        Seq::<Position>::empty()
    };
    let s2 = if up.spec_on_board() && board.spec_get(up) is None {
        seq![up]
    } else {
        Seq::<Position>::empty()
    };
    let s3 = if up_left.spec_on_board() && board.spec_has_enemy(up_left, colour) {
        seq![up_left]
    } else {
        Seq::<Position>::empty()
    };
    let s4 = if up_right.spec_on_board() && board.spec_has_enemy(up_right, colour) {
        seq![up_right]
    } else {
        Seq::<Position>::empty()
    };
    let moves = Piece::spec_pawn_moves(board, colour, pos);
    assert(moves == s1 + s2 + s3 + s4);
    // the double-step square differs from every other candidate
    assert(up.row != double_up.row && up_left.col != double_up.col && up_right.col
        != double_up.col);
    lemma_occurrences_add(s1 + s2 + s3, s4, double_up);
    lemma_occurrences_add(s1 + s2, s3, double_up);
    lemma_occurrences_add(s1, s2, double_up);
    lemma_occurrences_singleton(double_up, double_up);
    lemma_occurrences_singleton(up, double_up);
    lemma_occurrences_singleton(up_left, double_up);
    lemma_occurrences_singleton(up_right, double_up);
    if !pos.spec_starting_pawn(colour) {
        assert(forall|i: int| 0 <= i < moves.len() ==> moves[i] != double_up);
    }
}

/// Membership in a concatenation means membership in one of the parts.
proof fn lemma_concat_contains(a: Seq<Position>, b: Seq<Position>, q: Position)
    requires
        (a + b).contains(q),
    ensures
        a.contains(q) || b.contains(q),
{
    let s = a + b;
    let i = choose|i: int| 0 <= i < s.len() && s[i] == q;
    if i < a.len() {
        assert(a[i] == q);
    } else {
        assert(b[i - a.len()] == q);
    }
}

/// A square offered by one of a rook's or bishop's four rays lies on the
/// board, differs from the piece's square, and is not friendly-occupied.
proof fn lemma_four_rays_props(
    board: Board,
    pos: Position,
    colour: Colour,
    d1: Direction,
    d2: Direction,
    d3: Direction,
    d4: Direction,
    q: Position,
)
    requires
        pos.spec_on_board(),
        (Position::spec_travel_ray(board, pos, colour, d1) + Position::spec_travel_ray(
            board,
            pos,
            colour,
            d2,
        ) + Position::spec_travel_ray(board, pos, colour, d3) + Position::spec_travel_ray(
            board,
            pos,
            colour,
            d4,
        )).contains(q),
    ensures
        q.spec_on_board() && q != pos && !board.spec_has_friendly(q, colour),
{
    lemma_travel_ray_props(board, pos, colour, d1);
    lemma_travel_ray_props(board, pos, colour, d2);
    lemma_travel_ray_props(board, pos, colour, d3);
    lemma_travel_ray_props(board, pos, colour, d4);
    let r1 = Position::spec_travel_ray(board, pos, colour, d1);
    let r2 = Position::spec_travel_ray(board, pos, colour, d2);
    let r3 = Position::spec_travel_ray(board, pos, colour, d3);
    let r4 = Position::spec_travel_ray(board, pos, colour, d4);
    lemma_concat_contains(r1 + r2 + r3, r4, q);
    if (r1 + r2 + r3).contains(q) {
        lemma_concat_contains(r1 + r2, r3, q);
        if (r1 + r2).contains(q) {
            lemma_concat_contains(r1, r2, q);
        }
    }
}

/// Every destination a piece is offered lies on the board, differs from the
/// piece's own square, and is not occupied by a friendly piece.
#[verifier::rlimit(60)]
pub proof fn lemma_legal_moves_props(piece: Piece, board: Board)
    requires
        !piece.is_captured(),
        piece.spec_pos().spec_on_board(),
    ensures
        forall|q: Position|
            #[trigger] piece.spec_legal_moves(board).contains(q) ==> q.spec_on_board() && q
                != piece.spec_pos() && !board.spec_has_friendly(q, piece.spec_colour()),
{
    let pos = piece.spec_pos();
    let colour = piece.spec_colour();
    let moves = piece.spec_legal_moves(board);
    match piece {
        Piece::Pawn(c, p) => {
            assert forall|q: Position| moves.contains(q) implies q.spec_on_board() && q != pos
                && !board.spec_has_friendly(q, colour) by {
                let i = choose|i: int| 0 <= i < moves.len() && moves[i] == q;
            }
        },
        Piece::King(c, p) => {
            assert forall|q: Position| moves.contains(q) implies q.spec_on_board() && q != pos
                && !board.spec_has_friendly(q, colour) by {
                let i = choose|i: int| 0 <= i < moves.len() && moves[i] == q;
            }
        },
        Piece::Knight(c, p) => {
            assert forall|q: Position| moves.contains(q) implies q.spec_on_board() && q != pos
                && !board.spec_has_friendly(q, colour) by {
                let i = choose|i: int| 0 <= i < moves.len() && moves[i] == q;
            }
        },
        Piece::Rook(c, p) => {
            assert forall|q: Position| moves.contains(q) implies q.spec_on_board() && q != pos
                && !board.spec_has_friendly(q, colour) by {
                lemma_four_rays_props(
                    board,
                    p,
                    c,
                    Direction::Up,
                    Direction::Down,
                    Direction::Left,
                    Direction::Right,
                    q,
                );
            }
        },
        Piece::Bishop(c, p) => {
            assert forall|q: Position| moves.contains(q) implies q.spec_on_board() && q != pos
                && !board.spec_has_friendly(q, colour) by {
                lemma_four_rays_props(
                    board,
                    p,
                    c,
                    Direction::NorthEast,
                    Direction::NorthWest,
                    Direction::SouthEast,
                    Direction::SouthWest,
                    q,
                );
            }
        },
        Piece::Queen(c, p) => {
            assert forall|q: Position| moves.contains(q) implies q.spec_on_board() && q != pos
                && !board.spec_has_friendly(q, colour) by {
                lemma_concat_contains(
                    Piece::spec_rook_moves(board, c, p),
                    Piece::spec_bishop_moves(board, c, p),
                    q,
                );
                if Piece::spec_rook_moves(board, c, p).contains(q) {
                    lemma_four_rays_props(
                        board,
                        p,
                        c,
                        Direction::Up,
                        Direction::Down,
                        Direction::Left,
                        Direction::Right,
                        q,
                    );
                } else {
                    lemma_four_rays_props(
                        board,
                        p,
                        c,
                        Direction::NorthEast,
                        Direction::NorthWest,
                        Direction::SouthEast,
                        Direction::SouthWest,
                        q,
                    );
                }
            }
        },
        Piece::Captured(_) => {
        },
    }
}

/// Append every element of `items` to `result`, in order.
fn push_all(result: &mut Vec<Position>, items: &Vec<Position>)
    ensures
        final(result)@ == old(result)@ + items@,
{
    let mut i: usize = 0;
    while i < items.len()
        invariant
            0 <= i <= items@.len(),
            result@ =~= old(result)@ + items@.take(i as int),
        decreases items@.len() - i,
    {
        let p = items[i];
        result.push(p);
        i = i + 1;
    }
    proof {
        assert(result@ =~= old(result)@ + items@);
    }
}

/// Append the rook-style destinations — the four orthogonal rays up to their
/// max-travel boundaries — to `result`.
#[verifier::rlimit(60)]
fn push_orthogonal_rays(result: &mut Vec<Position>, board: &Board, pos: Position, ally_colour: Colour)
    requires
        board.wf(),
        pos.spec_on_board(),
    ensures
        final(result)@ == old(result)@ + Piece::spec_rook_moves(*board, ally_colour, pos),
{
    let b_up = Position::max_travel(board, pos, ally_colour, Direction::Up);
    let ray_up = pos.orthogonals_to(b_up);
    push_all(result, &ray_up);
    let b_down = Position::max_travel(board, pos, ally_colour, Direction::Down);
    let ray_down = pos.orthogonals_to(b_down);
    push_all(result, &ray_down);
    let b_left = Position::max_travel(board, pos, ally_colour, Direction::Left);
    let ray_left = pos.orthogonals_to(b_left);
    push_all(result, &ray_left);
    let b_right = Position::max_travel(board, pos, ally_colour, Direction::Right);
    let ray_right = pos.orthogonals_to(b_right);
    push_all(result, &ray_right);
    proof {
        assert(result@ =~= old(result)@ + Piece::spec_rook_moves(*board, ally_colour, pos));
    }
}

/// Append the bishop-style destinations — the four diagonal rays up to their
/// max-travel boundaries — to `result`.
#[verifier::rlimit(60)]
fn push_diagonal_rays(result: &mut Vec<Position>, board: &Board, pos: Position, ally_colour: Colour)
    requires
        board.wf(),
        pos.spec_on_board(),
    ensures
        final(result)@ == old(result)@ + Piece::spec_bishop_moves(*board, ally_colour, pos),
{
    let b_ne = Position::max_travel(board, pos, ally_colour, Direction::NorthEast);
    let ray_ne = pos.diagonals_to(b_ne);
    push_all(result, &ray_ne);
    let b_nw = Position::max_travel(board, pos, ally_colour, Direction::NorthWest);
    let ray_nw = pos.diagonals_to(b_nw);
    push_all(result, &ray_nw);
    let b_se = Position::max_travel(board, pos, ally_colour, Direction::SouthEast);
    let ray_se = pos.diagonals_to(b_se);
    push_all(result, &ray_se);
    let b_sw = Position::max_travel(board, pos, ally_colour, Direction::SouthWest);
    let ray_sw = pos.diagonals_to(b_sw);
    push_all(result, &ray_sw);
    proof {
        assert(result@ =~= old(result)@ + Piece::spec_bishop_moves(*board, ally_colour, pos));
    }
}

} // verus!
