//! The 8x8 occupancy grid.
//!
//! Each cell holds at most one piece, by value. A well-formed board stores
//! only live pieces, and every stored piece's own position field names the
//! cell it stands in. Occupancy queries treat every off-board position as
//! empty, so move-rule code may probe arbitrary arithmetic results without
//! separate bounds checks.

use vstd::prelude::*;
use vstd::string::StringExecFns;

use crate::piece::{Colour, Piece, PieceType};
use crate::position::{pos_at, Position};

verus! {

/// The 8x8 grid of optional pieces, stored row-major.
pub struct Board {
    grid: Vec<Option<Piece>>,
}

/// The square that the row-major cell index `i` names.
pub open spec fn cell_pos(i: int) -> Position {
    pos_at(i / 8, i % 8)
}

/// The row-major cell index of a square, the inverse of `cell_pos` on the
/// board.
pub open spec fn cell_index(pos: Position) -> int {
    pos.row * 8 + pos.col
}

/// The pieces stored in a row-major cell sequence, in cell order.
pub open spec fn collect_pieces(cells: Seq<Option<Piece>>) -> Seq<Piece>
    decreases cells.len(),
{
    if cells.len() == 0 {
        Seq::empty()
    } else {
        collect_pieces(cells.drop_last()) + match cells.last() {
            Some(p) => seq![p],
            None => Seq::empty(),
        }
    }
}

/// How many pieces of the given colour and kind a piece sequence holds.
pub open spec fn count_pieces(s: Seq<Piece>, colour: Colour, kind: PieceType) -> nat
    decreases s.len(),
{
    if s.len() == 0 {
        0
    } else {
        count_pieces(s.drop_last(), colour, kind) + (if !s.last().is_captured()
            && s.last().spec_colour() == colour && s.last().spec_type() == kind {
            1nat
        } else {
            0nat
        })
    }
}

/// The piece kind standing on column `col` of a back rank in the starting
/// layout.
pub open spec fn spec_back_rank(col: int) -> PieceType {
    if col == 0 || col == 7 {
        PieceType::Rook
    } else if col == 1 || col == 6 {
        PieceType::Knight
    } else if col == 2 || col == 5 {
        PieceType::Bishop
    } else if col == 3 {
        PieceType::Queen
    } else {
        PieceType::King
    }
}

/// The occupant of each square in the standard starting arrangement: Black's
/// back rank on row 0 and pawns on row 1, White's pawns on row 6 and back
/// rank on row 7.
pub open spec fn spec_start_cell(pos: Position) -> Option<Piece> {
    if !pos.spec_on_board() {
        None
    } else if pos.row == 0 {
        Some(Piece::spec_new(spec_back_rank(pos.col as int), Colour::Black, pos))
    } else if pos.row == 1 {
        Some(Piece::spec_new(PieceType::Pawn, Colour::Black, pos))
    } else if pos.row == 6 {
        Some(Piece::spec_new(PieceType::Pawn, Colour::White, pos))
    } else if pos.row == 7 {
        Some(Piece::spec_new(spec_back_rank(pos.col as int), Colour::White, pos))
    } else {
        None
    }
}

/// How many pieces of one kind each side owns in the starting layout.
pub open spec fn spec_starting_count(kind: PieceType) -> nat {
    match kind {
        PieceType::Pawn => 8,
        PieceType::Rook => 2,
        PieceType::Knight => 2,
        PieceType::Bishop => 2,
        PieceType::Queen => 1,
        PieceType::King => 1,
    }
}

/// The pieces of the standard starting board in row-major scan order: Black's
/// back rank, Black's pawns, White's pawns, White's back rank.
pub open spec fn spec_start_pieces() -> Seq<Piece> {
    Seq::new(8, |c: int| Piece::spec_new(spec_back_rank(c), Colour::Black, pos_at(0, c))) + Seq::new(
        8,
        |c: int| Piece::spec_new(PieceType::Pawn, Colour::Black, pos_at(1, c)),
    ) + Seq::new(8, |c: int| Piece::spec_new(PieceType::Pawn, Colour::White, pos_at(6, c)))
        + Seq::new(8, |c: int| Piece::spec_new(spec_back_rank(c), Colour::White, pos_at(7, c)))
}

/// The piece kind standing on column `col` of a back rank in the starting
/// layout.
fn back_rank_type(col: i32) -> (t: PieceType)
    requires
        0 <= col <= 7,
    ensures
        t == spec_back_rank(col as int),
{
    if col == 0 || col == 7 {
        PieceType::Rook
    } else if col == 1 || col == 6 {
        PieceType::Knight
    } else if col == 2 || col == 5 {
        PieceType::Bishop
    } else if col == 3 {
        PieceType::Queen
    } else {
        PieceType::King
    }
}

impl Board {
    /// The board invariant: 64 cells, every stored piece live, and every
    /// stored piece's position field equal to the cell it occupies.
    pub closed spec fn wf(&self) -> bool {
        &&& self.grid@.len() == 64
        &&& forall|i: int|
            0 <= i < 64 ==> ((#[trigger] self.grid@[i]) matches Some(p) ==> !p.is_captured()
                && p.spec_pos() == cell_pos(i))
    }

    /// The occupant of a square: `None` off the board or on an empty cell.
    pub closed spec fn spec_get(&self, pos: Position) -> Option<Piece> {
        if pos.spec_on_board() {
            self.grid@[pos.row * 8 + pos.col]
        } else {
            None
        }
    }

    /// The square holds a piece of the colour opposite to `ally_colour`.
    pub open spec fn spec_has_enemy(&self, pos: Position, ally_colour: Colour) -> bool {
        match self.spec_get(pos) {
            Some(p) => p.spec_colour() == ally_colour.spec_flip(),
            None => false,
        }
    }

    /// The square holds a piece of the colour `ally_colour`.
    pub open spec fn spec_has_friendly(&self, pos: Position, ally_colour: Colour) -> bool {
        match self.spec_get(pos) {
            Some(p) => p.spec_colour() == ally_colour,
            None => false,
        }
    }

    /// The occupant of a square, or `None` for an empty or off-board square.
    pub fn get_piece(&self, pos: Position) -> (r: Option<Piece>)
        requires
            self.wf(),
        ensures
            r == self.spec_get(pos),
            r matches Some(p) ==> !p.is_captured() && p.spec_pos() == pos,
    {
        if pos.is_off_board() {
            return None;
        }
        let row: usize = pos.get_row() as usize;
        let col: usize = pos.get_col() as usize;
        proof {
            assert(cell_pos(pos.row * 8 + pos.col) == pos);
        }
        self.grid[row * 8 + col]
    }

    /// True iff the square holds a piece.
    pub fn has_piece(&self, pos: Position) -> (r: bool)
        requires
            self.wf(),
        ensures
            r == (self.spec_get(pos) is Some),
    {
        self.get_piece(pos).is_some()
    }

    /// True iff the square is empty or off the board.
    pub fn has_no_piece(&self, pos: Position) -> (r: bool)
        requires
            self.wf(),
        ensures
            r == (self.spec_get(pos) is None),
    {
        self.get_piece(pos).is_none()
    }

    /// True iff the square holds a piece of the enemy of `ally_colour`.
    pub fn has_enemy_piece(&self, pos: Position, ally_colour: Colour) -> (r: bool)
        requires
            self.wf(),
        ensures
            r == self.spec_has_enemy(pos, ally_colour),
    {
        if let Some(piece) = self.get_piece(pos) {
            piece.get_colour() == ally_colour.flip()
        } else {
            false
        }
    }

    /// The pieces currently on the board, in row-major scan order.
    pub closed spec fn spec_pieces(&self) -> Seq<Piece> {
        collect_pieces(self.grid@)
    }

    /// How many of the first `n` cells, in row-major order, hold a piece.
    pub open spec fn occupied_count(&self, n: int) -> nat
        decreases n,
    {
        if n <= 0 {
            0
        } else {
            self.occupied_count(n - 1) + (if self.spec_get(cell_pos(n - 1)) is Some {
                1nat
            } else {
                0nat
            })
        }
    }

    /// Every piece currently on the board, in row-major scan order: one entry
    /// per occupied cell, each piece standing at the square its own position
    /// field names, every stored piece listed.
    pub fn state(&self) -> (r: Vec<Piece>)
        requires
            self.wf(),
        ensures
            r@ == self.spec_pieces(),
            forall|k: int|
                0 <= k < r@.len() ==> !(#[trigger] r@[k]).is_captured()
                    && r@[k].spec_pos().spec_on_board() && self.spec_get(r@[k].spec_pos()) == Some(
                    r@[k],
                ),
            forall|q: Position|
                q.spec_on_board() ==> ((#[trigger] self.spec_get(q)) matches Some(p)
                    ==> r@.contains(p)),
            forall|k1: int, k2: int|
                0 <= k1 < k2 < r@.len() ==> cell_index((#[trigger] r@[k1]).spec_pos()) < cell_index(
                    (#[trigger] r@[k2]).spec_pos(),
                ),
            r@.len() == self.occupied_count(64),
    {
        proof {
            lemma_pieces_occupancy(*self);
        }
        let mut pieces: Vec<Piece> = Vec::new();
        let mut i: usize = 0;
        while i < 64
            invariant
                self.wf(),
                0 <= i <= 64,
                pieces@ == collect_pieces(self.grid@.take(i as int)),
            decreases 64 - i,
        {
            proof {
                assert(self.grid@.take(i + 1).drop_last() =~= self.grid@.take(i as int));
                assert(self.grid@.take(i + 1).last() == self.grid@[i as int]);
            }
            match self.grid[i] {
                Some(piece) => pieces.push(piece),
                None => (),
            }
            i = i + 1;
        }
        proof {
            assert(self.grid@.take(64) =~= self.grid@);
        }
        pieces
    }

    /// Build the standard starting board: Black's pieces on rows 0 and 1,
    /// White's on rows 6 and 7.
    pub fn new() -> (r: Board)
        ensures
            r.wf(),
            forall|pos: Position| #[trigger] r.spec_get(pos) == spec_start_cell(pos),
    {
        let mut grid: Vec<Option<Piece>> = Vec::new();
        let mut i: usize = 0;
        while i < 64
            invariant
                grid@.len() == i,
                0 <= i <= 64,
                forall|j: int| 0 <= j < i ==> grid@[j] is None,
            decreases 64 - i,
        {
            grid.push(None);
            i = i + 1;
        }
        let mut col: usize = 0;
        while col < 8
            invariant
                grid@.len() == 64,
                0 <= col <= 8,
                forall|j: int|
                    0 <= j < 64 ==> #[trigger] grid@[j] == (if j % 8 < col && (j / 8 == 0 || j / 8
                        == 1 || j / 8 == 6 || j / 8 == 7) {
                        spec_start_cell(cell_pos(j))
                    } else {
                        None::<Piece>
                    }),
            decreases 8 - col,
        {
            let c = col as i32;
            grid[col] = Some(Piece::new(back_rank_type(c), Colour::Black, Position::new(0, c)));
            grid[8 + col] = Some(Piece::new(PieceType::Pawn, Colour::Black, Position::new(1, c)));
            grid[48 + col] = Some(Piece::new(PieceType::Pawn, Colour::White, Position::new(6, c)));
            grid[56 + col] = Some(
                Piece::new(back_rank_type(c), Colour::White, Position::new(7, c)),
            );
            col = col + 1;
        }
        let board = Board { grid };
        proof {
            assert forall|pos: Position| #[trigger] board.spec_get(pos) == spec_start_cell(pos) by {
                if pos.spec_on_board() {
                    let j = pos.row * 8 + pos.col;
                    assert(0 <= j < 64 && j / 8 == pos.row && j % 8 == pos.col);
                    assert(cell_pos(j) == pos);
                }
            }
            assert forall|j: int| 0 <= j < 64 implies ((#[trigger] board.grid@[j]) matches Some(p)
                ==> !p.is_captured() && p.spec_pos() == cell_pos(j)) by {
                if board.grid@[j] is Some {
                    assert(board.grid@[j] == spec_start_cell(cell_pos(j)));
                }
            }
        }
        board
    }

    /// The letter naming a board column, column 0 being `A`.
    pub open spec fn spec_col_letter(col: int) -> char {
        if col == 0 {
            'A'
        } else if col == 1 {
            'B'
        } else if col == 2 {
            'C'
        } else if col == 3 {
            'D'
        } else if col == 4 {
            'E'
        } else if col == 5 {
            'F'
        } else if col == 6 {
            'G'
        } else {
            'H'
        }
    }

    /// The digit naming a board row: row 0 is rank 8, row 7 is rank 1.
    pub open spec fn spec_row_digit(row: int) -> char {
        if row == 0 {
            '8'
        } else if row == 1 {
            '7'
        } else if row == 2 {
            '6'
        } else if row == 3 {
            '5'
        } else if row == 4 {
            '4'
        } else if row == 5 {
            '3'
        } else if row == 6 {
            '2'
        } else {
            '1'
        }
    }

    /// The algebraic name of a square: a column letter followed by a rank
    /// digit for an on-board position, a fixed diagnostic otherwise.
    pub open spec fn spec_notation(pos: Position) -> Seq<char> {
        if pos.spec_on_board() {
            seq![Board::spec_col_letter(pos.col as int), Board::spec_row_digit(pos.row as int)]
        } else {
            "Invalid position"@
        }
    }

    /// Render a position in algebraic notation, column letter first; an
    /// off-board position renders as a fixed diagnostic.
    pub fn position_to_notation(pos: Position) -> (r: String)
        ensures
            r@ == Board::spec_notation(pos),
    {
        if pos.is_off_board() {
            let invalid = String::from_str("Invalid position");
            proof {
                assert(invalid@ =~= Board::spec_notation(pos));
            }
            return invalid;
        }
        let letter: &str = match pos.get_col() {
            0 => "A",
            1 => "B",
            2 => "C",
            3 => "D",
            4 => "E",
            5 => "F",
            6 => "G",
            _ => "H",
        };
        let digit: &str = match pos.get_row() {
            0 => "8",
            1 => "7",
            2 => "6",
            3 => "5",
            4 => "4",
            5 => "3",
            6 => "2",
            _ => "1",
        };
        proof {
            reveal_strlit("A");
            reveal_strlit("B");
            reveal_strlit("C");
            reveal_strlit("D");
            reveal_strlit("E");
            reveal_strlit("F");
            reveal_strlit("G");
            reveal_strlit("H");
            reveal_strlit("1");
            reveal_strlit("2");
            reveal_strlit("3");
            reveal_strlit("4");
            reveal_strlit("5");
            reveal_strlit("6");
            reveal_strlit("7");
            reveal_strlit("8");
        }
        let name = String::from_str(letter).concat(digit);
        proof {
            assert(name@ =~= Board::spec_notation(pos));
        }
        name
    }

    /// Apply a move: if `to` is among the piece's legal destinations, clear
    /// the piece's origin cell, update its stored position, and place it in
    /// the destination cell, capturing — removing from the board — whatever
    /// stood there; otherwise return the board unchanged. The piece must be
    /// the one standing on its own square of this board.
    #[verifier::rlimit(60)]
    pub fn move_piece(self, piece: Piece, to: Position, ally_colour: Colour) -> (r: Board)
        requires
            self.wf(),
            self.spec_get(piece.spec_pos()) == Some(piece),
        ensures
            r.wf(),
            !piece.spec_legal_moves(self).contains(to) ==> r == self,
            piece.spec_legal_moves(self).contains(to) ==> ({
                let moved = Piece::spec_new(piece.spec_type(), piece.spec_colour(), to);
                &&& r.spec_get(to) == Some(moved)
                &&& r.spec_get(piece.spec_pos()) is None
                &&& forall|q: Position|
                    q != to && q != piece.spec_pos() ==> #[trigger] r.spec_get(q)
                        == self.spec_get(q)
                &&& r.spec_pieces().len() == self.spec_pieces().len() - (if self.spec_get(to)
                    is Some {
                    1int
                } else {
                    0int
                })
                &&& self.spec_get(to) matches Some(victim) ==> victim.spec_colour()
                    == piece.spec_colour().spec_flip()
            }),
    {
        proof {
            assert(piece.spec_pos().spec_on_board());
            let from_cell = piece.spec_pos().row * 8 + piece.spec_pos().col;
            assert(self.grid@[from_cell] == Some(piece));
            assert(cell_pos(from_cell) == piece.spec_pos());
        }
        let moves = piece.legal_moves(&self);
        if !contains_position(&moves, to) {
            return self;
        }
        proof {
            crate::piece::lemma_legal_moves_props(piece, self);
            assert(piece.spec_legal_moves(self).contains(to));
        }
        let from = piece.get_pos();
        let from_idx: usize = (from.get_row() as usize) * 8 + (from.get_col() as usize);
        let to_idx: usize = (to.get_row() as usize) * 8 + (to.get_col() as usize);
        let mut board = self;
        let mut piece = piece;
        board.grid[from_idx] = None;
        piece.set_pos(Position::new(to.get_row(), to.get_col()));
        board.grid[to_idx] = Some(piece);
        proof {
            let fi = from.row * 8 + from.col;
            let ti = to.row * 8 + to.col;
            assert(cell_pos(fi) == from && cell_pos(ti) == to);
            assert(fi != ti);
            assert(board.grid@ == self.grid@.update(fi, None).update(ti, Some(piece)));
            assert forall|j: int| 0 <= j < 64 implies ((#[trigger] board.grid@[j]) matches Some(p)
                ==> !p.is_captured() && p.spec_pos() == cell_pos(j)) by {
                if j != fi && j != ti {
                    assert(board.grid@[j] == self.grid@[j]);
                }
            }
            assert forall|q: Position| q != to && q != from implies #[trigger] board.spec_get(q)
                == self.spec_get(q) by {
                if q.spec_on_board() {
                    let qi = q.row * 8 + q.col;
                    assert(cell_pos(qi) == q);
                    assert(qi != fi && qi != ti);
                }
            }
            lemma_collect_pieces_update(self.grid@, fi, None);
            lemma_collect_pieces_update(self.grid@.update(fi, None), ti, Some(piece));
            assert(self.grid@.update(fi, None)[ti] == self.grid@[ti]);
        }
        board
    }

    /// True iff the square holds a piece of the colour `ally_colour`.
    pub fn has_friendly_piece(&self, pos: Position, ally_colour: Colour) -> (r: bool)
        requires
            self.wf(),
        ensures
            r == self.spec_has_friendly(pos, ally_colour),
    {
        if let Some(piece) = self.get_piece(pos) {
            piece.get_colour() == ally_colour
        } else {
            false
        }
    }
}

/// True iff `p` occurs in the vector of destinations.
fn contains_position(v: &Vec<Position>, p: Position) -> (r: bool)
    ensures
        r == v@.contains(p),
{
    let mut i: usize = 0;
    while i < v.len()
        invariant
            0 <= i <= v@.len(),
            forall|j: int| 0 <= j < i ==> v@[j] != p,
        decreases v@.len() - i,
    {
        if v[i] == p {
            return true;
        }
        i = i + 1;
    }
    false
}

/// Replacing one cell changes the number of stored pieces by exactly the
/// difference between the new and the old occupancy of that cell.
proof fn lemma_collect_pieces_update(cells: Seq<Option<Piece>>, i: int, v: Option<Piece>)
    requires
        0 <= i < cells.len(),
    ensures
        collect_pieces(cells.update(i, v)).len() == collect_pieces(cells).len() - (if cells[i]
            is Some {
            1int
        } else {
            0int
        }) + (if v is Some {
            1int
        } else {
            0int
        }),
    decreases cells.len(),
{
    let upd = cells.update(i, v);
    if i == cells.len() - 1 {
        assert(upd.drop_last() =~= cells.drop_last());
        assert(upd.last() == v);
    } else {
        assert(upd.drop_last() =~= cells.drop_last().update(i, v));
        assert(upd.last() == cells.last());
        lemma_collect_pieces_update(cells.drop_last(), i, v);
    }
}

/// The listing invariant, built up cell by cell: among the first `n` cells,
/// every listed piece is stored at the cell its own position names, every
/// stored piece is listed, the listing follows row-major cell order, and its
/// length counts the occupied cells.
proof fn lemma_pieces_struct(board: Board, n: int)
    requires
        board.wf(),
        0 <= n <= 64,
    ensures
        ({
            let s = collect_pieces(board.grid@.take(n));
            &&& forall|k: int|
                0 <= k < s.len() ==> !(#[trigger] s[k]).is_captured()
                    && s[k].spec_pos().spec_on_board() && cell_index(s[k].spec_pos()) < n
                    && board.spec_get(s[k].spec_pos()) == Some(s[k])
            &&& forall|i: int|
                0 <= i < n ==> ((#[trigger] board.grid@[i]) matches Some(p) ==> s.contains(p))
            &&& forall|k1: int, k2: int|
                0 <= k1 < k2 < s.len() ==> cell_index((#[trigger] s[k1]).spec_pos()) < cell_index(
                    (#[trigger] s[k2]).spec_pos(),
                )
            &&& s.len() == board.occupied_count(n)
        }),
    decreases n,
{
    if n == 0 {
        assert(board.grid@.take(0) =~= Seq::<Option<Piece>>::empty());
    } else {
        lemma_pieces_struct(board, n - 1);
        let prev = collect_pieces(board.grid@.take(n - 1));
        let s = collect_pieces(board.grid@.take(n));
        assert(board.grid@.take(n).drop_last() =~= board.grid@.take(n - 1));
        assert(board.grid@.take(n).last() == board.grid@[n - 1]);
        let here = cell_pos(n - 1);
        assert(here.spec_on_board() && cell_index(here) == n - 1);
        assert(board.spec_get(here) == board.grid@[n - 1]);
        match board.grid@[n - 1] {
            Some(p) => {
                assert(s == prev + seq![p]);
                assert(p.spec_pos() == here);
                assert forall|i: int|
                    0 <= i < n implies ((#[trigger] board.grid@[i]) matches Some(q) ==> s.contains(
                    q,
                )) by {
                    if board.grid@[i] is Some {
                        let q = board.grid@[i]->0;
                        if i < n - 1 {
                            assert(prev.contains(q));
                            let j = choose|j: int| 0 <= j < prev.len() && prev[j] == q;
                            assert(s[j] == q);
                        } else {
                            assert(s[s.len() - 1] == p);
                        }
                    }
                }
            },
            None => {
                assert(s == prev);
                assert forall|i: int|
                    0 <= i < n implies ((#[trigger] board.grid@[i]) matches Some(q) ==> s.contains(
                    q,
                )) by {
                    if i < n - 1 && board.grid@[i] is Some {
                        assert(prev.contains(board.grid@[i]->0));
                    }
                }
            },
        }
    }
}

/// What a board's piece listing contains: exactly the pieces stored in
/// occupied cells — each standing at the square its position field names —
/// in row-major scan order, one entry per occupied cell.
pub proof fn lemma_pieces_occupancy(board: Board)
    requires
        board.wf(),
    ensures
        ({
            let s = board.spec_pieces();
            &&& forall|k: int|
                0 <= k < s.len() ==> !(#[trigger] s[k]).is_captured()
                    && s[k].spec_pos().spec_on_board() && board.spec_get(s[k].spec_pos()) == Some(
                    s[k],
                )
            &&& forall|q: Position|
                q.spec_on_board() ==> ((#[trigger] board.spec_get(q)) matches Some(p)
                    ==> s.contains(p))
            &&& forall|k1: int, k2: int|
                0 <= k1 < k2 < s.len() ==> cell_index((#[trigger] s[k1]).spec_pos()) < cell_index(
                    (#[trigger] s[k2]).spec_pos(),
                )
            &&& s.len() == board.occupied_count(64)
        }),
{
    lemma_pieces_struct(board, 64);
    assert(board.grid@.take(64) =~= board.grid@);
    let s = board.spec_pieces();
    assert forall|q: Position|
        q.spec_on_board() implies ((#[trigger] board.spec_get(q)) matches Some(p) ==> s.contains(
        p,
    )) by {
        if board.spec_get(q) is Some {
            let i = cell_index(q);
            assert(0 <= i < 64 && cell_pos(i) == q);
            assert(board.grid@[i] == board.spec_get(q));
        }
    }
}

/// Piece listings concatenate cell-sequence by cell-sequence.
proof fn lemma_collect_pieces_add(a: Seq<Option<Piece>>, b: Seq<Option<Piece>>)
    ensures
        collect_pieces(a + b) == collect_pieces(a) + collect_pieces(b),
    decreases b.len(),
{
    if b.len() == 0 {
        assert(a + b =~= a);
        assert(collect_pieces(a) + collect_pieces(b) =~= collect_pieces(a));
    } else {
        lemma_collect_pieces_add(a, b.drop_last());
        assert((a + b).drop_last() =~= a + b.drop_last());
        assert((a + b).last() == b.last());
        assert(collect_pieces(a + b) =~= collect_pieces(a) + collect_pieces(b));
    }
}

/// A run of cells each holding a piece lists exactly those pieces, in order.
proof fn lemma_collect_pieces_exact(cells: Seq<Option<Piece>>, expected: Seq<Piece>)
    requires
        cells.len() == expected.len(),
        forall|i: int| 0 <= i < cells.len() ==> cells[i] == Some(expected[i]),
    ensures
        collect_pieces(cells) == expected,
    decreases cells.len(),
{
    if cells.len() == 0 {
        assert(expected =~= Seq::<Piece>::empty());
    } else {
        lemma_collect_pieces_exact(cells.drop_last(), expected.drop_last());
        assert(cells.last() == Some(expected.last()));
        assert(collect_pieces(cells) =~= expected);
    }
}

/// A run of empty cells lists nothing.
proof fn lemma_collect_pieces_none(cells: Seq<Option<Piece>>)
    requires
        forall|i: int| 0 <= i < cells.len() ==> (#[trigger] cells[i]) is None,
    ensures
        collect_pieces(cells) == Seq::<Piece>::empty(),
    decreases cells.len(),
{
    if cells.len() > 0 {
        lemma_collect_pieces_none(cells.drop_last());
        assert(collect_pieces(cells) =~= Seq::<Piece>::empty());
    }
}

/// Piece counts add up over concatenation.
proof fn lemma_count_pieces_add(s1: Seq<Piece>, s2: Seq<Piece>, colour: Colour, kind: PieceType)
    ensures
        count_pieces(s1 + s2, colour, kind) == count_pieces(s1, colour, kind) + count_pieces(
            s2,
            colour,
            kind,
        ),
    decreases s2.len(),
{
    if s2.len() == 0 {
        assert(s1 + s2 =~= s1);
    } else {
        lemma_count_pieces_add(s1, s2.drop_last(), colour, kind);
        assert((s1 + s2).drop_last() =~= s1 + s2.drop_last());
        assert((s1 + s2).last() == s2.last());
    }
}

/// A sequence whose pieces all match, or all fail, a colour-and-kind test
/// counts its whole length, or nothing.
proof fn lemma_count_pieces_uniform(s: Seq<Piece>, colour: Colour, kind: PieceType, matching: bool)
    requires
        forall|i: int|
            0 <= i < s.len() ==> (!(#[trigger] s[i]).is_captured() && s[i].spec_colour() == colour
                && s[i].spec_type() == kind) == matching,
    ensures
        count_pieces(s, colour, kind) == (if matching {
            s.len()
        } else {
            0
        }),
    decreases s.len(),
{
    if s.len() > 0 {
        lemma_count_pieces_uniform(s.drop_last(), colour, kind, matching);
    }
}

/// A back rank of one colour holds two rooks, two knights, two bishops, one
/// queen, one king, and no pawn of that colour.
proof fn lemma_count_back_rank(s: Seq<Piece>, colour: Colour)
    requires
        s.len() == 8,
        forall|i: int|
            0 <= i < 8 ==> !(#[trigger] s[i]).is_captured() && s[i].spec_colour() == colour
                && s[i].spec_type() == spec_back_rank(i),
    ensures
        count_pieces(s, colour, PieceType::Rook) == 2,
        count_pieces(s, colour, PieceType::Knight) == 2,
        count_pieces(s, colour, PieceType::Bishop) == 2,
        count_pieces(s, colour, PieceType::Queen) == 1,
        count_pieces(s, colour, PieceType::King) == 1,
        count_pieces(s, colour, PieceType::Pawn) == 0,
{
    reveal_with_fuel(count_pieces, 9);
}

/// The starting board's piece listing, row by row: `state()` on a fresh board
/// yields Black's back rank, Black's eight pawns, White's eight pawns and
/// White's back rank — 32 pieces, with the standard count of each kind on
/// each side.
pub proof fn lemma_starting_state(board: Board)
    requires
        board.wf(),
        forall|pos: Position| #[trigger] board.spec_get(pos) == spec_start_cell(pos),
    ensures
        board.spec_pieces() == spec_start_pieces(),
        board.spec_pieces().len() == 32,
        forall|colour: Colour, kind: PieceType|
            #[trigger] count_pieces(board.spec_pieces(), colour, kind) == spec_starting_count(kind),
{
    let cells = board.grid@;
    assert forall|i: int| 0 <= i < 64 implies #[trigger] cells[i] == spec_start_cell(cell_pos(i)) by {
        assert(cell_pos(i).spec_on_board() && cell_index(cell_pos(i)) == i);
        assert(board.spec_get(cell_pos(i)) == cells[i]);
    }
    let black_back = Seq::new(8, |c: int| Piece::spec_new(spec_back_rank(c), Colour::Black, pos_at(0, c)));
    let black_pawns = Seq::new(8, |c: int| Piece::spec_new(PieceType::Pawn, Colour::Black, pos_at(1, c)));
    let white_pawns = Seq::new(8, |c: int| Piece::spec_new(PieceType::Pawn, Colour::White, pos_at(6, c)));
    let white_back = Seq::new(8, |c: int| Piece::spec_new(spec_back_rank(c), Colour::White, pos_at(7, c)));
    let r0 = cells.subrange(0, 8);
    let r1 = cells.subrange(8, 16);
    let mid = cells.subrange(16, 48);
    let r6 = cells.subrange(48, 56);
    let r7 = cells.subrange(56, 64);
    assert(cells =~= r0 + r1 + mid + r6 + r7);
    lemma_collect_pieces_add(r0 + r1 + mid + r6, r7);
    lemma_collect_pieces_add(r0 + r1 + mid, r6);
    lemma_collect_pieces_add(r0 + r1, mid);
    lemma_collect_pieces_add(r0, r1);
    assert forall|c: int| 0 <= c < 8 implies cell_pos(c) == pos_at(0, c) && cell_pos(8 + c)
        == pos_at(1, c) && cell_pos(48 + c) == pos_at(6, c) && cell_pos(56 + c) == pos_at(7, c) by {
        assert(c / 8 == 0 && c % 8 == c);
        assert((8 + c) / 8 == 1 && (8 + c) % 8 == c);
        assert((48 + c) / 8 == 6 && (48 + c) % 8 == c);
        assert((56 + c) / 8 == 7 && (56 + c) % 8 == c);
    }
    lemma_collect_pieces_exact(r0, black_back);
    lemma_collect_pieces_exact(r1, black_pawns);
    lemma_collect_pieces_none(mid);
    lemma_collect_pieces_exact(r6, white_pawns);
    lemma_collect_pieces_exact(r7, white_back);
    assert(board.spec_pieces() =~= spec_start_pieces());
    assert(board.spec_pieces().len() == 32);
    assert forall|colour: Colour, kind: PieceType| #[trigger] count_pieces(
        board.spec_pieces(),
        colour,
        kind,
    ) == spec_starting_count(kind) by {
        let s = board.spec_pieces();
        let own_back = if colour == Colour::Black {
            black_back
        } else {
            white_back
        };
        let own_pawns = if colour == Colour::Black {
            black_pawns
        } else {
            white_pawns
        };
        let other_back = if colour == Colour::Black {
            white_back
        } else {
            black_back
        };
        let other_pawns = if colour == Colour::Black {
            white_pawns
        } else {
            black_pawns
        };
        assert(s =~= black_back + black_pawns + white_pawns + white_back);
        lemma_count_pieces_add(black_back + black_pawns + white_pawns, white_back, colour, kind);
        lemma_count_pieces_add(black_back + black_pawns, white_pawns, colour, kind);
        lemma_count_pieces_add(black_back, black_pawns, colour, kind);
        lemma_count_back_rank(own_back, colour);
        lemma_count_pieces_uniform(own_pawns, colour, kind, kind == PieceType::Pawn);
        lemma_count_pieces_uniform(other_back, colour, kind, false);
        lemma_count_pieces_uniform(other_pawns, colour, kind, false);
    }
}

/// Round trip between the square-name reader and the renderer: parsing the
/// algebraic name of any on-board position gives back that position.
pub proof fn lemma_notation_round_trip(pos: Position)
    requires
        pos.spec_on_board(),
    ensures
        crate::position::spec_interpret_position(Board::spec_notation(pos)) == Some(pos),
{
}

/// Off-board closure: an off-board position reports no piece of any kind, on
/// any board — `get_piece` answers `None`, and the enemy and friendly tests
/// answer false for every colour.
pub proof fn lemma_off_board_closure(board: Board, pos: Position, colour: Colour)
    requires
        !pos.spec_on_board(),
    ensures
        board.spec_get(pos) is None,
        !board.spec_has_enemy(pos, colour),
        !board.spec_has_friendly(pos, colour),
{
}

} // verus!
