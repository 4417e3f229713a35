//! Board coordinates and their geometry.
//!
//! A `Position` is a plain (row, col) pair. Any pair of integers is a valid
//! value — intermediate arithmetic is allowed to leave the board — but only
//! positions with both coordinates in [0, 7] name a square of the grid, and
//! the board refuses to look up any other.

use vstd::math::abs;
use vstd::prelude::*;
use vstd::string::StrSliceExecFns;

use crate::board::Board;
use crate::piece::Colour;

verus! {

/// One of the eight rays a sliding piece can travel along. `Up` increases the
/// row, `Right` increases the column; the four diagonal directions combine
/// one row sign with one column sign.
#[derive(Clone, Copy, Debug, PartialEq, Eq, Structural)]
pub enum Direction {
    Up,
    Down,
    Left,
    Right,
    NorthEast,
    NorthWest,
    SouthEast,
    SouthWest,
}

impl Direction {
    /// How one step in this direction changes the row.
    pub open spec fn spec_row_delta(self) -> int {
        match self {
            Direction::Up => 1,
            Direction::Down => -1,
            Direction::Left => 0,
            Direction::Right => 0,
            Direction::NorthEast => 1,
            Direction::NorthWest => 1,
            Direction::SouthEast => -1,
            Direction::SouthWest => -1,
        }
    }

    /// How one step in this direction changes the column.
    pub open spec fn spec_col_delta(self) -> int {
        match self {
            Direction::Up => 0,
            Direction::Down => 0,
            Direction::Left => -1,
            Direction::Right => 1,
            Direction::NorthEast => 1,
            Direction::NorthWest => -1,
            Direction::SouthEast => 1,
            Direction::SouthWest => -1,
        }
    }

    /// The direction follows a row or column rather than a diagonal.
    pub open spec fn spec_is_orthogonal(self) -> bool {
        self.spec_row_delta() == 0 || self.spec_col_delta() == 0
    }

    /// How one step in this direction changes the row.
    pub fn row_delta(self) -> (r: i32)
        ensures
            r == self.spec_row_delta(),
    {
        match self {
            Direction::Up => 1,
            Direction::Down => -1,
            Direction::Left => 0,
            Direction::Right => 0,
            Direction::NorthEast => 1,
            Direction::NorthWest => 1,
            Direction::SouthEast => -1,
            Direction::SouthWest => -1,
        }
    }

    /// How one step in this direction changes the column.
    pub fn col_delta(self) -> (r: i32)
        ensures
            r == self.spec_col_delta(),
    {
        match self {
            Direction::Up => 0,
            Direction::Down => 0,
            Direction::Left => -1,
            Direction::Right => 1,
            Direction::NorthEast => 1,
            Direction::NorthWest => -1,
            Direction::SouthEast => 1,
            Direction::SouthWest => -1,
        }
    }
}

/// An upper bound on how many steps remain before a walk in direction `d`
/// leaves the board; it shrinks with every step, which bounds the recursion
/// in `spec_max_travel`.
pub open spec fn travel_budget(pos: Position, d: Direction) -> int {
    (if d.spec_row_delta() > 0 {
        7 - pos.row
    } else if d.spec_row_delta() < 0 {
        pos.row as int
    } else {
        0
    }) + (if d.spec_col_delta() > 0 {
        7 - pos.col
    } else if d.spec_col_delta() < 0 {
        pos.col as int
    } else {
        0
    })
}

/// A zero-based (row, col) board coordinate. Row 0 is Black's back rank,
/// row 7 is White's; pawns advance towards the opposite back rank.
#[derive(Clone, Copy, Debug, PartialEq, Eq, PartialOrd, Ord, Structural)]
pub struct Position {
    pub row: i32,
    pub col: i32,
}

/// The position with the given coordinates, which must fit in the coordinate
/// type for the result to be meaningful.
pub open spec fn pos_at(row: int, col: int) -> Position {
    Position { row: row as i32, col: col as i32 }
}

/// The square named by a two-character algebraic coordinate: a column letter
/// `A`..`H` followed by a rank digit `1`..`8`, rank 1 being row 7. Any other
/// text names no square.
pub open spec fn spec_interpret_position(s: Seq<char>) -> Option<Position> {
    if s.len() == 2 && 'A' as int <= s[0] as int <= 'H' as int && '1' as int <= s[1] as int <= '8'
        as int {
        Some(pos_at(8 - (s[1] as int - '0' as int), s[0] as int - 'A' as int))
    } else {
        None
    }
}

/// Parse a two-character algebraic square name, such as the `D2` of a move
/// command, into the position it denotes; any other input yields `None`.
pub fn interpret_position(input: &str) -> (r: Option<Position>)
    ensures
        r == spec_interpret_position(input@),
{
    let n = input.unicode_len();
    if n != 2 {
        return None;
    }
    let c0 = input.get_char(0);
    let c1 = input.get_char(1);
    let col: i32 = match c0 {
        'A' => 0,
        'B' => 1,
        'C' => 2,
        'D' => 3,
        'E' => 4,
        'F' => 5,
        'G' => 6,
        'H' => 7,
        _ => {
            return None;
        },
    };
    let row: i32 = match c1 {
        '1' => 7,
        '2' => 6,
        '3' => 5,
        '4' => 4,
        '5' => 3,
        '6' => 2,
        '7' => 1,
        '8' => 0,
        _ => {
            return None;
        },
    };
    Some(Position::new(row, col))
}

impl Position {
    /// Whether both coordinates lie in [0, 7].
    pub open spec fn spec_on_board(self) -> bool {
        0 <= self.row <= 7 && 0 <= self.col <= 7
    }

    /// Two positions lie on a common diagonal (a position is diagonal to
    /// itself).
    pub open spec fn spec_diagonal_to(self, other: Position) -> bool {
        abs(self.col - other.col) == abs(self.row - other.row)
    }

    /// The number of diagonal steps between two diagonally related positions.
    pub open spec fn spec_diagonal_distance(self, other: Position) -> int {
        abs(self.col - other.col) as int
    }

    /// Two positions share a row or share a column.
    pub open spec fn spec_orthogonal_to(self, other: Position) -> bool {
        self.col == other.col || self.row == other.row
    }

    /// The number of orthogonal steps between two orthogonally related
    /// positions.
    pub open spec fn spec_orthogonal_distance(self, other: Position) -> int {
        (abs(self.col - other.col) + abs(self.row - other.row)) as int
    }

    /// The positions are one king-step apart: neither coordinate differs by
    /// more than one, and they are not the same square.
    pub open spec fn spec_adjacent_to(self, other: Position) -> bool {
        &&& abs(self.row - other.row) <= 1
        &&& abs(self.col - other.col) <= 1
        &&& !(self.row == other.row && self.col == other.col)
    }

    /// The direction a pawn of the given colour advances in: White marches
    /// from row 6 towards row 0, Black from row 1 towards row 7.
    pub open spec fn spec_pawn_dir(colour: Colour) -> int {
        match colour {
            Colour::White => -1,
            Colour::Black => 1,
        }
    }

    /// The square one pawn-step ahead of this one for the given colour.
    pub open spec fn spec_pawn_up(self, colour: Colour) -> Position {
        pos_at(self.row + Position::spec_pawn_dir(colour), self.col as int)
    }

    /// Whether this is the given colour's pawn starting rank.
    pub open spec fn spec_starting_pawn(self, colour: Colour) -> bool {
        match colour {
            Colour::White => self.row == 6,
            Colour::Black => self.row == 1,
        }
    }

    /// Build a position from zero-based coordinates.
    pub fn new(row: i32, col: i32) -> (r: Position)
        ensures
            r.row == row,
            r.col == col,
    {
        Position { row, col }
    }

    /// True iff both coordinates lie in [0, 7].
    pub fn is_on_board(&self) -> (r: bool)
        ensures
            r == self.spec_on_board(),
    {
        !self.is_off_board()
    }

    /// True iff some coordinate lies outside [0, 7].
    pub fn is_off_board(&self) -> (r: bool)
        ensures
            r == !self.spec_on_board(),
    {
        self.row < 0 || self.row > 7 || self.col < 0 || self.col > 7
    }

    /// The row coordinate.
    pub fn get_row(&self) -> (r: i32)
        ensures
            r == self.row,
    {
        self.row
    }

    /// The column coordinate.
    pub fn get_col(&self) -> (r: i32)
        ensures
            r == self.col,
    {
        self.col
    }

    /// True iff the two positions lie on a common diagonal.
    pub fn is_diagonal_to(&self, other: Position) -> (r: bool)
        ensures
            r == self.spec_diagonal_to(other),
    {
        abs_diff(self.col, other.col) == abs_diff(self.row, other.row)
    }

    /// The diagonal distance: how many diagonal steps separate the columns.
    fn diagonal_distance(&self, other: Position) -> (r: i64)
        ensures
            r == self.spec_diagonal_distance(other),
    {
        abs_diff(self.col, other.col)
    }

    /// True iff the two positions share a row or share a column.
    pub fn is_orthogonal_to(&self, other: Position) -> (r: bool)
        ensures
            r == self.spec_orthogonal_to(other),
    {
        (self.col == other.col) || (self.row == other.row)
    }

    /// The orthogonal distance: the sum of the coordinate differences.
    fn orthogonal_distance(&self, other: Position) -> (r: i64)
        ensures
            r == self.spec_orthogonal_distance(other),
    {
        abs_diff(self.col, other.col) + abs_diff(self.row, other.row)
    }

    /// True iff the two positions are one king-step apart.
    pub fn is_adjacent_to(&self, other: Position) -> (r: bool)
        ensures
            r == self.spec_adjacent_to(other),
    {
        if self.is_orthogonal_to(other) {
            self.orthogonal_distance(other) == 1
        } else if self.is_diagonal_to(other) {
            self.diagonal_distance(other) == 1
        } else {
            false
        }
    }

    /// True iff this position's row is strictly below the other's.
    pub fn is_below(&self, other: Position) -> (r: bool)
        ensures
            r == (self.row < other.row),
    {
        self.row < other.row
    }

    /// True iff this position's row is strictly above the other's.
    pub fn is_above(&self, other: Position) -> (r: bool)
        ensures
            r == (self.row > other.row),
    {
        self.row > other.row
    }

    /// True iff this position's column is strictly left of the other's.
    pub fn is_left_of(&self, other: Position) -> (r: bool)
        ensures
            r == (self.col < other.col),
    {
        self.col < other.col
    }

    /// True iff this position's column is strictly right of the other's.
    pub fn is_right_of(&self, other: Position) -> (r: bool)
        ensures
            r == (self.col > other.col),
    {
        self.col > other.col
    }

    /// The position one row below. The result is not clamped to the board:
    /// callers check `is_on_board` before using it as a grid index.
    pub fn next_below(&self) -> (r: Position)
        requires
            i32::MIN < self.row,
        ensures
            r.row == self.row - 1,
            r.col == self.col,
    {
        Position { row: self.row - 1, col: self.col }
    }

    /// The position one row above. Not clamped to the board.
    pub fn next_above(&self) -> (r: Position)
        requires
            self.row < i32::MAX,
        ensures
            r.row == self.row + 1,
            r.col == self.col,
    {
        Position { row: self.row + 1, col: self.col }
    }

    /// The square one step ahead of a pawn of the given colour. Not clamped
    /// to the board.
    pub fn pawn_up(&self, ally_colour: Colour) -> (r: Position)
        requires
            ally_colour == Colour::White ==> i32::MIN < self.row,
            ally_colour == Colour::Black ==> self.row < i32::MAX,
        ensures
            r == self.spec_pawn_up(ally_colour),
    {
        match ally_colour {
            Colour::White => self.next_below(),
            Colour::Black => self.next_above(),
        }
    }

    /// The square one step behind a pawn of the given colour. Not clamped to
    /// the board.
    pub fn pawn_back(&self, ally_colour: Colour) -> (r: Position)
        requires
            ally_colour == Colour::White ==> self.row < i32::MAX,
            ally_colour == Colour::Black ==> i32::MIN < self.row,
        ensures
            r == self.spec_pawn_up(ally_colour.spec_flip()),
    {
        self.pawn_up(ally_colour.flip())
    }

    /// The position one column to the left. Not clamped to the board.
    pub fn next_left(&self) -> (r: Position)
        requires
            i32::MIN < self.col,
        ensures
            r.row == self.row,
            r.col == self.col - 1,
    {
        Position { row: self.row, col: self.col - 1 }
    }

    /// The position one column to the right. Not clamped to the board.
    pub fn next_right(&self) -> (r: Position)
        requires
            self.col < i32::MAX,
        ensures
            r.row == self.row,
            r.col == self.col + 1,
    {
        Position { row: self.row, col: self.col + 1 }
    }

    /// True iff this position is on the given colour's pawn starting rank.
    pub fn is_starting_pawn(&self, colour: Colour) -> (r: bool)
        ensures
            r == self.spec_starting_pawn(colour),
    {
        match colour {
            Colour::White => self.row == 6,
            Colour::Black => self.row == 1,
        }
    }

    /// Is this the starting position of a kingside rook?
    pub fn is_kingside_rook(&self) -> (r: bool)
        ensures
            r == ((self.row == 0 || self.row == 7) && self.col == 7),
    {
        (self.row == 0 || self.row == 7) && self.col == 7
    }

    /// Is this the starting position of a queenside rook?
    pub fn is_queenside_rook(&self) -> (r: bool)
        ensures
            r == ((self.row == 0 || self.row == 7) && self.col == 0),
    {
        (self.row == 0 || self.row == 7) && self.col == 0
    }

    /// The squares stepped over when walking diagonally from this position to
    /// `to`, one step at a time, excluding the start and including `to`; the
    /// empty sequence when the positions are not diagonally related.
    pub open spec fn spec_diagonals_to(self, to: Position) -> Seq<Position> {
        if !self.spec_diagonal_to(to) {
            Seq::empty()
        } else {
            let row_step: int = if self.row < to.row {
                1
            } else {
                -1
            };
            let col_step: int = if self.col < to.col {
                1
            } else {
                -1
            };
            Seq::new(
                self.spec_diagonal_distance(to) as nat,
                |i: int| pos_at(self.row + (i + 1) * row_step, self.col + (i + 1) * col_step),
            )
        }
    }

    /// Walk the diagonal from this position towards `to`, collecting each
    /// square stepped onto, `to` included. Returns an empty vector when the
    /// positions are not diagonally related.
    pub fn diagonals_to(&self, to: Position) -> (r: Vec<Position>)
        ensures
            r@ == self.spec_diagonals_to(to),
    {
        let mut result: Vec<Position> = Vec::new();
        if !self.is_diagonal_to(to) {
            proof {
                assert(result@ =~= self.spec_diagonals_to(to));
            }
            return result;
        }
        let row_step: i32 = if self.is_below(to) {
            1
        } else {
            -1
        };
        let col_step: i32 = if self.is_left_of(to) {
            1
        } else {
            -1
        };
        let dist: i64 = self.diagonal_distance(to);
        proof {
            if dist > 0 {
                assert(to.row == self.row + dist * row_step && to.col == self.col + dist
                    * col_step) by (nonlinear_arith)
                    requires
                        self.spec_diagonal_to(to),
                        dist == self.spec_diagonal_distance(to),
                        dist > 0,
                        row_step == (if self.row < to.row { 1int } else { -1int }),
                        col_step == (if self.col < to.col { 1int } else { -1int }),
                ;
            }
        }
        let mut acc: Position = *self;
        let mut k: i64 = 0;
        while k < dist
            invariant
                0 <= k <= dist,
                dist == self.spec_diagonal_distance(to),
                self.spec_diagonal_to(to),
                row_step == (if self.row < to.row { 1int } else { -1int }),
                col_step == (if self.col < to.col { 1int } else { -1int }),
                dist > 0 ==> to.row == self.row + dist * row_step,
                dist > 0 ==> to.col == self.col + dist * col_step,
                acc.row == self.row + k * row_step,
                acc.col == self.col + k * col_step,
                result@.len() == k,
                forall|j: int|
                    0 <= j < k ==> result@[j] == pos_at(
                        self.row + (j + 1) * row_step,
                        self.col + (j + 1) * col_step,
                    ),
            decreases dist - k,
        {
            proof {
                assert((k + 1) * row_step == k * row_step + row_step) by (nonlinear_arith);
                assert((k + 1) * col_step == k * col_step + col_step) by (nonlinear_arith);
                assert(k * 1int == k && k * (-1int) == -k) by (nonlinear_arith);
            }
            acc = Position { row: acc.row + row_step, col: acc.col + col_step };
            result.push(acc);
            k = k + 1;
        }
        proof {
            assert(result@ =~= self.spec_diagonals_to(to));
        }
        result
    }

    /// The squares stepped over when walking along the shared row or column
    /// from this position to `to`, excluding the start and including `to`;
    /// the empty sequence when the positions are not orthogonally related.
    pub open spec fn spec_orthogonals_to(self, to: Position) -> Seq<Position> {
        if !self.spec_orthogonal_to(to) {
            Seq::empty()
        } else {
            let row_step: int = if self.col != to.col {
                0
            } else if self.row > to.row {
                -1
            } else if self.row < to.row {
                1
            } else {
                0
            };
            let col_step: int = if self.col < to.col {
                1
            } else if self.col > to.col {
                -1
            } else {
                0
            };
            Seq::new(
                self.spec_orthogonal_distance(to) as nat,
                |i: int| pos_at(self.row + (i + 1) * row_step, self.col + (i + 1) * col_step),
            )
        }
    }

    /// Walk the shared row or column from this position towards `to`,
    /// collecting each square stepped onto, `to` included. Returns an empty
    /// vector when the positions are not orthogonally related.
    pub fn orthogonals_to(&self, to: Position) -> (r: Vec<Position>)
        ensures
            r@ == self.spec_orthogonals_to(to),
    {
        let mut result: Vec<Position> = Vec::new();
        if !self.is_orthogonal_to(to) {
            proof {
                assert(result@ =~= self.spec_orthogonals_to(to));
            }
            return result;
        }
        let mut row_step: i32 = 0;
        let mut col_step: i32 = 0;
        if self.is_left_of(to) {
            col_step = 1;
        } else if self.is_right_of(to) {
            col_step = -1;
        } else if self.is_above(to) {
            row_step = -1;
        } else if self.is_below(to) {
            row_step = 1;
        }
        let dist: i64 = self.orthogonal_distance(to);
        proof {
            if dist > 0 {
                assert(to.row == self.row + dist * row_step && to.col == self.col + dist
                    * col_step) by (nonlinear_arith)
                    requires
                        self.spec_orthogonal_to(to),
                        dist == self.spec_orthogonal_distance(to),
                        dist > 0,
                        row_step == (if self.col != to.col {
                            0int
                        } else if self.row > to.row {
                            -1int
                        } else if self.row < to.row {
                            1int
                        } else {
                            0int
                        }),
                        col_step == (if self.col < to.col {
                            1int
                        } else if self.col > to.col {
                            -1int
                        } else {
                            0int
                        }),
                ;
            }
        }
        let mut acc: Position = *self;
        let mut k: i64 = 0;
        while k < dist
            invariant
                0 <= k <= dist,
                dist == self.spec_orthogonal_distance(to),
                self.spec_orthogonal_to(to),
                row_step == (if self.col != to.col {
                    0int
                } else if self.row > to.row {
                    -1int
                } else if self.row < to.row {
                    1int
                } else {
                    0int
                }),
                col_step == (if self.col < to.col {
                    1int
                } else if self.col > to.col {
                    -1int
                } else {
                    0int
                }),
                dist > 0 ==> to.row == self.row + dist * row_step,
                dist > 0 ==> to.col == self.col + dist * col_step,
                acc.row == self.row + k * row_step,
                acc.col == self.col + k * col_step,
                result@.len() == k,
                forall|j: int|
                    0 <= j < k ==> result@[j] == pos_at(
                        self.row + (j + 1) * row_step,
                        self.col + (j + 1) * col_step,
                    ),
            decreases dist - k,
        {
            proof {
                assert((k + 1) * row_step == k * row_step + row_step) by (nonlinear_arith);
                assert((k + 1) * col_step == k * col_step + col_step) by (nonlinear_arith);
                assert(k * 0int == 0 && k * 1int == k && k * (-1int) == -k) by (nonlinear_arith);
            }
            acc = Position { row: acc.row + row_step, col: acc.col + col_step };
            result.push(acc);
            k = k + 1;
        }
        proof {
            assert(result@ =~= self.spec_orthogonals_to(to));
        }
        result
    }

    /// The two positions are a knight's move apart: the coordinates differ by
    /// two and one, in either order.
    pub open spec fn spec_knight_move(self, other: Position) -> bool {
        ||| abs(self.row - other.row) == 2 && abs(self.col - other.col) == 1
        ||| abs(self.row - other.row) == 1 && abs(self.col - other.col) == 2
    }

    /// True iff the two positions are a knight's move apart.
    pub fn is_knight_move(&self, other: Position) -> (r: bool)
        ensures
            r == self.spec_knight_move(other),
    {
        let dr: i64 = abs_diff(self.row, other.row);
        let dc: i64 = abs_diff(self.col, other.col);
        (dr == 2 && dc == 1) || (dr == 1 && dc == 2)
    }
}

impl Position {
    /// The furthest square reachable from `pos` along `direction`: walk one
    /// square at a time; every empty square extends the reach, the first
    /// occupied square halts it, and an enemy-occupied halting square is
    /// itself included as a capturing destination. Yields `pos` itself when
    /// blocked (or off the board) immediately.
    pub open spec fn spec_max_travel(
        board: Board,
        pos: Position,
        ally_colour: Colour,
        direction: Direction,
    ) -> Position
        decreases travel_budget(pos, direction),
    {
        let nr = pos.row + direction.spec_row_delta();
        let nc = pos.col + direction.spec_col_delta();
        if !(0 <= nr <= 7 && 0 <= nc <= 7) {
            pos
        } else {
            let next = pos_at(nr, nc);
            if board.spec_get(next) is None {
                Position::spec_max_travel(board, next, ally_colour, direction)
            } else if board.spec_has_enemy(next, ally_colour) {
                next
            } else {
                pos
            }
        }
    }

    /// The ray a sliding piece of `ally_colour` may travel from `pos` along
    /// `direction`: every square from the one next to `pos` up to and
    /// including the max-travel boundary.
    pub open spec fn spec_travel_ray(
        board: Board,
        pos: Position,
        ally_colour: Colour,
        direction: Direction,
    ) -> Seq<Position> {
        let boundary = Position::spec_max_travel(board, pos, ally_colour, direction);
        if direction.spec_is_orthogonal() {
            pos.spec_orthogonals_to(boundary)
        } else {
            pos.spec_diagonals_to(boundary)
        }
    }

    /// The squares a sliding piece of `ally_colour` steps onto when walking
    /// from `pos` along `direction` until blocked: every empty square passed,
    /// plus the first enemy-occupied square, which ends the walk.
    pub open spec fn spec_travel_walk(
        board: Board,
        pos: Position,
        ally_colour: Colour,
        direction: Direction,
    ) -> Seq<Position>
        decreases travel_budget(pos, direction),
    {
        let nr = pos.row + direction.spec_row_delta();
        let nc = pos.col + direction.spec_col_delta();
        if !(0 <= nr <= 7 && 0 <= nc <= 7) {
            Seq::empty()
        } else {
            let next = pos_at(nr, nc);
            if board.spec_get(next) is None {
                seq![next] + Position::spec_travel_walk(board, next, ally_colour, direction)
            } else if board.spec_has_enemy(next, ally_colour) {
                seq![next]
            } else {
                Seq::empty()
            }
        }
    }

    /// The max-travel boundary: the furthest square reachable along the given
    /// direction before being blocked, including a capturable enemy blocker,
    /// excluding a friendly one.
    pub fn max_travel(
        board: &Board,
        pos: Position,
        ally_colour: Colour,
        direction: Direction,
    ) -> (r: Position)
        requires
            board.wf(),
            pos.spec_on_board(),
        ensures
            r == Position::spec_max_travel(*board, pos, ally_colour, direction),
    {
        let dr: i32 = direction.row_delta();
        let dc: i32 = direction.col_delta();
        let mut cur: Position = pos;
        loop
            invariant
                board.wf(),
                cur.spec_on_board(),
                dr == direction.spec_row_delta(),
                dc == direction.spec_col_delta(),
                Position::spec_max_travel(*board, pos, ally_colour, direction)
                    == Position::spec_max_travel(*board, cur, ally_colour, direction),
            decreases travel_budget(cur, direction),
        {
            let nr: i32 = cur.row + dr;
            let nc: i32 = cur.col + dc;
            if nr < 0 || nr > 7 || nc < 0 || nc > 7 {
                return cur;
            }
            let next = Position { row: nr, col: nc };
            if board.has_no_piece(next) {
                cur = next;
            } else if board.has_enemy_piece(next, ally_colour) {
                return next;
            } else {
                return cur;
            }
        }
    }
}

/// Structure of the max-travel walk: the i-th square stepped onto lies i + 1
/// steps from `pos` along the direction, every walked square is on the board
/// and never friendly-occupied, every walked square before the last is empty,
/// and the walk ends exactly at the max-travel boundary.
pub proof fn lemma_travel_walk_props(
    board: Board,
    pos: Position,
    ally_colour: Colour,
    direction: Direction,
)
    requires
        pos.spec_on_board(),
    ensures
        ({
            let walk = Position::spec_travel_walk(board, pos, ally_colour, direction);
            let m = Position::spec_max_travel(board, pos, ally_colour, direction);
            let dr = direction.spec_row_delta();
            let dc = direction.spec_col_delta();
            &&& forall|i: int|
                0 <= i < walk.len() ==> (#[trigger] walk[i]).row == pos.row + (i + 1) * dr
                    && walk[i].col == pos.col + (i + 1) * dc
            &&& forall|i: int| 0 <= i < walk.len() ==> (#[trigger] walk[i]).spec_on_board()
            &&& forall|i: int|
                0 <= i < walk.len() ==> !board.spec_has_friendly(#[trigger] walk[i], ally_colour)
            &&& forall|i: int| 0 <= i < walk.len() - 1 ==> board.spec_get(#[trigger] walk[i]) is None
            &&& walk.len() > 0 ==> walk.last() == m
            &&& walk.len() == 0 ==> m == pos
        }),
    decreases travel_budget(pos, direction),
{
    let dr = direction.spec_row_delta();
    let dc = direction.spec_col_delta();
    let nr = pos.row + dr;
    let nc = pos.col + dc;
    let walk = Position::spec_travel_walk(board, pos, ally_colour, direction);
    if 0 <= nr <= 7 && 0 <= nc <= 7 {
        let next = pos_at(nr, nc);
        if board.spec_get(next) is None {
            lemma_travel_walk_props(board, next, ally_colour, direction);
            let walk2 = Position::spec_travel_walk(board, next, ally_colour, direction);
            assert(walk == seq![next] + walk2);
            assert forall|i: int| 0 <= i < walk.len() implies (#[trigger] walk[i]).row == pos.row
                + (i + 1) * dr && walk[i].col == pos.col + (i + 1) * dc by {
                if i == 0 {
                    assert(walk[0] == next);
                    assert(1 * dr == dr && 1 * dc == dc) by (nonlinear_arith);
                } else {
                    assert(walk[i] == walk2[i - 1]);
                    assert(walk2[i - 1].row == next.row + ((i - 1) + 1) * dr && walk2[i - 1].col
                        == next.col + ((i - 1) + 1) * dc);
                    assert((i + 1) * dr == i * dr + dr && (i + 1) * dc == i * dc + dc)
                        by (nonlinear_arith);
                }
            }
        }
    }
}

/// The ray a sliding piece is offered — the squares enumerated between the
/// piece and its max-travel boundary — is exactly the sequence of squares the
/// max-travel walk steps onto.
pub proof fn lemma_travel_ray_is_walk(
    board: Board,
    pos: Position,
    ally_colour: Colour,
    direction: Direction,
)
    requires
        pos.spec_on_board(),
    ensures
        Position::spec_travel_ray(board, pos, ally_colour, direction) == Position::spec_travel_walk(
            board,
            pos,
            ally_colour,
            direction,
        ),
{
    lemma_travel_walk_props(board, pos, ally_colour, direction);
    let walk = Position::spec_travel_walk(board, pos, ally_colour, direction);
    let ray = Position::spec_travel_ray(board, pos, ally_colour, direction);
    let m = Position::spec_max_travel(board, pos, ally_colour, direction);
    let dr = direction.spec_row_delta();
    let dc = direction.spec_col_delta();
    let n = walk.len() as int;
    if n == 0 {
        assert(pos.spec_orthogonal_to(pos) && pos.spec_diagonal_to(pos));
        assert(pos.spec_orthogonal_distance(pos) == 0 && pos.spec_diagonal_distance(pos) == 0);
        assert(ray =~= walk);
    } else {
        assert(walk.last() == walk[n - 1]);
        assert(m.row == pos.row + n * dr && m.col == pos.col + n * dc);
        assert(dr == 0 ==> m.row == pos.row) by (nonlinear_arith)
            requires
                m.row == pos.row + n * dr,
        ;
        assert(dc == 0 ==> m.col == pos.col) by (nonlinear_arith)
            requires
                m.col == pos.col + n * dc,
        ;
        assert(dr == 1 ==> m.row == pos.row + n) by (nonlinear_arith)
            requires
                m.row == pos.row + n * dr,
        ;
        assert(dr == -1 ==> m.row == pos.row - n) by (nonlinear_arith)
            requires
                m.row == pos.row + n * dr,
        ;
        assert(dc == 1 ==> m.col == pos.col + n) by (nonlinear_arith)
            requires
                m.col == pos.col + n * dc,
        ;
        assert(dc == -1 ==> m.col == pos.col - n) by (nonlinear_arith)
            requires
                m.col == pos.col + n * dc,
        ;
        assert forall|i: int| 0 <= i < n implies ({
            &&& (dr == 0 ==> (#[trigger] walk[i]).row == pos.row)
            &&& (dr == 1 ==> walk[i].row == pos.row + (i + 1))
            &&& (dr == -1 ==> walk[i].row == pos.row - (i + 1))
            &&& (dc == 0 ==> walk[i].col == pos.col)
            &&& (dc == 1 ==> walk[i].col == pos.col + (i + 1))
            &&& (dc == -1 ==> walk[i].col == pos.col - (i + 1))
        }) by {
            assert(walk[i].row == pos.row + (i + 1) * dr && walk[i].col == pos.col + (i + 1) * dc);
            assert(dr == 0 ==> (i + 1) * dr == 0) by (nonlinear_arith);
            assert(dr == 1 ==> (i + 1) * dr == i + 1) by (nonlinear_arith);
            assert(dr == -1 ==> (i + 1) * dr == -(i + 1)) by (nonlinear_arith);
            assert(dc == 0 ==> (i + 1) * dc == 0) by (nonlinear_arith);
            assert(dc == 1 ==> (i + 1) * dc == i + 1) by (nonlinear_arith);
            assert(dc == -1 ==> (i + 1) * dc == -(i + 1)) by (nonlinear_arith);
        }
        if direction.spec_is_orthogonal() {
            assert(pos.spec_orthogonal_to(m));
            assert(pos.spec_orthogonal_distance(m) == n);
            assert(ray =~= walk);
        } else {
            assert(pos.spec_diagonal_to(m));
            assert(pos.spec_diagonal_distance(m) == n);
            assert(ray =~= walk);
        }
    }
}

/// Every square a sliding ray offers is on the board, distinct from the
/// piece's own square, and not occupied by a friendly piece.
pub proof fn lemma_travel_ray_props(
    board: Board,
    pos: Position,
    ally_colour: Colour,
    direction: Direction,
)
    requires
        pos.spec_on_board(),
    ensures
        forall|q: Position|
            #[trigger] Position::spec_travel_ray(board, pos, ally_colour, direction).contains(q)
                ==> q.spec_on_board() && q != pos && !board.spec_has_friendly(q, ally_colour),
{
    lemma_travel_ray_is_walk(board, pos, ally_colour, direction);
    lemma_travel_walk_props(board, pos, ally_colour, direction);
    let walk = Position::spec_travel_walk(board, pos, ally_colour, direction);
    let dr = direction.spec_row_delta();
    let dc = direction.spec_col_delta();
    assert forall|q: Position| walk.contains(q) implies q.spec_on_board() && q != pos
        && !board.spec_has_friendly(q, ally_colour) by {
        let i = choose|i: int| 0 <= i < walk.len() && walk[i] == q;
        assert(walk[i].spec_on_board());
        assert(!board.spec_has_friendly(walk[i], ally_colour));
        assert(walk[i].row == pos.row + (i + 1) * dr && walk[i].col == pos.col + (i + 1) * dc);
        assert(dr != 0 ==> (i + 1) * dr != 0) by (nonlinear_arith)
            requires
                i >= 0,
        ;
        assert(dc != 0 ==> (i + 1) * dc != 0) by (nonlinear_arith)
            requires
                i >= 0,
        ;
    }
}

/// Blocking at the first step: a sliding piece whose neighbouring square in a
/// direction holds a friendly piece is offered no square at all along that
/// ray, and one whose neighbouring square holds an enemy piece is offered
/// exactly that square — the capture — and nothing beyond it.
pub proof fn lemma_sliding_blocked(
    board: Board,
    pos: Position,
    ally_colour: Colour,
    direction: Direction,
)
    requires
        pos.spec_on_board(),
    ensures
        ({
            let next = pos_at(
                pos.row + direction.spec_row_delta(),
                pos.col + direction.spec_col_delta(),
            );
            let ray = Position::spec_travel_ray(board, pos, ally_colour, direction);
            &&& (next.spec_on_board() && board.spec_has_friendly(next, ally_colour)) ==> ray
                == Seq::<Position>::empty()
            &&& (next.spec_on_board() && board.spec_has_enemy(next, ally_colour)) ==> ray == seq![
                next,
            ]
        }),
{
    lemma_travel_ray_is_walk(board, pos, ally_colour, direction);
    let next = pos_at(pos.row + direction.spec_row_delta(), pos.col + direction.spec_col_delta());
    if next.spec_on_board() && board.spec_has_friendly(next, ally_colour) {
        assert(Position::spec_travel_walk(board, pos, ally_colour, direction) =~= Seq::<
            Position,
        >::empty());
    }
    if next.spec_on_board() && board.spec_has_enemy(next, ally_colour) {
        assert(Position::spec_travel_walk(board, pos, ally_colour, direction) =~= seq![next]);
    }
}

/// The absolute difference of two coordinates, computed in a wider type so
/// that no pair of inputs overflows.
fn abs_diff(a: i32, b: i32) -> (r: i64)
    ensures
        r == abs(a - b),
{
    let d: i64 = a as i64 - b as i64;
    if d < 0 {
        -d
    } else {
        d
    }
}

} // verus!
