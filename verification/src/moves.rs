//! Per-piece move legality: one predicate per piece kind deciding whether
//! the geometric shape of a move is legal given current occupancy, and the
//! arbiter that composes them with same-color-occupant rejection.

use vstd::prelude::*;

use crate::pieces::Piece;
use crate::pieces::PieceColor;
use crate::pieces::PieceType;
use crate::pieces::abs_diff;
use crate::pieces::color_of_square;
use crate::pieces::distinct_positions;
use crate::pieces::is_path_empty;
use crate::pieces::path_clear;
use crate::pieces::square_has_color;
use crate::pieces::square_occupied;

verus! {

/// A king step: exactly one square in any of the eight directions.
pub open spec fn king_shape(from: (u8, u8), to: (u8, u8)) -> bool {
    let fx: int = from.0 as int;
    let fy: int = from.1 as int;
    let tx: int = to.0 as int;
    let ty: int = to.1 as int;
    ||| (abs_diff(fx, tx) == 1 && fy == ty)
    ||| (abs_diff(fy, ty) == 1 && fx == tx)
    ||| (abs_diff(fx, tx) == 1 && abs_diff(fy, ty) == 1)
}

/// The knight's L-shape over coordinate deltas.
pub open spec fn knight_delta_ok(dx: int, dy: int) -> bool {
    ||| (abs_diff(dx, 0) == 2 && abs_diff(dy, 0) == 1)
    ||| (abs_diff(dx, 0) == 1 && abs_diff(dy, 0) == 2)
}

/// A knight move: an L-shape, `(|dx|, |dy|)` is `(2, 1)` or `(1, 2)`.
pub open spec fn knight_shape(from: (u8, u8), to: (u8, u8)) -> bool {
    knight_delta_ok(to.0 - from.0, to.1 - from.1)
}

/// A rook line: exactly one of the two axes moves.
pub open spec fn rook_shape(from: (u8, u8), to: (u8, u8)) -> bool {
    ||| (from.0 == to.0 && from.1 != to.1)
    ||| (from.1 == to.1 && from.0 != to.0)
}

/// A bishop line: equal nonzero absolute delta on both axes.
pub open spec fn bishop_shape(from: (u8, u8), to: (u8, u8)) -> bool {
    abs_diff(from.0 as int, to.0 as int) == abs_diff(from.1 as int, to.1 as int) && abs_diff(
        from.0 as int,
        to.0 as int,
    ) > 0
}

/// A queen line: the union of the bishop and rook shapes.
pub open spec fn queen_shape(from: (u8, u8), to: (u8, u8)) -> bool {
    bishop_shape(from, to) || rook_shape(from, to)
}

/// A legal rook move: rook line with a clear path.
pub open spec fn rook_move_ok(board: Seq<Piece>, from: (u8, u8), to: (u8, u8)) -> bool {
    rook_shape(from, to) && path_clear(board, from, to)
}

/// A legal bishop move: bishop line with a clear path.
pub open spec fn bishop_move_ok(board: Seq<Piece>, from: (u8, u8), to: (u8, u8)) -> bool {
    bishop_shape(from, to) && path_clear(board, from, to)
}

/// A legal queen move: queen line with a clear path.
pub open spec fn queen_move_ok(board: Seq<Piece>, from: (u8, u8), to: (u8, u8)) -> bool {
    queen_shape(from, to) && path_clear(board, from, to)
}

/// A legal White pawn move: a single step toward increasing rank index onto
/// an empty square; a double step from the home rank (index 1) with the
/// intervening square and the target empty; or a one-square forward-diagonal
/// capture of a Black piece.
pub open spec fn white_pawn_move_ok(board: Seq<Piece>, from: (u8, u8), to: (u8, u8)) -> bool {
    let fx: int = from.0 as int;
    let fy: int = from.1 as int;
    let tx: int = to.0 as int;
    let ty: int = to.1 as int;
    ||| (tx - fx == 1 && fy == ty && !square_occupied(board, tx, ty))
    ||| (fx == 1 && tx - fx == 2 && fy == ty && path_clear(board, from, to) && !square_occupied(
        board,
        tx,
        ty,
    ))
    ||| (tx - fx == 1 && abs_diff(fy, ty) == 1 && square_has_color(
        board,
        tx,
        ty,
        PieceColor::Black,
    ))
}

/// A legal Black pawn move: the mirror of the White pawn rule, advancing
/// toward decreasing rank index, with home rank index 6 and White capture
/// targets.
pub open spec fn black_pawn_move_ok(board: Seq<Piece>, from: (u8, u8), to: (u8, u8)) -> bool {
    let fx: int = from.0 as int;
    let fy: int = from.1 as int;
    let tx: int = to.0 as int;
    let ty: int = to.1 as int;
    ||| (tx - fx == -1 && fy == ty && !square_occupied(board, tx, ty))
    ||| (fx == 6 && tx - fx == -2 && fy == ty && path_clear(board, from, to) && !square_occupied(
        board,
        tx,
        ty,
    ))
    ||| (tx - fx == -1 && abs_diff(fy, ty) == 1 && square_has_color(
        board,
        tx,
        ty,
        PieceColor::White,
    ))
}

/// The geometric legality of moving `p` to `to`, dispatched over its kind,
/// ignoring same-color-occupant rejection (handled one layer up).
pub open spec fn piece_move_ok(p: Piece, to: (u8, u8), board: Seq<Piece>) -> bool {
    match p.piece_type {
        PieceType::King => king_shape((p.x, p.y), to),
        PieceType::Queen => queen_move_ok(board, (p.x, p.y), to),
        PieceType::Bishop => bishop_move_ok(board, (p.x, p.y), to),
        PieceType::Knight => knight_shape((p.x, p.y), to),
        PieceType::Rook => rook_move_ok(board, (p.x, p.y), to),
        PieceType::Pawn => match p.color {
            PieceColor::White => white_pawn_move_ok(board, (p.x, p.y), to),
            PieceColor::Black => black_pawn_move_ok(board, (p.x, p.y), to),
        },
    }
}

/// The single legality verdict for a move: the target must not hold a piece
/// of the mover's own color, and the move shape must be legal for its kind.
pub open spec fn spec_can_reach(p: Piece, to: (u8, u8), board: Seq<Piece>) -> bool {
    &&& !square_has_color(board, to.0 as int, to.1 as int, p.color)
    &&& piece_move_ok(p, to, board)
}

/// A move can never reach a target occupied by a same-color piece.
pub proof fn lemma_can_reach_rejects_same_color(p: Piece, target: (u8, u8), board: Seq<Piece>)
    requires
        square_has_color(board, target.0 as int, target.1 as int, p.color),
    ensures
        !spec_can_reach(p, target, board),
{
}

/// Knight legality is symmetric under quarter-turn rotation of the
/// coordinate deltas: `(dx, dy)` is a knight delta exactly when `(dy, -dx)`
/// is.
pub proof fn lemma_knight_rotation(dx: int, dy: int)
    ensures
        knight_delta_ok(dx, dy) == knight_delta_ok(dy, -dx),
{
}

/// `|a - b|` over `u8` coordinates, computed without overflow.
fn abs_delta(a: u8, b: u8) -> (r: i16)
    ensures
        r == abs_diff(a as int, b as int),
{
    if a >= b {
        a as i16 - b as i16
    } else {
        b as i16 - a as i16
    }
}

/// The king's move shape: exactly one square horizontally, vertically, or
/// diagonally.
pub fn is_king_move_valid(current_position: (u8, u8), target_position: (u8, u8)) -> (r: bool)
    ensures
        r == king_shape(current_position, target_position),
{
    let (current_x, current_y) = current_position;
    let (target_x, target_y) = target_position;
    (abs_delta(current_x, target_x) == 1 && current_y == target_y) || (abs_delta(
        current_y,
        target_y,
    ) == 1 && current_x == target_x) || (abs_delta(current_x, target_x) == 1 && abs_delta(
        current_y,
        target_y,
    ) == 1)
}

/// The knight's move shape: an L of two squares on one axis and one on the
/// other.
pub fn is_knight_move_valid(current_position: (u8, u8), target_position: (u8, u8)) -> (r: bool)
    ensures
        r == knight_shape(current_position, target_position),
{
    let (current_x, current_y) = current_position;
    let (target_x, target_y) = target_position;
    (abs_delta(current_x, target_x) == 2 && abs_delta(current_y, target_y) == 1) || (abs_delta(
        current_x,
        target_x,
    ) == 1 && abs_delta(current_y, target_y) == 2)
}

/// A rook move: along exactly one axis, with every square in between empty.
pub fn is_rook_move_valid(
    current_position: (u8, u8),
    target_position: (u8, u8),
    pieces: &Vec<Piece>,
) -> (r: bool)
    ensures
        r == rook_move_ok(pieces@, current_position, target_position),
{
    let (current_x, current_y) = current_position;
    let (target_x, target_y) = target_position;
    is_path_empty(current_position, target_position, pieces) && ((current_x == target_x
        && current_y != target_y) || (current_y == target_y && current_x != target_x))
}

/// A bishop move: along a diagonal, with every square in between empty.
pub fn is_bishop_move_valid(
    current_position: (u8, u8),
    target_position: (u8, u8),
    pieces: &Vec<Piece>,
) -> (r: bool)
    ensures
        r == bishop_move_ok(pieces@, current_position, target_position),
{
    let (current_x, current_y) = current_position;
    let (target_x, target_y) = target_position;
    is_path_empty(current_position, target_position, pieces) && abs_delta(current_x, target_x)
        == abs_delta(current_y, target_y) && abs_delta(current_x, target_x) > 0
}

/// A queen move: along one axis or a diagonal, with every square in between
/// empty.
pub fn is_queen_move_valid(
    current_position: (u8, u8),
    target_position: (u8, u8),
    pieces: &Vec<Piece>,
) -> (r: bool)
    ensures
        r == queen_move_ok(pieces@, current_position, target_position),
{
    let (current_x, current_y) = current_position;
    let (target_x, target_y) = target_position;
    is_path_empty(current_position, target_position, pieces) && ((abs_delta(current_x, target_x)
        == abs_delta(current_y, target_y) && abs_delta(current_x, target_x) > 0) || ((current_x
        == target_x && current_y != target_y) || (current_y == target_y && current_x
        != target_x)))
}

/// A White pawn move; the board must hold at most one piece per square.
pub fn is_white_pawn_move_valid(
    current_position: (u8, u8),
    target_position: (u8, u8),
    pieces: &Vec<Piece>,
) -> (r: bool)
    requires
        distinct_positions(pieces@),
    ensures
        r == white_pawn_move_ok(pieces@, current_position, target_position),
{
    let (current_x, current_y) = current_position;
    let (target_x, target_y) = target_position;
    let dx: i16 = target_x as i16 - current_x as i16;

    // Normal move
    if dx == 1 && current_y == target_y {
        if color_of_square(target_position, pieces).is_none() {
            return true;
        }
    }
    // Move 2 squares
    if current_x == 1 && dx == 2 && current_y == target_y && is_path_empty(
        current_position,
        target_position,
        pieces,
    ) {
        if color_of_square(target_position, pieces).is_none() {
            return true;
        }
    }
    // Take piece
    if dx == 1 && abs_delta(current_y, target_y) == 1 {
        match color_of_square(target_position, pieces) {
            Option::Some(c) => {
                if c == PieceColor::Black {
                    return true;
                }
                proof {
                    lemma_unique_color_at(
                        pieces@,
                        target_position.0 as int,
                        target_position.1 as int,
                        c,
                    );
                }
            },
            Option::None => {},
        }
    }
    false
}

/// A Black pawn move; the board must hold at most one piece per square.
pub fn is_black_pawn_move_valid(
    current_position: (u8, u8),
    target_position: (u8, u8),
    pieces: &Vec<Piece>,
) -> (r: bool)
    requires
        distinct_positions(pieces@),
    ensures
        r == black_pawn_move_ok(pieces@, current_position, target_position),
{
    let (current_x, current_y) = current_position;
    let (target_x, target_y) = target_position;
    let dx: i16 = target_x as i16 - current_x as i16;

    // Normal move
    if dx == -1 && current_y == target_y {
        if color_of_square(target_position, pieces).is_none() {
            return true;
        }
    }
    // Move 2 squares
    if current_x == 6 && dx == -2 && current_y == target_y && is_path_empty(
        current_position,
        target_position,
        pieces,
    ) {
        if color_of_square(target_position, pieces).is_none() {
            return true;
        }
    }
    // Take piece
    if dx == -1 && abs_delta(current_y, target_y) == 1 {
        match color_of_square(target_position, pieces) {
            Option::Some(c) => {
                if c == PieceColor::White {
                    return true;
                }
                proof {
                    lemma_unique_color_at(
                        pieces@,
                        target_position.0 as int,
                        target_position.1 as int,
                        c,
                    );
                }
            },
            Option::None => {},
        }
    }
    false
}

/// On a board with at most one piece per square, a square that holds a piece
/// of color `c` holds a piece of no other color.
pub proof fn lemma_unique_color_at(board: Seq<Piece>, x: int, y: int, c: PieceColor)
    requires
        distinct_positions(board),
        square_has_color(board, x, y, c),
    ensures
        forall|d: PieceColor| square_has_color(board, x, y, d) ==> d == c,
{
    let i = choose|i: int|
        0 <= i < board.len() && (#[trigger] board[i]).x == x && board[i].y == y && board[i].color
            == c;
    assert forall|d: PieceColor| square_has_color(board, x, y, d) implies d == c by {
        let j = choose|j: int|
            0 <= j < board.len() && (#[trigger] board[j]).x == x && board[j].y == y
                && board[j].color == d;
        if i != j {
            assert(!(board[i].x == board[j].x && board[i].y == board[j].y));
        }
    }
}

impl Piece {
    /// Whether this piece can move to `target_position` on the given board:
    /// rejected outright if a same-color piece occupies the target, otherwise
    /// decided by the movement rule of this piece's kind.
    pub fn can_reach_position(&self, target_position: (u8, u8), pieces: &Vec<Piece>) -> (r: bool)
        requires
            distinct_positions(pieces@),
        ensures
            r == spec_can_reach(*self, target_position, pieces@),
    {
        // If there's a piece of the same color in the target square, it can't move
        match color_of_square(target_position, pieces) {
            Option::Some(c) => {
                if c == self.color {
                    return false;
                }
                proof {
                    lemma_unique_color_at(
                        pieces@,
                        target_position.0 as int,
                        target_position.1 as int,
                        c,
                    );
                }
            },
            Option::None => {},
        }

        match self.piece_type {
            PieceType::King => is_king_move_valid((self.x, self.y), target_position),
            PieceType::Queen => is_queen_move_valid((self.x, self.y), target_position, pieces),
            PieceType::Bishop => is_bishop_move_valid((self.x, self.y), target_position, pieces),
            PieceType::Knight => is_knight_move_valid((self.x, self.y), target_position),
            PieceType::Rook => is_rook_move_valid((self.x, self.y), target_position, pieces),
            PieceType::Pawn => match self.color {
                PieceColor::Black => is_black_pawn_move_valid(
                    (self.x, self.y),
                    target_position,
                    pieces,
                ),
                PieceColor::White => is_white_pawn_move_valid(
                    (self.x, self.y),
                    target_position,
                    pieces,
                ),
            },
        }
    }

    /// The full legality verdict for a move request. The engine does not yet
    /// forbid moves that leave the mover's own king in check, so this is
    /// equivalent to `can_reach_position`; `_is_check` is accepted so the
    /// verdict can later be refined without changing callers.
    pub fn is_move_valid(
        &self,
        target_position: (u8, u8),
        pieces: &Vec<Piece>,
        _is_check: bool,
    ) -> (r: bool)
        requires
            distinct_positions(pieces@),
        ensures
            r == spec_can_reach(*self, target_position, pieces@),
    {
        self.can_reach_position(target_position, pieces)
    }
}

} // verus!
