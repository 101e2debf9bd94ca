//! Core piece data model and board-occupancy queries.
//!
//! A board is a collection of active pieces; a square is a `(file, rank)`
//! pair of `u8` coordinates. The spec-level model of a board is the sequence
//! of pieces (`Seq<Piece>`), queried through existential occupancy predicates.

use vstd::prelude::*;

verus! {

/// The two sides. Absence of a piece is represented by absence from the
/// piece collection, never by a color value.
#[derive(Clone, Copy, PartialEq, Eq, Structural, Debug)]
pub enum PieceColor {
    White,
    Black,
}

/// The closed set of piece kinds; move legality dispatches exhaustively over it.
#[derive(Clone, Copy, PartialEq, Eq, Structural, Debug)]
pub enum PieceType {
    King,
    Queen,
    Bishop,
    Knight,
    Rook,
    Pawn,
}

/// An active piece: its side, its kind, and its current square.
/// `x` is the rank index (White advances toward increasing `x`),
/// `y` is the file index.
#[derive(Clone, Copy, PartialEq, Eq, Structural, Debug)]
pub struct Piece {
    pub color: PieceColor,
    pub piece_type: PieceType,
    pub x: u8,
    pub y: u8,
}

/// The color opposed to `c`.
pub open spec fn opposite_color(c: PieceColor) -> PieceColor {
    match c {
        PieceColor::White => PieceColor::Black,
        PieceColor::Black => PieceColor::White,
    }
}

/// `|a - b|` over mathematical integers.
pub open spec fn abs_diff(a: int, b: int) -> int {
    if a >= b {
        a - b
    } else {
        b - a
    }
}

/// Some active piece stands on square `(x, y)`.
pub open spec fn square_occupied(board: Seq<Piece>, x: int, y: int) -> bool {
    exists|i: int| 0 <= i < board.len() && (#[trigger] board[i]).x == x && board[i].y == y
}

/// Some active piece of color `c` stands on square `(x, y)`.
pub open spec fn square_has_color(board: Seq<Piece>, x: int, y: int, c: PieceColor) -> bool {
    exists|i: int|
        0 <= i < board.len() && (#[trigger] board[i]).x == x && board[i].y == y && board[i].color
            == c
}

/// Board well-formedness: at most one active piece occupies a given square.
/// The engine assumes a well-formed caller and preserves this invariant.
pub open spec fn distinct_positions(board: Seq<Piece>) -> bool {
    forall|i: int, j: int|
        0 <= i < board.len() && 0 <= j < board.len() && i != j ==> !((#[trigger] board[i]).x == (
        #[trigger] board[j]).x && board[i].y == board[j].y)
}

/// `v` lies strictly between `a` and `b`, in whichever order they stand.
pub open spec fn strictly_between(a: int, b: int, v: int) -> bool {
    (a < v && v < b) || (b < v && v < a)
}

/// The coordinate `k` steps from `a` in the direction of `toward`.
pub open spec fn diag_step(a: int, toward: int, k: int) -> int {
    if a < toward {
        a + k
    } else {
        a - k
    }
}

/// Every square strictly between `from` and `to` (exclusive of both
/// endpoints) is unoccupied, for each of the three alignments that apply:
/// same file, same rank, or diagonal. For a misaligned pair no alignment
/// applies and the predicate holds vacuously; callers are responsible for
/// first confirming the move shape.
pub open spec fn path_clear(board: Seq<Piece>, from: (u8, u8), to: (u8, u8)) -> bool {
    let fx: int = from.0 as int;
    let fy: int = from.1 as int;
    let tx: int = to.0 as int;
    let ty: int = to.1 as int;
    &&& (fx == tx ==> forall|y: int|
        strictly_between(fy, ty, y) ==> !(#[trigger] square_occupied(board, fx, y)))
    &&& (fy == ty ==> forall|x: int|
        strictly_between(fx, tx, x) ==> !(#[trigger] square_occupied(board, x, fy)))
    &&& (abs_diff(fx, tx) == abs_diff(fy, ty) ==> forall|k: int|
        1 <= k < abs_diff(fx, tx) ==> !(#[trigger] square_occupied(
            board,
            diag_step(fx, tx, k),
            diag_step(fy, ty, k),
        )))
}

/// A straight or diagonal line with zero intervening squares (adjacent
/// endpoints, or equal endpoints) is always clear, on every board.
pub proof fn lemma_path_clear_adjacent(board: Seq<Piece>, from: (u8, u8), to: (u8, u8))
    requires
        abs_diff(from.0 as int, to.0 as int) <= 1,
        abs_diff(from.1 as int, to.1 as int) <= 1,
    ensures
        path_clear(board, from, to),
{
}

/// Returns the color of the piece standing on `pos`, or nothing if the
/// square is empty.
pub fn color_of_square(pos: (u8, u8), pieces: &Vec<Piece>) -> (r: Option<PieceColor>)
    ensures
        r.is_some() == square_occupied(pieces@, pos.0 as int, pos.1 as int),
        (match r {
            Option::Some(c) => square_has_color(pieces@, pos.0 as int, pos.1 as int, c),
            Option::None => true,
        }),
{
    let n: usize = pieces.len();
    let mut i: usize = 0;
    while i < n
        invariant
            n == pieces.len(),
            i <= n,
            forall|j: int|
                0 <= j < i ==> !((#[trigger] pieces@[j]).x == pos.0 && pieces@[j].y == pos.1),
        decreases n - i,
    {
        if pieces[i].x == pos.0 && pieces[i].y == pos.1 {
            return Some(pieces[i].color);
        }
        i += 1;
    }
    None
}

/// Every square strictly between `begin` and `end` is unoccupied, along
/// whichever of the three alignments (file, rank, diagonal) applies; `true`
/// vacuously for a misaligned pair.
pub fn is_path_empty(begin: (u8, u8), end: (u8, u8), pieces: &Vec<Piece>) -> (r: bool)
    ensures
        r == path_clear(pieces@, begin, end),
{
    let n: usize = pieces.len();

    // Same file
    if begin.0 == end.0 {
        let mut i: usize = 0;
        while i < n
            invariant
                n == pieces.len(),
                i <= n,
                begin.0 == end.0,
                forall|j: int|
                    0 <= j < i ==> !((#[trigger] pieces@[j]).x == begin.0 && strictly_between(
                        begin.1 as int,
                        end.1 as int,
                        pieces@[j].y as int,
                    )),
            decreases n - i,
        {
            let p = pieces[i];
            if p.x == begin.0 && ((p.y > begin.1 && p.y < end.1) || (p.y > end.1 && p.y
                < begin.1)) {
                proof {
                    assert(square_occupied(pieces@, begin.0 as int, p.y as int));
                }
                return false;
            }
            i += 1;
        }
        proof {
            assert forall|y: int|
                strictly_between(begin.1 as int, end.1 as int, y) implies !square_occupied(
                pieces@,
                begin.0 as int,
                y,
            ) by {
                if square_occupied(pieces@, begin.0 as int, y) {
                    let j = choose|j: int|
                        0 <= j < pieces@.len() && (#[trigger] pieces@[j]).x == begin.0 as int
                            && pieces@[j].y == y;
                    assert(!((pieces@[j]).x == begin.0 && strictly_between(
                        begin.1 as int,
                        end.1 as int,
                        pieces@[j].y as int,
                    )));
                }
            }
        }
    }

    // Same rank
    if begin.1 == end.1 {
        let mut i: usize = 0;
        while i < n
            invariant
                n == pieces.len(),
                i <= n,
                begin.1 == end.1,
                forall|j: int|
                    0 <= j < i ==> !((#[trigger] pieces@[j]).y == begin.1 && strictly_between(
                        begin.0 as int,
                        end.0 as int,
                        pieces@[j].x as int,
                    )),
            decreases n - i,
        {
            let p = pieces[i];
            if p.y == begin.1 && ((p.x > begin.0 && p.x < end.0) || (p.x > end.0 && p.x
                < begin.0)) {
                proof {
                    assert(square_occupied(pieces@, p.x as int, begin.1 as int));
                }
                return false;
            }
            i += 1;
        }
        proof {
            assert forall|x: int|
                strictly_between(begin.0 as int, end.0 as int, x) implies !square_occupied(
                pieces@,
                x,
                begin.1 as int,
            ) by {
                if square_occupied(pieces@, x, begin.1 as int) {
                    let j = choose|j: int|
                        0 <= j < pieces@.len() && (#[trigger] pieces@[j]).x == x && pieces@[j].y
                            == begin.1 as int;
                    assert(!((pieces@[j]).y == begin.1 && strictly_between(
                        begin.0 as int,
                        end.0 as int,
                        pieces@[j].x as int,
                    )));
                }
            }
        }
    }

    // Diagonals
    let dx: i16 = end.0 as i16 - begin.0 as i16;
    let dy: i16 = end.1 as i16 - begin.1 as i16;
    let x_diff: i16 = if dx >= 0 {
        dx
    } else {
        -dx
    };
    let y_diff: i16 = if dy >= 0 {
        dy
    } else {
        -dy
    };
    if x_diff == y_diff {
        let mut i: i16 = 1;
        while i < x_diff
            invariant
                x_diff == abs_diff(begin.0 as int, end.0 as int),
                y_diff == abs_diff(begin.1 as int, end.1 as int),
                x_diff == y_diff,
                1 <= i <= x_diff || (x_diff < 1 && i == 1),
                forall|k: int|
                    1 <= k < i ==> !(#[trigger] square_occupied(
                        pieces@,
                        diag_step(begin.0 as int, end.0 as int, k),
                        diag_step(begin.1 as int, end.1 as int, k),
                    )),
            decreases x_diff - i,
        {
            let pos: (u8, u8) = if begin.0 < end.0 && begin.1 < end.1 {
                (begin.0 + i as u8, begin.1 + i as u8)
            } else if begin.0 < end.0 && begin.1 > end.1 {
                (begin.0 + i as u8, begin.1 - i as u8)
            } else if begin.0 > end.0 && begin.1 < end.1 {
                (begin.0 - i as u8, begin.1 + i as u8)
            } else {
                (begin.0 - i as u8, begin.1 - i as u8)
            };
            proof {
                assert(pos.0 as int == diag_step(begin.0 as int, end.0 as int, i as int));
                assert(pos.1 as int == diag_step(begin.1 as int, end.1 as int, i as int));
            }
            if color_of_square(pos, pieces).is_some() {
                return false;
            }
            i += 1;
        }
    }
    true
}

} // verus!
