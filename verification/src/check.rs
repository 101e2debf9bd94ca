//! Check detection: whether any active piece can reach a given king's
//! square, ignoring whose turn it is.

use vstd::prelude::*;

use crate::moves::spec_can_reach;
use crate::pieces::Piece;
use crate::pieces::PieceColor;
use crate::pieces::PieceType;
use crate::pieces::distinct_positions;

verus! {

/// Some active piece on the board can reach the square `pos`.
pub open spec fn spec_any_reaches(board: Seq<Piece>, pos: (u8, u8)) -> bool {
    exists|i: int| 0 <= i < board.len() && spec_can_reach(#[trigger] board[i], pos, board)
}

/// The side `c` is in check: some king of color `c` stands on a square that
/// an active piece can reach.
pub open spec fn spec_in_check(board: Seq<Piece>, c: PieceColor) -> bool {
    exists|i: int|
        0 <= i < board.len() && (#[trigger] board[i]).color == c && board[i].piece_type
            == PieceType::King && spec_any_reaches(board, (board[i].x, board[i].y))
}

/// Whether any active piece (of either color; callers pass the full board)
/// can geometrically reach the square of `king`.
pub fn can_any_piece_reach_king(king: &Piece, pieces: &Vec<Piece>) -> (r: bool)
    requires
        distinct_positions(pieces@),
    ensures
        r == spec_any_reaches(pieces@, (king.x, king.y)),
{
    let target: (u8, u8) = (king.x, king.y);
    let n: usize = pieces.len();
    let mut i: usize = 0;
    while i < n
        invariant
            n == pieces.len(),
            i <= n,
            distinct_positions(pieces@),
            target == (king.x, king.y),
            forall|j: int| 0 <= j < i ==> !spec_can_reach(#[trigger] pieces@[j], target, pieces@),
        decreases n - i,
    {
        let p = pieces[i];
        if p.can_reach_position(target, pieces) {
            return true;
        }
        i += 1;
    }
    false
}

} // verus!
