//! The turn and game state controller: owns whose turn it is, processes a
//! move request end-to-end (legality check, capture, position update, turn
//! flip, win detection), and raises a selection-reset signal once per
//! request. The game ends only by literal king capture.

use vstd::prelude::*;

use crate::check::can_any_piece_reach_king;
use crate::check::spec_any_reaches;
use crate::check::spec_in_check;
use crate::moves::spec_can_reach;
use crate::pieces::Piece;
use crate::pieces::PieceColor;
use crate::pieces::PieceType;
use crate::pieces::distinct_positions;
use crate::pieces::opposite_color;
use crate::pieces::square_has_color;
use crate::pieces::square_occupied;

verus! {

/// The side to move. Initialized to White at game start; toggled exactly
/// once per successfully applied move.
#[derive(Clone, Copy, PartialEq, Eq, Structural, Debug)]
pub struct PlayerTurn(pub PieceColor);

impl PlayerTurn {
    /// Flips the side to move.
    pub fn toggle(&mut self)
        ensures
            final (self).0 == opposite_color(old(self).0),
    {
        self.0 = match self.0 {
            PieceColor::White => PieceColor::Black,
            PieceColor::Black => PieceColor::White,
        }
    }
}

impl Default for PlayerTurn {
    /// White moves first.
    fn default() -> (r: Self)
        ensures
            r.0 == PieceColor::White,
    {
        PlayerTurn(PieceColor::White)
    }
}

/// The result of a move request: applied (with any captured piece and any
/// winner) or rejected without effect.
#[derive(Clone, Copy, Debug)]
pub enum MoveOutcome {
    Applied { captured: Option<Piece>, winner: Option<PieceColor> },
    Rejected,
}

/// The paint of a board square in the alternating checker pattern.
#[derive(Clone, Copy, PartialEq, Eq, Structural, Debug)]
pub enum SquareColor {
    Dark,
    Light,
}

/// A board square, with its coordinates and its paint; a value type for the
/// presentation layer, which the core never mutates.
#[derive(Clone, Copy, PartialEq, Eq, Structural, Debug)]
pub struct Square {
    pub x: u8,
    pub y: u8,
    pub color: SquareColor,
}

/// The checker paint of the square at `(x, y)`.
pub open spec fn checker_color(x: int, y: int) -> SquareColor {
    if (x + y + 1) % 2 == 0 {
        SquareColor::Light
    } else {
        SquareColor::Dark
    }
}

/// Computes the alternating checker paint of the square at `(x, y)`.
pub fn square_color_of(x: u8, y: u8) -> (r: SquareColor)
    ensures
        r == checker_color(x as int, y as int),
{
    if (x as u16 + y as u16 + 1) % 2 == 0 {
        SquareColor::Light
    } else {
        SquareColor::Dark
    }
}

/// The piece kind on the back rank at file index `y` in the standard
/// starting layout.
pub open spec fn back_rank_kind(y: int) -> PieceType {
    if y == 0 || y == 7 {
        PieceType::Rook
    } else if y == 1 || y == 6 {
        PieceType::Knight
    } else if y == 2 || y == 5 {
        PieceType::Bishop
    } else if y == 3 {
        PieceType::Queen
    } else {
        PieceType::King
    }
}

/// The `k`-th piece of the standard 32-piece starting layout: White's back
/// rank on rank index 0, White pawns on rank index 1, Black's back rank on
/// rank index 7, Black pawns on rank index 6.
pub open spec fn start_piece(k: int) -> Piece {
    if k < 8 {
        Piece { color: PieceColor::White, piece_type: back_rank_kind(k), x: 0, y: k as u8 }
    } else if k < 16 {
        Piece { color: PieceColor::White, piece_type: PieceType::Pawn, x: 1, y: (k - 8) as u8 }
    } else if k < 24 {
        Piece {
            color: PieceColor::Black,
            piece_type: back_rank_kind(k - 16),
            x: 7,
            y: (k - 16) as u8,
        }
    } else {
        Piece { color: PieceColor::Black, piece_type: PieceType::Pawn, x: 6, y: (k - 24) as u8 }
    }
}

/// The standard symmetric starting position.
pub open spec fn start_board() -> Seq<Piece> {
    Seq::new(32, |k: int| start_piece(k))
}

/// The rules engine state: the active pieces, the side to move, the winner
/// once a king has been captured, and the pending selection-reset signal for
/// the presentation layer.
pub struct Game {
    pieces: Vec<Piece>,
    turn: PlayerTurn,
    winner: Option<PieceColor>,
    reset_pending: bool,
}

impl Game {
    /// The active pieces, as a sequence.
    pub closed spec fn board(&self) -> Seq<Piece> {
        self.pieces@
    }

    /// The side to move.
    pub closed spec fn turn_color(&self) -> PieceColor {
        self.turn.0
    }

    /// The winner, if a king has been captured.
    pub closed spec fn winner_of(&self) -> Option<PieceColor> {
        self.winner
    }

    /// Whether a selection-reset signal is pending for the presentation
    /// layer.
    pub closed spec fn reset_signal(&self) -> bool {
        self.reset_pending
    }

    /// Well-formedness: at most one active piece per square.
    pub open spec fn wf(&self) -> bool {
        distinct_positions(self.board())
    }

    /// A fresh game: the standard starting position, White to move, no
    /// winner, no pending signal.
    pub fn new() -> (g: Game)
        ensures
            g.board() == start_board(),
            g.turn_color() == PieceColor::White,
            g.winner_of() is None,
            !g.reset_signal(),
            g.wf(),
    {
        let mut pieces: Vec<Piece> = Vec::new();
        let back: [PieceType; 8] = [
            PieceType::Rook,
            PieceType::Knight,
            PieceType::Bishop,
            PieceType::Queen,
            PieceType::King,
            PieceType::Bishop,
            PieceType::Knight,
            PieceType::Rook,
        ];
        let mut y: u8 = 0;
        while y < 8
            invariant
                y <= 8,
                pieces@ =~= start_board().take(y as int),
                back@ =~= Seq::new(8, |k: int| back_rank_kind(k)),
            decreases 8 - y,
        {
            pieces.push(
                Piece { color: PieceColor::White, piece_type: back[y as usize], x: 0, y },
            );
            y += 1;
        }
        let mut y: u8 = 0;
        while y < 8
            invariant
                y <= 8,
                pieces@ =~= start_board().take(8 + y as int),
            decreases 8 - y,
        {
            pieces.push(Piece { color: PieceColor::White, piece_type: PieceType::Pawn, x: 1, y });
            y += 1;
        }
        let mut y: u8 = 0;
        while y < 8
            invariant
                y <= 8,
                pieces@ =~= start_board().take(16 + y as int),
                back@ =~= Seq::new(8, |k: int| back_rank_kind(k)),
            decreases 8 - y,
        {
            pieces.push(
                Piece { color: PieceColor::Black, piece_type: back[y as usize], x: 7, y },
            );
            y += 1;
        }
        let mut y: u8 = 0;
        while y < 8
            invariant
                y <= 8,
                pieces@ =~= start_board().take(24 + y as int),
            decreases 8 - y,
        {
            pieces.push(Piece { color: PieceColor::Black, piece_type: PieceType::Pawn, x: 6, y });
            y += 1;
        }
        proof {
            assert(pieces@ =~= start_board());
            lemma_start_board_distinct();
        }
        Game { pieces, turn: PlayerTurn(PieceColor::White), winner: None, reset_pending: false }
    }

    /// The side whose turn it is.
    pub fn current_turn(&self) -> (r: PieceColor)
        ensures
            r == self.turn_color(),
    {
        self.turn.0
    }

    /// The winner, if the game has ended by king capture.
    pub fn is_game_over(&self) -> (r: Option<PieceColor>)
        ensures
            r == self.winner_of(),
    {
        self.winner
    }

    /// The number of active pieces.
    pub fn piece_count(&self) -> (r: usize)
        ensures
            r == self.board().len(),
    {
        self.pieces.len()
    }

    /// Processes a move request end-to-end. If the game is not over, a piece
    /// of the side to move stands on `from`, and it can reach `to`, then any
    /// opposite-color piece on `to` is removed, the piece moves, and the
    /// turn flips; capturing a king ends the game with the mover's side as
    /// winner. Otherwise the request is rejected without any mutation.
    /// Either way the selection-reset signal is raised, exactly once per
    /// request.
    pub fn submit_move(&mut self, from: (u8, u8), to: (u8, u8)) -> (r: MoveOutcome)
        requires
            old(self).wf(),
        ensures
            final (self).wf(),
            final (self).reset_signal(),
            (r matches MoveOutcome::Rejected) <==> !(old(self).winner_of() is None
                && request_legal(old(self).board(), old(self).turn_color(), from, to)),
            (r matches MoveOutcome::Rejected) ==> {
                &&& final (self).board() == old(self).board()
                &&& final (self).turn_color() == old(self).turn_color()
                &&& final (self).winner_of() == old(self).winner_of()
            },
            (match r {
                MoveOutcome::Rejected => true,
                MoveOutcome::Applied { captured, winner } => {
                    let b = old(self).board();
                    let i = piece_index_at(b, from);
                    &&& final (self).board() == board_after_move(b, i, to)
                    &&& final (self).turn_color() == opposite_color(old(self).turn_color())
                    &&& captured == (if capture_at(b, i, to) {
                        Option::Some(piece_at_square(b, to))
                    } else {
                        Option::None::<Piece>
                    })
                    &&& final (self).winner_of() == (match captured {
                        Option::Some(t) => if t.piece_type == PieceType::King {
                            Option::Some(old(self).turn_color())
                        } else {
                            Option::None::<PieceColor>
                        },
                        Option::None => Option::None::<PieceColor>,
                    })
                    &&& winner == final (self).winner_of()
                },
            }),
    {
        self.reset_pending = true;
        if self.winner.is_some() {
            return MoveOutcome::Rejected;
        }
        let ghost b = self.pieces@;
        let mover_idx: usize = match find_piece_index(&self.pieces, from) {
            Option::Some(i) => i,
            Option::None => {
                proof {
                    assert(!square_has_color(b, from.0 as int, from.1 as int, self.turn.0)) by {
                        if square_has_color(b, from.0 as int, from.1 as int, self.turn.0) {
                            let j = choose|j: int|
                                0 <= j < b.len() && (#[trigger] b[j]).x == from.0 as int
                                    && b[j].y == from.1 as int && b[j].color == self.turn.0;
                            assert(square_occupied(b, from.0 as int, from.1 as int));
                        }
                    }
                }
                return MoveOutcome::Rejected;
            },
        };
        let mover = self.pieces[mover_idx];
        proof {
            // the piece at `from` is unique, so `piece_at_square` picks it
            let k = piece_index_at(b, from);
            assert(0 <= k < b.len() && b[k].x == from.0 && b[k].y == from.1);
            if k != mover_idx as int {
                assert(!(b[k].x == b[mover_idx as int].x && b[k].y == b[mover_idx as int].y));
            }
            assert(piece_at_square(b, from) == mover);
        }
        if mover.color != self.turn.0 {
            proof {
                assert(!square_has_color(b, from.0 as int, from.1 as int, self.turn.0)) by {
                    if square_has_color(b, from.0 as int, from.1 as int, self.turn.0) {
                        let j = choose|j: int|
                            0 <= j < b.len() && (#[trigger] b[j]).x == from.0 as int && b[j].y
                                == from.1 as int && b[j].color == self.turn.0;
                        if j != mover_idx as int {
                            assert(!(b[j].x == b[mover_idx as int].x && b[j].y == b[
                                mover_idx as int
                            ].y));
                        }
                    }
                }
            }
            return MoveOutcome::Rejected;
        }
        if !mover.can_reach_position(to, &self.pieces) {
            return MoveOutcome::Rejected;
        }
        proof {
            // legality established: a piece of the side to move stands on
            // `from` and reaches `to`; in particular `from` and `to` differ
            assert(square_has_color(b, from.0 as int, from.1 as int, self.turn.0));
            assert(!(from.0 == to.0 && from.1 == to.1)) by {
                if from.0 == to.0 && from.1 == to.1 {
                    assert(square_has_color(b, to.0 as int, to.1 as int, mover.color));
                }
            }
        }
        let cap = find_piece_index(&self.pieces, to);
        let captured: Option<Piece> = match cap {
            Option::Some(j) => Some(self.pieces[j]),
            Option::None => None,
        };
        proof {
            let mi = mover_idx as int;
            match cap {
                Option::Some(j) => {
                    let jj = j as int;
                    assert(jj != mi);
                    assert(capture_at(b, mi, to));
                    let j2 = capture_index(b, mi, to);
                    assert(0 <= j2 < b.len() && j2 != mi && b[j2].x == to.0 && b[j2].y == to.1);
                    if j2 != jj {
                        assert(!(b[j2].x == b[jj].x && b[j2].y == b[jj].y));
                    }
                    let k2 = piece_index_at(b, to);
                    assert(0 <= k2 < b.len() && b[k2].x == to.0 && b[k2].y == to.1);
                    if k2 != jj {
                        assert(!(b[k2].x == b[jj].x && b[k2].y == b[jj].y));
                    }
                    assert(piece_at_square(b, to) == b[jj]);
                },
                Option::None => {
                    assert(!capture_at(b, mi, to)) by {
                        if capture_at(b, mi, to) {
                            let j = choose|j: int|
                                0 <= j < b.len() && j != mi && (#[trigger] b[j]).x == to.0
                                    && b[j].y == to.1;
                            assert(square_occupied(b, to.0 as int, to.1 as int));
                        }
                    }
                },
            }
        }
        let moved = Piece { color: mover.color, piece_type: mover.piece_type, x: to.0, y: to.1 };
        self.pieces[mover_idx] = moved;
        match cap {
            Option::Some(j) => {
                self.pieces.remove(j);
            },
            Option::None => {},
        }
        proof {
            let mi = mover_idx as int;
            let nb = self.pieces@;
            let b1 = b.update(mi, placed_at(b[mi], to));
            assert(placed_at(b[mi], to) == moved);
            match cap {
                Option::None => {
                    assert(nb == board_after_move(b, mi, to));
                    assert forall|p: int, q: int|
                        0 <= p < nb.len() && 0 <= q < nb.len() && p != q implies !((
                    #[trigger] nb[p]).x == (#[trigger] nb[q]).x && nb[p].y == nb[q].y) by {
                        if p != mi && q != mi {
                            assert(nb[p] == b[p]);
                            assert(nb[q] == b[q]);
                            assert(!(b[p].x == b[q].x && b[p].y == b[q].y));
                        } else {
                            let o = if p == mi {
                                q
                            } else {
                                p
                            };
                            assert(nb[o] == b[o]);
                            if b[o].x == to.0 && b[o].y == to.1 {
                                assert(square_occupied(b, to.0 as int, to.1 as int));
                            }
                        }
                    }
                },
                Option::Some(j) => {
                    let jj = j as int;
                    assert(capture_index(b, mi, to) == jj);
                    assert(nb == b1.remove(jj));
                    assert(nb == board_after_move(b, mi, to));
                    b1.remove_ensures(jj);
                    assert forall|p: int, q: int|
                        0 <= p < nb.len() && 0 <= q < nb.len() && p != q implies !((
                    #[trigger] nb[p]).x == (#[trigger] nb[q]).x && nb[p].y == nb[q].y) by {
                        let p1 = if p < jj {
                            p
                        } else {
                            p + 1
                        };
                        let q1 = if q < jj {
                            q
                        } else {
                            q + 1
                        };
                        assert(nb[p] == b1[p1]);
                        assert(nb[q] == b1[q1]);
                        if p1 != mi && q1 != mi {
                            assert(b1[p1] == b[p1]);
                            assert(b1[q1] == b[q1]);
                            assert(!(b[p1].x == b[q1].x && b[p1].y == b[q1].y));
                        } else {
                            let o = if p1 == mi {
                                q1
                            } else {
                                p1
                            };
                            assert(b1[o] == b[o]);
                            if b[o].x == to.0 && b[o].y == to.1 {
                                assert(!(b[o].x == b[jj].x && b[o].y == b[jj].y));
                            }
                        }
                    }
                },
            }
        }
        self.turn.toggle();
        let winner: Option<PieceColor> = match captured {
            Option::Some(t) => {
                if t.piece_type == PieceType::King {
                    Some(mover.color)
                } else {
                    None
                }
            },
            Option::None => None,
        };
        self.winner = winner;
        MoveOutcome::Applied { captured, winner }
    }

    /// Whether the side `color` is in check: some king of that color stands
    /// on a square that an active piece can reach. Recomputed from the
    /// board, not cached.
    pub fn is_in_check(&self, color: PieceColor) -> (r: bool)
        requires
            self.wf(),
        ensures
            r == spec_in_check(self.board(), color),
    {
        let n: usize = self.pieces.len();
        let mut i: usize = 0;
        while i < n
            invariant
                n == self.pieces.len(),
                i <= n,
                self.wf(),
                forall|j: int|
                    0 <= j < i ==> !((#[trigger] self.pieces@[j]).color == color
                        && self.pieces@[j].piece_type == PieceType::King && spec_any_reaches(
                        self.pieces@,
                        (self.pieces@[j].x, self.pieces@[j].y),
                    )),
            decreases n - i,
        {
            let p = self.pieces[i];
            if p.color == color && p.piece_type == PieceType::King {
                if can_any_piece_reach_king(&p, &self.pieces) {
                    return true;
                }
            }
            i += 1;
        }
        false
    }

    /// Consumes the pending selection-reset signal, reporting whether one
    /// was raised since the last call. Nothing else changes.
    pub fn take_reset_signal(&mut self) -> (r: bool)
        ensures
            r == old(self).reset_signal(),
            !final (self).reset_signal(),
            final (self).board() == old(self).board(),
            final (self).turn_color() == old(self).turn_color(),
            final (self).winner_of() == old(self).winner_of(),
    {
        let r = self.reset_pending;
        self.reset_pending = false;
        r
    }

    /// The piece standing on `pos`, if any.
    pub fn piece_on(&self, pos: (u8, u8)) -> (r: Option<Piece>)
        ensures
            r.is_some() == square_occupied(self.board(), pos.0 as int, pos.1 as int),
            (match r {
                Option::Some(p) => p.x == pos.0 && p.y == pos.1 && self.board().contains(p),
                Option::None => true,
            }),
    {
        match find_piece_index(&self.pieces, pos) {
            Option::Some(i) => Some(self.pieces[i]),
            Option::None => None,
        }
    }
}

/// The index of some piece standing on `pos`; on a well-formed board with
/// `pos` occupied, the index of the one piece there.
pub open spec fn piece_index_at(board: Seq<Piece>, pos: (u8, u8)) -> int {
    choose|i: int| 0 <= i < board.len() && (#[trigger] board[i]).x == pos.0 && board[i].y == pos.1
}

/// The piece standing on `pos` (meaningful when `pos` is occupied).
pub open spec fn piece_at_square(board: Seq<Piece>, pos: (u8, u8)) -> Piece {
    board[piece_index_at(board, pos)]
}

/// A move request is legal: a piece of the side to move stands on `from`,
/// and it can reach `to`.
pub open spec fn request_legal(
    board: Seq<Piece>,
    turn: PieceColor,
    from: (u8, u8),
    to: (u8, u8),
) -> bool {
    &&& square_has_color(board, from.0 as int, from.1 as int, turn)
    &&& spec_can_reach(piece_at_square(board, from), to, board)
}

/// `p` with its position set to `pos`.
pub open spec fn placed_at(p: Piece, pos: (u8, u8)) -> Piece {
    Piece { x: pos.0, y: pos.1, ..p }
}

/// Moving the piece at index `mover` to `to` captures: another piece stands
/// on the target square.
pub open spec fn capture_at(board: Seq<Piece>, mover: int, to: (u8, u8)) -> bool {
    exists|j: int|
        0 <= j < board.len() && j != mover && (#[trigger] board[j]).x == to.0 && board[j].y == to.1
}

/// The index of the captured piece (meaningful when `capture_at` holds).
pub open spec fn capture_index(board: Seq<Piece>, mover: int, to: (u8, u8)) -> int {
    choose|j: int|
        0 <= j < board.len() && j != mover && (#[trigger] board[j]).x == to.0 && board[j].y == to.1
}

/// The board after the piece at index `i` moves to `to`: its position is
/// updated in place, and any piece previously on the target square is
/// removed from the active set.
pub open spec fn board_after_move(board: Seq<Piece>, i: int, to: (u8, u8)) -> Seq<Piece> {
    let b1 = board.update(i, placed_at(board[i], to));
    if capture_at(board, i, to) {
        b1.remove(capture_index(board, i, to))
    } else {
        b1
    }
}

/// Applying a capture-free legal move and then the geometrically-reverse
/// move for the same piece (when legal) returns the piece to its original
/// square and leaves the board exactly as it was; in particular the number
/// of active pieces is unchanged, since no capture occurred on either leg
/// (none is possible on the reverse leg: the vacated square is empty).
pub proof fn lemma_move_round_trip(board: Seq<Piece>, i: int, from: (u8, u8), to: (u8, u8))
    requires
        distinct_positions(board),
        0 <= i < board.len(),
        board[i].x == from.0,
        board[i].y == from.1,
        !square_occupied(board, to.0 as int, to.1 as int),
        spec_can_reach(board[i], to, board),
        spec_can_reach(
            placed_at(board[i], to),
            from,
            board_after_move(board, i, to),
        ),
    ensures
        board_after_move(board, i, to).len() == board.len(),
        board_after_move(board_after_move(board, i, to), i, from) == board,
{
    let b1 = board_after_move(board, i, to);
    assert(!capture_at(board, i, to)) by {
        if capture_at(board, i, to) {
            let j = choose|j: int|
                0 <= j < board.len() && j != i && (#[trigger] board[j]).x == to.0 && board[j].y
                    == to.1;
            assert(square_occupied(board, to.0 as int, to.1 as int));
        }
    }
    assert(b1 == board.update(i, placed_at(board[i], to)));
    assert(!capture_at(b1, i, from)) by {
        if capture_at(b1, i, from) {
            let j = choose|j: int|
                0 <= j < b1.len() && j != i && (#[trigger] b1[j]).x == from.0 && b1[j].y == from.1;
            assert(b1[j] == board[j]);
            assert(!(board[j].x == board[i].x && board[j].y == board[i].y));
        }
    }
    let back = board_after_move(b1, i, from);
    assert(back == b1.update(i, placed_at(b1[i], from)));
    assert(placed_at(b1[i], from) == board[i]);
    assert(back =~= board);
}

/// The starting position holds at most one piece per square.
proof fn lemma_start_board_distinct()
    ensures
        distinct_positions(start_board()),
{
    let b = start_board();
    assert forall|i: int, j: int|
        0 <= i < b.len() && 0 <= j < b.len() && i != j implies !((#[trigger] b[i]).x == (
    #[trigger] b[j]).x && b[i].y == b[j].y) by {
        assert(b[i] == start_piece(i));
        assert(b[j] == start_piece(j));
    }
}

/// The index of the piece standing on `pos`, if any.
fn find_piece_index(pieces: &Vec<Piece>, pos: (u8, u8)) -> (r: Option<usize>)
    ensures
        r.is_some() == square_occupied(pieces@, pos.0 as int, pos.1 as int),
        (match r {
            Option::Some(i) => i < pieces@.len() && pieces@[i as int].x == pos.0 && pieces@[
                i as int
            ].y == pos.1,
            Option::None => true,
        }),
{
    let n: usize = pieces.len();
    let mut i: usize = 0;
    while i < n
        invariant
            n == pieces.len(),
            i <= n,
            forall|j: int|
                0 <= j < i ==> !((#[trigger] pieces@[j]).x == pos.0 && pieces@[j].y == pos.1),
        decreases n - i,
    {
        if pieces[i].x == pos.0 && pieces[i].y == pos.1 {
            return Some(i);
        }
        i += 1;
    }
    None
}

} // verus!

