//! A two-player chess rules engine: board state, per-piece move legality,
//! check detection, move execution with captures, and turn order to a
//! king-capture win condition.
//!
//! The engine is a pure decision/state layer: a presentation layer submits
//! `(from, to)` move requests and receives outcomes; all queries are pure.
//! By design there is no checkmate or stalemate detection, no castling,
//! en passant, or promotion: the game ends only by literal king capture.

pub mod check;
pub mod game;
pub mod moves;
pub mod pieces;

pub use check::can_any_piece_reach_king;
pub use game::Game;
pub use game::MoveOutcome;
pub use game::PlayerTurn;
pub use game::Square;
pub use game::SquareColor;
pub use game::square_color_of;
pub use moves::is_bishop_move_valid;
pub use moves::is_black_pawn_move_valid;
pub use moves::is_king_move_valid;
pub use moves::is_knight_move_valid;
pub use moves::is_queen_move_valid;
pub use moves::is_rook_move_valid;
pub use moves::is_white_pawn_move_valid;
pub use pieces::Piece;
pub use pieces::PieceColor;
pub use pieces::PieceType;
pub use pieces::color_of_square;
pub use pieces::is_path_empty;
