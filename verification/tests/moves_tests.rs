use chess_engine::Piece;
use chess_engine::PieceColor;
use chess_engine::PieceType;
use chess_engine::color_of_square;
use chess_engine::is_bishop_move_valid;
use chess_engine::is_black_pawn_move_valid;
use chess_engine::is_king_move_valid;
use chess_engine::is_knight_move_valid;
use chess_engine::is_path_empty;
use chess_engine::is_queen_move_valid;
use chess_engine::is_rook_move_valid;
use chess_engine::is_white_pawn_move_valid;

fn piece(color: PieceColor, piece_type: PieceType, x: u8, y: u8) -> Piece {
    Piece { color, piece_type, x, y }
}

#[test]
fn king_single_steps_accepted() {
    for &(tx, ty) in &[
        (3u8, 3u8),
        (3, 4),
        (3, 5),
        (4, 3),
        (4, 5),
        (5, 3),
        (5, 4),
        (5, 5),
    ] {
        assert!(is_king_move_valid((4, 4), (tx, ty)), "({}, {})", tx, ty);
    }
}

#[test]
fn king_longer_steps_rejected() {
    assert!(!is_king_move_valid((4, 4), (4, 4)));
    assert!(!is_king_move_valid((4, 4), (6, 4)));
    assert!(!is_king_move_valid((4, 4), (4, 6)));
    assert!(!is_king_move_valid((4, 4), (6, 6)));
    assert!(!is_king_move_valid((4, 4), (6, 5)));
    assert!(!is_king_move_valid((0, 0), (7, 7)));
}

#[test]
fn knight_eight_offsets_accepted() {
    for &(tx, ty) in &[
        (6u8, 5u8),
        (6, 3),
        (2, 5),
        (2, 3),
        (5, 6),
        (5, 2),
        (3, 6),
        (3, 2),
    ] {
        assert!(is_knight_move_valid((4, 4), (tx, ty)), "({}, {})", tx, ty);
    }
}

#[test]
fn knight_other_offsets_rejected() {
    assert!(!is_knight_move_valid((4, 4), (4, 4)));
    assert!(!is_knight_move_valid((4, 4), (5, 5)));
    assert!(!is_knight_move_valid((4, 4), (6, 6)));
    assert!(!is_knight_move_valid((4, 4), (6, 4)));
    assert!(!is_knight_move_valid((4, 4), (4, 6)));
    assert!(!is_knight_move_valid((4, 4), (7, 5)));
    assert!(!is_knight_move_valid((4, 4), (5, 4)));
}

#[test]
fn path_with_adjacent_endpoints_is_always_clear() {
    // Crowd the board: pieces on and around both endpoints never matter,
    // because only squares strictly between the endpoints are scanned.
    let mut pieces = Vec::new();
    for x in 2..6 {
        for y in 2..6 {
            pieces.push(piece(PieceColor::White, PieceType::Pawn, x, y));
        }
    }
    assert!(is_path_empty((3, 3), (4, 4), &pieces));
    assert!(is_path_empty((3, 3), (3, 4), &pieces));
    assert!(is_path_empty((3, 3), (4, 3), &pieces));
    assert!(is_path_empty((4, 4), (3, 3), &pieces));
    assert!(is_path_empty((3, 3), (3, 3), &pieces));
}

#[test]
fn path_blocked_on_each_alignment() {
    let pieces = vec![piece(PieceColor::White, PieceType::Pawn, 4, 4)];
    // Same file (x), scanning y strictly between
    assert!(!is_path_empty((4, 2), (4, 6), &pieces));
    assert!(!is_path_empty((4, 6), (4, 2), &pieces));
    // Same rank (y), scanning x strictly between
    assert!(!is_path_empty((2, 4), (6, 4), &pieces));
    assert!(!is_path_empty((6, 4), (2, 4), &pieces));
    // All four diagonal directions
    assert!(!is_path_empty((2, 2), (6, 6), &pieces));
    assert!(!is_path_empty((6, 6), (2, 2), &pieces));
    assert!(!is_path_empty((2, 6), (6, 2), &pieces));
    assert!(!is_path_empty((6, 2), (2, 6), &pieces));
    // Endpoints themselves are never the obstruction
    assert!(is_path_empty((4, 4), (4, 7), &pieces));
    assert!(is_path_empty((2, 2), (4, 4), &pieces));
}

#[test]
fn path_misaligned_is_vacuously_clear() {
    let pieces = vec![piece(PieceColor::White, PieceType::Pawn, 1, 2)];
    assert!(is_path_empty((0, 0), (2, 5), &pieces));
    assert!(is_path_empty((0, 0), (1, 4), &pieces));
}

#[test]
fn rook_moves() {
    let pieces = vec![
        piece(PieceColor::White, PieceType::Rook, 0, 0),
        piece(PieceColor::White, PieceType::Pawn, 0, 3),
    ];
    assert!(is_rook_move_valid((0, 0), (0, 2), &pieces));
    assert!(is_rook_move_valid((0, 0), (5, 0), &pieces));
    // Blocked by the pawn on (0, 3)
    assert!(!is_rook_move_valid((0, 0), (0, 5), &pieces));
    // Not a rook line
    assert!(!is_rook_move_valid((0, 0), (1, 1), &pieces));
    assert!(!is_rook_move_valid((0, 0), (0, 0), &pieces));
}

#[test]
fn bishop_moves() {
    let pieces = vec![
        piece(PieceColor::White, PieceType::Bishop, 2, 2),
        piece(PieceColor::Black, PieceType::Pawn, 4, 4),
    ];
    assert!(is_bishop_move_valid((2, 2), (0, 0), &pieces));
    assert!(is_bishop_move_valid((2, 2), (4, 4), &pieces));
    assert!(is_bishop_move_valid((2, 2), (0, 4), &pieces));
    // Blocked by the pawn on (4, 4)
    assert!(!is_bishop_move_valid((2, 2), (5, 5), &pieces));
    // Not a diagonal, and not a null move
    assert!(!is_bishop_move_valid((2, 2), (2, 5), &pieces));
    assert!(!is_bishop_move_valid((2, 2), (2, 2), &pieces));
}

#[test]
fn queen_moves() {
    let pieces = vec![
        piece(PieceColor::White, PieceType::Queen, 3, 3),
        piece(PieceColor::Black, PieceType::Pawn, 3, 5),
    ];
    assert!(is_queen_move_valid((3, 3), (3, 4), &pieces));
    assert!(is_queen_move_valid((3, 3), (0, 3), &pieces));
    assert!(is_queen_move_valid((3, 3), (6, 6), &pieces));
    assert!(is_queen_move_valid((3, 3), (0, 6), &pieces));
    // Blocked along the file by the pawn on (3, 5)
    assert!(!is_queen_move_valid((3, 3), (3, 6), &pieces));
    // Neither a line nor a diagonal
    assert!(!is_queen_move_valid((3, 3), (5, 4), &pieces));
    // A null move is neither a bishop nor a rook shape
    assert!(!is_queen_move_valid((3, 3), (3, 3), &pieces));
}

#[test]
fn white_pawn_moves() {
    let empty: Vec<Piece> = Vec::new();
    assert!(is_white_pawn_move_valid((1, 4), (2, 4), &empty));
    assert!(is_white_pawn_move_valid((1, 4), (3, 4), &empty));
    // Double step only from the home rank
    assert!(!is_white_pawn_move_valid((3, 4), (5, 4), &empty));
    // No backward or sideways moves
    assert!(!is_white_pawn_move_valid((3, 4), (2, 4), &empty));
    assert!(!is_white_pawn_move_valid((3, 4), (3, 5), &empty));
    // Diagonal only captures
    assert!(!is_white_pawn_move_valid((3, 4), (4, 5), &empty));

    let black_at_target = vec![piece(PieceColor::Black, PieceType::Pawn, 4, 5)];
    assert!(is_white_pawn_move_valid((3, 4), (4, 5), &black_at_target));
    // No forward capture
    let black_ahead = vec![piece(PieceColor::Black, PieceType::Pawn, 4, 4)];
    assert!(!is_white_pawn_move_valid((3, 4), (4, 4), &black_ahead));
    // No capture of own color
    let white_at_target = vec![piece(PieceColor::White, PieceType::Pawn, 4, 5)];
    assert!(!is_white_pawn_move_valid((3, 4), (4, 5), &white_at_target));
    // Double step blocked by a piece on the intervening square
    let blocker = vec![piece(PieceColor::Black, PieceType::Pawn, 2, 4)];
    assert!(!is_white_pawn_move_valid((1, 4), (3, 4), &blocker));
}

#[test]
fn black_pawn_moves() {
    let empty: Vec<Piece> = Vec::new();
    assert!(is_black_pawn_move_valid((6, 4), (5, 4), &empty));
    assert!(is_black_pawn_move_valid((6, 4), (4, 4), &empty));
    assert!(!is_black_pawn_move_valid((4, 4), (2, 4), &empty));
    assert!(!is_black_pawn_move_valid((4, 4), (5, 4), &empty));
    assert!(!is_black_pawn_move_valid((4, 4), (3, 5), &empty));

    let white_at_target = vec![piece(PieceColor::White, PieceType::Pawn, 3, 5)];
    assert!(is_black_pawn_move_valid((4, 4), (3, 5), &white_at_target));
    let black_at_target = vec![piece(PieceColor::Black, PieceType::Pawn, 3, 5)];
    assert!(!is_black_pawn_move_valid((4, 4), (3, 5), &black_at_target));
    let blocker = vec![piece(PieceColor::White, PieceType::Knight, 5, 4)];
    assert!(!is_black_pawn_move_valid((6, 4), (4, 4), &blocker));
}

#[test]
fn can_reach_rejects_same_color_target() {
    let pieces = vec![
        piece(PieceColor::White, PieceType::Rook, 0, 0),
        piece(PieceColor::White, PieceType::Pawn, 0, 5),
    ];
    let rook = pieces[0];
    // The rook line is clear up to the pawn, but the pawn is its own color.
    assert!(rook.can_reach_position((0, 4), &pieces));
    assert!(!rook.can_reach_position((0, 5), &pieces));

    // With an enemy piece on the same square, the capture is allowed.
    let enemy = vec![
        piece(PieceColor::White, PieceType::Rook, 0, 0),
        piece(PieceColor::Black, PieceType::Pawn, 0, 5),
    ];
    assert!(enemy[0].can_reach_position((0, 5), &enemy));
}

#[test]
fn is_move_valid_matches_can_reach() {
    let pieces = vec![
        piece(PieceColor::White, PieceType::Knight, 0, 1),
        piece(PieceColor::Black, PieceType::Pawn, 2, 2),
    ];
    let knight = pieces[0];
    for &is_check in &[false, true] {
        assert!(knight.is_move_valid((2, 2), &pieces, is_check));
        assert!(knight.is_move_valid((2, 0), &pieces, is_check));
        assert!(!knight.is_move_valid((1, 1), &pieces, is_check));
    }
}

#[test]
fn color_of_square_reports_occupancy() {
    let pieces = vec![
        piece(PieceColor::White, PieceType::Rook, 0, 0),
        piece(PieceColor::Black, PieceType::Queen, 7, 3),
    ];
    assert_eq!(color_of_square((0, 0), &pieces), Some(PieceColor::White));
    assert_eq!(color_of_square((7, 3), &pieces), Some(PieceColor::Black));
    assert_eq!(color_of_square((4, 4), &pieces), None);
}
