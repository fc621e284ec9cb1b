use simple_chess::bishop::{as_fen_char, as_utf_str, possible_moves};
use simple_chess::{ChessMoveType, ChessPiece, Color, GameBoard, Pawn, PieceType};

fn bishop_move(to: (usize, usize), taken: Option<ChessPiece>) -> ChessMoveType {
    ChessMoveType::Move {
        original_position: (2, 5),
        new_position: to,
        piece: ChessPiece::new(Color::White, PieceType::Bishop),
        taken_piece: taken,
        promotion: None,
    }
}

#[test]
fn bishop_movement() {
    let mut board = GameBoard::build(8, 8);
    board.place_piece(ChessPiece::new(Color::White, PieceType::Bishop), 2, 5);

    let moves = possible_moves(Color::White, (2, 5), &board);
    assert_eq!(moves.len(), 11);

    for (new_col, new_row) in [
        (0, 7),
        (0, 3),
        (1, 6),
        (1, 4),
        (3, 6),
        (3, 4),
        (4, 7),
        (4, 3),
        (5, 2),
        (6, 1),
        (7, 0),
    ] {
        assert!(moves.contains(&bishop_move((new_col, new_row), None)));
    }
}

#[test]
fn bishop_blocked_by_friendly_pieces_movement() {
    let mut board = GameBoard::build(8, 8);
    board.place_piece(ChessPiece::new(Color::White, PieceType::Bishop), 2, 5);
    board.place_piece(ChessPiece::new(Color::White, PieceType::King), 3, 4);

    let moves = possible_moves(Color::White, (2, 5), &board);
    assert_eq!(6, moves.len());

    for (new_col, new_row) in [(0, 7), (0, 3), (1, 6), (1, 4), (3, 6), (4, 7)] {
        assert!(moves.contains(&bishop_move((new_col, new_row), None)));
    }
}

#[test]
fn bishop_captures_first_enemy_and_stops() {
    let mut board = GameBoard::build(8, 8);
    board.place_piece(ChessPiece::new(Color::White, PieceType::Bishop), 2, 5);
    let enemy = ChessPiece::new(Color::Black, PieceType::Rook);
    board.place_piece(enemy, 4, 3);

    let moves = possible_moves(Color::White, (2, 5), &board);
    assert_eq!(8, moves.len());
    assert!(moves.contains(&bishop_move((4, 3), Some(enemy))));
    assert!(!moves.contains(&bishop_move((5, 2), None)));
    assert!(!moves.contains(&bishop_move((6, 1), None)));
}

#[test]
fn bishop_glyphs() {
    assert_eq!("\u{2657}", as_utf_str(Color::White));
    assert_eq!("\u{265d}", as_utf_str(Color::Black));
    assert_eq!('B', as_fen_char(Color::White));
    assert_eq!('b', as_fen_char(Color::Black));
}

#[test]
fn rook_and_queen_slide_to_the_edges() {
    let mut board = GameBoard::build(8, 8);
    board.place_piece(ChessPiece::new(Color::White, PieceType::Rook), 0, 0);
    let rook = simple_chess::movegen::piece_moves(ChessPiece::new(Color::White, PieceType::Rook), (0, 0), &board, None);
    assert_eq!(14, rook.len());
    let queen = simple_chess::movegen::piece_moves(ChessPiece::new(Color::Black, PieceType::Queen), (3, 3), &board, None);
    assert_eq!(27, queen.len());
}

#[test]
fn knight_in_corner_has_two_jumps() {
    let board = GameBoard::build(8, 8);
    let moves = simple_chess::movegen::piece_moves(ChessPiece::new(Color::Black, PieceType::Knight), (0, 0), &board, None);
    assert_eq!(2, moves.len());
}

#[test]
fn pawn_promotes_to_four_kinds() {
    let mut board = GameBoard::build(3, 3);
    board.place_piece(ChessPiece::new(Color::White, PieceType::Pawn), 1, 1);
    let enemy = ChessPiece::new(Color::Black, PieceType::Knight);
    board.place_piece(enemy, 0, 2);
    let moves = simple_chess::movegen::piece_moves(ChessPiece::new(Color::White, PieceType::Pawn), (1, 1), &board, None);
    assert_eq!(8, moves.len());
    assert!(moves.contains(&ChessMoveType::Move {
        original_position: (1, 1),
        new_position: (0, 2),
        piece: ChessPiece::new(Color::White, PieceType::Pawn),
        taken_piece: Some(enemy),
        promotion: Some(PieceType::Queen),
    }));
}

#[test]
fn pawn_struct_holds_its_colour() {
    let pawn = Pawn::new(Color::Black);
    assert_eq!(Color::Black, pawn.get_color());
    assert_eq!('\u{265f}', pawn.get_as_char());
    assert_eq!('\u{2659}', Pawn::new(Color::White).get_as_char());
}
