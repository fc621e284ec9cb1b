use simple_chess::PieceType::{Bishop, King, Knight, Pawn, Queen, Rook};
use simple_chess::{ChessMoveType, ChessPiece, Color, GameBoard, PieceType};

#[test]
fn test_build_game_board() {
    let board = GameBoard::build(10, 10);
    assert_eq!(board.get_width(), 10);
    assert_eq!(board.get_height(), 10);
    for x in 0..10 {
        for y in 0..10 {
            assert!(board.check_space(x, y).is_none());
        }
    }
}

#[test]
fn test_build_chess_board() {
    let board = GameBoard::build_chess_board();
    assert_eq!(board.get_width(), 8);
    assert_eq!(board.get_height(), 8);
}

#[test]
fn test_place_and_remove_piece() {
    let mut board = GameBoard::build_chess_board();
    let piece = ChessPiece::new(Color::White, Knight);

    board.place_piece(piece, 0, 0);

    assert!(board.check_space(0, 0).is_some());
    assert_eq!(Knight, board.check_space(0, 0).unwrap().piece_type);
    assert_eq!(Color::White, board.check_space(0, 0).unwrap().color);

    let removed_piece = board.remove_piece(0, 0);
    assert!(removed_piece.is_some());
    assert!(board.check_space(0, 0).is_none());

    board.place_piece(removed_piece.unwrap(), 0, 1);
    assert!(board.check_space(0, 1).is_some());
    assert_eq!(Knight, board.check_space(0, 1).unwrap().piece_type);
    assert_eq!(Color::White, board.check_space(0, 1).unwrap().color);
}

#[test]
fn build_board_from_string() {
    let board_as_string = "        \n        \n        \n        \n        \n        \n        \n        \n";

    let board = GameBoard::from_string(8, 8, board_as_string);

    assert!(board.is_ok());
    let game_board = board.unwrap();
    assert_eq!(game_board.get_width(), 8);
    assert_eq!(game_board.get_height(), 8);

    for x in 0..8 {
        for y in 0..8 {
            let piece = game_board.check_space(x, y);
            assert!(piece.is_none());
        }
    }
}

#[test]
fn should_fail() {
    let board = GameBoard::from_string(8, 8, "");
    assert!(board.is_err());
}

#[test]
fn should_be_able_to_detect_any_piece() {
    let board_string = "♜♞♝♛♚♟ \n♖♘♗♕♔♙ ";

    let board = GameBoard::from_string(7, 2, board_string).unwrap();

    let pieces = [Rook, Knight, Bishop, Queen, King, Pawn];

    for col_index in 0..6 {
        let white_piece = board.check_space(col_index, 0);
        let black_piece = board.check_space(col_index, 1);

        assert_eq!(pieces[col_index], white_piece.unwrap().piece_type);
        assert_eq!(pieces[col_index], black_piece.unwrap().piece_type);

        assert_eq!(Color::White, white_piece.unwrap().color);
        assert_eq!(Color::Black, black_piece.unwrap().color);
    }

    assert!(board.check_space(6, 0).is_none());
    assert!(board.check_space(6, 1).is_none());
}

fn assert_starting_position(board: &GameBoard) {
    assert_eq!(8, board.get_height());
    assert_eq!(8, board.get_width());

    let pieces = [Rook, Knight, Bishop, Queen, King, Bishop, Knight, Rook];

    for col_index in 0..8 {
        assert_eq!(pieces[col_index], board.check_space(col_index, 0).unwrap().piece_type);
        assert_eq!(Color::White, board.check_space(col_index, 0).unwrap().color);
        assert_eq!(pieces[col_index], board.check_space(col_index, 7).unwrap().piece_type);
        assert_eq!(Color::Black, board.check_space(col_index, 7).unwrap().color);

        assert_eq!(Pawn, board.check_space(col_index, 1).unwrap().piece_type);
        assert_eq!(Color::White, board.check_space(col_index, 1).unwrap().color);
        assert_eq!(Pawn, board.check_space(col_index, 6).unwrap().piece_type);
        assert_eq!(Color::Black, board.check_space(col_index, 6).unwrap().color);

        for empty_row_index in 2..6 {
            assert!(board.check_space(col_index, empty_row_index).is_none());
        }
    }
}

#[test]
fn builds_starting_position_in_chess() {
    let board = GameBoard::build_chess_board();
    assert_starting_position(&board);
}

#[test]
fn build_starting_position_from_string() {
    let chess_board_as_string = "♜♞♝♛♚♝♞♜\n♟♟♟♟♟♟♟♟\n        \n        \n        \n        \n♙♙♙♙♙♙♙♙\n♖♘♗♕♔♗♘♖\n";

    let board = GameBoard::from_string(8, 8, chess_board_as_string).unwrap();
    assert_starting_position(&board);

    let same = GameBoard::chess_board_from_string(chess_board_as_string).unwrap();
    assert_starting_position(&same);
}

#[test]
fn text_of_wrong_length_is_refused() {
    assert!(GameBoard::from_string(2, 2, "♔♚\n ").is_err());
    assert!(GameBoard::from_string(2, 2, "♔♚\n   ").is_err());
    assert!(GameBoard::from_string(2, 2, "♔♚\n  ").is_ok());
}

#[test]
fn clone_is_independent() {
    let board = GameBoard::build_chess_board();
    let mut copy = board.clone();
    copy.remove_piece(4, 0);
    assert!(copy.check_space(4, 0).is_none());
    assert!(board.check_space(4, 0).is_some());
}

#[test]
fn playing_and_taking_back_a_capture_restores_the_board() {
    let mut board = GameBoard::build(4, 4);
    let rook = ChessPiece::new(Color::White, PieceType::Rook);
    let knight = ChessPiece::new(Color::Black, PieceType::Knight);
    board.place_piece(rook, 0, 0);
    board.place_piece(knight, 0, 3);
    let m = ChessMoveType::Move {
        original_position: (0, 0),
        new_position: (0, 3),
        piece: rook,
        taken_piece: Some(knight),
        promotion: None,
    };
    m.make_move(&mut board);
    assert!(board.check_space(0, 0).is_none());
    assert_eq!(Some(&rook), board.check_space(0, 3));

    board.remove_piece(0, 3);
    board.place_piece(knight, 0, 3);
    board.place_piece(rook, 0, 0);
    assert_eq!(Some(&rook), board.check_space(0, 0));
    assert_eq!(Some(&knight), board.check_space(0, 3));
}

#[test]
fn promotion_changes_the_landing_piece() {
    let mut board = GameBoard::build(2, 2);
    let pawn = ChessPiece::new(Color::White, PieceType::Pawn);
    board.place_piece(pawn, 0, 0);
    let m = ChessMoveType::Move {
        original_position: (0, 0),
        new_position: (0, 1),
        piece: pawn,
        taken_piece: None,
        promotion: Some(PieceType::Queen),
    };
    m.make_move(&mut board);
    assert_eq!(PieceType::Queen, board.check_space(0, 1).unwrap().piece_type);
    assert_eq!(Color::White, board.check_space(0, 1).unwrap().color);
}
