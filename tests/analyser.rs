use simple_chess::Color::{Black, White};
use simple_chess::{
    can_castle_long, can_castle_short, get_all_moves, get_game_state, is_color_in_check,
    is_insufficient_material, ChessGame, ChessMoveType, ChessPiece, Color, GameBoard, GameState,
    PieceType,
};

#[test]
fn idk() {
    let board = GameBoard::from_string(2, 2, " ♛\n♔ ").unwrap();
    let is_in_check = is_color_in_check(&board, Color::White, None);

    assert!(is_in_check)
}

#[test]
fn check_is_symmetric_under_colour_swap() {
    let board = GameBoard::from_string(2, 2, "♚ \n ♕").unwrap();
    assert!(is_color_in_check(&board, Color::Black, None));
    assert!(!is_color_in_check(&board, Color::White, None));

    let quiet = GameBoard::from_string(3, 3, "♔  \n   \n ♜ ").unwrap();
    let mirrored = GameBoard::from_string(3, 3, " ♖ \n   \n♚  ").unwrap();
    assert_eq!(
        is_color_in_check(&quiet, Color::White, None),
        is_color_in_check(&mirrored, Color::Black, None)
    );
    assert!(!is_color_in_check(&quiet, Color::White, None));
}

#[test]
fn more() {
    let game = ChessGame::new();

    let moves = get_all_moves(&game);

    for v in moves {
        println!("{v:?}");
    }
}

#[test]
fn starting_position_has_twenty_moves_and_is_in_progress() {
    let game = ChessGame::new();
    let (state, moves) = get_game_state(&game);
    assert_eq!(20, moves.len());
    assert_eq!(GameState::InProgress, state);
    let pawn_moves = moves.iter().filter(|m| m.mover().piece_type == PieceType::Pawn).count();
    let knight_moves = moves.iter().filter(|m| m.mover().piece_type == PieceType::Knight).count();
    assert_eq!(16, pawn_moves);
    assert_eq!(4, knight_moves);
}

#[test]
fn test_legal_moves() {
    let board = "  ♔  \n  ♗  \n     \n     \n  ♜  ";
    let game_board = GameBoard::from_string(5, 5, board).unwrap();

    let game = ChessGame::new_game(game_board, White);

    let moves = get_all_moves(&game);

    for m in moves {
        println!("{m:?}");
    }
}

#[test]
fn test_legal_moves2() {
    let board = "  ♔  \n     \n♗    \n     \n ♜♜♜ ";
    let game_board = GameBoard::from_string(5, 5, board).unwrap();

    let game = ChessGame::new_game(game_board, White);

    let moves = get_all_moves(&game);

    for m in moves {
        println!("{m:?}");
    }
}

#[test]
fn pinned_bishop_may_only_move_along_the_pin() {
    let board = "  ♔  \n  ♗  \n     \n     \n  ♜  ";
    let game_board = GameBoard::from_string(5, 5, board).unwrap();
    let game = ChessGame::new_game(game_board, White);
    let moves = get_all_moves(&game);
    assert!(moves.iter().all(|m| m.mover().piece_type == PieceType::King));
    assert_eq!(4, moves.len());
}

#[test]
fn test_legal_moves3() {
    let chess_board_as_string = "♜♞♝ ♚♝♞♜\n♟♟♟♟♟♟♟♟\n        \n        \n      ♙♛\n     ♙  \n♙♙♙♙♙  ♙\n♖♘♗♕♔♗♘♖\n";
    let game_board = GameBoard::from_string(8, 8, chess_board_as_string).unwrap();

    let game = ChessGame::new_game(game_board, White);

    let moves = get_all_moves(&game);

    assert_eq!(0, moves.len());
}

#[test]
fn no_moves_in_check_is_checkmate() {
    let chess_board_as_string = "♜♞♝ ♚♝♞♜\n♟♟♟♟♟♟♟♟\n        \n        \n      ♙♛\n     ♙  \n♙♙♙♙♙  ♙\n♖♘♗♕♔♗♘♖\n";
    let game_board = GameBoard::from_string(8, 8, chess_board_as_string).unwrap();
    let game = ChessGame::new_game(game_board, White);
    let (state, moves) = get_game_state(&game);
    assert!(moves.is_empty());
    assert_eq!(GameState::Checkmate, state);
}

#[test]
fn no_moves_out_of_check_is_stalemate() {
    let board = GameBoard::from_string(3, 3, "♔  \n  ♛\n ♚ ").unwrap();
    let game = ChessGame::new_game(board, White);
    let (state, moves) = get_game_state(&game);
    assert!(moves.is_empty());
    assert!(!is_color_in_check(&game.board, White, None));
    assert_eq!(GameState::Stalemate, state);
}

#[test]
fn king_and_bishop_against_king_is_insufficient_material() {
    let board = GameBoard::from_string(4, 4, "♚   \n    \n  ♗ \n   ♔").unwrap();
    let game = ChessGame::new_game(board, White);
    let (state, moves) = get_game_state(&game);
    assert!(!moves.is_empty());
    assert_eq!(GameState::InsufficientMaterial, state);
}

#[test]
fn material_counts() {
    let king = ChessPiece::new(White, PieceType::King);
    let bishop = ChessPiece::new(White, PieceType::Bishop);
    let knight = ChessPiece::new(White, PieceType::Knight);
    let pawn = ChessPiece::new(White, PieceType::Pawn);
    assert!(is_insufficient_material(&vec![king]));
    assert!(is_insufficient_material(&vec![king, bishop]));
    assert!(is_insufficient_material(&vec![knight, king]));
    assert!(!is_insufficient_material(&vec![king, knight, knight]));
    assert!(!is_insufficient_material(&vec![king, bishop, knight]));
    assert!(!is_insufficient_material(&vec![king, pawn]));
}

#[test]
fn fifty_quiet_moves_allow_a_draw() {
    let board = GameBoard::from_string(4, 4, "♚   \n    \n ♖  \n   ♔").unwrap();
    let mut game = ChessGame::new_game(board, White);
    game.halfmove_clock = 100;
    let (state, _) = get_game_state(&game);
    assert_eq!(GameState::FiftyMoveRule, state);
    game.halfmove_clock = 99;
    let (state, _) = get_game_state(&game);
    assert_eq!(GameState::InProgress, state);
}

#[test]
fn forced_move() {
    let chess_board_as_string = "  ♚♜    \n♟♟♟ ♘   \n  ♝   ♟ \n    ♙♟  \n ♙    ♙♜\n♙   ♔  ♙\n  ♙     \n   ♖   ♖\n";
    let game_board = GameBoard::from_string(8, 8, chess_board_as_string).unwrap();

    let game = ChessGame::new_game(game_board, Black);

    let moves = get_all_moves(&game);

    assert_eq!(1, moves.len());
    let only_move = moves.first().unwrap();

    if let ChessMoveType::Move { new_position, .. } = only_move {
        assert_eq!(1, new_position.0);
        assert_eq!(7, new_position.1);
    } else {
        panic!("Should be a move")
    }
}

fn find_move_to(moves: &[ChessMoveType], col: usize, row: usize) -> ChessMoveType {
    *moves
        .iter()
        .find(|m| matches!(m, ChessMoveType::Move { .. }) && m.destination() == (col, row))
        .unwrap()
}

#[test]
fn test_en_passant() {
    let chess_board_as_string = "♚ \n♟ \n  \n ♙\n ♔";
    let game_board = GameBoard::from_string(2, 5, chess_board_as_string).unwrap();

    let mut game = ChessGame::new_game(game_board, White);

    let (_, next_moves) = get_game_state(&game);

    let move_pawn_to_b4 = find_move_to(&next_moves, 1, 3);
    game.make_move(move_pawn_to_b4);

    let (state, moves) = get_game_state(&game);

    for m in &moves {
        println!("{m:?}");
    }

    assert_eq!(3, moves.len());
    assert_eq!(GameState::Check, state);
}

#[test]
fn en_passant_lasts_one_ply() {
    let board = GameBoard::from_string(3, 6, "♚  \n   \n♟  \n   \n ♙ \n  ♔").unwrap();
    let mut game = ChessGame::new_game(board, White);
    let (_, moves) = get_game_state(&game);
    game.make_move(find_move_to(&moves, 1, 3));

    let (_, replies) = get_game_state(&game);
    let in_passing: Vec<&ChessMoveType> =
        replies.iter().filter(|m| matches!(m, ChessMoveType::EnPassant { .. })).collect();
    assert_eq!(1, in_passing.len());
    assert_eq!((1, 2), in_passing[0].destination());

    game.make_move(find_move_to(&replies, 1, 5));
    let (_, moves) = get_game_state(&game);
    game.make_move(find_move_to(&moves, 2, 1));
    let (_, replies) = get_game_state(&game);
    assert!(!replies.iter().any(|m| matches!(m, ChessMoveType::EnPassant { .. })));
}

#[test]
fn can_black_castle_long() {
    let chess_board_as_string = "♜   ♚ ♞♜\n♟♟♟♟♟♟♟♟\n        \n        \n      ♙♛\n     ♙  \n♙♙♙♙♙  ♙\n♖♘♗♕♔♗♘♖\n";
    let game_board = GameBoard::from_string(8, 8, chess_board_as_string).unwrap();

    let can_castle_long = can_castle_long(Black, &game_board);

    assert!(can_castle_long)
}

#[test]
fn can_white_castle_long() {
    let chess_board_as_string = "♜ ♞ ♚ ♞♜\n♟♟♟♟♟♟♟♟\n        \n        \n     ♛  \n        \n♙♙♙♙   ♙\n♖   ♔♗♘♖";
    let game_board = GameBoard::from_string(8, 8, chess_board_as_string).unwrap();

    let can_castle_long = can_castle_long(White, &game_board);

    assert!(can_castle_long)
}

#[test]
fn cant_black_castle_short() {
    let chess_board_as_string = "♜  ♞♚  ♜\n♟♟♟♟♟♟♟♟\n        \n        \n      ♙♛\n     ♙  \n♙♙♙♙♙  ♙\n♖♘♗♕♔♗♘♖\n";
    let game_board = GameBoard::from_string(8, 8, chess_board_as_string).unwrap();

    let can_castle_short = can_castle_short(Black, &game_board);

    assert!(can_castle_short)
}

#[test]
fn cant_white_castle_short() {
    let chess_board_as_string = "♜  ♞♚  ♜\n♟♟♟♟♟♟♟♟\n        \n        \n      ♙♛\n        \n♙♙♙♙♙♙ ♙\n♖♘♗♕♔  ♖\n";
    let game_board = GameBoard::from_string(8, 8, chess_board_as_string).unwrap();

    let can_castle_short = can_castle_short(White, &game_board);

    assert!(can_castle_short)
}

#[test]
fn castling_is_refused_through_an_attacked_square() {
    let board = GameBoard::from_string(8, 2, "   ♜    \n♖   ♔  ♖").unwrap();
    assert!(!can_castle_long(White, &board));
    assert!(can_castle_short(White, &board));
}

#[test]
fn castling_appears_among_moves_and_is_lost_after_a_king_move() {
    let board = GameBoard::from_string(8, 3, "♚       \n        \n♖   ♔  ♖").unwrap();
    let mut game = ChessGame::new_game(board, White);
    let moves = get_all_moves(&game);
    let castles = moves.iter().filter(|m| matches!(m, ChessMoveType::Castle { .. })).count();
    assert_eq!(2, castles);
    let short = *moves
        .iter()
        .find(|m| matches!(m, ChessMoveType::Castle { .. }) && m.destination() == (6, 0))
        .unwrap();
    game.make_move(short);
    assert_eq!(PieceType::King, game.board.check_space(6, 0).unwrap().piece_type);
    assert_eq!(PieceType::Rook, game.board.check_space(5, 0).unwrap().piece_type);
    assert!(!game.white_can_castle_long);
    assert!(!game.white_can_castle_short);
    assert_eq!(Black, game.current_turn);
    assert_eq!(2, game.turn_number);
}

#[test]
fn solve_this_bug() {
    let board_as_string = "♔ \n  \n♟♚\n  ";

    let game_board = GameBoard::from_string(2, 4, board_as_string).unwrap();

    is_color_in_check(&game_board, Color::White, None);
}
