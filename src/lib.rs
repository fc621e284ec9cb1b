pub mod piece;
pub mod board;
pub mod chess_move;
pub mod movegen;
pub mod bishop;
pub mod analyser;
pub mod game;
pub mod square;
pub mod pawn;

pub use analyser::{
    can_castle_long, can_castle_short, get_all_moves, get_game_state, is_color_in_check,
    is_insufficient_material, legal_moves, GameState,
};
pub use board::GameBoard;
pub use chess_move::ChessMoveType;
pub use game::ChessGame;
pub use pawn::Pawn;
pub use piece::{ChessPiece, Color, PieceType, SquareColor};
pub use square::{get_column_and_row_from_square_name, get_square_name_from_row_and_col, Square};
pub mod symmetry;
