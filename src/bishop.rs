use vstd::prelude::*;
use crate::board::GameBoard;
use crate::chess_move::{ChessMoveType, in_bounds_pos};
use crate::movegen::{slide_moves, slide_move_upto};
use crate::piece::{ChessPiece, Color, PieceType};

verus! {

/// The bishop's glyph in the given colour.
pub fn as_utf_str(color: Color) -> (r: &'static str)
    ensures
        r@ == (match color {
            Color::White => "\u{2657}"@,
            Color::Black => "\u{265d}"@,
        }),
{
    match color {
        Color::White => "\u{2657}",
        Color::Black => "\u{265d}",
    }
}

/// The bishop's letter in position notation: upper case for White.
pub fn as_fen_char(color: Color) -> (r: char)
    ensures
        r == (match color {
            Color::White => 'B',
            Color::Black => 'b',
        }),
{
    match color {
        Color::White => 'B',
        Color::Black => 'b',
    }
}

/// The pseudo-legal moves of a bishop of `color` on `position`: along each
/// diagonal up to the edge, stopping before a friendly piece and on an enemy.
pub fn possible_moves(color: Color, position: (usize, usize), board: &GameBoard) -> (r: Vec<ChessMoveType>)
    requires
        board.wf(),
        in_bounds_pos(board@, position),
    ensures
        forall|m: ChessMoveType| #[trigger] r@.contains(m)
            <==> slide_move_upto(board@, ChessPiece { color, piece_type: PieceType::Bishop }, position, 4, m),
{
    slide_moves(ChessPiece::new(color, PieceType::Bishop), position, board)
}

} // verus!
