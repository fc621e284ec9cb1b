use vstd::prelude::*;

verus! {

/// The two sides of a game.
#[derive(Clone, Copy, Debug, PartialEq, Eq, Structural)]
pub enum Color {
    White,
    Black,
}

/// The fixed set of piece kinds.
#[derive(Clone, Copy, Debug, PartialEq, Eq, Structural)]
pub enum PieceType {
    Pawn,
    Knight,
    Bishop,
    Rook,
    Queen,
    King,
}

/// Display colour of a board square, from the parity of its coordinates.
#[derive(Clone, Copy, Debug, PartialEq, Eq, Structural)]
pub enum SquareColor {
    White,
    Black,
}

/// A piece: its colour and its kind. It carries no position.
#[derive(Clone, Copy, Debug, PartialEq, Eq, Structural)]
pub struct ChessPiece {
    pub color: Color,
    pub piece_type: PieceType,
}

pub open spec fn opposite(c: Color) -> Color {
    match c {
        Color::White => Color::Black,
        Color::Black => Color::White,
    }
}

impl Color {
    pub fn opposite_color(&self) -> (r: Color)
        ensures
            r == opposite(*self),
    {
        match self {
            Color::White => Color::Black,
            Color::Black => Color::White,
        }
    }
}

impl ChessPiece {
    pub fn new(color: Color, piece_type: PieceType) -> (r: ChessPiece)
        ensures
            r.color == color,
            r.piece_type == piece_type,
    {
        ChessPiece { color, piece_type }
    }

    pub fn get_color(&self) -> (r: Color)
        ensures
            r == self.color,
    {
        self.color
    }

    pub fn get_piece_type(&self) -> (r: PieceType)
        ensures
            r == self.piece_type,
    {
        self.piece_type
    }
}

} // verus!
