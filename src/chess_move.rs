use vstd::prelude::*;
use crate::board::{BoardModel, GameBoard, cell_index, lemma_index_in_range, lemma_index_injective};
use crate::piece::{ChessPiece, Color, PieceType};

verus! {

/// A move, carrying everything needed to play it on a board.
#[derive(Clone, Copy, Debug, PartialEq, Eq)]
#[allow(inconsistent_fields)]
pub enum ChessMoveType {
    /// A move to a square, capturing what stood there if anything, and
    /// turning the piece into another kind when `promotion` is given.
    Move {
        original_position: (usize, usize),
        new_position: (usize, usize),
        piece: ChessPiece,
        taken_piece: Option<ChessPiece>,
        promotion: Option<PieceType>,
    },
    /// A capture on the destination square.
    Take {
        original_position: (usize, usize),
        new_position: (usize, usize),
        piece: ChessPiece,
        taken_piece: ChessPiece,
    },
    /// A pawn capture in passing: the captured pawn stands beside the
    /// mover, not on the destination.
    EnPassant {
        original_position: (usize, usize),
        new_position: (usize, usize),
        piece: ChessPiece,
        taken_piece: ChessPiece,
        taken_piece_position: (usize, usize),
    },
    /// King and rook of one colour move together.
    Castle {
        king_original_position: (usize, usize),
        king_new_position: (usize, usize),
        rook_original_position: (usize, usize),
        rook_new_position: (usize, usize),
        color: Color,
    },
}

pub open spec fn in_bounds_pos(b: BoardModel, p: (usize, usize)) -> bool {
    b.in_bounds(p.0 as int, p.1 as int)
}

/// The square a move starts from (the king's, for castling).
pub open spec fn origin_of(m: ChessMoveType) -> (usize, usize) {
    match m {
        ChessMoveType::Move { original_position, .. } => original_position,
        ChessMoveType::Take { original_position, .. } => original_position,
        ChessMoveType::EnPassant { original_position, .. } => original_position,
        ChessMoveType::Castle { king_original_position, .. } => king_original_position,
    }
}

/// The square a move ends on (the king's, for castling).
pub open spec fn destination_of(m: ChessMoveType) -> (usize, usize) {
    match m {
        ChessMoveType::Move { new_position, .. } => new_position,
        ChessMoveType::Take { new_position, .. } => new_position,
        ChessMoveType::EnPassant { new_position, .. } => new_position,
        ChessMoveType::Castle { king_new_position, .. } => king_new_position,
    }
}

/// The piece that makes the move (the king, for castling).
pub open spec fn mover_of(m: ChessMoveType) -> ChessPiece {
    match m {
        ChessMoveType::Move { piece, .. } => piece,
        ChessMoveType::Take { piece, .. } => piece,
        ChessMoveType::EnPassant { piece, .. } => piece,
        ChessMoveType::Castle { color, .. } => ChessPiece { color, piece_type: PieceType::King },
    }
}

/// The piece a move captures, if any.
pub open spec fn captured_of(m: ChessMoveType) -> Option<ChessPiece> {
    match m {
        ChessMoveType::Move { taken_piece, .. } => taken_piece,
        ChessMoveType::Take { taken_piece, .. } => Some(taken_piece),
        ChessMoveType::EnPassant { taken_piece, .. } => Some(taken_piece),
        ChessMoveType::Castle { .. } => None,
    }
}

/// Every square a move touches lies on the board.
pub open spec fn move_in_bounds(b: BoardModel, m: ChessMoveType) -> bool {
    match m {
        ChessMoveType::Move { original_position, new_position, .. } =>
            in_bounds_pos(b, original_position) && in_bounds_pos(b, new_position),
        ChessMoveType::Take { original_position, new_position, .. } =>
            in_bounds_pos(b, original_position) && in_bounds_pos(b, new_position),
        ChessMoveType::EnPassant { original_position, new_position, taken_piece_position, .. } =>
            in_bounds_pos(b, original_position) && in_bounds_pos(b, new_position)
                && in_bounds_pos(b, taken_piece_position),
        ChessMoveType::Castle {
            king_original_position,
            king_new_position,
            rook_original_position,
            rook_new_position,
            ..
        } => in_bounds_pos(b, king_original_position) && in_bounds_pos(b, king_new_position)
            && in_bounds_pos(b, rook_original_position) && in_bounds_pos(b, rook_new_position),
    }
}

pub open spec fn set_at(b: BoardModel, p: (usize, usize), v: Option<ChessPiece>) -> BoardModel {
    b.set(p.0 as int, p.1 as int, v)
}

/// The piece that lands, after any promotion.
pub open spec fn promoted(piece: ChessPiece, promotion: Option<PieceType>) -> ChessPiece {
    match promotion {
        Some(t) => ChessPiece { color: piece.color, piece_type: t },
        None => piece,
    }
}

/// The board after a move is played on it.
pub open spec fn apply_move(b: BoardModel, m: ChessMoveType) -> BoardModel {
    match m {
        ChessMoveType::Move { original_position, new_position, piece, promotion, .. } =>
            set_at(set_at(b, original_position, None), new_position, Some(promoted(piece, promotion))),
        ChessMoveType::Take { original_position, new_position, piece, .. } =>
            set_at(set_at(b, original_position, None), new_position, Some(piece)),
        ChessMoveType::EnPassant { original_position, new_position, piece, taken_piece_position, .. } =>
            set_at(set_at(set_at(b, original_position, None), taken_piece_position, None), new_position, Some(piece)),
        ChessMoveType::Castle {
            king_original_position,
            king_new_position,
            rook_original_position,
            rook_new_position,
            color,
        } => set_at(
            set_at(
                set_at(set_at(b, king_original_position, None), rook_original_position, None),
                king_new_position,
                Some(ChessPiece { color, piece_type: PieceType::King }),
            ),
            rook_new_position,
            Some(ChessPiece { color, piece_type: PieceType::Rook }),
        ),
    }
}

/// Taking a move back: the destination gets back what was captured there,
/// and the moving piece returns to its origin.
pub open spec fn undo_move(b: BoardModel, m: ChessMoveType) -> BoardModel {
    set_at(set_at(b, destination_of(m), captured_of(m)), origin_of(m), Some(mover_of(m)))
}

/// Playing a plain move or a capture and then taking it back restores the
/// board, when the mover stood on the origin and the captured piece (or
/// nothing) on a different destination.
pub proof fn lemma_undo_restores(b: BoardModel, m: ChessMoveType)
    requires
        b.wf(),
        move_in_bounds(b, m),
        m is Move || m is Take,
        origin_of(m) != destination_of(m),
        b.at(origin_of(m).0 as int, origin_of(m).1 as int) == Some(mover_of(m)),
        b.at(destination_of(m).0 as int, destination_of(m).1 as int) == captured_of(m),
    ensures
        undo_move(apply_move(b, m), m) == b,
{
    let o = origin_of(m);
    let d = destination_of(m);
    let io = cell_index(b.width, o.0 as int, o.1 as int);
    let id = cell_index(b.width, d.0 as int, d.1 as int);
    lemma_index_in_range(b.width, b.height, o.0 as int, o.1 as int);
    lemma_index_in_range(b.width, b.height, d.0 as int, d.1 as int);
    if io == id {
        lemma_index_injective(b.width, o.0 as int, o.1 as int, d.0 as int, d.1 as int);
    }
    let r = undo_move(apply_move(b, m), m);
    assert(r.cells =~= b.cells);
}

impl ChessMoveType {
    /// The square the move starts from.
    pub fn origin(&self) -> (r: (usize, usize))
        ensures
            r == origin_of(*self),
    {
        match *self {
            ChessMoveType::Move { original_position, .. } => original_position,
            ChessMoveType::Take { original_position, .. } => original_position,
            ChessMoveType::EnPassant { original_position, .. } => original_position,
            ChessMoveType::Castle { king_original_position, .. } => king_original_position,
        }
    }

    /// The square the move ends on.
    pub fn destination(&self) -> (r: (usize, usize))
        ensures
            r == destination_of(*self),
    {
        match *self {
            ChessMoveType::Move { new_position, .. } => new_position,
            ChessMoveType::Take { new_position, .. } => new_position,
            ChessMoveType::EnPassant { new_position, .. } => new_position,
            ChessMoveType::Castle { king_new_position, .. } => king_new_position,
        }
    }

    /// The piece that moves.
    pub fn mover(&self) -> (r: ChessPiece)
        ensures
            r == mover_of(*self),
    {
        match *self {
            ChessMoveType::Move { piece, .. } => piece,
            ChessMoveType::Take { piece, .. } => piece,
            ChessMoveType::EnPassant { piece, .. } => piece,
            ChessMoveType::Castle { color, .. } => ChessPiece { color, piece_type: PieceType::King },
        }
    }

    /// The piece the move captures, if any.
    pub fn captured(&self) -> (r: Option<ChessPiece>)
        ensures
            r == captured_of(*self),
    {
        match *self {
            ChessMoveType::Move { taken_piece, .. } => taken_piece,
            ChessMoveType::Take { taken_piece, .. } => Some(taken_piece),
            ChessMoveType::EnPassant { taken_piece, .. } => Some(taken_piece),
            ChessMoveType::Castle { .. } => None,
        }
    }

    /// Plays the move on a board.
    pub fn make_move(&self, board: &mut GameBoard)
        requires
            old(board).wf(),
            move_in_bounds(old(board)@, *self),
        ensures
            final(board).wf(),
            final(board)@ == apply_move(old(board)@, *self),
    {
        match *self {
            ChessMoveType::Move { original_position, new_position, piece, promotion, .. } => {
                board.remove_piece(original_position.0, original_position.1);
                let landing = match promotion {
                    Some(t) => ChessPiece { color: piece.color, piece_type: t },
                    None => piece,
                };
                board.place_piece(landing, new_position.0, new_position.1);
            },
            ChessMoveType::Take { original_position, new_position, piece, .. } => {
                board.remove_piece(original_position.0, original_position.1);
                board.place_piece(piece, new_position.0, new_position.1);
            },
            ChessMoveType::EnPassant { original_position, new_position, piece, taken_piece_position, .. } => {
                board.remove_piece(original_position.0, original_position.1);
                board.remove_piece(taken_piece_position.0, taken_piece_position.1);
                board.place_piece(piece, new_position.0, new_position.1);
            },
            ChessMoveType::Castle {
                king_original_position,
                king_new_position,
                rook_original_position,
                rook_new_position,
                color,
            } => {
                board.remove_piece(king_original_position.0, king_original_position.1);
                board.remove_piece(rook_original_position.0, rook_original_position.1);
                board.place_piece(ChessPiece { color, piece_type: PieceType::King }, king_new_position.0, king_new_position.1);
                board.place_piece(ChessPiece { color, piece_type: PieceType::Rook }, rook_new_position.0, rook_new_position.1);
            },
        }
    }
}

} // verus!
