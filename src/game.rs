use vstd::prelude::*;
use crate::analyser::{home_row, home_row_of};
use crate::board::{BoardModel, GameBoard};
use crate::chess_move::{ChessMoveType, apply_move, captured_of, destination_of, move_in_bounds, mover_of, origin_of};
use crate::movegen::pos;
use crate::piece::{ChessPiece, Color, PieceType, opposite};

verus! {

/// The number of half-moves without a capture or a pawn move after which a
/// draw may be claimed.
pub const FIFTY_MOVE_HALFMOVES: u32 = 100;

/// A game in progress: the board, whose turn it is, the turn counter, the
/// moves played so far in order, the castling rights of each side, and the
/// number of half-moves since the last capture or pawn move.
pub struct ChessGame {
    pub board: GameBoard,
    pub current_turn: Color,
    pub turn_number: u32,
    pub moves: Vec<ChessMoveType>,
    pub white_can_castle_long: bool,
    pub white_can_castle_short: bool,
    pub black_can_castle_long: bool,
    pub black_can_castle_short: bool,
    pub halfmove_clock: u32,
}

/// The right to castle survives the move: it is not a move of that king,
/// and it neither leaves nor lands on the rook's corner square.
pub open spec fn keeps_castle_right(b: BoardModel, m: ChessMoveType, color: Color, corner_col: int) -> bool {
    let corner = (corner_col, home_row(b, color));
    &&& mover_of(m) != ChessPiece { color, piece_type: PieceType::King }
    &&& pos(origin_of(m)) != corner
    &&& pos(destination_of(m)) != corner
}

/// A move that resets the fifty-move count: a pawn move or a capture.
pub open spec fn resets_clock(m: ChessMoveType) -> bool {
    mover_of(m).piece_type == PieceType::Pawn || captured_of(m).is_some()
}

impl ChessGame {
    pub open spec fn wf(&self) -> bool {
        self.board.wf()
    }

    /// The move played last, if any.
    pub open spec fn last_move_spec(&self) -> Option<ChessMoveType> {
        if self.moves@.len() > 0 {
            Some(self.moves@.last())
        } else {
            None
        }
    }

    /// Whether `color` still holds its right to castle on the given side.
    pub open spec fn castle_right(&self, color: Color, long: bool) -> bool {
        match (color, long) {
            (Color::White, true) => self.white_can_castle_long,
            (Color::White, false) => self.white_can_castle_short,
            (Color::Black, true) => self.black_can_castle_long,
            (Color::Black, false) => self.black_can_castle_short,
        }
    }

    /// A game from the standard starting position, White to move.
    pub fn new() -> (r: ChessGame)
        ensures
            r.wf(),
            r.board@ == GameBoard::starting_position(),
            r.current_turn == Color::White,
            r.turn_number == 1,
            r.moves@.len() == 0,
            r.white_can_castle_long && r.white_can_castle_short,
            r.black_can_castle_long && r.black_can_castle_short,
            r.halfmove_clock == 0,
    {
        let board = ChessGame::create_board_with_starting_position();
        ChessGame::new_game(board, Color::White)
    }

    fn create_board_with_starting_position() -> (r: GameBoard)
        ensures
            r.wf(),
            r@ == GameBoard::starting_position(),
    {
        GameBoard::build_chess_board()
    }

    /// A game from any position, with `current_turn` to move, no moves
    /// played yet and every castling right still held.
    pub fn new_game(board: GameBoard, current_turn: Color) -> (r: ChessGame)
        requires
            board.wf(),
        ensures
            r.wf(),
            r.board@ == board@,
            r.current_turn == current_turn,
            r.turn_number == 1,
            r.moves@.len() == 0,
            r.white_can_castle_long && r.white_can_castle_short,
            r.black_can_castle_long && r.black_can_castle_short,
            r.halfmove_clock == 0,
    {
        ChessGame {
            board,
            current_turn,
            turn_number: 1,
            moves: Vec::new(),
            white_can_castle_long: true,
            white_can_castle_short: true,
            black_can_castle_long: true,
            black_can_castle_short: true,
            halfmove_clock: 0,
        }
    }

    /// The board.
    pub fn get_board(&self) -> (r: &GameBoard)
        ensures
            r == &self.board,
    {
        &self.board
    }

    /// The move played last, if any.
    pub fn last_move(&self) -> (r: Option<ChessMoveType>)
        ensures
            r == self.last_move_spec(),
    {
        if self.moves.len() > 0 {
            Some(self.moves[self.moves.len() - 1])
        } else {
            None
        }
    }

    /// Whether a draw by the fifty-move rule may be claimed.
    pub fn can_trigger_fifty_move_rule(&self) -> (r: bool)
        ensures
            r == (self.halfmove_clock >= FIFTY_MOVE_HALFMOVES),
    {
        self.halfmove_clock >= FIFTY_MOVE_HALFMOVES
    }

    fn change_turn(&mut self)
        ensures
            *final(self) == (ChessGame { current_turn: opposite(old(self).current_turn), ..*old(self) }),
    {
        self.current_turn = match self.current_turn {
            Color::White => Color::Black,
            Color::Black => Color::White,
        }
    }

    fn keeps_right(&self, m: ChessMoveType, color: Color, long: bool) -> (r: bool)
        requires
            self.wf(),
        ensures
            r == keeps_castle_right(self.board@, m, color, if long { 0 } else { self.board@.width - 1 }),
    {
        let row = home_row_of(&self.board, color);
        let col: usize = if long { 0 } else { self.board.get_width() - 1 };
        let mover = m.mover();
        let from = m.origin();
        let to = m.destination();
        !(mover.color == color && mover.piece_type == PieceType::King) && !(from.0 == col && from.1 == row)
            && !(to.0 == col && to.1 == row)
    }

    /// Plays a move: the board changes as the move says, the move joins the
    /// history, the other side is to move, the turn counter advances, the
    /// castling rights it touches are lost, and the fifty-move count is
    /// reset by a pawn move or a capture and advanced otherwise.
    pub fn make_move(&mut self, m: ChessMoveType)
        requires
            old(self).wf(),
            move_in_bounds(old(self).board@, m),
        ensures
            final(self).wf(),
            final(self).board@ == apply_move(old(self).board@, m),
            final(self).moves@ == old(self).moves@.push(m),
            final(self).current_turn == opposite(old(self).current_turn),
            final(self).turn_number == if old(self).turn_number < u32::MAX { old(self).turn_number + 1 } else { old(self).turn_number as int },
            final(self).white_can_castle_long == (old(self).white_can_castle_long && keeps_castle_right(old(self).board@, m, Color::White, 0)),
            final(self).white_can_castle_short == (old(self).white_can_castle_short && keeps_castle_right(old(self).board@, m, Color::White, old(self).board@.width - 1)),
            final(self).black_can_castle_long == (old(self).black_can_castle_long && keeps_castle_right(old(self).board@, m, Color::Black, 0)),
            final(self).black_can_castle_short == (old(self).black_can_castle_short && keeps_castle_right(old(self).board@, m, Color::Black, old(self).board@.width - 1)),
            final(self).halfmove_clock == if resets_clock(m) { 0 } else if old(self).halfmove_clock < u32::MAX { old(self).halfmove_clock + 1 } else { old(self).halfmove_clock as int },
    {
        let wl = self.keeps_right(m, Color::White, true);
        let ws = self.keeps_right(m, Color::White, false);
        let bl = self.keeps_right(m, Color::Black, true);
        let bs = self.keeps_right(m, Color::Black, false);
        self.white_can_castle_long = self.white_can_castle_long && wl;
        self.white_can_castle_short = self.white_can_castle_short && ws;
        self.black_can_castle_long = self.black_can_castle_long && bl;
        self.black_can_castle_short = self.black_can_castle_short && bs;
        let resets = match m.mover().piece_type {
            PieceType::Pawn => true,
            _ => m.captured().is_some(),
        };
        if resets {
            self.halfmove_clock = 0;
        } else if self.halfmove_clock < u32::MAX {
            self.halfmove_clock = self.halfmove_clock + 1;
        }
        m.make_move(&mut self.board);
        self.moves.push(m);
        self.change_turn();
        if self.turn_number < u32::MAX {
            self.turn_number = self.turn_number + 1;
        }
    }
}

} // verus!
