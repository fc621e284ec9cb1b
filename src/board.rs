use vstd::prelude::*;
use crate::piece::{ChessPiece, Color, PieceType};

verus! {

/// The mathematical content of a board: its extent and one optional piece
/// per square, stored row after row (`row * width + col`).
pub struct BoardModel {
    pub width: int,
    pub height: int,
    pub cells: Seq<Option<ChessPiece>>,
}

pub open spec fn cell_index(width: int, col: int, row: int) -> int {
    row * width + col
}

impl BoardModel {
    pub open spec fn wf(self) -> bool {
        &&& self.width > 0
        &&& self.height > 0
        &&& self.cells.len() == self.width * self.height
    }

    pub open spec fn in_bounds(self, col: int, row: int) -> bool {
        0 <= col < self.width && 0 <= row < self.height
    }

    /// The piece on a square; `None` off the board or on an empty square.
    pub open spec fn at(self, col: int, row: int) -> Option<ChessPiece> {
        if self.in_bounds(col, row) {
            self.cells[cell_index(self.width, col, row)]
        } else {
            None
        }
    }

    pub open spec fn set(self, col: int, row: int, v: Option<ChessPiece>) -> BoardModel {
        BoardModel {
            width: self.width,
            height: self.height,
            cells: self.cells.update(cell_index(self.width, col, row), v),
        }
    }
}

pub proof fn lemma_index_in_range(width: int, height: int, col: int, row: int)
    requires
        0 <= col < width,
        0 <= row < height,
    ensures
        0 <= cell_index(width, col, row) < width * height,
{
    assert(row * width + col < width * height) by (nonlinear_arith)
        requires
            0 <= col < width,
            0 <= row < height,
    ;
    assert(0 <= row * width) by (nonlinear_arith)
        requires
            0 <= row,
            0 <= width,
    ;
}

pub proof fn lemma_index_injective(width: int, c1: int, r1: int, c2: int, r2: int)
    requires
        0 <= c1 < width,
        0 <= c2 < width,
        0 <= r1,
        0 <= r2,
        cell_index(width, c1, r1) == cell_index(width, c2, r2),
    ensures
        c1 == c2 && r1 == r2,
{
    assert(r1 == r2) by (nonlinear_arith)
        requires
            0 <= c1 < width,
            0 <= c2 < width,
            0 <= r1,
            0 <= r2,
            r1 * width + c1 == r2 * width + c2,
    ;
}

/// The pieces of colour `c` among `cells`, in order.
pub open spec fn pieces_of(cells: Seq<Option<ChessPiece>>, c: Color) -> Seq<ChessPiece>
    decreases cells.len(),
{
    if cells.len() == 0 {
        Seq::empty()
    } else {
        let rest = pieces_of(cells.drop_last(), c);
        match cells.last() {
            Some(p) => if p.color == c { rest.push(p) } else { rest },
            None => rest,
        }
    }
}

/// The piece that starts on a square of the standard 8 by 8 board.
pub open spec fn start_piece(col: int, row: int) -> Option<ChessPiece> {
    let back = if col == 0 || col == 7 {
        PieceType::Rook
    } else if col == 1 || col == 6 {
        PieceType::Knight
    } else if col == 2 || col == 5 {
        PieceType::Bishop
    } else if col == 3 {
        PieceType::Queen
    } else {
        PieceType::King
    };
    if row == 0 {
        Some(ChessPiece { color: Color::White, piece_type: back })
    } else if row == 1 {
        Some(ChessPiece { color: Color::White, piece_type: PieceType::Pawn })
    } else if row == 6 {
        Some(ChessPiece { color: Color::Black, piece_type: PieceType::Pawn })
    } else if row == 7 {
        Some(ChessPiece { color: Color::Black, piece_type: back })
    } else {
        None
    }
}

fn start_square(col: usize, row: usize) -> (r: Option<ChessPiece>)
    ensures
        r == start_piece(col as int, row as int),
{
    let back = if col == 0 || col == 7 {
        PieceType::Rook
    } else if col == 1 || col == 6 {
        PieceType::Knight
    } else if col == 2 || col == 5 {
        PieceType::Bishop
    } else if col == 3 {
        PieceType::Queen
    } else {
        PieceType::King
    };
    if row == 0 {
        Some(ChessPiece { color: Color::White, piece_type: back })
    } else if row == 1 {
        Some(ChessPiece { color: Color::White, piece_type: PieceType::Pawn })
    } else if row == 6 {
        Some(ChessPiece { color: Color::Black, piece_type: PieceType::Pawn })
    } else if row == 7 {
        Some(ChessPiece { color: Color::Black, piece_type: back })
    } else {
        None
    }
}

/// The piece a board glyph stands for, if any.
pub open spec fn glyph_piece(ch: char) -> Option<ChessPiece> {
    let (color, kind) = if ch == '\u{2659}' {
        (Color::White, PieceType::Pawn)
    } else if ch == '\u{2656}' {
        (Color::White, PieceType::Rook)
    } else if ch == '\u{2658}' {
        (Color::White, PieceType::Knight)
    } else if ch == '\u{2657}' {
        (Color::White, PieceType::Bishop)
    } else if ch == '\u{2655}' {
        (Color::White, PieceType::Queen)
    } else if ch == '\u{2654}' {
        (Color::White, PieceType::King)
    } else if ch == '\u{265f}' {
        (Color::Black, PieceType::Pawn)
    } else if ch == '\u{265c}' {
        (Color::Black, PieceType::Rook)
    } else if ch == '\u{265e}' {
        (Color::Black, PieceType::Knight)
    } else if ch == '\u{265d}' {
        (Color::Black, PieceType::Bishop)
    } else if ch == '\u{265b}' {
        (Color::Black, PieceType::Queen)
    } else {
        (Color::Black, PieceType::King)
    };
    if ch == '\u{2659}' || ch == '\u{2656}' || ch == '\u{2658}' || ch == '\u{2657}' || ch == '\u{2655}'
        || ch == '\u{2654}' || ch == '\u{265f}' || ch == '\u{265c}' || ch == '\u{265e}' || ch == '\u{265d}'
        || ch == '\u{265b}' || ch == '\u{265a}' {
        Some(ChessPiece { color, piece_type: kind })
    } else {
        None
    }
}

fn piece_from_glyph(ch: char) -> (r: Option<ChessPiece>)
    ensures
        r == glyph_piece(ch),
{
    let (color, kind) = match ch {
        '\u{2659}' => (Color::White, PieceType::Pawn),
        '\u{2656}' => (Color::White, PieceType::Rook),
        '\u{2658}' => (Color::White, PieceType::Knight),
        '\u{2657}' => (Color::White, PieceType::Bishop),
        '\u{2655}' => (Color::White, PieceType::Queen),
        '\u{2654}' => (Color::White, PieceType::King),
        '\u{265f}' => (Color::Black, PieceType::Pawn),
        '\u{265c}' => (Color::Black, PieceType::Rook),
        '\u{265e}' => (Color::Black, PieceType::Knight),
        '\u{265d}' => (Color::Black, PieceType::Bishop),
        '\u{265b}' => (Color::Black, PieceType::Queen),
        '\u{265a}' => (Color::Black, PieceType::King),
        _ => return None,
    };
    Some(ChessPiece { color, piece_type: kind })
}

/// The text with its line breaks taken out.
pub open spec fn without_newlines(s: Seq<char>) -> Seq<char>
    decreases s.len(),
{
    if s.len() == 0 {
        Seq::empty()
    } else {
        let rest = without_newlines(s.drop_last());
        if s.last() == '\n' { rest } else { rest.push(s.last()) }
    }
}

/// A rectangular board of squares, each holding at most one piece.
pub struct GameBoard {
    squares: Vec<Option<ChessPiece>>,
    width: usize,
    height: usize,
}

impl View for GameBoard {
    type V = BoardModel;

    closed spec fn view(&self) -> BoardModel {
        BoardModel { width: self.width as int, height: self.height as int, cells: self.squares@ }
    }
}

impl Clone for GameBoard {
    fn clone(&self) -> (r: GameBoard)
        ensures
            r@ == self@,
    {
        GameBoard { squares: self.squares.clone(), width: self.width, height: self.height }
    }
}

impl GameBoard {
    pub open spec fn wf(&self) -> bool {
        &&& self@.wf()
        &&& self@.width * self@.height <= usize::MAX
        &&& self@.width <= usize::MAX
        &&& self@.height <= usize::MAX
    }

    /// An empty board of the given extent.
    pub fn build(width: usize, height: usize) -> (r: GameBoard)
        requires
            width > 0,
            height > 0,
            width * height <= usize::MAX,
        ensures
            r.wf(),
            r@.width == width,
            r@.height == height,
            forall|c: int, r2: int| #[trigger] r@.at(c, r2).is_none(),
    {
        let b = GameBoard { squares: Self::generate_board(width, height), width, height };
        assert forall|c: int, r2: int| #[trigger] b@.at(c, r2).is_none() by {
            if b@.in_bounds(c, r2) {
                lemma_index_in_range(width as int, height as int, c, r2);
            }
        }
        b
    }

    fn generate_board(width: usize, height: usize) -> (r: Vec<Option<ChessPiece>>)
        requires
            width * height <= usize::MAX,
        ensures
            r@.len() == width * height,
            forall|i: int| 0 <= i < r@.len() ==> (#[trigger] r@[i]).is_none(),
    {
        let n: usize = width * height;
        let mut squares: Vec<Option<ChessPiece>> = Vec::new();
        let mut i: usize = 0;
        while i < n
            invariant
                i <= n,
                squares@.len() == i,
                forall|j: int| 0 <= j < squares@.len() ==> (#[trigger] squares@[j]).is_none(),
            decreases n - i,
        {
            squares.push(None);
            i = i + 1;
        }
        squares
    }

    /// The standard starting position on an 8 by 8 board.
    pub open spec fn starting_position() -> BoardModel {
        BoardModel {
            width: 8,
            height: 8,
            cells: Seq::new(64, |i: int| start_piece(i % 8, i / 8)),
        }
    }

    /// An 8 by 8 board in the standard starting position.
    pub fn build_chess_board() -> (r: GameBoard)
        ensures
            r.wf(),
            r@ == GameBoard::starting_position(),
            forall|c: int, w: int| 0 <= c < 8 && 0 <= w < 8 ==> #[trigger] r@.at(c, w) == start_piece(c, w),
    {
        let mut squares: Vec<Option<ChessPiece>> = Vec::new();
        let mut row: usize = 0;
        while row < 8
            invariant
                row <= 8,
                squares@.len() == row * 8,
                forall|i: int| 0 <= i < squares@.len() ==> #[trigger] squares@[i] == start_piece(i % 8, i / 8),
            decreases 8 - row,
        {
            let mut col: usize = 0;
            while col < 8
                invariant
                    row < 8,
                    col <= 8,
                    squares@.len() == row * 8 + col,
                    forall|i: int| 0 <= i < squares@.len() ==> #[trigger] squares@[i] == start_piece(i % 8, i / 8),
                decreases 8 - col,
            {
                let ghost i = squares@.len() as int;
                assert(i % 8 == col as int && i / 8 == row as int);
                squares.push(start_square(col, row));
                col = col + 1;
            }
            row = row + 1;
        }
        let b = GameBoard { squares, width: 8, height: 8 };
        assert(b@.cells =~= GameBoard::starting_position().cells);
        assert forall|c: int, w: int| 0 <= c < 8 && 0 <= w < 8 implies #[trigger] b@.at(c, w) == start_piece(c, w) by {
            assert((w * 8 + c) % 8 == c && (w * 8 + c) / 8 == w);
        }
        b
    }

    /// Reads a board from text: one glyph or blank per square, the top row
    /// first and each row from the first column, line breaks ignored. Any
    /// character that is not a piece glyph leaves its square empty. Text
    /// with another number of characters than squares is refused.
    pub fn from_string(width: usize, height: usize, s: &str) -> (r: Result<GameBoard, String>)
        requires
            width > 0,
            height > 0,
            width * height <= usize::MAX,
        ensures
            without_newlines(s@).len() != width * height <==> r is Err,
            r matches Ok(b) ==> {
                &&& b.wf()
                &&& b@.width == width
                &&& b@.height == height
                &&& forall|c: int, w: int| 0 <= c < width && 0 <= w < height ==>
                    #[trigger] b@.at(c, w) == glyph_piece(without_newlines(s@)[(height - 1 - w) * width + c])
            },
    {
        let n = s.unicode_len();
        let mut text: Vec<char> = Vec::new();
        let mut i: usize = 0;
        while i < n
            invariant
                n == s@.len(),
                i <= n,
                text@ == without_newlines(s@.take(i as int)),
            decreases n - i,
        {
            assert(s@.take(i + 1).drop_last() == s@.take(i as int));
            let ch = s.get_char(i);
            if ch != '\n' {
                text.push(ch);
            }
            i = i + 1;
        }
        assert(s@.take(n as int) == s@);
        if text.len() != width * height {
            return Err(String::from_str("the text does not hold one character per square"));
        }
        let ghost t = text@;
        let mut squares: Vec<Option<ChessPiece>> = Vec::new();
        let mut row: usize = 0;
        while row < height
            invariant
                t == text@,
                t.len() == width * height,
                width * height <= usize::MAX,
                row <= height,
                squares@.len() == row * width,
                forall|c: int, w: int| 0 <= c < width && 0 <= w < row ==>
                    #[trigger] squares@[cell_index(width as int, c, w)] == glyph_piece(t[(height - 1 - w) * width + c]),
            decreases height - row,
        {
            let mut col: usize = 0;
            while col < width
                invariant
                    t == text@,
                    t.len() == width * height,
                    width * height <= usize::MAX,
                    row < height,
                    col <= width,
                    squares@.len() == row * width + col,
                    forall|c: int, w: int| (0 <= c < width && 0 <= w < row) || (0 <= c < col && w == row) ==>
                        #[trigger] squares@[cell_index(width as int, c, w)] == glyph_piece(t[(height - 1 - w) * width + c]),
                decreases width - col,
            {
                proof {
                    lemma_index_in_range(width as int, height as int, col as int, (height - 1 - row) as int);
                }
                let at = (height - 1 - row) * width + col;
                let ghost before = squares@;
                squares.push(piece_from_glyph(text[at]));
                assert forall|c: int, w: int| (0 <= c < width && 0 <= w < row) || (0 <= c < col + 1 && w == row) implies
                    #[trigger] squares@[cell_index(width as int, c, w)] == glyph_piece(t[(height - 1 - w) * width + c]) by {
                    if w < row {
                        lemma_index_in_range(width as int, row as int, c, w);
                        assert(width * row == row * width) by (nonlinear_arith);
                        assert(cell_index(width as int, c, w) < before.len());
                    } else if c < col {
                        assert(cell_index(width as int, c, w) < before.len());
                    } else {
                        assert(cell_index(width as int, c, w) == before.len());
                    }
                }
                col = col + 1;
            }
            assert((row + 1) * width == row * width + width) by (nonlinear_arith);
            row = row + 1;
        }
        assert(height * width == width * height) by (nonlinear_arith);
        let b = GameBoard { squares, width, height };
        assert forall|c: int, w: int| 0 <= c < width && 0 <= w < height implies
            #[trigger] b@.at(c, w) == glyph_piece(without_newlines(s@)[(height - 1 - w) * width + c]) by {
            assert(squares@[cell_index(width as int, c, w)] == glyph_piece(t[(height - 1 - w) * width + c]));
        }
        Ok(b)
    }

    /// Reads an 8 by 8 board from text, as `from_string` does.
    pub fn chess_board_from_string(s: &str) -> (r: Result<GameBoard, String>)
        ensures
            without_newlines(s@).len() != 64 <==> r is Err,
            r matches Ok(b) ==> {
                &&& b.wf()
                &&& b@.width == 8
                &&& b@.height == 8
                &&& forall|c: int, w: int| 0 <= c < 8 && 0 <= w < 8 ==>
                    #[trigger] b@.at(c, w) == glyph_piece(without_newlines(s@)[(7 - w) * 8 + c])
            },
    {
        Self::from_string(8, 8, s)
    }

    /// The number of columns.
    pub fn get_width(&self) -> (r: usize)
        ensures
            r == self@.width,
    {
        self.width
    }

    /// The number of rows.
    pub fn get_height(&self) -> (r: usize)
        ensures
            r == self@.height,
    {
        self.height
    }

    fn index(&self, col: usize, row: usize) -> (r: usize)
        requires
            self.wf(),
            self@.in_bounds(col as int, row as int),
        ensures
            r == cell_index(self@.width, col as int, row as int),
            r < self.squares@.len(),
    {
        proof {
            lemma_index_in_range(self@.width, self@.height, col as int, row as int);
        }
        row * self.width + col
    }

    /// The piece on a square, if any.
    pub fn check_space(&self, col: usize, row: usize) -> (r: Option<&ChessPiece>)
        requires
            self.wf(),
            self@.in_bounds(col as int, row as int),
        ensures
            match r {
                Some(p) => self@.at(col as int, row as int) == Some(*p),
                None => self@.at(col as int, row as int).is_none(),
            },
    {
        let i = self.index(col, row);
        match &self.squares[i] {
            Some(p) => Some(p),
            None => None,
        }
    }

    /// The piece on a square, by value.
    pub fn piece_at(&self, col: usize, row: usize) -> (r: Option<ChessPiece>)
        requires
            self.wf(),
            self@.in_bounds(col as int, row as int),
        ensures
            r == self@.at(col as int, row as int),
    {
        let i = self.index(col, row);
        self.squares[i]
    }

    /// The pieces of one colour, square by square.
    pub fn pieces_of_color(&self, color: Color) -> (r: Vec<ChessPiece>)
        ensures
            r@ == pieces_of(self@.cells, color),
    {
        let mut res: Vec<ChessPiece> = Vec::new();
        let mut i: usize = 0;
        while i < self.squares.len()
            invariant
                i <= self.squares@.len(),
                res@ == pieces_of(self.squares@.take(i as int), color),
            decreases self.squares@.len() - i,
        {
            assert(self.squares@.take(i + 1).drop_last() == self.squares@.take(i as int));
            if let Some(p) = self.squares[i] {
                if p.color == color {
                    res.push(p);
                }
            }
            i = i + 1;
        }
        assert(self.squares@.take(i as int) == self.squares@);
        res
    }

    /// Puts a piece on a square, replacing whatever stood there.
    pub fn place_piece(&mut self, piece: ChessPiece, col: usize, row: usize)
        requires
            old(self).wf(),
            old(self)@.in_bounds(col as int, row as int),
        ensures
            final(self).wf(),
            final(self)@ == old(self)@.set(col as int, row as int, Some(piece)),
    {
        let i = self.index(col, row);
        self.squares.set(i, Some(piece));
    }

    /// Takes the piece off a square and hands it back.
    pub fn remove_piece(&mut self, col: usize, row: usize) -> (r: Option<ChessPiece>)
        requires
            old(self).wf(),
            old(self)@.in_bounds(col as int, row as int),
        ensures
            final(self).wf(),
            r == old(self)@.at(col as int, row as int),
            final(self)@ == old(self)@.set(col as int, row as int, None),
    {
        let i = self.index(col, row);
        let p = self.squares[i];
        self.squares.set(i, None);
        p
    }
}

} // verus!
