use vstd::prelude::*;
use crate::board::{BoardModel, GameBoard, pieces_of};
use crate::chess_move::{ChessMoveType, apply_move, captured_of, mover_of, origin_of};
use crate::game::{ChessGame, FIFTY_MOVE_HALFMOVES};
use crate::movegen::{lemma_piece_move_shape, piece_move, piece_moves, pos, pseudo_legal};
use crate::piece::{ChessPiece, Color, PieceType, opposite};

verus! {

broadcast use vstd::seq_lib::lemma_seq_contains_after_push, vstd::seq_lib::lemma_seq_empty_contains_nothing;

/// The move captures the king of `color`.
pub open spec fn takes_king(m: ChessMoveType, color: Color) -> bool {
    captured_of(m) == Some(ChessPiece { color, piece_type: PieceType::King })
}

/// The king of `color` is attacked: some pseudo-legal move of the other
/// side would capture it.
pub open spec fn in_check(b: BoardModel, color: Color, last: Option<ChessMoveType>) -> bool {
    exists|m: ChessMoveType|
        #![trigger pseudo_legal(b, last, m)]
        pseudo_legal(b, last, m) && mover_of(m).color == opposite(color) && takes_king(m, color)
}

/// The squares visited before `(col, row)` by a walk over columns, and
/// within each column over rows.
pub open spec fn visited_before(o: (usize, usize), col: int, row: int) -> bool {
    o.0 < col || (o.0 == col && o.1 < row)
}

fn any_takes_king(moves: &Vec<ChessMoveType>, color: Color) -> (r: bool)
    ensures
        r == exists|j: int| 0 <= j < moves@.len() && #[trigger] takes_king(moves@[j], color),
{
    let mut j: usize = 0;
    while j < moves.len()
        invariant
            j <= moves@.len(),
            forall|jj: int| 0 <= jj < j ==> !#[trigger] takes_king(moves@[jj], color),
        decreases moves@.len() - j,
    {
        let hit = match moves[j] {
            ChessMoveType::Move { taken_piece: Some(p), .. } => p.color == color && p.piece_type == PieceType::King,
            ChessMoveType::Take { taken_piece: p, .. } => p.color == color && p.piece_type == PieceType::King,
            ChessMoveType::EnPassant { taken_piece: p, .. } => p.color == color && p.piece_type == PieceType::King,
            _ => false,
        };
        if hit {
            assert(takes_king(moves@[j as int], color));
            return true;
        }
        j = j + 1;
    }
    false
}

/// Whether the king of `color` is attacked on `board`, `last_move` being
/// the move played just before (it decides captures in passing).
pub fn is_color_in_check(board: &GameBoard, color: Color, last_move: Option<ChessMoveType>) -> (r: bool)
    requires
        board.wf(),
    ensures
        r == in_check(board@, color, last_move),
{
    let b = Ghost(board@);
    let opp = color.opposite_color();
    let width = board.get_width();
    let height = board.get_height();
    let mut col: usize = 0;
    while col < width
        invariant
            board.wf(),
            b@ == board@,
            width == b@.width,
            height == b@.height,
            opp == opposite(color),
            col <= width,
            forall|m: ChessMoveType|
                #![trigger pseudo_legal(b@, last_move, m)]
                pseudo_legal(b@, last_move, m) && mover_of(m).color == opp && visited_before(origin_of(m), col as int, 0)
                    ==> !takes_king(m, color),
        decreases width - col,
    {
        let mut row: usize = 0;
        while row < height
            invariant
                board.wf(),
                b@ == board@,
                width == b@.width,
                height == b@.height,
                opp == opposite(color),
                col < width,
                row <= height,
                forall|m: ChessMoveType|
                    #![trigger pseudo_legal(b@, last_move, m)]
                    pseudo_legal(b@, last_move, m) && mover_of(m).color == opp && visited_before(origin_of(m), col as int, row as int)
                        ==> !takes_king(m, color),
            decreases height - row,
        {
            if let Some(p) = board.piece_at(col, row) {
                if p.color == opp {
                    let moves = piece_moves(p, (col, row), board, last_move);
                    if any_takes_king(&moves, color) {
                        proof {
                            let j = choose|j: int| 0 <= j < moves@.len() && #[trigger] takes_king(moves@[j], color);
                            let m = moves@[j];
                            assert(moves@.contains(m));
                            lemma_piece_move_shape(b@, last_move, p, (col, row), m);
                            assert(pseudo_legal(b@, last_move, m));
                        }
                        return true;
                    }
                    assert forall|m: ChessMoveType|
                        pseudo_legal(b@, last_move, m) && mover_of(m).color == opp && origin_of(m) == (col, row)
                            implies !takes_king(m, color) by {
                        assert(moves@.contains(m));
                    }
                }
            }
            row = row + 1;
        }
        col = col + 1;
    }
    proof {
        assert forall|m: ChessMoveType|
            #![trigger pseudo_legal(b@, last_move, m)]
            pseudo_legal(b@, last_move, m) && mover_of(m).color == opp implies !takes_king(m, color) by {
            assert(visited_before(origin_of(m), col as int, 0));
        }
    }
    false
}

/// A fully legal move for `color` (castling aside): pseudo-legal, made by
/// a piece of that colour, and leaving its own king unattacked.
pub open spec fn legal(b: BoardModel, color: Color, last: Option<ChessMoveType>, m: ChessMoveType) -> bool {
    &&& pseudo_legal(b, last, m)
    &&& mover_of(m).color == color
    &&& !in_check(apply_move(b, m), color, last)
}

/// Every legal move of `color` other than castling: each pseudo-legal move
/// of each of its pieces, played on a copy of the board and kept when its
/// own king is then not attacked.
pub fn legal_moves(board: &GameBoard, color: Color, last_move: Option<ChessMoveType>) -> (r: Vec<ChessMoveType>)
    requires
        board.wf(),
    ensures
        forall|m: ChessMoveType| #[trigger] r@.contains(m) <==> legal(board@, color, last_move, m),
{
    let b = Ghost(board@);
    let width = board.get_width();
    let height = board.get_height();
    let mut res: Vec<ChessMoveType> = Vec::new();
    let mut col: usize = 0;
    while col < width
        invariant
            board.wf(),
            b@ == board@,
            width == b@.width,
            height == b@.height,
            col <= width,
            forall|m: ChessMoveType| #[trigger] res@.contains(m)
                <==> (legal(b@, color, last_move, m) && visited_before(origin_of(m), col as int, 0)),
        decreases width - col,
    {
        let mut row: usize = 0;
        while row < height
            invariant
                board.wf(),
                b@ == board@,
                width == b@.width,
                height == b@.height,
                col < width,
                row <= height,
                forall|m: ChessMoveType| #[trigger] res@.contains(m)
                    <==> (legal(b@, color, last_move, m) && visited_before(origin_of(m), col as int, row as int)),
            decreases height - row,
        {
            if let Some(p) = board.piece_at(col, row) {
                if p.color == color {
                    let moves = piece_moves(p, (col, row), board, last_move);
                    let mut j: usize = 0;
                    while j < moves.len()
                        invariant
                            board.wf(),
                            b@ == board@,
                            col < width,
                            row < height,
                            width == b@.width,
                            height == b@.height,
                            b@.at(col as int, row as int) == Some(p),
                            p.color == color,
                            j <= moves@.len(),
                            forall|m: ChessMoveType| #[trigger] moves@.contains(m) <==> piece_move(b@, last_move, p, (col, row), m),
                            forall|m: ChessMoveType| #[trigger] res@.contains(m)
                                <==> (legal(b@, color, last_move, m) && (visited_before(origin_of(m), col as int, row as int)
                                    || exists|jj: int| 0 <= jj < j && moves@[jj] == m)),
                        decreases moves@.len() - j,
                    {
                        let m = moves[j];
                        proof {
                            assert(moves@.contains(m));
                            lemma_piece_move_shape(b@, last_move, p, (col, row), m);
                        }
                        let mut scratch = board.clone();
                        m.make_move(&mut scratch);
                        let exposed = is_color_in_check(&scratch, color, last_move);
                        if !exposed {
                            res.push(m);
                        }
                        assert forall|x: ChessMoveType| #[trigger] res@.contains(x)
                            <==> (legal(b@, color, last_move, x) && (visited_before(origin_of(x), col as int, row as int)
                                || exists|jj: int| 0 <= jj < j + 1 && moves@[jj] == x)) by {
                            if x == m {
                                assert(moves@[j as int] == x);
                            }
                            if exists|jj: int| 0 <= jj < j + 1 && moves@[jj] == x {
                                if x != m {
                                    let jj = choose|jj: int| 0 <= jj < j + 1 && moves@[jj] == x;
                                    assert(jj < j);
                                }
                            }
                        }
                        j = j + 1;
                    }
                    assert forall|x: ChessMoveType| #[trigger] res@.contains(x)
                        <==> (legal(b@, color, last_move, x) && visited_before(origin_of(x), col as int, row as int + 1)) by {
                        if legal(b@, color, last_move, x) && origin_of(x) == (col, row) {
                            assert(moves@.contains(x));
                        }
                        if exists|jj: int| 0 <= jj < moves@.len() && moves@[jj] == x {
                            let jj = choose|jj: int| 0 <= jj < moves@.len() && moves@[jj] == x;
                            assert(moves@.contains(x));
                            lemma_piece_move_shape(b@, last_move, p, (col, row), x);
                        }
                    }
                }
            }
            row = row + 1;
        }
        col = col + 1;
    }
    res
}

/// The row a colour's king and rooks start on.
pub open spec fn home_row(b: BoardModel, color: Color) -> int {
    match color {
        Color::White => 0,
        Color::Black => b.height - 1,
    }
}

/// The board with the king of `color` moved along `row` from `from` to `to`.
pub open spec fn king_shifted(b: BoardModel, color: Color, row: int, from: int, to: int) -> BoardModel {
    b.set(from, row, None).set(to, row, Some(ChessPiece { color, piece_type: PieceType::King }))
}

/// Castling towards the first column is open with the king on column `k`
/// of the home row: the colour's rook stands in the corner, every square
/// between them is empty, they are at least three columns apart, and the
/// king is not attacked where it stands, on the square it crosses, or on
/// the square it lands on.
pub open spec fn castle_long_at(b: BoardModel, color: Color, k: int) -> bool {
    let row = home_row(b, color);
    &&& 3 <= k < b.width
    &&& b.at(0, row) == Some(ChessPiece { color, piece_type: PieceType::Rook })
    &&& forall|j: int| 0 < j < k ==> (#[trigger] b.at(j, row)).is_none()
    &&& b.at(k, row) == Some(ChessPiece { color, piece_type: PieceType::King })
    &&& !in_check(b, color, None)
    &&& !in_check(king_shifted(b, color, row, k, k - 1), color, None)
    &&& !in_check(king_shifted(b, color, row, k, k - 2), color, None)
}

/// Castling towards the last column, as `castle_long_at` with the rook in
/// the other corner.
pub open spec fn castle_short_at(b: BoardModel, color: Color, k: int) -> bool {
    let row = home_row(b, color);
    &&& 0 <= k && k + 3 <= b.width - 1
    &&& b.at(b.width - 1, row) == Some(ChessPiece { color, piece_type: PieceType::Rook })
    &&& forall|j: int| k < j < b.width - 1 ==> (#[trigger] b.at(j, row)).is_none()
    &&& b.at(k, row) == Some(ChessPiece { color, piece_type: PieceType::King })
    &&& !in_check(b, color, None)
    &&& !in_check(king_shifted(b, color, row, k, k + 1), color, None)
    &&& !in_check(king_shifted(b, color, row, k, k + 2), color, None)
}

fn is_piece(q: Option<ChessPiece>, color: Color, kind: PieceType) -> (r: bool)
    ensures
        r == (q == Some(ChessPiece { color, piece_type: kind })),
{
    match q {
        Some(p) => p.color == color && p.piece_type == kind,
        None => false,
    }
}

pub(crate) fn home_row_of(board: &GameBoard, color: Color) -> (r: usize)
    requires
        board.wf(),
    ensures
        r == home_row(board@, color),
        r < board@.height,
{
    match color {
        Color::White => 0,
        Color::Black => board.get_height() - 1,
    }
}

/// Whether the king, moved along `row` from `from` to `to`, would be attacked.
fn attacked_after_king_step(board: &GameBoard, color: Color, row: usize, from: usize, to: usize) -> (r: bool)
    requires
        board.wf(),
        from < board@.width,
        to < board@.width,
        row < board@.height,
    ensures
        r == in_check(king_shifted(board@, color, row as int, from as int, to as int), color, None),
{
    let mut scratch = board.clone();
    scratch.remove_piece(from, row);
    scratch.place_piece(ChessPiece::new(color, PieceType::King), to, row);
    is_color_in_check(&scratch, color, None)
}

/// The king's column when castling towards the first column is open.
pub fn long_castle_column(color: Color, board: &GameBoard) -> (r: Option<usize>)
    requires
        board.wf(),
    ensures
        match r {
            Some(k) => castle_long_at(board@, color, k as int),
            None => forall|k: int| !#[trigger] castle_long_at(board@, color, k),
        },
{
    let width = board.get_width();
    let row = home_row_of(board, color);
    if !is_piece(board.piece_at(0, row), color, PieceType::Rook) {
        return None;
    }
    let mut col: usize = 1;
    while col < width && board.piece_at(col, row).is_none()
        invariant
            board.wf(),
            width == board@.width,
            row == home_row(board@, color),
            row < board@.height,
            1 <= col <= width,
            forall|j: int| 0 < j < col ==> (#[trigger] board@.at(j, row as int)).is_none(),
        decreases width - col,
    {
        col = col + 1;
    }
    if col == width {
        assert forall|k: int| !#[trigger] castle_long_at(board@, color, k) by {
            if 3 <= k < width {
                assert(board@.at(k, row as int).is_none());
            }
        }
        return None;
    }
    if col < 3 || !is_piece(board.piece_at(col, row), color, PieceType::King) {
        assert forall|k: int| !#[trigger] castle_long_at(board@, color, k) by {
            if castle_long_at(board@, color, k) {
                if k > col {
                    assert(board@.at(col as int, row as int).is_none());
                }
            }
        }
        return None;
    }
    let ok = !is_color_in_check(board, color, None)
        && !attacked_after_king_step(board, color, row, col, col - 1)
        && !attacked_after_king_step(board, color, row, col, col - 2);
    if ok {
        Some(col)
    } else {
        assert forall|k: int| !#[trigger] castle_long_at(board@, color, k) by {
            if castle_long_at(board@, color, k) {
                if k > col {
                    assert(board@.at(col as int, row as int).is_none());
                }
                if k < col {
                    assert(board@.at(k, row as int).is_none());
                }
            }
        }
        None
    }
}

/// The king's column when castling towards the last column is open.
pub fn short_castle_column(color: Color, board: &GameBoard) -> (r: Option<usize>)
    requires
        board.wf(),
    ensures
        match r {
            Some(k) => castle_short_at(board@, color, k as int),
            None => forall|k: int| !#[trigger] castle_short_at(board@, color, k),
        },
{
    let width = board.get_width();
    let row = home_row_of(board, color);
    let corner = width - 1;
    if !is_piece(board.piece_at(corner, row), color, PieceType::Rook) {
        return None;
    }
    let mut col: usize = corner;
    while col > 0 && board.piece_at(col - 1, row).is_none()
        invariant
            board.wf(),
            width == board@.width,
            corner == width - 1,
            row == home_row(board@, color),
            row < board@.height,
            col <= corner,
            forall|j: int| col <= j < corner ==> (#[trigger] board@.at(j, row as int)).is_none(),
        decreases col,
    {
        col = col - 1;
    }
    if col == 0 {
        assert forall|k: int| !#[trigger] castle_short_at(board@, color, k) by {
            if 0 <= k && k + 3 <= corner {
                assert(board@.at(k, row as int).is_none());
            }
        }
        return None;
    }
    let k = col - 1;
    if corner - k < 3 || !is_piece(board.piece_at(k, row), color, PieceType::King) {
        assert forall|kk: int| !#[trigger] castle_short_at(board@, color, kk) by {
            if castle_short_at(board@, color, kk) {
                if kk < k {
                    assert(board@.at(k as int, row as int).is_none());
                }
            }
        }
        return None;
    }
    let ok = !is_color_in_check(board, color, None)
        && !attacked_after_king_step(board, color, row, k, k + 1)
        && !attacked_after_king_step(board, color, row, k, k + 2);
    if ok {
        Some(k)
    } else {
        assert forall|kk: int| !#[trigger] castle_short_at(board@, color, kk) by {
            if castle_short_at(board@, color, kk) {
                if kk < k {
                    assert(board@.at(k as int, row as int).is_none());
                }
                if kk > k {
                    assert(board@.at(kk, row as int).is_none());
                }
            }
        }
        None
    }
}

/// Whether `color` may castle towards the first column on `board`.
pub fn can_castle_long(color: Color, board: &GameBoard) -> (r: bool)
    requires
        board.wf(),
    ensures
        r == exists|k: int| #[trigger] castle_long_at(board@, color, k),
{
    long_castle_column(color, board).is_some()
}

/// Whether `color` may castle towards the last column on `board`.
pub fn can_castle_short(color: Color, board: &GameBoard) -> (r: bool)
    requires
        board.wf(),
    ensures
        r == exists|k: int| #[trigger] castle_short_at(board@, color, k),
{
    short_castle_column(color, board).is_some()
}

/// How many of `s` are of kind `k`.
pub open spec fn count_kind(s: Seq<ChessPiece>, k: PieceType) -> nat
    decreases s.len(),
{
    if s.len() == 0 {
        0
    } else {
        count_kind(s.drop_last(), k) + if s.last().piece_type == k { 1nat } else { 0nat }
    }
}

/// How many of `s` are neither king, bishop nor knight.
pub open spec fn count_major(s: Seq<ChessPiece>) -> nat
    decreases s.len(),
{
    if s.len() == 0 {
        0
    } else {
        let t = s.last().piece_type;
        count_major(s.drop_last()) + if t == PieceType::King || t == PieceType::Bishop || t == PieceType::Knight { 0nat } else { 1nat }
    }
}

/// One side's material cannot force mate: a lone king, or a king with a
/// single bishop or a single knight. Two minor pieces of any kinds count as
/// enough.
pub open spec fn insufficient(s: Seq<ChessPiece>) -> bool {
    count_major(s) == 0 && count_kind(s, PieceType::Bishop) + count_kind(s, PieceType::Knight) <= 1
}

/// Whether one side's pieces are too few to mate.
pub fn is_insufficient_material(pieces: &Vec<ChessPiece>) -> (r: bool)
    requires
        count_major(pieces@) > 0 || count_kind(pieces@, PieceType::King) > 0,
    ensures
        r == insufficient(pieces@),
{
    let mut bishops: usize = 0;
    let mut knights: usize = 0;
    let mut others: usize = 0;
    let mut i: usize = 0;
    while i < pieces.len()
        invariant
            i <= pieces@.len(),
            bishops == count_kind(pieces@.take(i as int), PieceType::Bishop),
            knights == count_kind(pieces@.take(i as int), PieceType::Knight),
            others == count_major(pieces@.take(i as int)),
            bishops + knights + others <= i,
        decreases pieces@.len() - i,
    {
        assert(pieces@.take(i + 1).drop_last() == pieces@.take(i as int));
        match pieces[i].piece_type {
            PieceType::Bishop => bishops = bishops + 1,
            PieceType::Knight => knights = knights + 1,
            PieceType::King => {},
            _ => others = others + 1,
        }
        i = i + 1;
    }
    assert(pieces@.take(i as int) == pieces@);
    others == 0 && bishops + knights <= 1
}

/// The outcome of inspecting a position for the side to move.
#[derive(Clone, Copy, Debug, PartialEq, Eq, Structural)]
pub enum GameState {
    InProgress,
    Check,
    Checkmate,
    Stalemate,
    InsufficientMaterial,
    FiftyMoveRule,
}

/// Castling towards the first column, as the side to move may play it.
pub open spec fn castle_long_move(g: ChessGame, m: ChessMoveType) -> bool {
    let b = g.board@;
    let c = g.current_turn;
    let row = home_row(b, c);
    match m {
        ChessMoveType::Castle { king_original_position: kf, king_new_position: kt, rook_original_position: rf, rook_new_position: rt, color } => {
            &&& g.castle_right(c, true)
            &&& color == c
            &&& kf.1 == row
            &&& castle_long_at(b, c, kf.0 as int)
            &&& pos(kt) == (kf.0 - 2, row)
            &&& pos(rf) == (0int, row)
            &&& pos(rt) == (kf.0 - 1, row)
        },
        _ => false,
    }
}

/// Castling towards the last column, as the side to move may play it.
pub open spec fn castle_short_move(g: ChessGame, m: ChessMoveType) -> bool {
    let b = g.board@;
    let c = g.current_turn;
    let row = home_row(b, c);
    match m {
        ChessMoveType::Castle { king_original_position: kf, king_new_position: kt, rook_original_position: rf, rook_new_position: rt, color } => {
            &&& g.castle_right(c, false)
            &&& color == c
            &&& kf.1 == row
            &&& castle_short_at(b, c, kf.0 as int)
            &&& pos(kt) == (kf.0 + 2, row)
            &&& pos(rf) == (b.width - 1, row)
            &&& pos(rt) == (kf.0 + 1, row)
        },
        _ => false,
    }
}

/// A move the side to move may play in the game.
pub open spec fn game_legal(g: ChessGame, m: ChessMoveType) -> bool {
    ||| legal(g.board@, g.current_turn, g.last_move_spec(), m)
    ||| castle_long_move(g, m)
    ||| castle_short_move(g, m)
}

/// Every move the side to move may play: the legal moves of its pieces,
/// and castling on each side where the right is held and the position
/// allows it.
pub fn get_all_moves(game: &ChessGame) -> (r: Vec<ChessMoveType>)
    requires
        game.wf(),
    ensures
        forall|m: ChessMoveType| #[trigger] r@.contains(m) <==> game_legal(*game, m),
{
    let board = &game.board;
    let color = game.current_turn;
    let mut res = legal_moves(board, color, game.last_move());
    let row = home_row_of(board, color);
    let long_right = match color {
        Color::White => game.white_can_castle_long,
        Color::Black => game.black_can_castle_long,
    };
    let short_right = match color {
        Color::White => game.white_can_castle_short,
        Color::Black => game.black_can_castle_short,
    };
    let ghost r0 = res@;
    if long_right {
        if let Some(k) = long_castle_column(color, board) {
            res.push(ChessMoveType::Castle {
                king_original_position: (k, row),
                king_new_position: (k - 2, row),
                rook_original_position: (0, row),
                rook_new_position: (k - 1, row),
                color,
            });
        }
    }
    assert forall|m: ChessMoveType| #[trigger] res@.contains(m) <==> (r0.contains(m) || castle_long_move(*game, m)) by {
        if castle_long_move(*game, m) {
            assert(castle_long_at(board@, color, m->king_original_position.0 as int));
        }
    }
    let ghost r1 = res@;
    if short_right {
        if let Some(k) = short_castle_column(color, board) {
            res.push(ChessMoveType::Castle {
                king_original_position: (k, row),
                king_new_position: (k + 2, row),
                rook_original_position: (board.get_width() - 1, row),
                rook_new_position: (k + 1, row),
                color,
            });
        }
    }
    assert forall|m: ChessMoveType| #[trigger] res@.contains(m) <==> (r1.contains(m) || castle_short_move(*game, m)) by {
        if castle_short_move(*game, m) {
            assert(castle_short_at(board@, color, m->king_original_position.0 as int));
        }
    }
    res
}

/// The side to move has at least one move.
pub open spec fn has_legal_move(g: ChessGame) -> bool {
    exists|m: ChessMoveType| #[trigger] game_legal(g, m)
}

/// Each side has a king on the board.
pub open spec fn kings_present(b: BoardModel) -> bool {
    &&& count_kind(pieces_of(b.cells, Color::White), PieceType::King) > 0
    &&& count_kind(pieces_of(b.cells, Color::Black), PieceType::King) > 0
}

/// The classification of a position, in order: no move and in check is
/// mate, no move otherwise is stalemate; a move and in check is check;
/// then too little material on both sides, then the fifty-move rule.
pub open spec fn game_state_of(g: ChessGame) -> GameState {
    let check = in_check(g.board@, g.current_turn, g.last_move_spec());
    if !has_legal_move(g) {
        if check { GameState::Checkmate } else { GameState::Stalemate }
    } else if check {
        GameState::Check
    } else if insufficient(pieces_of(g.board@.cells, Color::White)) && insufficient(pieces_of(g.board@.cells, Color::Black)) {
        GameState::InsufficientMaterial
    } else if g.halfmove_clock >= FIFTY_MOVE_HALFMOVES {
        GameState::FiftyMoveRule
    } else {
        GameState::InProgress
    }
}

/// Classifies the position for the side to move and hands back its moves.
pub fn get_game_state(game: &ChessGame) -> (r: (GameState, Vec<ChessMoveType>))
    requires
        game.wf(),
        kings_present(game.board@),
    ensures
        forall|m: ChessMoveType| #[trigger] r.1@.contains(m) <==> game_legal(*game, m),
        r.0 == game_state_of(*game),
        r.1@.len() == 0 && in_check(game.board@, game.current_turn, game.last_move_spec()) ==> r.0 == GameState::Checkmate,
        r.1@.len() == 0 && !in_check(game.board@, game.current_turn, game.last_move_spec()) ==> r.0 == GameState::Stalemate,
        r.1@.len() > 0 ==> r.0 != GameState::Checkmate && r.0 != GameState::Stalemate,
{
    let is_in_check = is_color_in_check(&game.board, game.current_turn, game.last_move());
    let possible_next_moves = get_all_moves(game);
    proof {
        if possible_next_moves@.len() > 0 {
            assert(possible_next_moves@.contains(possible_next_moves@[0]));
            assert(game_legal(*game, possible_next_moves@[0]));
        } else {
            assert forall|m: ChessMoveType| !#[trigger] game_legal(*game, m) by {
                if game_legal(*game, m) {
                    assert(possible_next_moves@.contains(m));
                }
            }
        }
    }
    if possible_next_moves.len() == 0 {
        return if is_in_check {
            (GameState::Checkmate, possible_next_moves)
        } else {
            (GameState::Stalemate, possible_next_moves)
        };
    }
    if is_in_check {
        return (GameState::Check, possible_next_moves);
    }
    let white_pieces = game.board.pieces_of_color(Color::White);
    let black_pieces = game.board.pieces_of_color(Color::Black);
    if is_insufficient_material(&white_pieces) && is_insufficient_material(&black_pieces) {
        return (GameState::InsufficientMaterial, possible_next_moves);
    }
    if game.can_trigger_fifty_move_rule() {
        return (GameState::FiftyMoveRule, possible_next_moves);
    }
    (GameState::InProgress, possible_next_moves)
}

} // verus!
