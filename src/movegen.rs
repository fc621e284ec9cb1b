use vstd::prelude::*;
use crate::board::{BoardModel, GameBoard};
use crate::chess_move::{ChessMoveType, move_in_bounds, in_bounds_pos, origin_of, destination_of, mover_of};
use crate::piece::{ChessPiece, Color, PieceType};

verus! {

broadcast use vstd::seq_lib::lemma_seq_contains_after_push, vstd::seq_lib::lemma_seq_empty_contains_nothing;

/// The coordinate `k` steps from `o` in the sense of `s` (its sign only).
pub open spec fn along(o: int, s: int, k: int) -> int {
    if s > 0 {
        o + k
    } else if s < 0 {
        o - k
    } else {
        o
    }
}

pub open spec fn pos(p: (usize, usize)) -> (int, int) {
    (p.0 as int, p.1 as int)
}

pub open spec fn ray_sq(o: (int, int), d: (int, int), k: int) -> (int, int) {
    (along(o.0, d.0, k), along(o.1, d.1, k))
}

pub open spec fn abs(x: int) -> int {
    if x < 0 { -x } else { x }
}

/// How many steps along `d` lead from `o` to `t`, when `t` lies on that ray.
pub open spec fn ray_len(o: (int, int), d: (int, int), t: (int, int)) -> int {
    if d.0 != 0 { abs(t.0 - o.0) } else { abs(t.1 - o.1) }
}

/// Every square strictly before step `k` on the ray is on the board and empty.
pub open spec fn ray_clear(b: BoardModel, o: (int, int), d: (int, int), k: int) -> bool {
    forall|j: int|
        #![trigger ray_sq(o, d, j)]
        1 <= j < k ==> b.in_bounds(ray_sq(o, d, j).0, ray_sq(o, d, j).1)
            && b.at(ray_sq(o, d, j).0, ray_sq(o, d, j).1).is_none()
}

pub open spec fn friendly(b: BoardModel, color: Color, t: (int, int)) -> bool {
    match b.at(t.0, t.1) {
        Some(p) => p.color == color,
        None => false,
    }
}

pub open spec fn enemy(b: BoardModel, color: Color, t: (int, int)) -> bool {
    match b.at(t.0, t.1) {
        Some(p) => p.color != color,
        None => false,
    }
}

/// The ray directions of the sliding pieces.
pub open spec fn slide_dirs(kind: PieceType) -> Seq<(int, int)> {
    match kind {
        PieceType::Bishop => seq![(1int, 1int), (1, -1), (-1, 1), (-1, -1)],
        PieceType::Rook => seq![(1int, 0int), (-1, 0), (0, 1), (0, -1)],
        _ => seq![(1int, 1int), (1, -1), (-1, 1), (-1, -1), (1, 0), (-1, 0), (0, 1), (0, -1)],
    }
}

/// The fixed jumps of the knight and the king.
pub open spec fn jump_offsets(kind: PieceType) -> Seq<(int, int)> {
    match kind {
        PieceType::Knight => seq![(1int, 2int), (2, 1), (2, -1), (1, -2), (-1, -2), (-2, -1), (-2, 1), (-1, 2)],
        _ => seq![(1int, 1int), (1, 0), (1, -1), (0, -1), (-1, -1), (-1, 0), (-1, 1), (0, 1)],
    }
}

/// A plain move (no promotion) of `piece` from `o`, taking what stands on
/// the destination.
pub open spec fn plain_move(b: BoardModel, piece: ChessPiece, o: (usize, usize), m: ChessMoveType) -> bool {
    match m {
        ChessMoveType::Move { original_position, new_position, piece: p, taken_piece, promotion } =>
            original_position == o && p == piece && promotion.is_none()
                && taken_piece == b.at(new_position.0 as int, new_position.1 as int),
        _ => false,
    }
}

pub open spec fn dest(m: ChessMoveType) -> (int, int) {
    pos(crate::chess_move::destination_of(m))
}

/// A sliding move along direction `d`: the destination lies on the ray,
/// every square before it is empty, and it holds no friendly piece.
pub open spec fn slide_move(b: BoardModel, piece: ChessPiece, o: (usize, usize), d: (int, int), m: ChessMoveType) -> bool {
    let k = ray_len(pos(o), d, dest(m));
    &&& plain_move(b, piece, o, m)
    &&& k >= 1
    &&& dest(m) == ray_sq(pos(o), d, k)
    &&& b.in_bounds(dest(m).0, dest(m).1)
    &&& ray_clear(b, pos(o), d, k)
    &&& !friendly(b, piece.color, dest(m))
}

pub open spec fn slide_move_upto(b: BoardModel, piece: ChessPiece, o: (usize, usize), n: int, m: ChessMoveType) -> bool {
    exists|i: int| 0 <= i < n && #[trigger] slide_move(b, piece, o, slide_dirs(piece.piece_type)[i], m)
}

/// A jump by a fixed offset onto a square on the board that holds no
/// friendly piece.
pub open spec fn jump_move(b: BoardModel, piece: ChessPiece, o: (usize, usize), d: (int, int), m: ChessMoveType) -> bool {
    &&& plain_move(b, piece, o, m)
    &&& dest(m) == (o.0 + d.0, o.1 + d.1)
    &&& b.in_bounds(dest(m).0, dest(m).1)
    &&& !friendly(b, piece.color, dest(m))
}

pub open spec fn jump_move_upto(b: BoardModel, piece: ChessPiece, o: (usize, usize), n: int, m: ChessMoveType) -> bool {
    exists|i: int| 0 <= i < n && #[trigger] jump_move(b, piece, o, jump_offsets(piece.piece_type)[i], m)
}

fn slide_direction(kind: PieceType, i: usize) -> (r: (i8, i8))
    requires
        i < slide_dirs(kind).len(),
    ensures
        (r.0 as int, r.1 as int) == slide_dirs(kind)[i as int],
{
    let j = match kind {
        PieceType::Rook => i + 4,
        _ => i,
    };
    if j == 0 { (1, 1) }
    else if j == 1 { (1, -1) }
    else if j == 2 { (-1, 1) }
    else if j == 3 { (-1, -1) }
    else if j == 4 { (1, 0) }
    else if j == 5 { (-1, 0) }
    else if j == 6 { (0, 1) }
    else { (0, -1) }
}

fn jump_offset(kind: PieceType, i: usize) -> (r: (i8, i8))
    requires
        i < 8,
    ensures
        (r.0 as int, r.1 as int) == jump_offsets(kind)[i as int],
{
    match kind {
        PieceType::Knight => {
            if i == 0 { (1, 2) }
            else if i == 1 { (2, 1) }
            else if i == 2 { (2, -1) }
            else if i == 3 { (1, -2) }
            else if i == 4 { (-1, -2) }
            else if i == 5 { (-2, -1) }
            else if i == 6 { (-2, 1) }
            else { (-1, 2) }
        },
        _ => {
            if i == 0 { (1, 1) }
            else if i == 1 { (1, 0) }
            else if i == 2 { (1, -1) }
            else if i == 3 { (0, -1) }
            else if i == 4 { (-1, -1) }
            else if i == 5 { (-1, 0) }
            else if i == 6 { (-1, 1) }
            else { (0, 1) }
        },
    }
}

/// `x + s` when it lies in `[0, limit)`.
fn shift(x: usize, s: i8, limit: usize) -> (r: Option<usize>)
    requires
        -2 <= s <= 2,
    ensures
        match r {
            Some(v) => 0 <= x + s < limit && v == x + s,
            None => !(0 <= x + s < limit),
        },
{
    if s >= 0 {
        let d = s as usize;
        if x < limit && d < limit - x { Some(x + d) } else { None }
    } else {
        let d = (-(s as i16)) as usize;
        if x >= d && x - d < limit { Some(x - d) } else { None }
    }
}

/// All moves of a sliding piece (bishop, rook or queen) from `position`:
/// along each of its directions up to the board's edge, the first friendly
/// piece (excluded) or the first enemy piece (captured).
pub fn slide_moves(piece: ChessPiece, position: (usize, usize), board: &GameBoard) -> (r: Vec<ChessMoveType>)
    requires
        board.wf(),
        in_bounds_pos(board@, position),
    ensures
        forall|m: ChessMoveType| #[trigger] r@.contains(m)
            <==> slide_move_upto(board@, piece, position, slide_dirs(piece.piece_type).len() as int, m),
{
    let b = Ghost(board@);
    let ndirs: usize = match piece.piece_type {
        PieceType::Bishop => 4,
        PieceType::Rook => 4,
        _ => 8,
    };
    let width = board.get_width();
    let height = board.get_height();
    let mut res: Vec<ChessMoveType> = Vec::new();
    let mut i: usize = 0;
    while i < ndirs
        invariant
            board.wf(),
            b@ == board@,
            width == b@.width,
            height == b@.height,
            in_bounds_pos(b@, position),
            ndirs == slide_dirs(piece.piece_type).len(),
            i <= ndirs,
            forall|m: ChessMoveType| #[trigger] res@.contains(m)
                <==> slide_move_upto(b@, piece, position, i as int, m),
        decreases ndirs - i,
    {
        let dir = slide_direction(piece.piece_type, i);
        let ghost d = slide_dirs(piece.piece_type)[i as int];
        let ghost o = pos(position);
        let mut x: usize = position.0;
        let mut y: usize = position.1;
        let mut k: usize = 0;
        let mut go = true;
        while go
            invariant
                board.wf(),
                b@ == board@,
                width == b@.width,
                height == b@.height,
                in_bounds_pos(b@, position),
                ndirs == slide_dirs(piece.piece_type).len(),
                i < ndirs,
                d == slide_dirs(piece.piece_type)[i as int],
                (dir.0 as int, dir.1 as int) == d,
                o == pos(position),
                d.0 != 0 || d.1 != 0,
                -1 <= d.0 <= 1 && -1 <= d.1 <= 1,
                (x as int, y as int) == ray_sq(o, d, k as int),
                b@.in_bounds(x as int, y as int),
                k <= width + height,
                go ==> ray_clear(b@, o, d, k + 1),
                forall|m: ChessMoveType| #[trigger] res@.contains(m)
                    <==> (slide_move_upto(b@, piece, position, i as int, m)
                        || (slide_move(b@, piece, position, d, m)
                            && (!go || ray_len(o, d, dest(m)) <= k))),
            decreases width + height - k + (if go { 1int } else { 0int }),
        {
            let nx = shift(x, dir.0, width);
            let ny = shift(y, dir.1, height);
            let ghost t = ray_sq(o, d, k + 1);
            assert(t == (along(x as int, d.0, 1), along(y as int, d.1, 1)));
            if nx.is_none() || ny.is_none() {
                go = false;
                assert forall|m: ChessMoveType| slide_move(b@, piece, position, d, m) implies ray_len(o, d, dest(m)) <= k by {
                    let l = ray_len(o, d, dest(m));
                    if l > k + 1 {
                        assert(ray_sq(o, d, k + 1) == t);
                    }
                }
            } else {
                let tx = nx.unwrap();
                let ty = ny.unwrap();
                assert(ray_len(o, d, (tx as int, ty as int)) == k + 1);
                match board.piece_at(tx, ty) {
                    None => {
                        let m = ChessMoveType::Move {
                            original_position: position,
                            new_position: (tx, ty),
                            piece,
                            taken_piece: None,
                            promotion: None,
                        };
                        res.push(m);
                        x = tx;
                        y = ty;
                        k = k + 1;
                        assert(ray_clear(b@, o, d, k + 1));
                    },
                    Some(p) => {
                        if p.color != piece.color {
                            let m = ChessMoveType::Move {
                                original_position: position,
                                new_position: (tx, ty),
                                piece,
                                taken_piece: Some(p),
                                promotion: None,
                            };
                            res.push(m);
                        }
                        go = false;
                        assert forall|m: ChessMoveType| slide_move(b@, piece, position, d, m) implies ray_len(o, d, dest(m)) <= k + 1 by {
                            let l = ray_len(o, d, dest(m));
                            if l > k + 1 {
                                assert(ray_sq(o, d, k + 1) == t);
                            }
                        }
                    },
                }
            }
        }
        assert forall|m: ChessMoveType| #[trigger] res@.contains(m)
            <==> slide_move_upto(b@, piece, position, i + 1, m) by {
            if slide_move(b@, piece, position, d, m) {
                assert(slide_move(b@, piece, position, slide_dirs(piece.piece_type)[i as int], m));
            }
        }
        i = i + 1;
    }
    res
}

/// All moves of a knight or a king from `position`: each fixed offset that
/// lands on the board on a square free of friendly pieces.
pub fn jump_moves(piece: ChessPiece, position: (usize, usize), board: &GameBoard) -> (r: Vec<ChessMoveType>)
    requires
        board.wf(),
        in_bounds_pos(board@, position),
    ensures
        forall|m: ChessMoveType| #[trigger] r@.contains(m) <==> jump_move_upto(board@, piece, position, 8, m),
{
    let width = board.get_width();
    let height = board.get_height();
    let mut res: Vec<ChessMoveType> = Vec::new();
    let mut i: usize = 0;
    while i < 8
        invariant
            board.wf(),
            width == board@.width,
            height == board@.height,
            i <= 8,
            forall|m: ChessMoveType| #[trigger] res@.contains(m) <==> jump_move_upto(board@, piece, position, i as int, m),
        decreases 8 - i,
    {
        let off = jump_offset(piece.piece_type, i);
        let ghost d = jump_offsets(piece.piece_type)[i as int];
        let nx = shift(position.0, off.0, width);
        let ny = shift(position.1, off.1, height);
        if nx.is_some() && ny.is_some() {
            let tx = nx.unwrap();
            let ty = ny.unwrap();
            let target = board.piece_at(tx, ty);
            let own = match target {
                Some(p) => p.color == piece.color,
                None => false,
            };
            if !own {
                res.push(ChessMoveType::Move {
                    original_position: position,
                    new_position: (tx, ty),
                    piece,
                    taken_piece: target,
                    promotion: None,
                });
            }
        }
        assert forall|m: ChessMoveType| #[trigger] res@.contains(m) <==> jump_move_upto(board@, piece, position, i + 1, m) by {
            if jump_move(board@, piece, position, d, m) {
                assert(jump_move(board@, piece, position, jump_offsets(piece.piece_type)[i as int], m));
            }
        }
        i = i + 1;
    }
    res
}

pub open spec fn forward(c: Color) -> int {
    match c {
        Color::White => 1,
        Color::Black => -1,
    }
}

/// The row a pawn of colour `c` starts on, from which it may advance two.
pub open spec fn start_row(b: BoardModel, c: Color) -> int {
    match c {
        Color::White => 1,
        Color::Black => b.height - 2,
    }
}

/// The farthest row for a pawn of colour `c`, where it is promoted.
pub open spec fn last_row(b: BoardModel, c: Color) -> int {
    match c {
        Color::White => b.height - 1,
        Color::Black => 0,
    }
}

pub open spec fn promotion_kind(t: PieceType) -> bool {
    t == PieceType::Knight || t == PieceType::Bishop || t == PieceType::Rook || t == PieceType::Queen
}

/// A pawn arriving on `t`: one move, or on the farthest row one move per
/// kind it may become.
pub open spec fn pawn_landing(b: BoardModel, piece: ChessPiece, o: (usize, usize), t: (int, int), taken: Option<ChessPiece>, m: ChessMoveType) -> bool {
    match m {
        ChessMoveType::Move { original_position, new_position, piece: p, taken_piece, promotion } => {
            &&& original_position == o
            &&& pos(new_position) == t
            &&& p == piece
            &&& taken_piece == taken
            &&& if t.1 == last_row(b, piece.color) {
                match promotion {
                    Some(k) => promotion_kind(k),
                    None => false,
                }
            } else {
                promotion.is_none()
            }
        },
        _ => false,
    }
}

pub open spec fn pawn_single(b: BoardModel, piece: ChessPiece, o: (usize, usize), m: ChessMoveType) -> bool {
    let t = (o.0 as int, o.1 + forward(piece.color));
    b.in_bounds(t.0, t.1) && b.at(t.0, t.1).is_none() && pawn_landing(b, piece, o, t, None, m)
}

pub open spec fn pawn_double(b: BoardModel, piece: ChessPiece, o: (usize, usize), m: ChessMoveType) -> bool {
    let f = forward(piece.color);
    let t1 = (o.0 as int, o.1 + f);
    let t2 = (o.0 as int, o.1 + f + f);
    &&& o.1 == start_row(b, piece.color)
    &&& b.in_bounds(t1.0, t1.1) && b.at(t1.0, t1.1).is_none()
    &&& b.in_bounds(t2.0, t2.1) && b.at(t2.0, t2.1).is_none()
    &&& pawn_landing(b, piece, o, t2, None, m)
}

pub open spec fn pawn_capture(b: BoardModel, piece: ChessPiece, o: (usize, usize), side: int, m: ChessMoveType) -> bool {
    let t = (o.0 + side, o.1 + forward(piece.color));
    b.in_bounds(t.0, t.1) && enemy(b, piece.color, t) && pawn_landing(b, piece, o, t, b.at(t.0, t.1), m)
}

/// Capture in passing: the previous move brought an enemy pawn two rows
/// forward onto a square beside this pawn, which then takes it by moving to
/// the square it passed over.
pub open spec fn en_passant_move(b: BoardModel, last: Option<ChessMoveType>, piece: ChessPiece, o: (usize, usize), m: ChessMoveType) -> bool {
    let f = forward(piece.color);
    match last {
        Some(ChessMoveType::Move { original_position: lf, new_position: lt, piece: lp, .. }) => {
            &&& piece.piece_type == PieceType::Pawn
            &&& lp.piece_type == PieceType::Pawn
            &&& lp.color != piece.color
            &&& lf.0 == lt.0
            &&& lt.1 == o.1
            &&& lf.1 == o.1 + f + f
            &&& abs(lt.0 - o.0) == 1
            &&& b.in_bounds(lt.0 as int, lt.1 as int)
            &&& b.at(lt.0 as int, lt.1 as int) == Some(lp)
            &&& b.in_bounds(lt.0 as int, o.1 + f)
            &&& match m {
                ChessMoveType::EnPassant { original_position, new_position, piece: p, taken_piece, taken_piece_position } =>
                    original_position == o && new_position.0 == lt.0 && new_position.1 == o.1 + f && p == piece
                        && taken_piece == lp && taken_piece_position == lt,
                _ => false,
            }
        },
        _ => false,
    }
}

pub open spec fn pawn_move(b: BoardModel, last: Option<ChessMoveType>, piece: ChessPiece, o: (usize, usize), m: ChessMoveType) -> bool {
    ||| pawn_single(b, piece, o, m)
    ||| pawn_double(b, piece, o, m)
    ||| pawn_capture(b, piece, o, -1, m)
    ||| pawn_capture(b, piece, o, 1, m)
    ||| en_passant_move(b, last, piece, o, m)
}

fn push_landings(res: &mut Vec<ChessMoveType>, b: Ghost<BoardModel>, piece: ChessPiece, position: (usize, usize), target: (usize, usize), taken: Option<ChessPiece>, promote: bool)
    requires
        promote == (target.1 == last_row(b@, piece.color)),
    ensures
        forall|m: ChessMoveType| #[trigger] final(res)@.contains(m)
            <==> (old(res)@.contains(m) || pawn_landing(b@, piece, position, pos(target), taken, m)),
{
    if promote {
        let kinds = [PieceType::Knight, PieceType::Bishop, PieceType::Rook, PieceType::Queen];
        let mut i: usize = 0;
        while i < 4
            invariant
                i <= 4,
                kinds@ == seq![PieceType::Knight, PieceType::Bishop, PieceType::Rook, PieceType::Queen],
                promote == (target.1 == last_row(b@, piece.color)),
                promote,
                forall|m: ChessMoveType| #[trigger] res@.contains(m)
                    <==> (old(res)@.contains(m) || (pawn_landing(b@, piece, position, pos(target), taken, m)
                        && exists|j: int| 0 <= j < i && m->Move_promotion == Some(#[trigger] kinds@[j]))),
            decreases 4 - i,
        {
            let ghost before = res@;
            res.push(ChessMoveType::Move {
                original_position: position,
                new_position: target,
                piece,
                taken_piece: taken,
                promotion: Some(kinds[i]),
            });
            assert forall|m: ChessMoveType| #[trigger] res@.contains(m)
                <==> (old(res)@.contains(m) || (pawn_landing(b@, piece, position, pos(target), taken, m)
                    && exists|j: int| 0 <= j < i + 1 && m->Move_promotion == Some(#[trigger] kinds@[j]))) by {
                if pawn_landing(b@, piece, position, pos(target), taken, m) && m->Move_promotion == Some(kinds@[i as int]) {
                    assert(m == res@.last());
                }
            }
            i = i + 1;
        }
        assert forall|m: ChessMoveType| #[trigger] pawn_landing(b@, piece, position, pos(target), taken, m)
            implies exists|j: int| 0 <= j < 4 && m->Move_promotion == Some(#[trigger] kinds@[j]) by {
            let k = m->Move_promotion.unwrap();
            if k == PieceType::Knight { assert(kinds@[0] == k); }
            else if k == PieceType::Bishop { assert(kinds@[1] == k); }
            else if k == PieceType::Rook { assert(kinds@[2] == k); }
            else { assert(kinds@[3] == k); }
        }
    } else {
        res.push(ChessMoveType::Move {
            original_position: position,
            new_position: target,
            piece,
            taken_piece: taken,
            promotion: None,
        });
    }
}

/// All moves of a pawn from `position`, given the move played just before.
pub fn pawn_moves(piece: ChessPiece, position: (usize, usize), board: &GameBoard, last_move: Option<ChessMoveType>) -> (r: Vec<ChessMoveType>)
    requires
        board.wf(),
        in_bounds_pos(board@, position),
        piece.piece_type == PieceType::Pawn,
    ensures
        forall|m: ChessMoveType| #[trigger] r@.contains(m) <==> pawn_move(board@, last_move, piece, position, m),
{
    let b = Ghost(board@);
    let width = board.get_width();
    let height = board.get_height();
    let x = position.0;
    let y = position.1;
    let f: i8 = match piece.color {
        Color::White => 1,
        Color::Black => -1,
    };
    let last: usize = match piece.color {
        Color::White => height - 1,
        Color::Black => 0,
    };
    let on_start = match piece.color {
        Color::White => y == 1,
        Color::Black => height >= 2 && y == height - 2,
    };
    let mut res: Vec<ChessMoveType> = Vec::new();
    let ghost p1 = (x as int, y + f);
    if let Some(y1) = shift(y, f, height) {
        if board.piece_at(x, y1).is_none() {
            push_landings(&mut res, b, piece, position, (x, y1), None, y1 == last);
            if on_start {
                if let Some(y2) = shift(y1, f, height) {
                    if board.piece_at(x, y2).is_none() {
                        push_landings(&mut res, b, piece, position, (x, y2), None, y2 == last);
                    }
                }
            }
        }
        assert forall|m: ChessMoveType| #[trigger] res@.contains(m)
            <==> (pawn_single(b@, piece, position, m) || pawn_double(b@, piece, position, m)) by {}
        let ghost r0 = res@;
        if x >= 1 {
            let cx = x - 1;
            if let Some(q) = board.piece_at(cx, y1) {
                if q.color != piece.color {
                    push_landings(&mut res, b, piece, position, (cx, y1), Some(q), y1 == last);
                }
            }
        }
        assert forall|m: ChessMoveType| #[trigger] res@.contains(m)
            <==> (r0.contains(m) || pawn_capture(b@, piece, position, -1, m)) by {}
        let ghost r1 = res@;
        if let Some(cx) = shift(x, 1, width) {
            if let Some(q) = board.piece_at(cx, y1) {
                if q.color != piece.color {
                    push_landings(&mut res, b, piece, position, (cx, y1), Some(q), y1 == last);
                }
            }
        }
        assert forall|m: ChessMoveType| #[trigger] res@.contains(m)
            <==> (r1.contains(m) || pawn_capture(b@, piece, position, 1, m)) by {}
        let ghost r2 = res@;
        if let Some(ChessMoveType::Move { original_position: lf, new_position: lt, piece: lp, .. }) = last_move {
            let two_back = match piece.color {
                Color::White => lf.1 >= 2 && lf.1 - 2 == y,
                Color::Black => y >= 2 && y - 2 == lf.1,
            };
            let beside = lt.0 == x + 1 || (x >= 1 && lt.0 == x - 1);
            if lp.piece_type == PieceType::Pawn && lp.color != piece.color && lf.0 == lt.0 && lt.1 == y && two_back
                && beside && lt.0 < width && lt.1 < height {
                let still_there = match board.piece_at(lt.0, lt.1) {
                    Some(q) => q.color == lp.color && q.piece_type == lp.piece_type,
                    None => false,
                };
                if still_there {
                    res.push(ChessMoveType::EnPassant {
                        original_position: position,
                        new_position: (lt.0, y1),
                        piece,
                        taken_piece: lp,
                        taken_piece_position: lt,
                    });
                }
            }
        }
        assert forall|m: ChessMoveType| #[trigger] res@.contains(m)
            <==> (r2.contains(m) || en_passant_move(b@, last_move, piece, position, m)) by {}
    } else {
        assert forall|m: ChessMoveType| !pawn_move(b@, last_move, piece, position, m) by {}
    }
    res
}

/// The moves a piece standing on `o` may make by its own geometry, before
/// any regard for its own king's safety.
pub open spec fn piece_move(b: BoardModel, last: Option<ChessMoveType>, piece: ChessPiece, o: (usize, usize), m: ChessMoveType) -> bool {
    match piece.piece_type {
        PieceType::Pawn => pawn_move(b, last, piece, o, m),
        PieceType::Knight => jump_move_upto(b, piece, o, 8, m),
        PieceType::King => jump_move_upto(b, piece, o, 8, m),
        _ => slide_move_upto(b, piece, o, slide_dirs(piece.piece_type).len() as int, m),
    }
}

/// A pseudo-legal move: the moving piece stands on the move's origin and
/// the move obeys that piece's geometry and the occupancy of the board.
pub open spec fn pseudo_legal(b: BoardModel, last: Option<ChessMoveType>, m: ChessMoveType) -> bool {
    let o = origin_of(m);
    &&& in_bounds_pos(b, o)
    &&& b.at(o.0 as int, o.1 as int) == Some(mover_of(m))
    &&& piece_move(b, last, mover_of(m), o, m)
}

/// What every generated move satisfies: it starts on `o`, is made by
/// `piece`, ends elsewhere, and touches only squares on the board.
pub proof fn lemma_piece_move_shape(b: BoardModel, last: Option<ChessMoveType>, piece: ChessPiece, o: (usize, usize), m: ChessMoveType)
    requires
        b.wf(),
        in_bounds_pos(b, o),
        piece_move(b, last, piece, o, m),
    ensures
        origin_of(m) == o,
        mover_of(m) == piece,
        origin_of(m) != destination_of(m),
        move_in_bounds(b, m),
{
    match piece.piece_type {
        PieceType::Pawn => {},
        PieceType::Knight => {
            let i = choose|i: int| 0 <= i < 8 && #[trigger] jump_move(b, piece, o, jump_offsets(piece.piece_type)[i], m);
        },
        PieceType::King => {
            let i = choose|i: int| 0 <= i < 8 && #[trigger] jump_move(b, piece, o, jump_offsets(piece.piece_type)[i], m);
        },
        _ => {
            let i = choose|i: int| 0 <= i < slide_dirs(piece.piece_type).len() && #[trigger] slide_move(b, piece, o, slide_dirs(piece.piece_type)[i], m);
        },
    }
}

/// A capture in passing is available only right after the move it answers:
/// the previous move must be a two-row advance of an enemy pawn that ended
/// beside the capturing pawn, and the capture lands on the square passed over.
pub proof fn lemma_en_passant_answers_last_move(b: BoardModel, last: Option<ChessMoveType>, m: ChessMoveType)
    requires
        pseudo_legal(b, last, m),
        m is EnPassant,
    ensures
        last matches Some(ChessMoveType::Move { original_position: lf, new_position: lt, piece: lp, .. }) && {
            &&& lp.piece_type == PieceType::Pawn
            &&& lp.color != mover_of(m).color
            &&& lf.0 == lt.0
            &&& abs(lf.1 - lt.1) == 2
            &&& lt.1 == origin_of(m).1
            &&& abs(lt.0 - origin_of(m).0) == 1
            &&& destination_of(m).0 == lt.0
            &&& 2 * destination_of(m).1 == lf.1 + lt.1
        },
{
    let piece = mover_of(m);
    let o = origin_of(m);
    if piece.piece_type != PieceType::Pawn {
        match piece.piece_type {
            PieceType::Knight | PieceType::King => {
                let i = choose|i: int| 0 <= i < 8 && #[trigger] jump_move(b, piece, o, jump_offsets(piece.piece_type)[i], m);
            },
            _ => {
                let i = choose|i: int| 0 <= i < slide_dirs(piece.piece_type).len() && #[trigger] slide_move(b, piece, o, slide_dirs(piece.piece_type)[i], m);
            },
        }
    }
}

/// All pseudo-legal moves of `piece` standing on `position`.
pub fn piece_moves(piece: ChessPiece, position: (usize, usize), board: &GameBoard, last_move: Option<ChessMoveType>) -> (r: Vec<ChessMoveType>)
    requires
        board.wf(),
        in_bounds_pos(board@, position),
    ensures
        forall|m: ChessMoveType| #[trigger] r@.contains(m) <==> piece_move(board@, last_move, piece, position, m),
{
    match piece.piece_type {
        PieceType::Pawn => pawn_moves(piece, position, board, last_move),
        PieceType::Knight => jump_moves(piece, position, board),
        PieceType::King => jump_moves(piece, position, board),
        _ => slide_moves(piece, position, board),
    }
}

} // verus!
