use vstd::prelude::*;
use crate::analyser::{in_check, takes_king};
use crate::board::{BoardModel, GameBoard};
use crate::chess_move::{ChessMoveType, in_bounds_pos, move_in_bounds, mover_of, origin_of};
use crate::movegen::{
    dest, en_passant_move, forward, jump_move, jump_offsets, lemma_piece_move_shape, pawn_capture, pawn_double,
    pawn_landing, pawn_move, pawn_single, pos, pseudo_legal, ray_len, ray_sq, slide_dirs, slide_move,
};
use crate::piece::{ChessPiece, Color, PieceType, opposite};

verus! {

/// The same piece in the other colour.
pub open spec fn swap_piece(p: ChessPiece) -> ChessPiece {
    ChessPiece { color: opposite(p.color), piece_type: p.piece_type }
}

pub open spec fn swap_opt(o: Option<ChessPiece>) -> Option<ChessPiece> {
    match o {
        Some(p) => Some(swap_piece(p)),
        None => None,
    }
}

/// A square reflected across the middle row of a board of height `h`.
pub open spec fn flip(h: int, p: (usize, usize)) -> (usize, usize) {
    (p.0, (h - 1 - p.1) as usize)
}

/// A move reflected across the middle row, played by the other colour.
pub open spec fn mirror_move(h: int, m: ChessMoveType) -> ChessMoveType {
    match m {
        ChessMoveType::Move { original_position, new_position, piece, taken_piece, promotion } => ChessMoveType::Move {
            original_position: flip(h, original_position),
            new_position: flip(h, new_position),
            piece: swap_piece(piece),
            taken_piece: swap_opt(taken_piece),
            promotion,
        },
        ChessMoveType::Take { original_position, new_position, piece, taken_piece } => ChessMoveType::Take {
            original_position: flip(h, original_position),
            new_position: flip(h, new_position),
            piece: swap_piece(piece),
            taken_piece: swap_piece(taken_piece),
        },
        ChessMoveType::EnPassant { original_position, new_position, piece, taken_piece, taken_piece_position } =>
            ChessMoveType::EnPassant {
                original_position: flip(h, original_position),
                new_position: flip(h, new_position),
                piece: swap_piece(piece),
                taken_piece: swap_piece(taken_piece),
                taken_piece_position: flip(h, taken_piece_position),
            },
        ChessMoveType::Castle { king_original_position, king_new_position, rook_original_position, rook_new_position, color } =>
            ChessMoveType::Castle {
                king_original_position: flip(h, king_original_position),
                king_new_position: flip(h, king_new_position),
                rook_original_position: flip(h, rook_original_position),
                rook_new_position: flip(h, rook_new_position),
                color: opposite(color),
            },
    }
}

pub open spec fn mirror_last(h: int, last: Option<ChessMoveType>) -> Option<ChessMoveType> {
    match last {
        Some(m) => Some(mirror_move(h, m)),
        None => None,
    }
}

/// `b2` is `b1` turned upside down with the colours of all pieces swapped.
pub open spec fn mirrored(b1: BoardModel, b2: BoardModel) -> bool {
    &&& b1.width == b2.width
    &&& b1.height == b2.height
    &&& forall|c: int, r: int| #[trigger] b2.at(c, r) == swap_opt(b1.at(c, b1.height - 1 - r))
}

proof fn lemma_mirrored_symmetric(b1: BoardModel, b2: BoardModel)
    requires
        mirrored(b1, b2),
    ensures
        mirrored(b2, b1),
{
    assert forall|c: int, r: int| #[trigger] b1.at(c, r) == swap_opt(b2.at(c, b2.height - 1 - r)) by {
        assert(b2.at(c, b2.height - 1 - r) == swap_opt(b1.at(c, b1.height - 1 - (b2.height - 1 - r))));
    }
}

proof fn mirror_dir_index(kind: PieceType, i: int) -> (j: int)
    requires
        0 <= i < slide_dirs(kind).len(),
    ensures
        0 <= j < slide_dirs(kind).len(),
        slide_dirs(kind)[j] == (slide_dirs(kind)[i].0, -slide_dirs(kind)[i].1),
{
    match kind {
        PieceType::Rook => if i == 2 { 3 } else if i == 3 { 2 } else { i },
        _ => if i == 0 { 1 } else if i == 1 { 0 } else if i == 2 { 3 } else if i == 3 { 2 } else if i == 6 { 7 } else if i == 7 { 6 } else { i },
    }
}

proof fn mirror_jump_index(kind: PieceType, i: int) -> (j: int)
    requires
        0 <= i < 8,
    ensures
        0 <= j < 8,
        jump_offsets(kind)[j] == (jump_offsets(kind)[i].0, -jump_offsets(kind)[i].1),
{
    match kind {
        PieceType::Knight => if i == 0 { 3 } else if i == 3 { 0 } else if i == 1 { 2 } else if i == 2 { 1 } else if i == 4 { 7 } else if i == 7 { 4 } else if i == 5 { 6 } else { 5 },
        _ => if i == 0 { 2 } else if i == 2 { 0 } else if i == 3 { 7 } else if i == 7 { 3 } else if i == 4 { 6 } else if i == 6 { 4 } else { i },
    }
}

proof fn lemma_slide_mirror(b1: BoardModel, b2: BoardModel, piece: ChessPiece, o: (usize, usize), d: (int, int), m: ChessMoveType)
    requires
        b1.wf(),
        b1.height <= usize::MAX,
        mirrored(b1, b2),
        in_bounds_pos(b1, o),
        -1 <= d.0 <= 1 && -1 <= d.1 <= 1,
        slide_move(b1, piece, o, d, m),
    ensures
        slide_move(b2, swap_piece(piece), flip(b1.height, o), (d.0, -d.1), mirror_move(b1.height, m)),
{
    let h = b1.height;
    let k = ray_len(pos(o), d, dest(m));
    let o2 = pos(flip(h, o));
    let d2 = (d.0, -d.1);
    let m2 = mirror_move(h, m);
    assert(dest(m2) == (dest(m).0, h - 1 - dest(m).1));
    assert(ray_len(o2, d2, dest(m2)) == k);
    assert forall|j: int| #[trigger] ray_sq(o2, d2, j) == (ray_sq(pos(o), d, j).0, h - 1 - ray_sq(pos(o), d, j).1) by {}
    assert forall|j: int| 1 <= j < k implies b2.in_bounds(#[trigger] ray_sq(o2, d2, j).0, ray_sq(o2, d2, j).1)
        && b2.at(ray_sq(o2, d2, j).0, ray_sq(o2, d2, j).1).is_none() by {
        let q = ray_sq(pos(o), d, j);
        assert(b1.in_bounds(q.0, q.1) && b1.at(q.0, q.1).is_none());
        assert(b2.at(q.0, h - 1 - q.1) == swap_opt(b1.at(q.0, h - 1 - (h - 1 - q.1))));
    }
    let t = dest(m);
    assert(b2.at(t.0, h - 1 - t.1) == swap_opt(b1.at(t.0, h - 1 - (h - 1 - t.1))));
}

proof fn lemma_jump_mirror(b1: BoardModel, b2: BoardModel, piece: ChessPiece, o: (usize, usize), d: (int, int), m: ChessMoveType)
    requires
        b1.wf(),
        b1.height <= usize::MAX,
        mirrored(b1, b2),
        in_bounds_pos(b1, o),
        jump_move(b1, piece, o, d, m),
    ensures
        jump_move(b2, swap_piece(piece), flip(b1.height, o), (d.0, -d.1), mirror_move(b1.height, m)),
{
    let h = b1.height;
    let t = dest(m);
    assert(b2.at(t.0, h - 1 - t.1) == swap_opt(b1.at(t.0, h - 1 - (h - 1 - t.1))));
}

proof fn lemma_landing_mirror(b1: BoardModel, b2: BoardModel, piece: ChessPiece, o: (usize, usize), t: (int, int), taken: Option<ChessPiece>, m: ChessMoveType)
    requires
        b1.wf(),
        b1.height <= usize::MAX,
        mirrored(b1, b2),
        in_bounds_pos(b1, o),
        b1.in_bounds(t.0, t.1),
        pawn_landing(b1, piece, o, t, taken, m),
    ensures
        pawn_landing(b2, swap_piece(piece), flip(b1.height, o), (t.0, b1.height - 1 - t.1), swap_opt(taken), mirror_move(b1.height, m)),
{
}

proof fn lemma_pawn_mirror(b1: BoardModel, b2: BoardModel, last: Option<ChessMoveType>, piece: ChessPiece, o: (usize, usize), m: ChessMoveType)
    requires
        b1.wf(),
        b1.height <= usize::MAX,
        mirrored(b1, b2),
        in_bounds_pos(b1, o),
        last matches Some(l) ==> move_in_bounds(b1, l),
        pawn_move(b1, last, piece, o, m),
    ensures
        pawn_move(b2, mirror_last(b1.height, last), swap_piece(piece), flip(b1.height, o), mirror_move(b1.height, m)),
{
    let h = b1.height;
    let f = forward(piece.color);
    let p2 = swap_piece(piece);
    let o2 = flip(h, o);
    let m2 = mirror_move(h, m);
    assert(forward(p2.color) == -f);
    let one = (o.0 as int, o.1 + f);
    let two = (o.0 as int, o.1 + f + f);
    assert(b2.at(one.0, h - 1 - one.1) == swap_opt(b1.at(one.0, h - 1 - (h - 1 - one.1))));
    assert(b2.at(two.0, h - 1 - two.1) == swap_opt(b1.at(two.0, h - 1 - (h - 1 - two.1))));
    if pawn_single(b1, piece, o, m) {
        lemma_landing_mirror(b1, b2, piece, o, one, None, m);
        assert(pawn_single(b2, p2, o2, m2));
    } else if pawn_double(b1, piece, o, m) {
        lemma_landing_mirror(b1, b2, piece, o, two, None, m);
        assert(pawn_double(b2, p2, o2, m2));
    } else if pawn_capture(b1, piece, o, -1, m) {
        let t = (o.0 - 1, o.1 + f);
        assert(b2.at(t.0, h - 1 - t.1) == swap_opt(b1.at(t.0, h - 1 - (h - 1 - t.1))));
        lemma_landing_mirror(b1, b2, piece, o, t, b1.at(t.0, t.1), m);
        assert(pawn_capture(b2, p2, o2, -1, m2));
    } else if pawn_capture(b1, piece, o, 1, m) {
        let t = (o.0 + 1, o.1 + f);
        assert(b2.at(t.0, h - 1 - t.1) == swap_opt(b1.at(t.0, h - 1 - (h - 1 - t.1))));
        lemma_landing_mirror(b1, b2, piece, o, t, b1.at(t.0, t.1), m);
        assert(pawn_capture(b2, p2, o2, 1, m2));
    } else {
        let l = last.unwrap();
        let lt = l->Move_new_position;
        assert(b2.at(lt.0 as int, h - 1 - lt.1) == swap_opt(b1.at(lt.0 as int, h - 1 - (h - 1 - lt.1))));
        assert(en_passant_move(b2, mirror_last(h, last), p2, o2, m2));
    }
}

/// A pseudo-legal move stays pseudo-legal when board, colours and move are
/// all mirrored.
proof fn lemma_pseudo_mirror(b1: BoardModel, b2: BoardModel, last: Option<ChessMoveType>, m: ChessMoveType)
    requires
        b1.wf(),
        b1.height <= usize::MAX,
        mirrored(b1, b2),
        last matches Some(l) ==> move_in_bounds(b1, l),
        pseudo_legal(b1, last, m),
    ensures
        pseudo_legal(b2, mirror_last(b1.height, last), mirror_move(b1.height, m)),
        mover_of(mirror_move(b1.height, m)) == swap_piece(mover_of(m)),
        captured_of_mirror(b1.height, m),
{
    let h = b1.height;
    let piece = mover_of(m);
    let o = origin_of(m);
    let m2 = mirror_move(h, m);
    lemma_piece_move_shape(b1, last, piece, o, m);
    assert(b2.at(o.0 as int, h - 1 - o.1) == swap_opt(b1.at(o.0 as int, h - 1 - (h - 1 - o.1))));
    assert(origin_of(m2) == flip(h, o));
    match piece.piece_type {
        PieceType::Pawn => {
            lemma_pawn_mirror(b1, b2, last, piece, o, m);
        },
        PieceType::Knight | PieceType::King => {
            let i = choose|i: int| 0 <= i < 8 && #[trigger] jump_move(b1, piece, o, jump_offsets(piece.piece_type)[i], m);
            let j = mirror_jump_index(piece.piece_type, i);
            lemma_jump_mirror(b1, b2, piece, o, jump_offsets(piece.piece_type)[i], m);
            assert(jump_move(b2, swap_piece(piece), flip(h, o), jump_offsets(piece.piece_type)[j], m2));
        },
        _ => {
            let i = choose|i: int| 0 <= i < slide_dirs(piece.piece_type).len() && #[trigger] slide_move(b1, piece, o, slide_dirs(piece.piece_type)[i], m);
            let j = mirror_dir_index(piece.piece_type, i);
            lemma_slide_mirror(b1, b2, piece, o, slide_dirs(piece.piece_type)[i], m);
            assert(slide_move(b2, swap_piece(piece), flip(h, o), slide_dirs(piece.piece_type)[j], m2));
        },
    }
}

pub open spec fn captured_of_mirror(h: int, m: ChessMoveType) -> bool {
    crate::chess_move::captured_of(mirror_move(h, m)) == swap_opt(crate::chess_move::captured_of(m))
}

proof fn lemma_mirror_twice(b1: BoardModel, m: ChessMoveType)
    requires
        b1.height <= usize::MAX,
        move_in_bounds(b1, m),
    ensures
        mirror_move(b1.height, mirror_move(b1.height, m)) == m,
        move_in_bounds(b1, mirror_move(b1.height, m)),
{
}

/// Check is symmetric under colour swap: on a board turned upside down with
/// every piece's colour swapped (the move played before mirrored as well),
/// the other colour is in check exactly when the first one was.
pub proof fn lemma_check_mirror_symmetric(b1: GameBoard, b2: GameBoard, color: Color, last: Option<ChessMoveType>)
    requires
        b1.wf(),
        b2.wf(),
        mirrored(b1@, b2@),
        last matches Some(l) ==> move_in_bounds(b1@, l),
    ensures
        in_check(b1@, color, last) == in_check(b2@, opposite(color), mirror_last(b1@.height, last)),
{
    let h = b1@.height;
    let last2 = mirror_last(h, last);
    if in_check(b1@, color, last) {
        let m = choose|m: ChessMoveType| #![trigger pseudo_legal(b1@, last, m)]
            pseudo_legal(b1@, last, m) && mover_of(m).color == opposite(color) && takes_king(m, color);
        lemma_pseudo_mirror(b1@, b2@, last, m);
        assert(pseudo_legal(b2@, last2, mirror_move(h, m)));
    }
    if in_check(b2@, opposite(color), last2) {
        let m2 = choose|m: ChessMoveType| #![trigger pseudo_legal(b2@, last2, m)]
            pseudo_legal(b2@, last2, m) && mover_of(m).color == opposite(opposite(color)) && takes_king(m, opposite(color));
        lemma_mirrored_symmetric(b1@, b2@);
        if let Some(l) = last {
            lemma_mirror_twice(b1@, l);
        }
        assert(mirror_last(h, last2) == last);
        lemma_pseudo_mirror(b2@, b1@, last2, m2);
        assert(pseudo_legal(b1@, last, mirror_move(h, m2)));
    }
}

} // verus!
