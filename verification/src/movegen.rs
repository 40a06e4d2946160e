//! The move generator and the attack oracle, written once for every board
//! representation that can say what stands on a square.

use vstd::prelude::*;
use crate::chessboard::{Color, Field, Piece, PieceType};
use crate::rules::{
    at, attacked_by, back_rank, cross_moves, diagonal_moves, diagonal_threat, first_hit, forward,
    held_by, holds, hop, horizontal_moves, king_moves, king_steps, king_threat, knight_moves,
    knight_threat, landable, legal_moves, line_threat, may_castle_long, may_castle_short,
    on_board, pawn_advances, pawn_capture, pawn_moves, pawn_threat, ray, rights_after_deploy,
    rights_after_move, room, sq, vacant, vertical_moves, Grid, Position, Rights,
};

verus! {

/// A board that can be asked for the state of a square.
pub trait Squares {
    /// The grid this board stands for.
    spec fn grid(&self) -> Grid;

    /// The state of square `(i, j)`.
    fn field(&self, i: usize, j: usize) -> (f: Field)
        requires
            i < 8,
            j < 8,
        ensures
            f == at(self.grid(), i as int, j as int),
    ;
}

/// Whether `(i, j)` names a square of the board.
pub fn valid(i: i32, j: i32) -> (r: bool)
    ensures
        r == on_board(i as int, j as int),
{
    0 <= i && i <= 7 && 0 <= j && j <= 7
}

/// Whether `(i, j)` is on the board and empty.
pub fn is_vacant<B: Squares>(b: &B, i: i32, j: i32) -> (r: bool)
    ensures
        r == vacant(b.grid(), i as int, j as int),
{
    if !valid(i, j) {
        return false;
    }
    b.field(i as usize, j as usize) == Field::Empty
}

/// Whether `(i, j)` is on the board and holds a piece of colour `c`.
pub fn is_held_by<B: Squares>(b: &B, i: i32, j: i32, c: Color) -> (r: bool)
    ensures
        r == held_by(b.grid(), i as int, j as int, c),
{
    if !valid(i, j) {
        return false;
    }
    match b.field(i as usize, j as usize) {
        Field::Piece(p) => p.color == c,
        _ => false,
    }
}

/// Whether `(i, j)` is on the board and holds a piece of colour `c` and
/// kind `k`.
pub fn has_piece<B: Squares>(b: &B, i: i32, j: i32, c: Color, k: PieceType) -> (r: bool)
    ensures
        r == holds(b.grid(), i as int, j as int, c, k),
{
    if !valid(i, j) {
        return false;
    }
    match b.field(i as usize, j as usize) {
        Field::Piece(p) => p.color == c && p.piece_type == k,
        _ => false,
    }
}

/// Whether a piece of colour `c` may come to rest on `(i, j)`.
pub fn can_land<B: Squares>(b: &B, c: Color, i: i32, j: i32) -> (r: bool)
    ensures
        r == landable(b.grid(), c, i as int, j as int),
{
    is_vacant(b, i, j) || is_held_by(b, i, j, c.opponent())
}

/// Appends to `out` the squares that a sliding piece of colour `c` reaches
/// from `(i, j)` in direction `(di, dj)`.
pub fn slide<B: Squares>(
    b: &B,
    c: Color,
    i: usize,
    j: usize,
    di: i32,
    dj: i32,
    out: &mut Vec<(usize, usize)>,
)
    requires
        i < 8,
        j < 8,
        -1 <= di <= 1,
        -1 <= dj <= 1,
    ensures
        final(out)@ == old(out)@ + ray(b.grid(), c, i as int, j as int, di as int, dj as int),
{
    let ghost start = out@;
    let ghost whole = ray(b.grid(), c, i as int, j as int, di as int, dj as int);
    if di == 0 && dj == 0 {
        assert(out@ =~= start + whole);
        return ;
    }
    let mut r: i32 = i as i32;
    let mut s: i32 = j as i32;
    loop
        invariant_except_break
            on_board(r as int, s as int),
            out@ + ray(b.grid(), c, r as int, s as int, di as int, dj as int) == start + whole,
        invariant
            -1 <= di <= 1,
            -1 <= dj <= 1,
            !(di == 0 && dj == 0),
        ensures
            out@ == start + whole,
        decreases room(r as int, s as int, di as int, dj as int),
    {
        let nr: i32 = r + di;
        let ns: i32 = s + dj;
        if !valid(nr, ns) {
            assert(out@ =~= start + whole);
            break ;
        }
        match b.field(nr as usize, ns as usize) {
            Field::Empty => {
                assert(out@.push(sq(nr as int, ns as int)) + ray(
                    b.grid(),
                    c,
                    nr as int,
                    ns as int,
                    di as int,
                    dj as int,
                ) =~= out@ + ray(b.grid(), c, r as int, s as int, di as int, dj as int));
                out.push((nr as usize, ns as usize));
                r = nr;
                s = ns;
            },
            Field::Piece(p) => {
                if p.color != c {
                    assert(out@.push(sq(nr as int, ns as int)) =~= out@ + ray(
                        b.grid(),
                        c,
                        r as int,
                        s as int,
                        di as int,
                        dj as int,
                    ));
                    out.push((nr as usize, ns as usize));
                } else {
                    assert(out@ =~= start + whole);
                }
                break ;
            },
            Field::Legal => {
                assert(out@ =~= start + whole);
                break ;
            },
        }
    }
}

/// Appends `(i + di, j + dj)` to `out` if a piece of colour `c` may land
/// there.
pub fn jump<B: Squares>(
    b: &B,
    c: Color,
    i: usize,
    j: usize,
    di: i32,
    dj: i32,
    out: &mut Vec<(usize, usize)>,
)
    requires
        i < 8,
        j < 8,
        -2 <= di <= 2,
        -2 <= dj <= 2,
    ensures
        final(out)@ == old(out)@ + hop(b.grid(), c, i as int, j as int, di as int, dj as int),
{
    let r: i32 = i as i32 + di;
    let s: i32 = j as i32 + dj;
    if can_land(b, c, r, s) {
        assert(out@.push(sq(r as int, s as int)) =~= out@ + hop(
            b.grid(),
            c,
            i as int,
            j as int,
            di as int,
            dj as int,
        ));
        out.push((r as usize, s as usize));
    } else {
        assert(out@ =~= out@ + hop(b.grid(), c, i as int, j as int, di as int, dj as int));
    }
}

/// The moves of a piece of colour `c` along the file of `(i, j)`.
pub fn vertical_move<B: Squares>(b: &B, c: Color, i: usize, j: usize) -> (v: Vec<(usize, usize)>)
    requires
        i < 8,
        j < 8,
    ensures
        v@ == vertical_moves(b.grid(), c, i as int, j as int),
{
    let mut v: Vec<(usize, usize)> = Vec::new();
    slide(b, c, i, j, -1, 0, &mut v);
    slide(b, c, i, j, 1, 0, &mut v);
    assert(v@ =~= vertical_moves(b.grid(), c, i as int, j as int));
    v
}

/// The moves of a piece of colour `c` along the rank of `(i, j)`.
pub fn horizontal_move<B: Squares>(b: &B, c: Color, i: usize, j: usize) -> (v: Vec<
    (usize, usize),
>)
    requires
        i < 8,
        j < 8,
    ensures
        v@ == horizontal_moves(b.grid(), c, i as int, j as int),
{
    let mut v: Vec<(usize, usize)> = Vec::new();
    slide(b, c, i, j, 0, -1, &mut v);
    slide(b, c, i, j, 0, 1, &mut v);
    assert(v@ =~= horizontal_moves(b.grid(), c, i as int, j as int));
    v
}

/// A rook's moves from `(i, j)`.
pub fn cross_move<B: Squares>(b: &B, c: Color, i: usize, j: usize) -> (v: Vec<(usize, usize)>)
    requires
        i < 8,
        j < 8,
    ensures
        v@ == cross_moves(b.grid(), c, i as int, j as int),
{
    let mut v = vertical_move(b, c, i, j);
    let mut h = horizontal_move(b, c, i, j);
    v.append(&mut h);
    v
}

/// A bishop's moves from `(i, j)`.
pub fn x_move<B: Squares>(b: &B, c: Color, i: usize, j: usize) -> (v: Vec<(usize, usize)>)
    requires
        i < 8,
        j < 8,
    ensures
        v@ == diagonal_moves(b.grid(), c, i as int, j as int),
{
    let mut v: Vec<(usize, usize)> = Vec::new();
    slide(b, c, i, j, 1, 1, &mut v);
    slide(b, c, i, j, -1, 1, &mut v);
    slide(b, c, i, j, -1, -1, &mut v);
    slide(b, c, i, j, 1, -1, &mut v);
    assert(v@ =~= diagonal_moves(b.grid(), c, i as int, j as int));
    v
}

/// A knight's moves from `(i, j)`.
pub fn horse_jump<B: Squares>(b: &B, c: Color, i: usize, j: usize) -> (v: Vec<(usize, usize)>)
    requires
        i < 8,
        j < 8,
    ensures
        v@ == knight_moves(b.grid(), c, i as int, j as int),
{
    let mut v: Vec<(usize, usize)> = Vec::new();
    jump(b, c, i, j, -2, 1, &mut v);
    jump(b, c, i, j, -2, -1, &mut v);
    jump(b, c, i, j, 2, 1, &mut v);
    jump(b, c, i, j, 2, -1, &mut v);
    jump(b, c, i, j, 1, -2, &mut v);
    jump(b, c, i, j, 1, 2, &mut v);
    jump(b, c, i, j, -1, -2, &mut v);
    jump(b, c, i, j, -1, 2, &mut v);
    assert(v@ =~= knight_moves(b.grid(), c, i as int, j as int));
    v
}

/// A king's single steps from `(i, j)`.
pub fn king_step<B: Squares>(b: &B, c: Color, i: usize, j: usize) -> (v: Vec<(usize, usize)>)
    requires
        i < 8,
        j < 8,
    ensures
        v@ == king_steps(b.grid(), c, i as int, j as int),
{
    let mut v: Vec<(usize, usize)> = Vec::new();
    jump(b, c, i, j, -1, -1, &mut v);
    jump(b, c, i, j, -1, 0, &mut v);
    jump(b, c, i, j, -1, 1, &mut v);
    jump(b, c, i, j, 0, -1, &mut v);
    jump(b, c, i, j, 0, 1, &mut v);
    jump(b, c, i, j, 1, -1, &mut v);
    jump(b, c, i, j, 1, 0, &mut v);
    jump(b, c, i, j, 1, 1, &mut v);
    assert(v@ =~= king_steps(b.grid(), c, i as int, j as int));
    v
}

/// The first occupied square met from `(i, j)` in direction `(di, dj)`.
pub fn scan<B: Squares>(b: &B, i: usize, j: usize, di: i32, dj: i32) -> (f: Field)
    requires
        i < 8,
        j < 8,
        -1 <= di <= 1,
        -1 <= dj <= 1,
    ensures
        f == first_hit(b.grid(), i as int, j as int, di as int, dj as int),
{
    if di == 0 && dj == 0 {
        return Field::Empty;
    }
    let ghost whole = first_hit(b.grid(), i as int, j as int, di as int, dj as int);
    let mut r: i32 = i as i32;
    let mut s: i32 = j as i32;
    let mut found = Field::Empty;
    loop
        invariant_except_break
            on_board(r as int, s as int),
            first_hit(b.grid(), r as int, s as int, di as int, dj as int) == whole,
        invariant
            -1 <= di <= 1,
            -1 <= dj <= 1,
            !(di == 0 && dj == 0),
        ensures
            found == whole,
        decreases room(r as int, s as int, di as int, dj as int),
    {
        let nr: i32 = r + di;
        let ns: i32 = s + dj;
        if !valid(nr, ns) {
            found = Field::Empty;
            break ;
        }
        let f = b.field(nr as usize, ns as usize);
        if f != Field::Empty {
            found = f;
            break ;
        }
        r = nr;
        s = ns;
    }
    found
}

/// Whether a rook or queen of colour `by` looks at `(i, j)` along
/// `(di, dj)`.
pub fn line_movable_enemy<B: Squares>(b: &B, by: Color, i: usize, j: usize, di: i32, dj: i32) -> (r:
    bool)
    requires
        i < 8,
        j < 8,
        -1 <= di <= 1,
        -1 <= dj <= 1,
    ensures
        r == line_threat(b.grid(), by, i as int, j as int, di as int, dj as int),
{
    match scan(b, i, j, di, dj) {
        Field::Piece(p) => p.color == by && (p.piece_type == PieceType::Rook || p.piece_type
            == PieceType::Queen),
        _ => false,
    }
}

/// Whether a bishop or queen of colour `by` looks at `(i, j)` along
/// `(di, dj)`.
pub fn diagonal_movable_enemy<B: Squares>(
    b: &B,
    by: Color,
    i: usize,
    j: usize,
    di: i32,
    dj: i32,
) -> (r: bool)
    requires
        i < 8,
        j < 8,
        -1 <= di <= 1,
        -1 <= dj <= 1,
    ensures
        r == diagonal_threat(b.grid(), by, i as int, j as int, di as int, dj as int),
{
    match scan(b, i, j, di, dj) {
        Field::Piece(p) => p.color == by && (p.piece_type == PieceType::Bishop || p.piece_type
            == PieceType::Queen),
        _ => false,
    }
}

/// The rank change of one pawn step of colour `c`.
pub fn pawn_step(c: Color) -> (d: i32)
    ensures
        d == forward(c),
{
    match c {
        Color::White => -1,
        Color::Black => 1,
    }
}

/// The rank on which colour `c` starts its king and rooks.
pub fn home_rank(c: Color) -> (h: usize)
    ensures
        h == back_rank(c),
{
    match c {
        Color::White => 7,
        Color::Black => 0,
    }
}

/// Whether a pawn of colour `by` attacks `(i, j)`.
pub fn enemy_pawn<B: Squares>(b: &B, by: Color, i: usize, j: usize) -> (r: bool)
    requires
        i < 8,
        j < 8,
    ensures
        r == pawn_threat(b.grid(), by, i as int, j as int),
{
    let r: i32 = i as i32 - pawn_step(by);
    let s: i32 = j as i32;
    has_piece(b, r, s - 1, by, PieceType::Pawn) || has_piece(b, r, s + 1, by, PieceType::Pawn)
}

/// Whether a knight of colour `by` attacks `(i, j)`.
pub fn enemy_knight<B: Squares>(b: &B, by: Color, i: usize, j: usize) -> (r: bool)
    requires
        i < 8,
        j < 8,
    ensures
        r == knight_threat(b.grid(), by, i as int, j as int),
{
    let r: i32 = i as i32;
    let s: i32 = j as i32;
    has_piece(b, r - 2, s - 1, by, PieceType::Knight) || has_piece(
        b,
        r - 2,
        s + 1,
        by,
        PieceType::Knight,
    ) || has_piece(b, r + 2, s - 1, by, PieceType::Knight) || has_piece(
        b,
        r + 2,
        s + 1,
        by,
        PieceType::Knight,
    ) || has_piece(b, r - 1, s - 2, by, PieceType::Knight) || has_piece(
        b,
        r - 1,
        s + 2,
        by,
        PieceType::Knight,
    ) || has_piece(b, r + 1, s - 2, by, PieceType::Knight) || has_piece(
        b,
        r + 1,
        s + 2,
        by,
        PieceType::Knight,
    )
}

/// Whether the king of colour `by` stands next to `(i, j)`.
pub fn enemy_king<B: Squares>(b: &B, by: Color, i: usize, j: usize) -> (r: bool)
    requires
        i < 8,
        j < 8,
    ensures
        r == king_threat(b.grid(), by, i as int, j as int),
{
    let r: i32 = i as i32;
    let s: i32 = j as i32;
    has_piece(b, r - 1, s - 1, by, PieceType::King) || has_piece(b, r - 1, s, by, PieceType::King)
        || has_piece(b, r - 1, s + 1, by, PieceType::King) || has_piece(
        b,
        r,
        s - 1,
        by,
        PieceType::King,
    ) || has_piece(b, r, s + 1, by, PieceType::King) || has_piece(
        b,
        r + 1,
        s - 1,
        by,
        PieceType::King,
    ) || has_piece(b, r + 1, s, by, PieceType::King) || has_piece(
        b,
        r + 1,
        s + 1,
        by,
        PieceType::King,
    )
}

/// The attack oracle: whether some piece of colour `by` could capture on
/// `(i, j)`. Coordinates off the board are answered with `false`.
pub fn is_attacked<B: Squares>(b: &B, by: Color, i: usize, j: usize) -> (r: bool)
    ensures
        r == attacked_by(b.grid(), by, i as int, j as int),
{
    if i >= 8 || j >= 8 {
        return false;
    }
    enemy_pawn(b, by, i, j) || line_movable_enemy(b, by, i, j, 0, 1) || line_movable_enemy(
        b,
        by,
        i,
        j,
        0,
        -1,
    ) || line_movable_enemy(b, by, i, j, 1, 0) || line_movable_enemy(b, by, i, j, -1, 0)
        || diagonal_movable_enemy(b, by, i, j, 1, 1) || diagonal_movable_enemy(b, by, i, j, -1, 1)
        || diagonal_movable_enemy(b, by, i, j, -1, -1) || diagonal_movable_enemy(
        b,
        by,
        i,
        j,
        1,
        -1,
    ) || enemy_knight(b, by, i, j) || enemy_king(b, by, i, j)
}

/// Whether the king of colour `c` on `(i, j)` may castle towards file 7.
pub fn can_castle_short<B: Squares>(b: &B, rights: Rights, c: Color, i: usize, j: usize) -> (r:
    bool)
    ensures
        r == may_castle_short(b.grid(), rights, c, i as int, j as int),
{
    let h = home_rank(c);
    let (king_moved, rook_moved) = match c {
        Color::White => (rights.white_king_moved, rights.white_rook_short_moved),
        Color::Black => (rights.black_king_moved, rights.black_rook_short_moved),
    };
    let e = c.opponent();
    i == h && j == 4 && !king_moved && !rook_moved && has_piece(
        b,
        h as i32,
        7,
        c,
        PieceType::Rook,
    ) && is_vacant(b, h as i32, 5) && is_vacant(b, h as i32, 6) && !is_attacked(b, e, h, 4)
        && !is_attacked(b, e, h, 5) && !is_attacked(b, e, h, 6)
}

/// Whether the king of colour `c` on `(i, j)` may castle towards file 0.
pub fn can_castle_long<B: Squares>(b: &B, rights: Rights, c: Color, i: usize, j: usize) -> (r:
    bool)
    ensures
        r == may_castle_long(b.grid(), rights, c, i as int, j as int),
{
    let h = home_rank(c);
    let (king_moved, rook_moved) = match c {
        Color::White => (rights.white_king_moved, rights.white_rook_long_moved),
        Color::Black => (rights.black_king_moved, rights.black_rook_long_moved),
    };
    let e = c.opponent();
    i == h && j == 4 && !king_moved && !rook_moved && has_piece(
        b,
        h as i32,
        0,
        c,
        PieceType::Rook,
    ) && is_vacant(b, h as i32, 1) && is_vacant(b, h as i32, 2) && is_vacant(b, h as i32, 3)
        && !is_attacked(b, e, h, 4) && !is_attacked(b, e, h, 3) && !is_attacked(b, e, h, 2)
}

/// The moves of the king of colour `c` on `(i, j)`.
pub fn king_move<B: Squares>(b: &B, rights: Rights, c: Color, i: usize, j: usize) -> (v: Vec<
    (usize, usize),
>)
    requires
        i < 8,
        j < 8,
    ensures
        v@ == king_moves(b.grid(), rights, c, i as int, j as int),
{
    let mut v = king_step(b, c, i, j);
    let h = home_rank(c);
    if can_castle_short(b, rights, c, i, j) {
        v.push((h, 6));
    }
    if can_castle_long(b, rights, c, i, j) {
        v.push((h, 2));
    }
    assert(v@ =~= king_moves(b.grid(), rights, c, i as int, j as int));
    v
}

/// The moves of the pawn of colour `c` on `(i, j)`; `last` names the pawn
/// that may be captured in passing.
pub fn pawn_move<B: Squares>(
    b: &B,
    last: Option<(usize, usize)>,
    c: Color,
    i: usize,
    j: usize,
) -> (v: Vec<(usize, usize)>)
    requires
        i < 8,
        j < 8,
    ensures
        v@ == pawn_moves(b.grid(), last, c, i as int, j as int),
{
    let ghost g = b.grid();
    let mut v: Vec<(usize, usize)> = Vec::new();
    let d: i32 = pawn_step(c);
    let r: i32 = i as i32;
    let s: i32 = j as i32;
    let start: usize = match c {
        Color::White => 6,
        Color::Black => 1,
    };
    if is_vacant(b, r + d, s) {
        v.push(((r + d) as usize, j));
        if i == start && is_vacant(b, r + 2 * d, s) {
            v.push(((r + 2 * d) as usize, j));
        }
    }
    assert(v@ =~= pawn_advances(g, c, i as int, j as int));
    if is_held_by(b, r + d, s - 1, c.opponent()) {
        v.push(((r + d) as usize, (s - 1) as usize));
    }
    if is_held_by(b, r + d, s + 1, c.opponent()) {
        v.push(((r + d) as usize, (s + 1) as usize));
    }
    assert(v@ =~= pawn_advances(g, c, i as int, j as int) + pawn_capture(
        g,
        c,
        i as int,
        j as int,
        -1,
    ) + pawn_capture(g, c, i as int, j as int, 1));
    if let Some(l) = last {
        if l.0 == i && j > 0 && l.1 == j - 1 && has_piece(
            b,
            r,
            s - 1,
            c.opponent(),
            PieceType::Pawn,
        ) && is_vacant(b, r + d, s - 1) {
            v.push(((r + d) as usize, (s - 1) as usize));
        }
        if l.0 == i && l.1 == j + 1 && has_piece(b, r, s + 1, c.opponent(), PieceType::Pawn)
            && is_vacant(b, r + d, s + 1) {
            v.push(((r + d) as usize, (s + 1) as usize));
        }
    }
    assert(v@ =~= pawn_moves(g, last, c, i as int, j as int));
    v
}

/// The destinations of whatever stands on `(i, j)`, in generation order.
/// Coordinates off the board, an empty square and a marked square give an
/// empty list.
pub fn moves_from<B: Squares>(
    b: &B,
    rights: Rights,
    last: Option<(usize, usize)>,
    i: usize,
    j: usize,
) -> (v: Vec<(usize, usize)>)
    ensures
        v@ == legal_moves(
            Position { grid: b.grid(), rights: rights, last_pawn: last },
            i as int,
            j as int,
        ),
{
    if i >= 8 || j >= 8 {
        return Vec::new();
    }
    match b.field(i, j) {
        Field::Piece(q) => match q.piece_type {
            PieceType::Pawn => pawn_move(b, last, q.color, i, j),
            PieceType::Rook => cross_move(b, q.color, i, j),
            PieceType::Knight => horse_jump(b, q.color, i, j),
            PieceType::Bishop => x_move(b, q.color, i, j),
            PieceType::Queen => {
                let mut v = cross_move(b, q.color, i, j);
                let mut x = x_move(b, q.color, i, j);
                v.append(&mut x);
                v
            },
            PieceType::King => king_move(b, rights, q.color, i, j),
        },
        _ => Vec::new(),
    }
}

/// The moved-flags after piece `q` has left `(i, j)` by an ordinary move.
pub fn flags_after_move(r: Rights, q: Piece, i: usize, j: usize) -> (n: Rights)
    ensures
        n == rights_after_move(r, q, i as int, j as int),
{
    let mut n = r;
    match q.piece_type {
        PieceType::King => match q.color {
            Color::White => {
                n.white_king_moved = true;
            },
            Color::Black => {
                n.black_king_moved = true;
            },
        },
        PieceType::Rook => match q.color {
            Color::White => {
                if i == 7 && j == 7 {
                    n.white_rook_short_moved = true;
                } else if i == 7 && j == 0 {
                    n.white_rook_long_moved = true;
                }
            },
            Color::Black => {
                if i == 0 && j == 7 {
                    n.black_rook_short_moved = true;
                } else if i == 0 && j == 0 {
                    n.black_rook_long_moved = true;
                }
            },
        },
        _ => {},
    }
    n
}

/// The moved-flags after a piece of colour `c` and kind `k` was deployed on
/// `(i, j)`.
pub fn flags_after_deploy(r: Rights, c: Color, k: PieceType, i: usize, j: usize) -> (n: Rights)
    ensures
        n == rights_after_deploy(r, c, k, i as int, j as int),
{
    let mut n = r;
    if k == PieceType::Rook && i == home_rank(c) {
        match c {
            Color::White => {
                if j == 7 {
                    n.white_rook_short_moved = false;
                } else if j == 0 {
                    n.white_rook_long_moved = false;
                }
            },
            Color::Black => {
                if j == 7 {
                    n.black_rook_short_moved = false;
                } else if j == 0 {
                    n.black_rook_long_moved = false;
                }
            },
        }
    }
    n
}

} // verus!
