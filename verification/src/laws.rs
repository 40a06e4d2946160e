//! What holds of every game, proved from the model.

use vstd::prelude::*;
use crate::board::{man, Piece};
use crate::chessboard;
use crate::chessboard::{Color, Field, MoveError, PieceType};
use crate::game::{color_of, promotion_kind, win, Game};
use crate::logic::Winner;
use crate::movegen::Squares;
use crate::rules::{
    ahead, at, castling_moves, clear_way, cross_moves, first_hit, forward, hop, king_steps,
    landable, legal_moves, on_board, pawn_advances, pawn_capture, pawn_moves, pawn_passing, put,
    ray, room, slides_to, sq, start_field, start_grid, vacant, Grid, Position,
};

verus! {

/// In the starting arrangement a rook cannot move: whatever the flags and
/// the pawn that may be captured in passing, each of the four corner rooks
/// is shut in by the pawn in front of it and the knight beside it.
pub proof fn lemma_start_rooks_blocked(p: Position, i: int, j: int)
    requires
        p.grid == start_grid(),
        i == 0 || i == 7,
        j == 0 || j == 7,
    ensures
        legal_moves(p, i, j) == Seq::<(usize, usize)>::empty(),
{
    let g = p.grid;
    assert forall|a: int, b: int| on_board(a, b) implies at(g, a, b) == start_field(a, b) by {}
    let c = if i == 0 {
        Color::Black
    } else {
        Color::White
    };
    assert(at(g, i, j) == start_field(i, j));
    assert(ray(g, c, i, j, -1, 0) =~= Seq::empty());
    assert(ray(g, c, i, j, 1, 0) =~= Seq::empty());
    assert(ray(g, c, i, j, 0, -1) =~= Seq::empty());
    assert(ray(g, c, i, j, 0, 1) =~= Seq::empty());
    assert(cross_moves(g, c, i, j) =~= Seq::empty());
}

/// Once a king has been taken the game on that board is won by the taker,
/// and every later move or deployment on that board is refused with
/// `AlreadyOver`.
pub proof fn lemma_king_capture_ends_game(
    pre: Game,
    post: Game,
    board1: bool,
    fi: usize,
    fj: usize,
    ti: usize,
    tj: usize,
)
    requires
        pre.move_error(fi, fj, ti, tj) is None,
        pre.moved(post, board1, fi, fj, ti, tj),
        pre.captured(fi, fj, ti, tj) matches Some(x) && x.piece_type == PieceType::King,
    ensures
        post.winner == win(board1, pre.mover(fi, fj).color),
        post.winner != Winner::N,
        forall|a: usize, b: usize, c: usize, d: usize| #[trigger]
            post.move_error(a, b, c, d) == Some(MoveError::AlreadyOver),
        forall|white: bool, letter: Piece, a: usize, b: usize| #[trigger]
            post.deploy_error(white, letter, a, b) == Some(MoveError::AlreadyOver),
{
}

/// Taking a king credits no pool: the game on the other board is left
/// exactly as it was.
pub proof fn lemma_king_capture_spares_partner(
    other: Game,
    after: Game,
    by: Color,
    x: chessboard::Piece,
)
    requires
        x.piece_type == PieceType::King,
        other.credited(after, by, Some(x)),
    ensures
        after == other,
{
}

/// A piece that is taken, unless it is a king, is added to the pool of the
/// colour that took it, in the slot of its kind or, if it was promoted, in
/// the slot of the pawns; the pool of the other colour is left as it was.
pub proof fn lemma_capture_credits_taker(
    other: Game,
    after: Game,
    by: Color,
    x: chessboard::Piece,
)
    requires
        x.piece_type != PieceType::King,
        other.credited(after, by, Some(x)),
    ensures
        crate::rules::credit_slot(x) matches Some(slot) && 0 <= slot < 5 && after.pool(by)[slot]
            == (other.pool(by)[slot] + 1) as u8 && (x.upgraded ==> slot == 0),
        after.pool(by.other()) == other.pool(by.other()),
        after.board == other.board,
{
}

/// A game that has ended refuses every command with `AlreadyOver`.
pub proof fn lemma_over_is_over(g: Game)
    requires
        g.winner != Winner::N,
    ensures
        forall|a: usize, b: usize, c: usize, d: usize| #[trigger]
            g.move_error(a, b, c, d) == Some(MoveError::AlreadyOver),
        forall|white: bool, letter: Piece, a: usize, b: usize| #[trigger]
            g.deploy_error(white, letter, a, b) == Some(MoveError::AlreadyOver),
{
}

/// A move that takes no king and leaves either colour stalemated draws the
/// game.
pub proof fn lemma_stalemate_draws(
    pre: Game,
    post: Game,
    board1: bool,
    fi: usize,
    fj: usize,
    ti: usize,
    tj: usize,
    c: Color,
)
    requires
        pre.moved(post, board1, fi, fj, ti, tj),
        !(pre.captured(fi, fj, ti, tj) matches Some(x) && x.piece_type == PieceType::King),
        post.stalemate(c),
    ensures
        post.winner == Winner::P,
{
}

/// A pawn's destinations lie one or two ranks ahead of it.
pub proof fn lemma_pawn_goes_forward(
    g: Grid,
    last: Option<(usize, usize)>,
    c: Color,
    i: int,
    j: int,
    t: (usize, usize),
)
    requires
        on_board(i, j),
        pawn_moves(g, last, c, i, j).contains(t),
    ensures
        t.0 == i + forward(c) || t.0 == i + 2 * forward(c),
        on_board(t.0 as int, t.1 as int),
{
    let a = pawn_advances(g, c, i, j);
    let b = pawn_capture(g, c, i, j, -1);
    let d = pawn_capture(g, c, i, j, 1);
    let e = pawn_passing(g, last, c, i, j, -1);
    let f = pawn_passing(g, last, c, i, j, 1);
    let s = a + b + d + e + f;
    let k = choose|k: int| 0 <= k < s.len() && s[k] == t;
    assert(s[k] == t);
    if k < a.len() {
        assert(s[k] == a[k]);
    } else if k < a.len() + b.len() {
        assert(s[k] == b[k - a.len()]);
    } else if k < a.len() + b.len() + d.len() {
        assert(s[k] == d[k - a.len() - b.len()]);
    } else if k < a.len() + b.len() + d.len() + e.len() {
        assert(s[k] == e[k - a.len() - b.len() - d.len()]);
    } else {
        assert(s[k] == f[k - a.len() - b.len() - d.len() - e.len()]);
    }
}

/// A pawn that would reach its last rank is refused with
/// `PromotionProblem` as long as no rook, knight, bishop or queen of its
/// colour has been chosen.
pub proof fn lemma_promotion_needs_choice(g: Game, fi: usize, fj: usize, ti: usize, tj: usize)
    requires
        g.winner == Winner::N,
        legal_moves(g.position(), fi as int, fj as int).contains((ti, tj)),
        g.mover(fi, fj).color == g.turn(),
        g.promotes(fi, fj, ti),
    ensures
        promotion_kind(g.upgrade_to, g.turn()) is None ==> g.move_error(fi, fj, ti, tj) == Some(
            MoveError::PromotionProblem,
        ),
        promotion_kind(g.upgrade_to, g.turn()) is Some ==> g.move_error(fi, fj, ti, tj) is None,
{
}

/// A promotion puts a promoted piece of the chosen kind and the pawn's
/// colour on the destination and uses up the choice.
pub proof fn lemma_promotion_places_choice(
    pre: Game,
    post: Game,
    board1: bool,
    fi: usize,
    fj: usize,
    ti: usize,
    tj: usize,
)
    requires
        pre.move_error(fi, fj, ti, tj) is None,
        pre.promotes(fi, fj, ti),
        pre.moved(post, board1, fi, fj, ti, tj),
    ensures
        promotion_kind(pre.upgrade_to, pre.turn()) is Some,
        at(post.board.grid(), ti as int, tj as int) == man(
            promotion_kind(pre.upgrade_to, pre.turn()).unwrap(),
            pre.turn(),
            true,
        ),
        post.upgrade_to == Piece::E,
{
    let p = pre.position();
    let g = p.grid;
    crate::rules::lemma_destination_on_board(p, fi as int, fj as int, (ti, tj));
    let m = pre.mover(fi, fj);
    assert(legal_moves(p, fi as int, fj as int) == pawn_moves(
        g,
        p.last_pawn,
        m.color,
        fi as int,
        fj as int,
    ));
    lemma_pawn_goes_forward(g, p.last_pawn, m.color, fi as int, fj as int, (ti, tj));
    assert(ti != fi);
    assert(!pre.castles(fi, fj, ti, tj));
    let placed = pre.placed(fi, fj, ti);
    let g1 = put(put(g, ti as int, tj as int, placed), fi as int, fj as int, Field::Empty);
    assert(at(g1, ti as int, tj as int) == placed);
    if pre.passes(fi, fj, ti, tj) {
        assert(at(put(g1, fi as int, tj as int, Field::Empty), ti as int, tj as int) == placed);
    }
}

/// Deploying the last piece of a kind empties its slot of the pool and
/// passes the turn; with the slot empty the same deployment is refused with
/// `NoPieceInPool`, wherever on the board it would go and once it is that
/// colour's turn again, and on an occupied square it is refused with
/// `NotEmpty` whatever the pool holds.
pub proof fn lemma_deploy_uses_pool(
    pre: Game,
    post: Game,
    white: bool,
    letter: Piece,
    i: usize,
    j: usize,
)
    requires
        pre.deploy_error(white, letter, i, j) is None,
        pre.deployed(post, white, letter, i, j),
    ensures
        post.stock(color_of(white), crate::game::deploy_kind(letter)) == pre.stock(
            color_of(white),
            crate::game::deploy_kind(letter),
        ) - 1,
        post.white_active != pre.white_active,
        pre.stock(color_of(white), crate::game::deploy_kind(letter)) == 1 ==> forall|
            a: usize,
            b: usize,
        |
            on_board(a as int, b as int) && at(post.board.grid(), a as int, b as int)
                == Field::Empty ==> #[trigger] (Game {
                white_active: pre.white_active,
                ..post
            }).deploy_error(white, letter, a, b) == Some(MoveError::NoPieceInPool),
        (Game { white_active: pre.white_active, ..post }).deploy_error(white, letter, i, j)
            == Some(MoveError::NotEmpty),
{
    let g = pre.board.grid();
    assert(at(put(g, i as int, j as int, man(crate::game::deploy_kind(letter), color_of(white), false)), i as int, j as int) != Field::Empty);
}

/// What one of two lists holds, the two joined hold.
pub proof fn lemma_join_contains<T>(a: Seq<T>, b: Seq<T>, x: T)
    requires
        a.contains(x) || b.contains(x),
    ensures
        (a + b).contains(x),
{
    if a.contains(x) {
        let k = choose|k: int| 0 <= k < a.len() && a[k] == x;
        assert((a + b)[k] == x);
    } else {
        let k = choose|k: int| 0 <= k < b.len() && b[k] == x;
        assert((a + b)[a.len() + k] == x);
    }
}

/// No attack holds a king back: every neighbouring square that is empty or
/// holds an enemy piece is a legal destination of the king, whether or not
/// the enemy attacks it.
pub proof fn lemma_king_may_enter_attack(p: Position, i: int, j: int, di: int, dj: int)
    requires
        on_board(i, j),
        at(p.grid, i, j) matches Field::Piece(q) && q.piece_type == PieceType::King,
        -1 <= di <= 1,
        -1 <= dj <= 1,
        !(di == 0 && dj == 0),
        landable(p.grid, at(p.grid, i, j)->Piece_0.color, i + di, j + dj),
    ensures
        legal_moves(p, i, j).contains(sq(i + di, j + dj)),
{
    let g = p.grid;
    let c = at(g, i, j)->Piece_0.color;
    let t = sq(i + di, j + dj);
    let h0 = hop(g, c, i, j, -1, -1);
    let h1 = hop(g, c, i, j, -1, 0);
    let h2 = hop(g, c, i, j, -1, 1);
    let h3 = hop(g, c, i, j, 0, -1);
    let h4 = hop(g, c, i, j, 0, 1);
    let h5 = hop(g, c, i, j, 1, -1);
    let h6 = hop(g, c, i, j, 1, 0);
    let h7 = hop(g, c, i, j, 1, 1);
    assert(hop(g, c, i, j, di, dj)[0] == t);
    assert(hop(g, c, i, j, di, dj).contains(t));
    assert(h0.contains(t) || h1.contains(t) || h2.contains(t) || h3.contains(t) || h4.contains(t)
        || h5.contains(t) || h6.contains(t) || h7.contains(t));
    if h0.contains(t) || h1.contains(t) {
        lemma_join_contains(h0, h1, t);
    }
    if (h0 + h1).contains(t) || h2.contains(t) {
        lemma_join_contains(h0 + h1, h2, t);
    }
    if (h0 + h1 + h2).contains(t) || h3.contains(t) {
        lemma_join_contains(h0 + h1 + h2, h3, t);
    }
    if (h0 + h1 + h2 + h3).contains(t) || h4.contains(t) {
        lemma_join_contains(h0 + h1 + h2 + h3, h4, t);
    }
    if (h0 + h1 + h2 + h3 + h4).contains(t) || h5.contains(t) {
        lemma_join_contains(h0 + h1 + h2 + h3 + h4, h5, t);
    }
    if (h0 + h1 + h2 + h3 + h4 + h5).contains(t) || h6.contains(t) {
        lemma_join_contains(h0 + h1 + h2 + h3 + h4 + h5, h6, t);
    }
    lemma_join_contains(h0 + h1 + h2 + h3 + h4 + h5 + h6, h7, t);
    assert(king_steps(g, c, i, j).contains(t));
    lemma_join_contains(king_steps(g, c, i, j), castling_moves(g, p.rights, c, i, j), t);
}

/// A square that lies `k` steps along a slide, with every square before it
/// empty, and that is itself empty or holds an enemy piece, is in the list
/// of the slide.
pub proof fn lemma_ray_complete(
    g: Grid,
    c: Color,
    i: int,
    j: int,
    di: int,
    dj: int,
    k: int,
)
    requires
        -1 <= di <= 1,
        -1 <= dj <= 1,
        !(di == 0 && dj == 0),
        1 <= k,
        on_board(ahead(i, di, k), ahead(j, dj, k)),
        clear_way(g, i, j, di, dj, k),
        landable(g, c, ahead(i, di, k), ahead(j, dj, k)),
    ensures
        ray(g, c, i, j, di, dj).contains(sq(ahead(i, di, k), ahead(j, dj, k))),
    decreases k,
{
    let ni = i + di;
    let nj = j + dj;
    let r = ray(g, c, i, j, di, dj);
    let t = sq(ahead(i, di, k), ahead(j, dj, k));
    assert(ahead(i, di, 1) == ni && ahead(j, dj, 1) == nj);
    if k == 1 {
        assert(r[0] == t);
    } else {
        assert(vacant(g, ahead(i, di, 1), ahead(j, dj, 1)));
        assert forall|m: int| 1 <= m < k - 1 implies #[trigger] vacant(
            g,
            ahead(ni, di, m),
            ahead(nj, dj, m),
        ) by {
            assert(vacant(g, ahead(i, di, m + 1), ahead(j, dj, m + 1)));
        }
        assert(ahead(i, di, k) == ahead(ni, di, k - 1) && ahead(j, dj, k) == ahead(nj, dj, k - 1));
        lemma_ray_complete(g, c, ni, nj, di, dj, k - 1);
        lemma_join_contains(seq![sq(ni, nj)], ray(g, c, ni, nj, di, dj), t);
    }
}

/// A square of the board that is in the list of a slide lies some `k`
/// steps along the slide, every square before it is empty, and it is
/// itself empty or holds an enemy piece.
pub proof fn lemma_ray_sound(
    g: Grid,
    c: Color,
    i: int,
    j: int,
    di: int,
    dj: int,
    a: int,
    b: int,
) -> (k: int)
    requires
        -1 <= di <= 1,
        -1 <= dj <= 1,
        on_board(a, b),
        ray(g, c, i, j, di, dj).contains(sq(a, b)),
    ensures
        1 <= k,
        a == ahead(i, di, k),
        b == ahead(j, dj, k),
        clear_way(g, i, j, di, dj, k),
        landable(g, c, a, b),
    decreases room(i, j, di, dj),
{
    let ni = i + di;
    let nj = j + dj;
    let r = ray(g, c, i, j, di, dj);
    let t = sq(a, b);
    let x = choose|x: int| 0 <= x < r.len() && r[x] == t;
    assert(ahead(i, di, 1) == ni && ahead(j, dj, 1) == nj);
    if x == 0 {
        assert(r[0] == sq(ni, nj));
        1
    } else {
        let rest = ray(g, c, ni, nj, di, dj);
        assert(rest[x - 1] == t);
        let k = lemma_ray_sound(g, c, ni, nj, di, dj, a, b);
        assert forall|m: int| 1 <= m < k + 1 implies #[trigger] vacant(
            g,
            ahead(i, di, m),
            ahead(j, dj, m),
        ) by {
            if m > 1 {
                assert(vacant(g, ahead(ni, di, m - 1), ahead(nj, dj, m - 1)));
            }
        }
        k + 1
    }
}

/// The list of a slide holds exactly the squares that the slide gets to:
/// a square of the board is in the list if and only if it lies in the
/// direction of the slide, every square before it is empty, and it is
/// itself empty or holds an enemy piece.
pub proof fn lemma_ray_reaches(
    g: Grid,
    c: Color,
    i: int,
    j: int,
    di: int,
    dj: int,
    a: int,
    b: int,
)
    requires
        -1 <= di <= 1,
        -1 <= dj <= 1,
        !(di == 0 && dj == 0),
        on_board(a, b),
    ensures
        ray(g, c, i, j, di, dj).contains(sq(a, b)) <==> slides_to(g, c, i, j, di, dj, a, b),
{
    if ray(g, c, i, j, di, dj).contains(sq(a, b)) {
        let k = lemma_ray_sound(g, c, i, j, di, dj, a, b);
        assert(clear_way(g, i, j, di, dj, k));
    }
    if slides_to(g, c, i, j, di, dj, a, b) {
        let k = choose|k: int|
            1 <= k && a == ahead(i, di, k) && b == ahead(j, dj, k) && #[trigger] clear_way(
                g,
                i,
                j,
                di,
                dj,
                k,
            ) && landable(g, c, a, b);
        lemma_ray_complete(g, c, i, j, di, dj, k);
    }
}

/// Looking from a square along a line, the first occupied square is what
/// is seen: if the square `k` steps away is occupied and every square
/// before it is empty, the look ends there.
pub proof fn lemma_first_hit_found(g: Grid, i: int, j: int, di: int, dj: int, k: int)
    requires
        -1 <= di <= 1,
        -1 <= dj <= 1,
        !(di == 0 && dj == 0),
        1 <= k,
        on_board(ahead(i, di, k), ahead(j, dj, k)),
        clear_way(g, i, j, di, dj, k),
        at(g, ahead(i, di, k), ahead(j, dj, k)) != Field::Empty,
    ensures
        first_hit(g, i, j, di, dj) == at(g, ahead(i, di, k), ahead(j, dj, k)),
    decreases k,
{
    let ni = i + di;
    let nj = j + dj;
    assert(ahead(i, di, 1) == ni && ahead(j, dj, 1) == nj);
    if k > 1 {
        assert(vacant(g, ahead(i, di, 1), ahead(j, dj, 1)));
        assert forall|m: int| 1 <= m < k - 1 implies #[trigger] vacant(
            g,
            ahead(ni, di, m),
            ahead(nj, dj, m),
        ) by {
            assert(vacant(g, ahead(i, di, m + 1), ahead(j, dj, m + 1)));
        }
        assert(ahead(i, di, k) == ahead(ni, di, k - 1) && ahead(j, dj, k) == ahead(nj, dj, k - 1));
        lemma_first_hit_found(g, ni, nj, di, dj, k - 1);
    }
}

/// What is seen along a line stands on a square of the board some `k`
/// steps away, with every square before it empty.
pub proof fn lemma_first_hit_sound(g: Grid, i: int, j: int, di: int, dj: int) -> (k: int)
    requires
        -1 <= di <= 1,
        -1 <= dj <= 1,
        first_hit(g, i, j, di, dj) != Field::Empty,
    ensures
        1 <= k,
        on_board(ahead(i, di, k), ahead(j, dj, k)),
        clear_way(g, i, j, di, dj, k),
        first_hit(g, i, j, di, dj) == at(g, ahead(i, di, k), ahead(j, dj, k)),
    decreases room(i, j, di, dj),
{
    let ni = i + di;
    let nj = j + dj;
    assert(ahead(i, di, 1) == ni && ahead(j, dj, 1) == nj);
    if at(g, ni, nj) == Field::Empty {
        let k = lemma_first_hit_sound(g, ni, nj, di, dj);
        assert forall|m: int| 1 <= m < k + 1 implies #[trigger] vacant(
            g,
            ahead(i, di, m),
            ahead(j, dj, m),
        ) by {
            if m > 1 {
                assert(vacant(g, ahead(ni, di, m - 1), ahead(nj, dj, m - 1)));
            }
        }
        k + 1
    } else {
        1
    }
}

} // verus!
