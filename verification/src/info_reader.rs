//! Reading back what `info_courier` writes: the meaning of a line of text
//! as a function on sequences of characters, and the proof that a written
//! game is read back as it was.

use vstd::prelude::*;
use vstd::string::*;
use crate::board::{letters_grid, ChessBoard, Piece};
use crate::logic::{ChessLogic, Winner};
use crate::board::man;
use crate::chessboard::{Color, Field, PieceType};
use crate::game::Game;
use crate::info_courier::{
    castling_text, decimal, digit_char, fen_text, field_char, gap, passing_text, rank_text,
    ranks_text,
};
use crate::movegen::Squares;
use crate::rules::{at, on_board, Grid, Rights};

verus! {

/// The first place at or after `from` where `s` holds `sep`; the length of
/// `s` if there is none.
pub open spec fn first_from(s: Seq<char>, from: int, sep: char) -> int
    decreases s.len() - from,
{
    if from >= s.len() {
        s.len() as int
    } else if s[from] == sep {
        from
    } else {
        first_from(s, from + 1, sep)
    }
}

/// The value of a digit character; none for any other character.
pub open spec fn digit_value(c: char) -> Option<int> {
    if c == '0' {
        Some(0int)
    } else if c == '1' {
        Some(1int)
    } else if c == '2' {
        Some(2int)
    } else if c == '3' {
        Some(3int)
    } else if c == '4' {
        Some(4int)
    } else if c == '5' {
        Some(5int)
    } else if c == '6' {
        Some(6int)
    } else if c == '7' {
        Some(7int)
    } else if c == '8' {
        Some(8int)
    } else if c == '9' {
        Some(9int)
    } else {
        None
    }
}

/// The number that `t` writes in decimal digits; none if `t` is empty or
/// holds anything but digits.
pub open spec fn number(t: Seq<char>) -> Option<nat>
    decreases t.len(),
{
    if t.len() == 0 {
        None
    } else if t.len() == 1 {
        match digit_value(t[0]) {
            Some(d) => Some(d as nat),
            None => None,
        }
    } else {
        match (number(t.drop_last()), digit_value(t.last())) {
            (Some(n), Some(d)) => Some((n * 10 + d) as nat),
            _ => None,
        }
    }
}

/// The square state that a character of a rank stands for, if it is a
/// letter: a piece, never promoted, or a marked square.
pub open spec fn letter_field(c: char) -> Option<Field> {
    if c == 'P' {
        Some(man(PieceType::Pawn, Color::White, false))
    } else if c == 'R' {
        Some(man(PieceType::Rook, Color::White, false))
    } else if c == 'N' {
        Some(man(PieceType::Knight, Color::White, false))
    } else if c == 'B' {
        Some(man(PieceType::Bishop, Color::White, false))
    } else if c == 'Q' {
        Some(man(PieceType::Queen, Color::White, false))
    } else if c == 'K' {
        Some(man(PieceType::King, Color::White, false))
    } else if c == 'p' {
        Some(man(PieceType::Pawn, Color::Black, false))
    } else if c == 'r' {
        Some(man(PieceType::Rook, Color::Black, false))
    } else if c == 'n' {
        Some(man(PieceType::Knight, Color::Black, false))
    } else if c == 'b' {
        Some(man(PieceType::Bishop, Color::Black, false))
    } else if c == 'q' {
        Some(man(PieceType::Queen, Color::Black, false))
    } else if c == 'k' {
        Some(man(PieceType::King, Color::Black, false))
    } else if c == 'L' {
        Some(Field::Legal)
    } else {
        None
    }
}

/// `n` empty squares.
pub open spec fn empties(n: int) -> Seq<Field> {
    Seq::new(n as nat, |k: int| Field::Empty)
}

/// The squares that the text of a rank stands for: a letter is one square,
/// a digit from 1 to 8 that many empty squares. None if the text holds
/// anything else.
pub open spec fn squares_of(t: Seq<char>) -> Option<Seq<Field>>
    decreases t.len(),
{
    if t.len() == 0 {
        Some(Seq::empty())
    } else {
        match squares_of(t.drop_last()) {
            None => None,
            Some(r) => match letter_field(t.last()) {
                Some(f) => Some(r.push(f)),
                None => match digit_value(t.last()) {
                    Some(d) => if 1 <= d <= 8 {
                        Some(r + empties(d))
                    } else {
                        None
                    },
                    None => None,
                },
            },
        }
    }
}

/// A square as it is read back: a piece has lost the mark of its
/// promotion, anything else is as it was.
pub open spec fn plain(f: Field) -> Field {
    match f {
        Field::Piece(x) => man(x.piece_type, x.color, false),
        _ => f,
    }
}

/// The squares of rank `i` of `g` from file `j` on, as they are read back.
pub open spec fn plain_rank(g: Grid, i: int, j: int) -> Seq<Field> {
    Seq::new((8 - j) as nat, |k: int| plain(at(g, i, j + k)))
}

/// Reading two texts one after the other gives the squares of the first
/// followed by those of the second.
pub proof fn lemma_squares_join(a: Seq<char>, b: Seq<char>)
    requires
        squares_of(a) is Some,
        squares_of(b) is Some,
    ensures
        squares_of(a + b) == Some(squares_of(a).unwrap() + squares_of(b).unwrap()),
    decreases b.len(),
{
    if b.len() == 0 {
        assert(a + b =~= a);
        assert(squares_of(a).unwrap() + squares_of(b).unwrap() =~= squares_of(a).unwrap());
    } else {
        assert((a + b).drop_last() =~= a + b.drop_last());
        assert((a + b).last() == b.last());
        lemma_squares_join(a, b.drop_last());
        let ra = squares_of(a).unwrap();
        let rb = squares_of(b.drop_last()).unwrap();
        match letter_field(b.last()) {
            Some(f) => {
                assert((ra + rb).push(f) =~= ra + rb.push(f));
            },
            None => {
                let d = digit_value(b.last()).unwrap();
                assert((ra + rb) + empties(d) =~= ra + (rb + empties(d)));
            },
        }
    }
}

/// A single character is read as its letter's square, or as a stretch of
/// empty squares.
pub proof fn lemma_squares_single(c: char)
    ensures
        letter_field(c) matches Some(f) ==> squares_of(seq![c]) == Some(seq![f]),
        letter_field(c) is None && (digit_value(c) matches Some(d) && 1 <= d <= 8)
            ==> squares_of(seq![c]) == Some(empties(digit_value(c).unwrap())),
{
    let t = seq![c];
    assert(t.drop_last() =~= Seq::<char>::empty());
    assert(squares_of(t.drop_last()) == Some(Seq::<Field>::empty()));
    assert(t.last() == c);
    if letter_field(c) is Some {
        assert(Seq::<Field>::empty().push(letter_field(c).unwrap()) =~= seq![
            letter_field(c).unwrap(),
        ]);
    } else if digit_value(c) matches Some(d) && 1 <= d <= 8 {
        assert(Seq::<Field>::empty() + empties(digit_value(c).unwrap()) =~= empties(
            digit_value(c).unwrap(),
        ));
    }
}

/// A written count of empty squares is read as that many empty squares.
pub proof fn lemma_gap_read(run: int)
    requires
        0 <= run <= 8,
    ensures
        squares_of(gap(run)) == Some(empties(run)),
{
    if run > 0 {
        lemma_squares_single(digit_char(run));
    } else {
        assert(empties(0) =~= Seq::<Field>::empty());
    }
}

/// A written square that is not empty is read as the same square without
/// the mark of a promotion.
pub proof fn lemma_letter_read(f: Field)
    requires
        f != Field::Empty,
    ensures
        letter_field(field_char(f)) == Some(plain(f)),
{
}

/// A written rank is read back square by square.
pub proof fn lemma_rank_read(g: Grid, i: int, j: int, run: int)
    requires
        0 <= j <= 8,
        0 <= run <= j,
    ensures
        squares_of(rank_text(g, i, j, run)) == Some(empties(run) + plain_rank(g, i, j)),
    decreases 8 - j,
{
    if j >= 8 {
        lemma_gap_read(run);
        assert(empties(run) + plain_rank(g, i, j) =~= empties(run));
    } else if at(g, i, j) == Field::Empty {
        lemma_rank_read(g, i, j + 1, run + 1);
        assert(empties(run + 1) + plain_rank(g, i, j + 1) =~= empties(run) + plain_rank(g, i, j));
    } else {
        let f = at(g, i, j);
        lemma_rank_read(g, i, j + 1, 0);
        lemma_gap_read(run);
        lemma_letter_read(f);
        lemma_squares_single(field_char(f));
        let head = gap(run).push(field_char(f));
        assert(head =~= gap(run) + seq![field_char(f)]);
        lemma_squares_join(gap(run), seq![field_char(f)]);
        lemma_squares_join(head, rank_text(g, i, j + 1, 0));
        assert((empties(run) + seq![plain(f)]) + (empties(0) + plain_rank(g, i, j + 1))
            =~= empties(run) + plain_rank(g, i, j));
    }
}

/// A written number is read back as it was.
pub proof fn lemma_number_read(n: nat)
    ensures
        number(decimal(n)) == Some(n),
        decimal(n).len() >= 1,
    decreases n,
{
    if n < 10 {
        assert(decimal(n).len() == 1);
        assert(digit_value(digit_char(n as int)) == Some(n as int));
    } else {
        lemma_number_read(n / 10);
        let t = decimal(n);
        assert(t.drop_last() =~= decimal(n / 10));
        assert(t.last() == digit_char((n % 10) as int));
        assert(digit_value(digit_char((n % 10) as int)) == Some((n % 10) as int));
        assert(t.len() >= 2);
    }
}

/// What a line of text says of a game.
pub struct Sheet {
    pub grid: Grid,
    pub white_active: bool,
    pub rights: Rights,
    pub last_pawn: Option<(usize, usize)>,
    pub half_moves: nat,
    pub full_moves: nat,
}

/// The ranks that `t` writes from place `from` on, `n` of them, separated
/// by slashes and each eight squares long. None if `t` is anything else.
pub open spec fn rows_from(t: Seq<char>, from: int, n: nat) -> Option<Grid>
    decreases n,
{
    let end = first_from(t, from, '/');
    if n == 0 || from > t.len() {
        None
    } else {
        match squares_of(t.subrange(from, end)) {
            Some(r) => if r.len() != 8 {
                None
            } else if n == 1 {
                if end == t.len() {
                    Some(seq![r])
                } else {
                    None
                }
            } else {
                match rows_from(t, end + 1, (n - 1) as nat) {
                    Some(rs) => Some(seq![r] + rs),
                    None => None,
                }
            },
            None => None,
        }
    }
}

/// The colour to move that `t` writes: `w` or `b`.
pub open spec fn active_of(t: Seq<char>) -> Option<bool> {
    if t =~= seq!['w'] {
        Some(true)
    } else if t =~= seq!['b'] {
        Some(false)
    } else {
        None
    }
}

/// The moved-flags that four castling letters stand for: a rook counts as
/// moved where its letter is replaced by a dash, a king where both letters
/// of its colour are.
pub open spec fn rights_of(t: Seq<char>) -> Option<Rights> {
    if t.len() == 4 && (t[0] == 'K' || t[0] == '-') && (t[1] == 'Q' || t[1] == '-') && (t[2]
        == 'k' || t[2] == '-') && (t[3] == 'q' || t[3] == '-') {
        Some(
            Rights {
                white_king_moved: t[0] == '-' && t[1] == '-',
                white_rook_short_moved: t[0] == '-',
                white_rook_long_moved: t[1] == '-',
                black_king_moved: t[2] == '-' && t[3] == '-',
                black_rook_short_moved: t[2] == '-',
                black_rook_long_moved: t[3] == '-',
            },
        )
    } else {
        None
    }
}

/// The pawn that may be captured in passing, from the square written
/// behind it: a dash for none, else a file letter with `6` for a pawn on
/// rank 3 or `3` for a pawn on rank 4.
pub open spec fn passing_of(t: Seq<char>) -> Option<Option<(usize, usize)>> {
    if t =~= seq!['-'] {
        Some(None)
    } else if t.len() == 2 && crate::parser::file_of(t[0]) is Some && t[1] == '6' {
        Some(Some((3usize, crate::parser::file_of(t[0]).unwrap())))
    } else if t.len() == 2 && crate::parser::file_of(t[0]) is Some && t[1] == '3' {
        Some(Some((4usize, crate::parser::file_of(t[0]).unwrap())))
    } else {
        None
    }
}

/// What the line `s` says of a game: it has to consist of six parts
/// separated by single blanks, namely the ranks, the colour to move, the
/// castling letters, the square for a capture in passing, the half-move
/// clock and the number of the full move. None if `s` is anything else.
pub open spec fn sheet_of(s: Seq<char>) -> Option<Sheet> {
    let e0 = first_from(s, 0, ' ');
    let e1 = first_from(s, e0 + 1, ' ');
    let e2 = first_from(s, e1 + 1, ' ');
    let e3 = first_from(s, e2 + 1, ' ');
    let e4 = first_from(s, e3 + 1, ' ');
    let e5 = first_from(s, e4 + 1, ' ');
    if e4 < s.len() && e5 == s.len() {
        match (
            rows_from(s.subrange(0, e0), 0, 8),
            active_of(s.subrange(e0 + 1, e1)),
            rights_of(s.subrange(e1 + 1, e2)),
            passing_of(s.subrange(e2 + 1, e3)),
            number(s.subrange(e3 + 1, e4)),
            number(s.subrange(e4 + 1, e5)),
        ) {
            (Some(grid), Some(white_active), Some(rights), Some(last_pawn), Some(h), Some(f)) => {
                Some(
                    Sheet {
                        grid,
                        white_active,
                        rights,
                        last_pawn,
                        half_moves: h,
                        full_moves: f,
                    },
                )
            },
            _ => None,
        }
    } else {
        None
    }
}

/// The text `t` does not hold the character `c`.
pub open spec fn free_of(t: Seq<char>, c: char) -> bool {
    forall|k: int| 0 <= k < t.len() ==> #[trigger] t[k] != c
}

/// Where a part that is free of the separator is followed by the separator
/// or by the end of the text, the part ends where the search from its
/// start stops.
pub proof fn lemma_part_end(s: Seq<char>, from: int, len: int, sep: char)
    requires
        0 <= from,
        0 <= len,
        from + len <= s.len(),
        free_of(s.subrange(from, from + len), sep),
        from + len == s.len() || s[from + len] == sep,
    ensures
        first_from(s, from, sep) == from + len,
    decreases len,
{
    if len > 0 {
        assert(s.subrange(from, from + len)[0] == s[from]);
        let inner = s.subrange(from + 1, from + len);
        assert forall|k: int| 0 <= k < inner.len() implies #[trigger] inner[k] != sep by {
            assert(s.subrange(from, from + len)[k + 1] == s[from + 1 + k]);
        }
        lemma_part_end(s, from + 1, len - 1, sep);
    }
}

/// The text of a rank holds neither a blank nor a slash.
pub proof fn lemma_rank_text_clean(g: Grid, i: int, j: int, run: int)
    requires
        0 <= j <= 8,
        0 <= run <= j,
    ensures
        free_of(rank_text(g, i, j, run), ' '),
        free_of(rank_text(g, i, j, run), '/'),
    decreases 8 - j,
{
    if j >= 8 {
    } else if at(g, i, j) == Field::Empty {
        lemma_rank_text_clean(g, i, j + 1, run + 1);
    } else {
        lemma_rank_text_clean(g, i, j + 1, 0);
        let head = gap(run).push(field_char(at(g, i, j)));
        let rest = rank_text(g, i, j + 1, 0);
        assert forall|k: int| 0 <= k < (head + rest).len() implies (head + rest)[k] != ' ' && (
        head + rest)[k] != '/' by {
            if k < head.len() {
                assert((head + rest)[k] == head[k]);
            } else {
                assert((head + rest)[k] == rest[k - head.len()]);
            }
        }
    }
}

/// The text of the ranks holds no blank.
pub proof fn lemma_ranks_text_clean(g: Grid, i: int)
    requires
        0 <= i <= 7,
    ensures
        free_of(ranks_text(g, i), ' '),
    decreases 8 - i,
{
    lemma_rank_text_clean(g, i, 0, 0);
    if i < 7 {
        lemma_ranks_text_clean(g, i + 1);
        let head = rank_text(g, i, 0, 0).push('/');
        let rest = ranks_text(g, i + 1);
        assert forall|k: int| 0 <= k < (head + rest).len() implies (head + rest)[k] != ' ' by {
            if k < head.len() {
                assert((head + rest)[k] == head[k]);
            } else {
                assert((head + rest)[k] == rest[k - head.len()]);
            }
        }
    }
}

/// A written number holds no blank.
pub proof fn lemma_decimal_clean(n: nat)
    ensures
        free_of(decimal(n), ' '),
    decreases n,
{
    if n >= 10 {
        lemma_decimal_clean(n / 10);
    }
}

/// The squares of `g` from rank `i` on, as they are read back.
pub open spec fn plain_rows(g: Grid, i: int) -> Grid {
    Seq::new((8 - i) as nat, |k: int| plain_rank(g, i + k, 0))
}

/// The written ranks, wherever they stand in a text that ends with them,
/// are read back rank by rank.
pub proof fn lemma_rows_read(pre: Seq<char>, g: Grid, i: int)
    requires
        0 <= i <= 7,
    ensures
        rows_from(pre + ranks_text(g, i), pre.len() as int, (8 - i) as nat) == Some(
            plain_rows(g, i),
        ),
    decreases 8 - i,
{
    let row = rank_text(g, i, 0, 0);
    let t = pre + ranks_text(g, i);
    let from = pre.len() as int;
    lemma_rank_text_clean(g, i, 0, 0);
    lemma_rank_read(g, i, 0, 0);
    assert(empties(0) + plain_rank(g, i, 0) =~= plain_rank(g, i, 0));
    if i == 7 {
        assert(t.subrange(from, from + row.len()) =~= row);
        lemma_part_end(t, from, row.len() as int, '/');
        assert(seq![plain_rank(g, i, 0)] =~= plain_rows(g, i));
    } else {
        let rest = ranks_text(g, i + 1);
        assert(t =~= (pre + row.push('/')) + rest);
        assert(t.subrange(from, from + row.len()) =~= row);
        assert(t[from + row.len()] == '/');
        lemma_part_end(t, from, row.len() as int, '/');
        lemma_rows_read(pre + row.push('/'), g, i + 1);
        assert(seq![plain_rank(g, i, 0)] + plain_rows(g, i + 1) =~= plain_rows(g, i));
    }
}

/// The pawn that a written line still names as the one that may be
/// captured in passing: the game's own, if it stands on a file of the board
/// and on rank 3 or 4.
pub open spec fn written_pawn(last: Option<(usize, usize)>) -> Option<(usize, usize)> {
    match last {
        Some(l) => if l.1 < 8 && (l.0 == 3 || l.0 == 4) {
            Some(l)
        } else {
            None
        },
        None => None,
    }
}

/// Six texts free of blanks, joined by single blanks, are found again as
/// the six parts of the line.
pub proof fn lemma_six_parts(
    a: Seq<char>,
    b: Seq<char>,
    c: Seq<char>,
    d: Seq<char>,
    e: Seq<char>,
    f: Seq<char>,
)
    requires
        free_of(a, ' '),
        free_of(b, ' '),
        free_of(c, ' '),
        free_of(d, ' '),
        free_of(e, ' '),
        free_of(f, ' '),
    ensures
        ({
            let t = a + seq![' '] + b + seq![' '] + c + seq![' '] + d + seq![' '] + e + seq![' ']
                + f;
            let e0 = first_from(t, 0, ' ');
            let e1 = first_from(t, e0 + 1, ' ');
            let e2 = first_from(t, e1 + 1, ' ');
            let e3 = first_from(t, e2 + 1, ' ');
            let e4 = first_from(t, e3 + 1, ' ');
            let e5 = first_from(t, e4 + 1, ' ');
            &&& e4 < t.len()
            &&& e5 == t.len()
            &&& t.subrange(0, e0) == a
            &&& t.subrange(e0 + 1, e1) == b
            &&& t.subrange(e1 + 1, e2) == c
            &&& t.subrange(e2 + 1, e3) == d
            &&& t.subrange(e3 + 1, e4) == e
            &&& t.subrange(e4 + 1, e5) == f
        }),
{
    let t = a + seq![' '] + b + seq![' '] + c + seq![' '] + d + seq![' '] + e + seq![' '] + f;
    let e0 = a.len() as int;
    let e1 = e0 + 1 + b.len();
    let e2 = e1 + 1 + c.len();
    let e3 = e2 + 1 + d.len();
    let e4 = e3 + 1 + e.len();
    let e5 = e4 + 1 + f.len();
    assert(e5 == t.len());
    assert(t.subrange(0, e0) =~= a);
    assert(t.subrange(e0 + 1, e1) =~= b);
    assert(t.subrange(e1 + 1, e2) =~= c);
    assert(t.subrange(e2 + 1, e3) =~= d);
    assert(t.subrange(e3 + 1, e4) =~= e);
    assert(t.subrange(e4 + 1, e5) =~= f);
    assert(t[e0] == ' ' && t[e1] == ' ' && t[e2] == ' ' && t[e3] == ' ' && t[e4] == ' ');
    lemma_part_end(t, 0, a.len() as int, ' ');
    lemma_part_end(t, e0 + 1, b.len() as int, ' ');
    lemma_part_end(t, e1 + 1, c.len() as int, ' ');
    lemma_part_end(t, e2 + 1, d.len() as int, ' ');
    lemma_part_end(t, e3 + 1, e.len() as int, ' ');
    lemma_part_end(t, e4 + 1, f.len() as int, ' ');
}

/// The written castling letters are read as flags that allow the same
/// castlings.
pub proof fn lemma_rights_read(g: Game)
    ensures
        rights_of(castling_text(g)) matches Some(r) && {
            &&& (!r.white_king_moved && !r.white_rook_short_moved) == (
            !g.board.rights().white_king_moved && !g.board.rights().white_rook_short_moved)
            &&& (!r.white_king_moved && !r.white_rook_long_moved) == (
            !g.board.rights().white_king_moved && !g.board.rights().white_rook_long_moved)
            &&& (!r.black_king_moved && !r.black_rook_short_moved) == (
            !g.board.rights().black_king_moved && !g.board.rights().black_rook_short_moved)
            &&& (!r.black_king_moved && !r.black_rook_long_moved) == (
            !g.board.rights().black_king_moved && !g.board.rights().black_rook_long_moved)
        },
        free_of(castling_text(g), ' '),
{
}

/// The written square for a capture in passing is read as the pawn it
/// stands behind.
pub proof fn lemma_passing_read(last: Option<(usize, usize)>)
    ensures
        passing_of(passing_text(last)) == Some(written_pawn(last)),
        free_of(passing_text(last), ' '),
{
}

/// A game that is written down and read back is the game it was in its
/// squares, apart from the marks of promotions, in the colour to move and
/// in both clocks. The castlings that its flags allow and the pawn that
/// may be captured in passing, where it stands on rank 3 or 4, come back
/// as well.
pub proof fn lemma_round_trip(g: Game)
    ensures
        sheet_of(fen_text(g)) matches Some(sh) && {
            &&& sh.grid == plain_rows(g.board.grid(), 0)
            &&& forall|i: int, j: int|
                on_board(i, j) ==> #[trigger] at(sh.grid, i, j) == plain(
                    at(g.board.grid(), i, j),
                )
            &&& sh.white_active == g.white_active
            &&& sh.half_moves == g.half_moves_last_capture
            &&& sh.full_moves == g.movectr
            &&& sh.last_pawn == written_pawn(g.pawn_in_last_turn)
            &&& (!sh.rights.white_king_moved && !sh.rights.white_rook_short_moved) == (
            !g.board.rights().white_king_moved && !g.board.rights().white_rook_short_moved)
            &&& (!sh.rights.white_king_moved && !sh.rights.white_rook_long_moved) == (
            !g.board.rights().white_king_moved && !g.board.rights().white_rook_long_moved)
            &&& (!sh.rights.black_king_moved && !sh.rights.black_rook_short_moved) == (
            !g.board.rights().black_king_moved && !g.board.rights().black_rook_short_moved)
            &&& (!sh.rights.black_king_moved && !sh.rights.black_rook_long_moved) == (
            !g.board.rights().black_king_moved && !g.board.rights().black_rook_long_moved)
        },
{
    let grid = g.board.grid();
    let a = ranks_text(grid, 0);
    let b = seq![if g.white_active {
        'w'
    } else {
        'b'
    }];
    let c = castling_text(g);
    let d = passing_text(g.pawn_in_last_turn);
    let e = decimal(g.half_moves_last_capture as nat);
    let f = decimal(g.movectr as nat);
    let t = a + seq![' '] + b + seq![' '] + c + seq![' '] + d + seq![' '] + e + seq![' '] + f;
    assert(fen_text(g) =~= t);
    lemma_ranks_text_clean(grid, 0);
    lemma_decimal_clean(g.half_moves_last_capture as nat);
    lemma_decimal_clean(g.movectr as nat);
    lemma_number_read(g.half_moves_last_capture as nat);
    lemma_number_read(g.movectr as nat);
    lemma_rights_read(g);
    lemma_passing_read(g.pawn_in_last_turn);
    assert(free_of(b, ' '));
    assert(active_of(b) == Some(g.white_active)) by {
        if g.white_active {
            assert(b =~= seq!['w']);
        } else {
            assert(b =~= seq!['b']);
            assert(b[0] != 'w');
        }
    }
    lemma_six_parts(a, b, c, d, e, f);
    lemma_rows_read(Seq::empty(), grid, 0);
    assert(Seq::<char>::empty() + a =~= a);
    let sh = sheet_of(t).unwrap();
    assert(sh.grid == plain_rows(grid, 0));
    assert forall|i: int, j: int| on_board(i, j) implies #[trigger] at(sh.grid, i, j) == plain(
        at(grid, i, j),
    ) by {
        assert(plain_rows(grid, 0)[i] == plain_rank(grid, i, 0));
        assert(plain_rank(grid, i, 0)[j] == plain(at(grid, i, j)));
    }
}

/// The characters of a string.
pub fn chars_of(text: &String) -> (v: Vec<char>)
    ensures
        v@ == text@,
{
    let t = text.as_str();
    let n = t.unicode_len();
    let mut v: Vec<char> = Vec::new();
    let mut k: usize = 0;
    while k < n
        invariant
            k <= n,
            n == t@.len(),
            v@ == t@.subrange(0, k as int),
        decreases n - k,
    {
        v.push(t.get_char(k));
        assert(v@ =~= t@.subrange(0, k as int + 1));
        k += 1;
    }
    assert(t@.subrange(0, n as int) =~= t@);
    v
}

/// The first place at or after `from` where `v` holds `sep`; the length of
/// `v` if there is none.
pub fn find(v: &Vec<char>, from: usize, sep: char) -> (r: usize)
    ensures
        r == first_from(v@, from as int, sep),
        r <= v@.len(),
        from <= v@.len() ==> from <= r,
{
    let mut k = from;
    while k < v.len() && v[k] != sep
        invariant
            from <= k,
            first_from(v@, k as int, sep) == first_from(v@, from as int, sep),
        decreases v.len() - k,
    {
        k += 1;
    }
    if k >= v.len() {
        v.len()
    } else {
        k
    }
}

/// The characters of `v` from place `a` up to place `b`.
pub fn slice(v: &Vec<char>, a: usize, b: usize) -> (r: Vec<char>)
    requires
        a <= b <= v@.len(),
    ensures
        r@ == v@.subrange(a as int, b as int),
{
    let mut r: Vec<char> = Vec::new();
    let mut k = a;
    while k < b
        invariant
            a <= k <= b <= v@.len(),
            r@ == v@.subrange(a as int, k as int),
        decreases b - k,
    {
        r.push(v[k]);
        assert(r@ =~= v@.subrange(a as int, k as int + 1));
        k += 1;
    }
    r
}

/// The value of a digit character.
pub fn digit_of_char(c: char) -> (r: Option<usize>)
    ensures
        r matches Some(d) ==> digit_value(c) == Some(d as int),
        r is None ==> digit_value(c) is None,
{
    match c {
        '0' => Some(0),
        '1' => Some(1),
        '2' => Some(2),
        '3' => Some(3),
        '4' => Some(4),
        '5' => Some(5),
        '6' => Some(6),
        '7' => Some(7),
        '8' => Some(8),
        '9' => Some(9),
        _ => None,
    }
}

/// Where a text writes a number, so does each of its beginnings, and a
/// smaller or equal one.
pub proof fn lemma_number_grows(t: Seq<char>, k: int)
    requires
        1 <= k <= t.len(),
        number(t) is Some,
    ensures
        number(t.subrange(0, k)) is Some,
        number(t.subrange(0, k)).unwrap() <= number(t).unwrap(),
    decreases t.len() - k,
{
    if k == t.len() {
        assert(t.subrange(0, k) =~= t);
    } else {
        assert(t.len() >= 2);
        lemma_number_grows(t.drop_last(), k);
        assert(t.drop_last().subrange(0, k) =~= t.subrange(0, k));
    }
}

/// The number that `t` writes in decimal digits, if it writes one that a
/// machine word can hold.
pub fn parse_int_str(t: &Vec<char>) -> (r: Option<usize>)
    ensures
        r matches Some(n) ==> number(t@) == Some(n as nat),
        r is None ==> number(t@) is None || number(t@).unwrap() > usize::MAX,
{
    if t.len() == 0 {
        return None;
    }
    let mut acc: usize = match digit_of_char(t[0]) {
        Some(d) => d,
        None => {
            proof {
                if number(t@) is Some {
                    lemma_number_grows(t@, 1);
                }
            }
            return None;
        },
    };
    assert(t@.subrange(0, 1).len() == 1);
    let mut k: usize = 1;
    while k < t.len()
        invariant
            1 <= k <= t.len(),
            number(t@.subrange(0, k as int)) == Some(acc as nat),
        decreases t.len() - k,
    {
        let ghost next = t@.subrange(0, k as int + 1);
        proof {
            assert(next.drop_last() =~= t@.subrange(0, k as int));
            assert(next.last() == t@[k as int]);
            if number(t@) is Some {
                lemma_number_grows(t@, k as int + 1);
            }
        }
        let d = match digit_of_char(t[k]) {
            Some(d) => d,
            None => {
                return None;
            },
        };
        if acc > (usize::MAX - d) / 10 {
            assert(acc * 10 + d > usize::MAX);
            return None;
        }
        acc = acc * 10 + d;
        k += 1;
    }
    assert(t@.subrange(0, k as int) =~= t@);
    Some(acc)
}

/// The letter that a character of a rank stands for, if it is one.
pub fn letter_of_char(c: char) -> (r: Option<Piece>)
    ensures
        r matches Some(l) ==> letter_field(c) == Some(l.field()),
        r is None ==> letter_field(c) is None,
{
    match c {
        'P' => Some(Piece::P),
        'R' => Some(Piece::R),
        'N' => Some(Piece::N),
        'B' => Some(Piece::B),
        'Q' => Some(Piece::Q),
        'K' => Some(Piece::K),
        'p' => Some(Piece::p),
        'r' => Some(Piece::r),
        'n' => Some(Piece::n),
        'b' => Some(Piece::b),
        'q' => Some(Piece::q),
        'k' => Some(Piece::k),
        'L' => Some(Piece::L),
        _ => None,
    }
}

/// Where a text is read as squares, so is each of its beginnings.
pub proof fn lemma_squares_begin(t: Seq<char>, k: int)
    requires
        0 <= k <= t.len(),
        squares_of(t) is Some,
    ensures
        squares_of(t.subrange(0, k)) is Some,
    decreases t.len() - k,
{
    if k == t.len() {
        assert(t.subrange(0, k) =~= t);
    } else {
        lemma_squares_begin(t.drop_last(), k);
        assert(t.drop_last().subrange(0, k) =~= t.subrange(0, k));
    }
}

/// The squares that the text of a rank stands for, as letters.
pub fn read_line(t: &Vec<char>) -> (r: Option<Vec<Piece>>)
    ensures
        match r {
            Some(row) => squares_of(t@) matches Some(fields) && fields.len() == row@.len()
                && forall|x: int| 0 <= x < row@.len() ==> (#[trigger] row@[x]).field() == fields[x],
            None => squares_of(t@) is None,
        },
{
    let mut row: Vec<Piece> = Vec::new();
    let ghost mut fields: Seq<Field> = Seq::empty();
    let mut k: usize = 0;
    while k < t.len()
        invariant
            k <= t.len(),
            squares_of(t@.subrange(0, k as int)) == Some(fields),
            fields.len() == row@.len(),
            forall|x: int| 0 <= x < row@.len() ==> (#[trigger] row@[x]).field() == fields[x],
        decreases t.len() - k,
    {
        let ghost next = t@.subrange(0, k as int + 1);
        proof {
            assert(next.drop_last() =~= t@.subrange(0, k as int));
            assert(next.last() == t@[k as int]);
            if squares_of(t@) is Some {
                lemma_squares_begin(t@, k as int + 1);
            }
        }
        match letter_of_char(t[k]) {
            Some(l) => {
                row.push(l);
                proof {
                    fields = fields.push(l.field());
                }
            },
            None => {
                let d = match digit_of_char(t[k]) {
                    Some(d) => d,
                    None => {
                        return None;
                    },
                };
                if d < 1 || d > 8 {
                    return None;
                }
                let ghost before = fields;
                let mut e: usize = 0;
                while e < d
                    invariant
                        e <= d,
                        fields =~= before + empties(e as int),
                        fields.len() == row@.len(),
                        forall|x: int|
                            0 <= x < row@.len() ==> (#[trigger] row@[x]).field() == fields[x],
                    decreases d - e,
                {
                    row.push(Piece::E);
                    proof {
                        fields = fields.push(Field::Empty);
                    }
                    e += 1;
                }
            },
        }
        k += 1;
    }
    assert(t@.subrange(0, k as int) =~= t@);
    Some(row)
}

/// The eight ranks that `t` writes, as a board of letters.
pub fn read_rows(t: &Vec<char>) -> (r: Option<[[Piece; 8]; 8]>)
    ensures
        match r {
            Some(board) => rows_from(t@, 0, 8) == Some(letters_grid(board)),
            None => rows_from(t@, 0, 8) is None,
        },
{
    let mut board = [[Piece::E;8];8];
    let ghost mut done: Grid = Seq::empty();
    let mut from: usize = 0;
    let mut i: usize = 0;
    while i < 8
        invariant
            i <= 8,
            from <= t@.len() + 1,
            done.len() == i,
            i == 8 ==> rows_from(t@, 0, 8) == Some(done),
            i < 8 ==> rows_from(t@, 0, 8) == match rows_from(t@, from as int, (8 - i) as nat) {
                Some(rs) => Some(done + rs),
                None => None,
            },
            forall|a: int| 0 <= a < i ==> (#[trigger] done[a]).len() == 8,
            forall|a: int, d: int|
                0 <= a < i && 0 <= d < 8 ==> (#[trigger] board[a][d]).field() == done[a][d],
        decreases 8 - i,
    {
        if from > t.len() {
            return None;
        }
        let end = find(t, from, '/');
        let part = slice(t, from, end);
        let row = match read_line(&part) {
            Some(row) => row,
            None => {
                return None;
            },
        };
        if row.len() != 8 {
            return None;
        }
        if i == 7 && end != t.len() {
            return None;
        }
        let ghost fields = squares_of(part@).unwrap();
        let mut j: usize = 0;
        while j < 8
            invariant
                j <= 8,
                i < 8,
                row@.len() == 8,
                done.len() == i,
                forall|a: int| 0 <= a < i ==> (#[trigger] done[a]).len() == 8,
                forall|a: int, d: int|
                    0 <= a < i && 0 <= d < 8 ==> (#[trigger] board[a][d]).field() == done[a][d],
                forall|d: int| 0 <= d < j ==> (#[trigger] board[i as int][d]) == row@[d],
            decreases 8 - j,
        {
            board[i][j] = row[j];
            j += 1;
        }
        proof {
            let before = done;
            done = done.push(fields);
            if i < 7 {
                let rest = rows_from(t@, end as int + 1, (7 - i) as nat);
                if rest is Some {
                    assert(before + (seq![fields] + rest.unwrap()) =~= done + rest.unwrap());
                }
            } else {
                assert(before + seq![fields] =~= done);
            }
        }
        if i < 7 {
            if end >= t.len() {
                return None;
            }
            from = end + 1;
        }
        i += 1;
    }
    assert(letters_grid(board) =~~= done);
    Some(board)
}

/// The colour to move that `t` writes; `true` is White.
pub fn read_active(t: &Vec<char>) -> (r: Option<bool>)
    ensures
        r == active_of(t@),
{
    if t.len() == 1 && t[0] == 'w' {
        Some(true)
    } else if t.len() == 1 && t[0] == 'b' {
        Some(false)
    } else {
        None
    }
}

/// The moved-flags that four castling letters stand for.
pub fn read_rights(t: &Vec<char>) -> (r: Option<Rights>)
    ensures
        r == rights_of(t@),
{
    if t.len() == 4 && (t[0] == 'K' || t[0] == '-') && (t[1] == 'Q' || t[1] == '-') && (t[2] == 'k'
        || t[2] == '-') && (t[3] == 'q' || t[3] == '-') {
        Some(
            Rights {
                white_king_moved: t[0] == '-' && t[1] == '-',
                white_rook_short_moved: t[0] == '-',
                white_rook_long_moved: t[1] == '-',
                black_king_moved: t[2] == '-' && t[3] == '-',
                black_rook_short_moved: t[2] == '-',
                black_rook_long_moved: t[3] == '-',
            },
        )
    } else {
        None
    }
}

/// The pawn that may be captured in passing, from the square written
/// behind it.
pub fn read_passing(t: &Vec<char>) -> (r: Option<Option<(usize, usize)>>)
    ensures
        r == passing_of(t@),
{
    if t.len() == 1 && t[0] == '-' {
        return Some(None);
    }
    if t.len() == 2 {
        if let Some(file) = crate::parser::char2ind(t[0]) {
            if t[1] == '6' {
                return Some(Some((3, file)));
            } else if t[1] == '3' {
                return Some(Some((4, file)));
            }
        }
    }
    None
}

/// The game `g` is the one that the sheet describes, with nothing in its
/// pools, no promotion chosen and no outcome yet.
pub open spec fn agrees(g: Game, sh: Sheet) -> bool {
    &&& g.board.grid() == sh.grid
    &&& g.board.rights() == sh.rights
    &&& g.pawn_in_last_turn == sh.last_pawn
    &&& g.white_active == sh.white_active
    &&& g.half_moves_last_capture == sh.half_moves
    &&& g.movectr == sh.full_moves
    &&& g.upgrade_to == Piece::E
    &&& g.winner == Winner::N
    &&& g.white_capture@ == seq![0u8, 0u8, 0u8, 0u8, 0u8]
    &&& g.black_capture@ == seq![0u8, 0u8, 0u8, 0u8, 0u8]
}

/// Reads the line that describes one game. The line is refused if it is
/// not such a line, or if one of its two numbers is too large for a
/// machine word.
pub fn read_game(line: &Vec<char>) -> (r: Option<Game>)
    ensures
        match r {
            Some(g) => sheet_of(line@) matches Some(sh) && agrees(g, sh),
            None => sheet_of(line@) matches Some(sh) ==> sh.half_moves > usize::MAX
                || sh.full_moves > usize::MAX,
        },
{
    let n = line.len();
    let e0 = find(line, 0, ' ');
    if e0 >= n {
        return None;
    }
    let e1 = find(line, e0 + 1, ' ');
    if e1 >= n {
        return None;
    }
    let e2 = find(line, e1 + 1, ' ');
    if e2 >= n {
        return None;
    }
    let e3 = find(line, e2 + 1, ' ');
    if e3 >= n {
        return None;
    }
    let e4 = find(line, e3 + 1, ' ');
    if e4 >= n {
        return None;
    }
    let e5 = find(line, e4 + 1, ' ');
    if e5 != n {
        return None;
    }
    let rows = match read_rows(&slice(line, 0, e0)) {
        Some(x) => x,
        None => {
            return None;
        },
    };
    let white_active = match read_active(&slice(line, e0 + 1, e1)) {
        Some(x) => x,
        None => {
            return None;
        },
    };
    let rights = match read_rights(&slice(line, e1 + 1, e2)) {
        Some(x) => x,
        None => {
            return None;
        },
    };
    let last = match read_passing(&slice(line, e2 + 1, e3)) {
        Some(x) => x,
        None => {
            return None;
        },
    };
    let half = match parse_int_str(&slice(line, e3 + 1, e4)) {
        Some(x) => x,
        None => {
            return None;
        },
    };
    let full = match parse_int_str(&slice(line, e4 + 1, e5)) {
        Some(x) => x,
        None => {
            return None;
        },
    };
    let mut board = ChessBoard {
        board: rows,
        white_k_moved: false,
        black_k_moved: false,
        white_rook_q_moved: false,
        white_rook_k_moved: false,
        black_rook_q_moved: false,
        black_rook_k_moved: false,
    };
    board.set_moved_flags(rights);
    let g = Game {
        board,
        pawn_in_last_turn: last,
        white_active,
        upgrade_to: Piece::E,
        half_moves_last_capture: half,
        movectr: full,
        white_capture: [0, 0, 0, 0, 0],
        black_capture: [0, 0, 0, 0, 0],
        winner: Winner::N,
    };
    assert(g.white_capture@ =~= seq![0u8, 0u8, 0u8, 0u8, 0u8]);
    assert(g.black_capture@ =~= seq![0u8, 0u8, 0u8, 0u8, 0u8]);
    Some(g)
}

/// The pool slot that a letter of a pool stands for, in either case: pawn,
/// rook, knight, bishop, queen.
pub open spec fn slot_of(c: char) -> Option<int> {
    if c == 'P' || c == 'p' {
        Some(0int)
    } else if c == 'R' || c == 'r' {
        Some(1int)
    } else if c == 'N' || c == 'n' {
        Some(2int)
    } else if c == 'B' || c == 'b' {
        Some(3int)
    } else if c == 'Q' || c == 'q' {
        Some(4int)
    } else {
        None
    }
}

/// How many pieces of each kind the letters of `t` name; none if `t` holds
/// anything but letters of pooled pieces.
pub open spec fn tally(t: Seq<char>) -> Option<Seq<int>>
    decreases t.len(),
{
    if t.len() == 0 {
        Some(seq![0int, 0int, 0int, 0int, 0int])
    } else {
        match (tally(t.drop_last()), slot_of(t.last())) {
            (Some(a), Some(x)) => Some(a.update(x, a[x] + 1)),
            _ => None,
        }
    }
}

/// A tally has five counts, none of them negative.
pub proof fn lemma_tally_shape(t: Seq<char>)
    requires
        tally(t) is Some,
    ensures
        tally(t).unwrap().len() == 5,
        forall|x: int| 0 <= x < 5 ==> #[trigger] tally(t).unwrap()[x] >= 0,
    decreases t.len(),
{
    if t.len() > 0 {
        lemma_tally_shape(t.drop_last());
    }
}

/// Where a text has a tally, so does each of its beginnings, and no count
/// of it is larger.
pub proof fn lemma_tally_grows(t: Seq<char>, k: int)
    requires
        0 <= k <= t.len(),
        tally(t) is Some,
    ensures
        tally(t.subrange(0, k)) is Some,
        forall|x: int|
            0 <= x < 5 ==> #[trigger] tally(t.subrange(0, k)).unwrap()[x] <= tally(t).unwrap()[x],
    decreases t.len() - k,
{
    if k == t.len() {
        assert(t.subrange(0, k) =~= t);
    } else {
        lemma_tally_grows(t.drop_last(), k);
        lemma_tally_shape(t.drop_last());
        assert(t.drop_last().subrange(0, k) =~= t.subrange(0, k));
    }
}

/// The slot that a letter of a pool stands for.
pub fn slot_of_char(c: char) -> (r: Option<usize>)
    ensures
        r matches Some(x) ==> slot_of(c) == Some(x as int),
        r is None ==> slot_of(c) is None,
{
    match c {
        'P' | 'p' => Some(0),
        'R' | 'r' => Some(1),
        'N' | 'n' => Some(2),
        'B' | 'b' => Some(3),
        'Q' | 'q' => Some(4),
        _ => None,
    }
}

/// Counts the letters of a pool. The text is refused if it holds anything
/// but letters of pooled pieces, or more than 255 of one kind.
pub fn parse_pool(st: &String) -> (r: Option<[u8; 5]>)
    ensures
        match r {
            Some(ar) => tally(st@) matches Some(a) && forall|x: int|
                0 <= x < 5 ==> #[trigger] ar[x] == a[x],
            None => tally(st@) matches Some(a) ==> exists|x: int|
                0 <= x < 5 && #[trigger] a[x] > u8::MAX,
        },
{
    let t = chars_of(st);
    let mut ar: [u8; 5] = [0, 0, 0, 0, 0];
    let mut k: usize = 0;
    while k < t.len()
        invariant
            k <= t.len(),
            t@ == st@,
            tally(t@.subrange(0, k as int)) matches Some(a) && forall|x: int|
                0 <= x < 5 ==> #[trigger] ar[x] == a[x],
        decreases t.len() - k,
    {
        let ghost next = t@.subrange(0, k as int + 1);
        proof {
            assert(next.drop_last() =~= t@.subrange(0, k as int));
            assert(next.last() == t@[k as int]);
            lemma_tally_shape(t@.subrange(0, k as int));
            if tally(t@) is Some {
                lemma_tally_grows(t@, k as int + 1);
            }
        }
        let x = match slot_of_char(t[k]) {
            Some(x) => x,
            None => {
                return None;
            },
        };
        if ar[x] == u8::MAX {
            proof {
                if tally(t@) is Some {
                    assert(tally(next).unwrap()[x as int] > u8::MAX);
                    assert(tally(t@).unwrap()[x as int] > u8::MAX);
                }
            }
            return None;
        }
        ar[x] = ar[x] + 1;
        k += 1;
    }
    assert(t@.subrange(0, k as int) =~= t@);
    Some(ar)
}

/// Reads a table from the two lines that describe its games and the four
/// texts of its pools: of the first board White's and Black's, then of the
/// second board White's and Black's. A pool whose text cannot be counted
/// is taken to be empty. The table is refused if one of the lines is not
/// the description of a game, or holds a number too large for a machine
/// word. No promotion is chosen and no game decided on the table read.
pub fn read_fen(
    s1: &String,
    s2: &String,
    p1: &String,
    p2: &String,
    p3: &String,
    p4: &String,
) -> (r: Option<ChessLogic>)
    ensures
        match r {
            Some(table) => {
                &&& sheet_of(s1@) matches Some(sh) && agrees(
                    Game {
                        white_capture: [0u8, 0u8, 0u8, 0u8, 0u8],
                        black_capture: [0u8, 0u8, 0u8, 0u8, 0u8],
                        ..table.game(true)
                    },
                    sh,
                )
                &&& sheet_of(s2@) matches Some(sh) && agrees(
                    Game {
                        white_capture: [0u8, 0u8, 0u8, 0u8, 0u8],
                        black_capture: [0u8, 0u8, 0u8, 0u8, 0u8],
                        ..table.game(false)
                    },
                    sh,
                )
                &&& pool_read(p1@, table.game(true).white_capture@)
                &&& pool_read(p2@, table.game(true).black_capture@)
                &&& pool_read(p3@, table.game(false).white_capture@)
                &&& pool_read(p4@, table.game(false).black_capture@)
            },
            None => {
                ||| sheet_of(s1@) is None
                ||| sheet_of(s2@) is None
                ||| sheet_of(s1@).unwrap().half_moves > usize::MAX
                ||| sheet_of(s1@).unwrap().full_moves > usize::MAX
                ||| sheet_of(s2@).unwrap().half_moves > usize::MAX
                ||| sheet_of(s2@).unwrap().full_moves > usize::MAX
            },
        },
{
    let mut g1 = match read_game(&chars_of(s1)) {
        Some(g) => g,
        None => {
            return None;
        },
    };
    let mut g2 = match read_game(&chars_of(s2)) {
        Some(g) => g,
        None => {
            return None;
        },
    };
    g1.white_capture = read_pool(p1);
    g1.black_capture = read_pool(p2);
    g2.white_capture = read_pool(p3);
    g2.black_capture = read_pool(p4);
    let mut table = ChessLogic::new();
    table.set_game(true, g1);
    table.set_game(false, g2);
    proof {
        let z: [u8; 5] = [0u8, 0u8, 0u8, 0u8, 0u8];
        assert(z@ =~= seq![0u8, 0u8, 0u8, 0u8, 0u8]);
    }
    Some(table)
}

/// `pool` is what the text `t` says of a pool: its tally, or nothing at
/// all if the text has none or names more than 255 pieces of one kind.
pub open spec fn pool_read(t: Seq<char>, pool: Seq<u8>) -> bool {
    &&& pool.len() == 5
    &&& forall|x: int|
        0 <= x < 5 ==> #[trigger] pool[x] == if tally(t) matches Some(a) && a[0] <= u8::MAX
            && a[1] <= u8::MAX && a[2] <= u8::MAX && a[3] <= u8::MAX && a[4] <= u8::MAX {
            tally(t).unwrap()[x]
        } else {
            0
        }
}

/// The pool that a text describes; an empty pool if the text cannot be
/// counted.
pub fn read_pool(st: &String) -> (pool: [u8; 5])
    ensures
        pool_read(st@, pool@),
{
    match parse_pool(st) {
        Some(ar) => {
            proof {
                lemma_tally_shape(st@);
                let a = tally(st@).unwrap();
                assert(ar[0] == a[0] && ar[1] == a[1] && ar[2] == a[2] && ar[3] == a[3] && ar[4]
                    == a[4]);
                assert forall|x: int| 0 <= x < 5 implies #[trigger] ar@[x] == a[x] by {
                    assert(ar@[x] == ar[x]);
                }
            }
            ar
        },
        None => {
            let zero: [u8; 5] = [0, 0, 0, 0, 0];
            proof {
                if tally(st@) is Some {
                    let a = tally(st@).unwrap();
                    let x = choose|x: int| 0 <= x < 5 && #[trigger] a[x] > u8::MAX;
                    assert(a[x] > u8::MAX);
                }
                assert forall|x: int| 0 <= x < 5 implies #[trigger] zero@[x] == 0 by {
                    assert(zero@[x] == zero[x]);
                }
            }
            zero
        },
    }
}

} // verus!
