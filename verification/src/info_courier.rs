//! Writing a table down as text: one line per board in the manner of
//! Forsyth and Edwards, and one string of letters per pool.

use vstd::prelude::*;
use crate::board::Piece;
use crate::chessboard::{Color, Field, PieceType};
use crate::game::Game;
use crate::logic::ChessLogic;
use crate::movegen::Squares;
use crate::rules::{at, Grid};

verus! {

/// `String::push` appends one character to the end of the string.
pub assume_specification[ String::push ](s: &mut String, ch: char)
    ensures
        final(s)@ == old(s)@.push(ch),
;

/// The letter of a piece: upper case for White, lower case for Black. A
/// promoted piece is written like a plain one.
pub open spec fn piece_char(k: PieceType, c: Color) -> char {
    match (c, k) {
        (Color::White, PieceType::Pawn) => 'P',
        (Color::White, PieceType::Rook) => 'R',
        (Color::White, PieceType::Knight) => 'N',
        (Color::White, PieceType::Bishop) => 'B',
        (Color::White, PieceType::Queen) => 'Q',
        (Color::White, PieceType::King) => 'K',
        (Color::Black, PieceType::Pawn) => 'p',
        (Color::Black, PieceType::Rook) => 'r',
        (Color::Black, PieceType::Knight) => 'n',
        (Color::Black, PieceType::Bishop) => 'b',
        (Color::Black, PieceType::Queen) => 'q',
        (Color::Black, PieceType::King) => 'k',
    }
}

/// The character that shows a square: a blank for an empty square, `L` for
/// a marked one, else the letter of the piece.
pub open spec fn field_char(f: Field) -> char {
    match f {
        Field::Empty => ' ',
        Field::Legal => 'L',
        Field::Piece(x) => piece_char(x.piece_type, x.color),
    }
}

/// The character of a digit from 0 to 9.
pub open spec fn digit_char(d: int) -> char {
    if d == 0 {
        '0'
    } else if d == 1 {
        '1'
    } else if d == 2 {
        '2'
    } else if d == 3 {
        '3'
    } else if d == 4 {
        '4'
    } else if d == 5 {
        '5'
    } else if d == 6 {
        '6'
    } else if d == 7 {
        '7'
    } else if d == 8 {
        '8'
    } else {
        '9'
    }
}

/// A number in decimal digits, without leading zeros.
pub open spec fn decimal(n: nat) -> Seq<char>
    decreases n,
{
    if n < 10 {
        seq![digit_char(n as int)]
    } else {
        decimal(n / 10).push(digit_char((n % 10) as int))
    }
}

/// A count of empty squares as it is written: nothing for zero, else its
/// digit.
pub open spec fn gap(run: int) -> Seq<char> {
    if run > 0 {
        seq![digit_char(run)]
    } else {
        Seq::empty()
    }
}

/// The text of rank `i` from file `j` on, when `run` empty squares before
/// file `j` have not been written yet: each piece by its letter, each
/// stretch of empty squares by its length.
pub open spec fn rank_text(g: Grid, i: int, j: int, run: int) -> Seq<char>
    decreases 8 - j,
{
    if j >= 8 {
        gap(run)
    } else if at(g, i, j) == Field::Empty {
        rank_text(g, i, j + 1, run + 1)
    } else {
        gap(run).push(field_char(at(g, i, j))) + rank_text(g, i, j + 1, 0)
    }
}

/// The text of the ranks from `i` on, separated by slashes.
pub open spec fn ranks_text(g: Grid, i: int) -> Seq<char>
    decreases 8 - i,
{
    if i >= 7 {
        rank_text(g, i, 0, 0)
    } else {
        rank_text(g, i, 0, 0).push('/') + ranks_text(g, i + 1)
    }
}

/// The four castling letters, each replaced by a dash once the king or the
/// rook of that side has moved.
pub open spec fn castling_text(g: Game) -> Seq<char> {
    let r = g.board.rights();
    seq![
        if !r.white_king_moved && !r.white_rook_short_moved {
            'K'
        } else {
            '-'
        },
        if !r.white_king_moved && !r.white_rook_long_moved {
            'Q'
        } else {
            '-'
        },
        if !r.black_king_moved && !r.black_rook_short_moved {
            'k'
        } else {
            '-'
        },
        if !r.black_king_moved && !r.black_rook_long_moved {
            'q'
        } else {
            '-'
        },
    ]
}

/// The square behind the pawn that may be captured in passing, as file
/// letter and rank digit; a dash if there is no such pawn or it stands on
/// neither of the two ranks where a double step ends.
pub open spec fn passing_text(last: Option<(usize, usize)>) -> Seq<char> {
    match last {
        Some(l) => if l.1 < 8 && l.0 == 3 {
            seq![crate::parser::file_letter(l.1).unwrap(), '6']
        } else if l.1 < 8 && l.0 == 4 {
            seq![crate::parser::file_letter(l.1).unwrap(), '3']
        } else {
            seq!['-']
        },
        None => seq!['-'],
    }
}

/// The line that describes one game: the squares, the colour to move, the
/// castling letters, the square for a capture in passing, the half-move
/// clock and the number of the full move, separated by blanks.
pub open spec fn fen_text(g: Game) -> Seq<char> {
    ranks_text(g.board.grid(), 0).push(' ').push(
        if g.white_active {
            'w'
        } else {
            'b'
        },
    ).push(' ') + castling_text(g).push(' ') + passing_text(g.pawn_in_last_turn).push(' ')
        + decimal(g.half_moves_last_capture as nat).push(' ') + decimal(g.movectr as nat)
}

/// `n` times the character `c`.
pub open spec fn repeat(c: char, n: nat) -> Seq<char> {
    Seq::new(n, |k: int| c)
}

/// The letters of a pool: its pawns, rooks, knights, bishops and queens,
/// one letter for each piece, in the case of the pool's colour.
pub open spec fn pool_text(pool: Seq<u8>, c: Color) -> Seq<char> {
    repeat(piece_char(PieceType::Pawn, c), pool[0] as nat) + repeat(
        piece_char(PieceType::Rook, c),
        pool[1] as nat,
    ) + repeat(piece_char(PieceType::Knight, c), pool[2] as nat) + repeat(
        piece_char(PieceType::Bishop, c),
        pool[3] as nat,
    ) + repeat(piece_char(PieceType::Queen, c), pool[4] as nat)
}

/// The letter of a piece.
pub fn letter_of(k: PieceType, c: Color) -> (r: char)
    ensures
        r == piece_char(k, c),
{
    match c {
        Color::White => match k {
            PieceType::Pawn => 'P',
            PieceType::Rook => 'R',
            PieceType::Knight => 'N',
            PieceType::Bishop => 'B',
            PieceType::Queen => 'Q',
            PieceType::King => 'K',
        },
        Color::Black => match k {
            PieceType::Pawn => 'p',
            PieceType::Rook => 'r',
            PieceType::Knight => 'n',
            PieceType::Bishop => 'b',
            PieceType::Queen => 'q',
            PieceType::King => 'k',
        },
    }
}

/// The character of a digit.
pub fn digit_of(d: usize) -> (r: char)
    requires
        d < 10,
    ensures
        r == digit_char(d as int),
{
    match d {
        0 => '0',
        1 => '1',
        2 => '2',
        3 => '3',
        4 => '4',
        5 => '5',
        6 => '6',
        7 => '7',
        8 => '8',
        _ => '9',
    }
}

/// Appends `n` in decimal digits to `out`.
pub fn push_decimal(out: &mut String, n: usize)
    ensures
        final(out)@ == old(out)@ + decimal(n as nat),
    decreases n,
{
    if n < 10 {
        out.push(digit_of(n));
        assert(out@ =~= old(out)@ + decimal(n as nat));
    } else {
        push_decimal(out, n / 10);
        out.push(digit_of(n % 10));
        assert(out@ =~= old(out)@ + decimal(n as nat));
    }
}

/// Appends the count of empty squares `run` to `out`, if it is not zero.
fn push_gap(out: &mut String, run: usize)
    requires
        run <= 8,
    ensures
        final(out)@ == old(out)@ + gap(run as int),
{
    if run > 0 {
        out.push(digit_of(run));
        assert(out@ =~= old(out)@ + gap(run as int));
    } else {
        assert(out@ =~= old(out)@ + gap(run as int));
    }
}

/// Appends the text of rank `i` to `out`.
fn push_rank<B: Squares>(out: &mut String, board: &B, i: usize)
    requires
        i < 8,
    ensures
        final(out)@ == old(out)@ + rank_text(board.grid(), i as int, 0, 0),
{
    let ghost g = board.grid();
    let ghost whole = old(out)@ + rank_text(g, i as int, 0, 0);
    let mut run: usize = 0;
    let mut j: usize = 0;
    while j < 8
        invariant
            j <= 8,
            run <= j,
            i < 8,
            g == board.grid(),
            out@ + rank_text(g, i as int, j as int, run as int) == whole,
        decreases 8 - j,
    {
        let f = board.field(i, j);
        match f {
            Field::Empty => {
                run += 1;
            },
            Field::Legal => {
                let ghost before = out@;
                push_gap(out, run);
                out.push('L');
                assert(out@ + rank_text(g, i as int, j as int + 1, 0) =~= before + rank_text(
                    g,
                    i as int,
                    j as int,
                    run as int,
                ));
                run = 0;
            },
            Field::Piece(x) => {
                let ghost before = out@;
                push_gap(out, run);
                out.push(letter_of(x.piece_type, x.color));
                assert(out@ + rank_text(g, i as int, j as int + 1, 0) =~= before + rank_text(
                    g,
                    i as int,
                    j as int,
                    run as int,
                ));
                run = 0;
            },
        }
        j += 1;
    }
    push_gap(out, run);
}

/// Appends the text of all eight ranks to `out`.
fn push_ranks<B: Squares>(out: &mut String, board: &B)
    ensures
        final(out)@ == old(out)@ + ranks_text(board.grid(), 0),
{
    let ghost g = board.grid();
    let ghost whole = old(out)@ + ranks_text(g, 0);
    let mut i: usize = 0;
    while i < 7
        invariant
            i <= 7,
            g == board.grid(),
            out@ + ranks_text(g, i as int) == whole,
        decreases 7 - i,
    {
        let ghost before = out@;
        push_rank(out, board, i);
        out.push('/');
        assert(out@ + ranks_text(g, i as int + 1) =~= before + ranks_text(g, i as int));
        i += 1;
    }
    push_rank(out, board, 7);
}

/// The line that describes one game.
pub fn game_fen(g: &Game) -> (s: String)
    ensures
        s@ == fen_text(*g),
{
    let mut s = String::new();
    push_ranks(&mut s, &g.board);
    s.push(' ');
    s.push(
        if g.white_active {
            'w'
        } else {
            'b'
        },
    );
    s.push(' ');
    let f = g.board.moved_flags();
    s.push(
        if !f.white_king_moved && !f.white_rook_short_moved {
            'K'
        } else {
            '-'
        },
    );
    s.push(
        if !f.white_king_moved && !f.white_rook_long_moved {
            'Q'
        } else {
            '-'
        },
    );
    s.push(
        if !f.black_king_moved && !f.black_rook_short_moved {
            'k'
        } else {
            '-'
        },
    );
    s.push(
        if !f.black_king_moved && !f.black_rook_long_moved {
            'q'
        } else {
            '-'
        },
    );
    s.push(' ');
    let ghost head = s@;
    assert(head =~= ranks_text(g.board.grid(), 0).push(' ').push(
        if g.white_active {
            'w'
        } else {
            'b'
        },
    ).push(' ') + castling_text(*g).push(' '));
    let mut done = false;
    if let Some(l) = g.pawn_in_last_turn {
        if l.1 < 8 && (l.0 == 3 || l.0 == 4) {
            if let Some(file) = crate::parser::ind2char(l.1) {
                s.push(file);
                s.push(
                    if l.0 == 3 {
                        '6'
                    } else {
                        '3'
                    },
                );
                done = true;
            }
        }
    }
    if !done {
        s.push('-');
    }
    s.push(' ');
    assert(s@ =~= head + passing_text(g.pawn_in_last_turn).push(' '));
    push_decimal(&mut s, g.half_moves_last_capture);
    s.push(' ');
    push_decimal(&mut s, g.movectr);
    assert(s@ =~= fen_text(*g));
    s
}

/// The two lines that describe the games on the first and on the second
/// board.
pub fn gen_fen(cl: &ChessLogic) -> (r: (String, String))
    ensures
        r.0@ == fen_text(cl.game(true)),
        r.1@ == fen_text(cl.game(false)),
{
    let g1 = cl.game_of(true);
    let g2 = cl.game_of(false);
    (game_fen(&g1), game_fen(&g2))
}

/// Appends the character `c` to `out` `n` times.
fn push_repeat(out: &mut String, c: char, n: u8)
    ensures
        final(out)@ == old(out)@ + repeat(c, n as nat),
{
    let ghost start = out@;
    let mut k: u8 = 0;
    while k < n
        invariant
            k <= n,
            out@ == start + repeat(c, k as nat),
        decreases n - k,
    {
        out.push(c);
        assert(out@ =~= start + repeat(c, (k + 1) as nat));
        k += 1;
    }
}

/// The letters of a pool of the given colour.
pub fn gen_pool(pool: &[u8; 5], white: bool) -> (st: String)
    ensures
        st@ == pool_text(
            pool@,
            if white {
                Color::White
            } else {
                Color::Black
            },
        ),
{
    let c = if white {
        Color::White
    } else {
        Color::Black
    };
    let mut st = String::new();
    push_repeat(&mut st, letter_of(PieceType::Pawn, c), pool[0]);
    push_repeat(&mut st, letter_of(PieceType::Rook, c), pool[1]);
    push_repeat(&mut st, letter_of(PieceType::Knight, c), pool[2]);
    push_repeat(&mut st, letter_of(PieceType::Bishop, c), pool[3]);
    push_repeat(&mut st, letter_of(PieceType::Queen, c), pool[4]);
    assert(st@ =~= pool_text(pool@, c));
    st
}

} // verus!
