//! Reading a move written as origin, dash, destination, such as `e2-e4`.

use vstd::prelude::*;
use vstd::string::*;

verus! {

/// The file that a letter names: `a` to `h`, in either case, is 0 to 7.
pub open spec fn file_of(c: char) -> Option<usize> {
    if c == 'a' || c == 'A' {
        Some(0usize)
    } else if c == 'b' || c == 'B' {
        Some(1usize)
    } else if c == 'c' || c == 'C' {
        Some(2usize)
    } else if c == 'd' || c == 'D' {
        Some(3usize)
    } else if c == 'e' || c == 'E' {
        Some(4usize)
    } else if c == 'f' || c == 'F' {
        Some(5usize)
    } else if c == 'g' || c == 'G' {
        Some(6usize)
    } else if c == 'h' || c == 'H' {
        Some(7usize)
    } else {
        None
    }
}

/// The rank that a digit names: `8` is rank 0, down to `1`, which is rank 7.
pub open spec fn rank_of(c: char) -> Option<usize> {
    if c == '1' {
        Some(7usize)
    } else if c == '2' {
        Some(6usize)
    } else if c == '3' {
        Some(5usize)
    } else if c == '4' {
        Some(4usize)
    } else if c == '5' {
        Some(3usize)
    } else if c == '6' {
        Some(2usize)
    } else if c == '7' {
        Some(1usize)
    } else if c == '8' {
        Some(0usize)
    } else {
        None
    }
}

/// The letter of a file, lower case; none for a number above 7.
pub open spec fn file_letter(a: usize) -> Option<char> {
    if a == 0 {
        Some('a')
    } else if a == 1 {
        Some('b')
    } else if a == 2 {
        Some('c')
    } else if a == 3 {
        Some('d')
    } else if a == 4 {
        Some('e')
    } else if a == 5 {
        Some('f')
    } else if a == 6 {
        Some('g')
    } else if a == 7 {
        Some('h')
    } else {
        None
    }
}

/// The digit of a rank; none for a number above 7.
pub open spec fn rank_digit(a: usize) -> Option<char> {
    if a == 0 {
        Some('8')
    } else if a == 1 {
        Some('7')
    } else if a == 2 {
        Some('6')
    } else if a == 3 {
        Some('5')
    } else if a == 4 {
        Some('4')
    } else if a == 5 {
        Some('3')
    } else if a == 6 {
        Some('2')
    } else if a == 7 {
        Some('1')
    } else {
        None
    }
}

/// The text `s` without its line feeds.
pub open spec fn stripped(s: Seq<char>) -> Seq<char>
    decreases s.len(),
{
    if s.len() == 0 {
        Seq::empty()
    } else if s.last() == '\n' {
        stripped(s.drop_last())
    } else {
        stripped(s.drop_last()).push(s.last())
    }
}

/// The move that the text `s` writes down: apart from line feeds it has to
/// be a file letter, a rank digit, a dash, a file letter and a rank digit.
/// The move is given as origin rank, origin file, destination rank,
/// destination file.
pub open spec fn parsed(s: Seq<char>) -> Option<Seq<usize>> {
    let t = stripped(s);
    if t.len() == 5 && t[2] == '-' && file_of(t[0]) is Some && rank_of(t[1]) is Some && file_of(
        t[3],
    ) is Some && rank_of(t[4]) is Some {
        Some(
            seq![
                rank_of(t[1]).unwrap(),
                file_of(t[0]).unwrap(),
                rank_of(t[4]).unwrap(),
                file_of(t[3]).unwrap(),
            ],
        )
    } else {
        None
    }
}

/// The square that the text `s` names: apart from line feeds it has to be a
/// file letter and a rank digit. The square is given as rank and file.
pub open spec fn square_of(s: Seq<char>) -> Option<(usize, usize)> {
    let t = stripped(s);
    if t.len() == 2 && file_of(t[0]) is Some && rank_of(t[1]) is Some {
        Some((rank_of(t[1]).unwrap(), file_of(t[0]).unwrap()))
    } else {
        None
    }
}

/// The file that a letter names.
pub fn char2ind(a: char) -> (r: Option<usize>)
    ensures
        r == file_of(a),
{
    match a {
        'a' | 'A' => Some(0),
        'b' | 'B' => Some(1),
        'c' | 'C' => Some(2),
        'd' | 'D' => Some(3),
        'e' | 'E' => Some(4),
        'f' | 'F' => Some(5),
        'g' | 'G' => Some(6),
        'h' | 'H' => Some(7),
        _ => None,
    }
}

/// The letter of a file.
pub fn ind2char(a: usize) -> (r: Option<char>)
    ensures
        r == file_letter(a),
{
    match a {
        0 => Some('a'),
        1 => Some('b'),
        2 => Some('c'),
        3 => Some('d'),
        4 => Some('e'),
        5 => Some('f'),
        6 => Some('g'),
        7 => Some('h'),
        _ => None,
    }
}

/// The rank that a digit names.
pub fn line2line(a: char) -> (r: Option<usize>)
    ensures
        r == rank_of(a),
{
    match a {
        '1' => Some(7),
        '2' => Some(6),
        '3' => Some(5),
        '4' => Some(4),
        '5' => Some(3),
        '6' => Some(2),
        '7' => Some(1),
        '8' => Some(0),
        _ => None,
    }
}

/// The digit of a rank.
pub fn ind2line(a: usize) -> (r: Option<char>)
    ensures
        r == rank_digit(a),
{
    match a {
        0 => Some('8'),
        1 => Some('7'),
        2 => Some('6'),
        3 => Some('5'),
        4 => Some('4'),
        5 => Some('3'),
        6 => Some('2'),
        7 => Some('1'),
        _ => None,
    }
}

/// The characters of `input` without its line feeds.
fn strip(input: &String) -> (t: Vec<char>)
    ensures
        t@ == stripped(input@),
{
    let text = input.as_str();
    let n = text.unicode_len();
    let mut t: Vec<char> = Vec::new();
    let mut k: usize = 0;
    while k < n
        invariant
            k <= n,
            n == text@.len(),
            t@ == stripped(text@.subrange(0, k as int)),
        decreases n - k,
    {
        let c = text.get_char(k);
        proof {
            assert(text@.subrange(0, k as int + 1).drop_last() =~= text@.subrange(0, k as int));
        }
        if c != '\n' {
            t.push(c);
        }
        k += 1;
    }
    assert(text@.subrange(0, n as int) =~= text@);
    t
}

/// Reads a move such as `e2-e4`: `Some` of origin rank, origin file,
/// destination rank and destination file if the text is a move, else
/// `None`.
pub fn parse(input: &String) -> (r: Option<[usize; 4]>)
    ensures
        match r {
            Some(a) => parsed(input@) == Some(a@),
            None => parsed(input@) is None,
        },
{
    let t = strip(input);
    if t.len() != 5 || t[2] != '-' {
        return None;
    }
    match (char2ind(t[0]), line2line(t[1]), char2ind(t[3]), line2line(t[4])) {
        (Some(f1), Some(r1), Some(f2), Some(r2)) => {
            let a = [r1, f1, r2, f2];
            assert(a@ =~= seq![r1, f1, r2, f2]);
            Some(a)
        },
        _ => None,
    }
}

/// Reads a square such as `e2`: `Some` of its rank and file if the text
/// names a square, else `None`.
pub fn square(input: &String) -> (r: Option<(usize, usize)>)
    ensures
        r == square_of(input@),
{
    let t = strip(input);
    if t.len() != 2 {
        return None;
    }
    match (char2ind(t[0]), line2line(t[1])) {
        (Some(file), Some(rank)) => Some((rank, file)),
        _ => None,
    }
}

} // verus!
