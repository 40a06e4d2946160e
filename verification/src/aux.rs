//! Setting up a board, and small helpers on squares and pieces.

use vstd::prelude::*;
use vstd::string::*;
use crate::chessboard::{Color, Field, Piece, PieceType};
use crate::rules::{credit_slot, grid_of, start_field, start_grid};
pub use crate::util::contains;

verus! {

/// What stands on `(i, j)` when a game begins.
pub fn starting_field(i: usize, j: usize) -> (f: Field)
    ensures
        f == start_field(i as int, j as int),
{
    let kind = if j == 0 || j == 7 {
        PieceType::Rook
    } else if j == 1 || j == 6 {
        PieceType::Knight
    } else if j == 2 || j == 5 {
        PieceType::Bishop
    } else if j == 3 {
        PieceType::Queen
    } else {
        PieceType::King
    };
    if i == 0 {
        Field::Piece(Piece { piece_type: kind, color: Color::Black, upgraded: false })
    } else if i == 1 {
        Field::Piece(Piece { piece_type: PieceType::Pawn, color: Color::Black, upgraded: false })
    } else if i == 6 {
        Field::Piece(Piece { piece_type: PieceType::Pawn, color: Color::White, upgraded: false })
    } else if i == 7 {
        Field::Piece(Piece { piece_type: kind, color: Color::White, upgraded: false })
    } else {
        Field::Empty
    }
}

/// Overwrites every square of `arr` with the standard starting arrangement.
pub fn set_starting_pos(arr: &mut [[Field; 8]; 8])
    ensures
        grid_of(*final(arr)) == start_grid(),
{
    let mut i: usize = 0;
    while i < 8
        invariant
            i <= 8,
            forall|a: int, b: int| 0 <= a < i && 0 <= b < 8 ==> arr[a][b] == start_field(a, b),
        decreases 8 - i,
    {
        let mut j: usize = 0;
        while j < 8
            invariant
                i < 8,
                j <= 8,
                forall|a: int, b: int| 0 <= a < i && 0 <= b < 8 ==> arr[a][b] == start_field(a, b),
                forall|b: int| 0 <= b < j ==> arr[i as int][b] == start_field(i as int, b),
            decreases 8 - j,
        {
            arr[i][j] = starting_field(i, j);
            j += 1;
        }
        i += 1;
    }
    assert(grid_of(*arr) =~~= start_grid());
}

/// A board in the standard starting arrangement.
pub fn gen_starting_pos() -> (arr: [[Field; 8]; 8])
    ensures
        grid_of(arr) == start_grid(),
{
    let mut tmp_arr: [[Field; 8]; 8] = [[Field::Empty;8];8];
    set_starting_pos(&mut tmp_arr);
    tmp_arr
}

/// The pool slot that a captured piece goes to: a promoted piece is handed
/// on as a pawn (slot 0), any other by its kind (rook 1, knight 2, bishop 3,
/// queen 4), and a king not at all.
pub fn box_index(piece: &Piece) -> (r: Option<usize>)
    ensures
        r matches Some(x) ==> credit_slot(*piece) == Some(x as int),
        r is None ==> credit_slot(*piece) is None,
{
    if piece.upgraded {
        match piece.piece_type {
            PieceType::King => None,
            _ => Some(0),
        }
    } else {
        match piece.piece_type {
            PieceType::Pawn => Some(0),
            PieceType::Rook => Some(1),
            PieceType::Knight => Some(2),
            PieceType::Bishop => Some(3),
            PieceType::Queen => Some(4),
            PieceType::King => None,
        }
    }
}

/// What `char::to_uppercase` yields for `c`, character by character: the
/// upper-case form of `c` as Unicode defines it, which for some characters
/// is more than one character long.
pub uninterp spec fn upper_case(c: char) -> Seq<char>;

/// Calls `char::to_uppercase` and gathers the characters it yields into a
/// string. Nothing is claimed of the result but that it is the one named
/// by `upper_case`.
#[verifier::external_body]
fn to_upper(c: char) -> (s: String)
    ensures
        s@ == upper_case(c),
{
    c.to_uppercase().collect()
}

/// The text `body` after a leading `U` if the piece it shows was promoted,
/// else as it is.
pub fn with_mark(body: &str, upgraded: bool) -> (s: String)
    ensures
        s@ == (if upgraded {
            seq!['U']
        } else {
            Seq::<char>::empty()
        }) + body@,
{
    let mut pre = String::new();
    if upgraded {
        pre.push('U');
    }
    pre.append(body);
    assert(pre@ =~= (if upgraded {
        seq!['U']
    } else {
        Seq::<char>::empty()
    }) + body@);
    pre
}

/// The text of the single character `c`.
pub fn text_of(c: char) -> (s: String)
    ensures
        s@ == seq![c],
{
    let mut s = String::new();
    s.push(c);
    assert(s@ =~= seq![c]);
    s
}

/// The text that shows a piece whose lower-case letter is `c`: upper case
/// for White, as it is for Black, and after a leading `U` if the piece was
/// promoted.
pub fn apply_modifications(c: char, color: Color, upgraded: bool) -> (s: String)
    ensures
        s@ == (if upgraded {
            seq!['U']
        } else {
            Seq::<char>::empty()
        }) + (if color == Color::White {
            upper_case(c)
        } else {
            seq![c]
        }),
{
    let body = if color == Color::White {
        to_upper(c)
    } else {
        text_of(c)
    };
    with_mark(body.as_str(), upgraded)
}

} // verus!
