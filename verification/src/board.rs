//! A board whose squares are written as single letters, the way positions
//! are noted down: upper case for White, lower case for Black, a leading `U`
//! for a piece that came from a promotion.

use vstd::prelude::*;
use crate::chessboard::{Color, Field, PieceType};
use crate::movegen::Squares;
use crate::rules::{at, fresh_rights, put, start_field, start_grid, Grid, Rights};

verus! {

/// What a square holds, as a letter: pawn, rook, knight (`N`), bishop, queen
/// and king of either colour, `E` for an empty square, `L` for a square
/// marked as a destination, and the four promoted kinds of either colour.
#[allow(non_camel_case_types)]
#[derive(Clone, Copy, Debug, PartialEq, Eq, Structural)]
pub enum Piece {
    P,
    R,
    N,
    B,
    Q,
    K,
    E,
    L,
    p,
    r,
    n,
    b,
    q,
    k,
    UR,
    UN,
    UB,
    UQ,
    Ur,
    Un,
    Ub,
    Uq,
}

/// A piece as a value of the rules.
pub open spec fn man(k: PieceType, c: Color, u: bool) -> Field {
    Field::Piece(crate::chessboard::Piece { piece_type: k, color: c, upgraded: u })
}

impl Piece {
    /// The square state that the letter stands for.
    pub open spec fn field(self) -> Field {
        match self {
            Piece::P => man(PieceType::Pawn, Color::White, false),
            Piece::R => man(PieceType::Rook, Color::White, false),
            Piece::N => man(PieceType::Knight, Color::White, false),
            Piece::B => man(PieceType::Bishop, Color::White, false),
            Piece::Q => man(PieceType::Queen, Color::White, false),
            Piece::K => man(PieceType::King, Color::White, false),
            Piece::E => Field::Empty,
            Piece::L => Field::Legal,
            Piece::p => man(PieceType::Pawn, Color::Black, false),
            Piece::r => man(PieceType::Rook, Color::Black, false),
            Piece::n => man(PieceType::Knight, Color::Black, false),
            Piece::b => man(PieceType::Bishop, Color::Black, false),
            Piece::q => man(PieceType::Queen, Color::Black, false),
            Piece::k => man(PieceType::King, Color::Black, false),
            Piece::UR => man(PieceType::Rook, Color::White, true),
            Piece::UN => man(PieceType::Knight, Color::White, true),
            Piece::UB => man(PieceType::Bishop, Color::White, true),
            Piece::UQ => man(PieceType::Queen, Color::White, true),
            Piece::Ur => man(PieceType::Rook, Color::Black, true),
            Piece::Un => man(PieceType::Knight, Color::Black, true),
            Piece::Ub => man(PieceType::Bishop, Color::Black, true),
            Piece::Uq => man(PieceType::Queen, Color::Black, true),
        }
    }

    /// The letter of an unpromoted piece of kind `k` and colour `c`.
    pub open spec fn plain(k: PieceType, c: Color) -> Piece {
        match (c, k) {
            (Color::White, PieceType::Pawn) => Piece::P,
            (Color::White, PieceType::Rook) => Piece::R,
            (Color::White, PieceType::Knight) => Piece::N,
            (Color::White, PieceType::Bishop) => Piece::B,
            (Color::White, PieceType::Queen) => Piece::Q,
            (Color::White, PieceType::King) => Piece::K,
            (Color::Black, PieceType::Pawn) => Piece::p,
            (Color::Black, PieceType::Rook) => Piece::r,
            (Color::Black, PieceType::Knight) => Piece::n,
            (Color::Black, PieceType::Bishop) => Piece::b,
            (Color::Black, PieceType::Queen) => Piece::q,
            (Color::Black, PieceType::King) => Piece::k,
        }
    }

    /// The letter of a promoted piece of kind `k` and colour `c`. Pawns and
    /// kings have no promoted form and keep their plain letter.
    pub open spec fn promoted(k: PieceType, c: Color) -> Piece {
        match (c, k) {
            (Color::White, PieceType::Rook) => Piece::UR,
            (Color::White, PieceType::Knight) => Piece::UN,
            (Color::White, PieceType::Bishop) => Piece::UB,
            (Color::White, PieceType::Queen) => Piece::UQ,
            (Color::Black, PieceType::Rook) => Piece::Ur,
            (Color::Black, PieceType::Knight) => Piece::Un,
            (Color::Black, PieceType::Bishop) => Piece::Ub,
            (Color::Black, PieceType::Queen) => Piece::Uq,
            _ => Piece::plain(k, c),
        }
    }

    /// The square state that the letter stands for.
    pub fn to_field(self) -> (f: Field)
        ensures
            f == self.field(),
    {
        let (k, c, u) = match self {
            Piece::E => {
                return Field::Empty;
            },
            Piece::L => {
                return Field::Legal;
            },
            Piece::P => (PieceType::Pawn, Color::White, false),
            Piece::R => (PieceType::Rook, Color::White, false),
            Piece::N => (PieceType::Knight, Color::White, false),
            Piece::B => (PieceType::Bishop, Color::White, false),
            Piece::Q => (PieceType::Queen, Color::White, false),
            Piece::K => (PieceType::King, Color::White, false),
            Piece::p => (PieceType::Pawn, Color::Black, false),
            Piece::r => (PieceType::Rook, Color::Black, false),
            Piece::n => (PieceType::Knight, Color::Black, false),
            Piece::b => (PieceType::Bishop, Color::Black, false),
            Piece::q => (PieceType::Queen, Color::Black, false),
            Piece::k => (PieceType::King, Color::Black, false),
            Piece::UR => (PieceType::Rook, Color::White, true),
            Piece::UN => (PieceType::Knight, Color::White, true),
            Piece::UB => (PieceType::Bishop, Color::White, true),
            Piece::UQ => (PieceType::Queen, Color::White, true),
            Piece::Ur => (PieceType::Rook, Color::Black, true),
            Piece::Un => (PieceType::Knight, Color::Black, true),
            Piece::Ub => (PieceType::Bishop, Color::Black, true),
            Piece::Uq => (PieceType::Queen, Color::Black, true),
        };
        Field::Piece(crate::chessboard::Piece { piece_type: k, color: c, upgraded: u })
    }

    /// The letter of an unpromoted piece of kind `k` and colour `c`.
    pub fn plain_letter(k: PieceType, c: Color) -> (l: Piece)
        ensures
            l == Piece::plain(k, c),
            l.field() == man(k, c, false),
    {
        match c {
            Color::White => match k {
                PieceType::Pawn => Piece::P,
                PieceType::Rook => Piece::R,
                PieceType::Knight => Piece::N,
                PieceType::Bishop => Piece::B,
                PieceType::Queen => Piece::Q,
                PieceType::King => Piece::K,
            },
            Color::Black => match k {
                PieceType::Pawn => Piece::p,
                PieceType::Rook => Piece::r,
                PieceType::Knight => Piece::n,
                PieceType::Bishop => Piece::b,
                PieceType::Queen => Piece::q,
                PieceType::King => Piece::k,
            },
        }
    }

    /// The letter of a promoted piece of kind `k` and colour `c`; the plain
    /// letter for a pawn or a king.
    pub fn promoted_letter(k: PieceType, c: Color) -> (l: Piece)
        ensures
            l == Piece::promoted(k, c),
            k != PieceType::Pawn && k != PieceType::King ==> l.field() == man(k, c, true),
    {
        match c {
            Color::White => match k {
                PieceType::Rook => Piece::UR,
                PieceType::Knight => Piece::UN,
                PieceType::Bishop => Piece::UB,
                PieceType::Queen => Piece::UQ,
                PieceType::Pawn => Piece::P,
                PieceType::King => Piece::K,
            },
            Color::Black => match k {
                PieceType::Rook => Piece::Ur,
                PieceType::Knight => Piece::Un,
                PieceType::Bishop => Piece::Ub,
                PieceType::Queen => Piece::Uq,
                PieceType::Pawn => Piece::p,
                PieceType::King => Piece::k,
            },
        }
    }
}

/// Two letters that stand for the same square state are the same letter.
pub proof fn lemma_letters_differ(x: Piece, y: Piece)
    requires
        x.field() == y.field(),
    ensures
        x == y,
{
}

/// The grid that a board of letters stands for.
pub open spec fn letters_grid(a: [[Piece; 8]; 8]) -> Grid {
    Seq::new(8, |i: int| Seq::new(8, |j: int| a[i][j].field()))
}

/// A board of letters with its six moved-flags. `k` and `q` in a flag's name
/// tell the rook of the king's side (file 7) from that of the queen's side
/// (file 0).
#[derive(Clone, Copy)]
pub struct ChessBoard {
    pub board: [[Piece; 8]; 8],
    pub white_k_moved: bool,
    pub black_k_moved: bool,
    pub white_rook_q_moved: bool,
    pub white_rook_k_moved: bool,
    pub black_rook_q_moved: bool,
    pub black_rook_k_moved: bool,
}

impl Squares for ChessBoard {
    open spec fn grid(&self) -> Grid {
        letters_grid(self.board)
    }

    fn field(&self, i: usize, j: usize) -> (f: Field) {
        self.board[i][j].to_field()
    }
}

/// The letter that stands on `(i, j)` when a game begins.
pub fn init_letter(i: usize, j: usize) -> (l: Piece)
    ensures
        l.field() == start_field(i as int, j as int),
{
    let c = if i <= 1 {
        Color::Black
    } else {
        Color::White
    };
    if i == 1 || i == 6 {
        Piece::plain_letter(PieceType::Pawn, c)
    } else if i == 0 || i == 7 {
        let k = if j == 0 || j == 7 {
            PieceType::Rook
        } else if j == 1 || j == 6 {
            PieceType::Knight
        } else if j == 2 || j == 5 {
            PieceType::Bishop
        } else if j == 3 {
            PieceType::Queen
        } else {
            PieceType::King
        };
        Piece::plain_letter(k, c)
    } else {
        Piece::E
    }
}

/// Writes the standard starting arrangement over `arr`.
fn fill_init_array(arr: &mut [[Piece; 8]; 8])
    ensures
        letters_grid(*final(arr)) == start_grid(),
{
    let mut i: usize = 0;
    while i < 8
        invariant
            i <= 8,
            forall|a: int, b: int|
                0 <= a < i && 0 <= b < 8 ==> (#[trigger] arr[a][b]).field() == start_field(a, b),
        decreases 8 - i,
    {
        let mut j: usize = 0;
        while j < 8
            invariant
                i < 8,
                j <= 8,
                forall|a: int, b: int|
                    0 <= a < i && 0 <= b < 8 ==> (#[trigger] arr[a][b]).field() == start_field(
                        a,
                        b,
                    ),
                forall|b: int|
                    0 <= b < j ==> (#[trigger] arr[i as int][b]).field() == start_field(
                        i as int,
                        b,
                    ),
            decreases 8 - j,
        {
            arr[i][j] = init_letter(i, j);
            j += 1;
        }
        i += 1;
    }
    assert(letters_grid(*arr) =~~= start_grid());
}

/// The standard starting arrangement, in letters.
pub fn get_init_array() -> (arr: [[Piece; 8]; 8])
    ensures
        letters_grid(arr) == start_grid(),
{
    let mut arr = [[Piece::E;8];8];
    fill_init_array(&mut arr);
    arr
}

impl ChessBoard {
    /// The six moved-flags.
    pub open spec fn rights(&self) -> Rights {
        Rights {
            white_king_moved: self.white_k_moved,
            white_rook_short_moved: self.white_rook_k_moved,
            white_rook_long_moved: self.white_rook_q_moved,
            black_king_moved: self.black_k_moved,
            black_rook_short_moved: self.black_rook_k_moved,
            black_rook_long_moved: self.black_rook_q_moved,
        }
    }

    /// The six moved-flags.
    pub fn moved_flags(&self) -> (r: Rights)
        ensures
            r == self.rights(),
    {
        Rights {
            white_king_moved: self.white_k_moved,
            white_rook_short_moved: self.white_rook_k_moved,
            white_rook_long_moved: self.white_rook_q_moved,
            black_king_moved: self.black_k_moved,
            black_rook_short_moved: self.black_rook_k_moved,
            black_rook_long_moved: self.black_rook_q_moved,
        }
    }

    /// Sets the six moved-flags.
    pub fn set_moved_flags(&mut self, r: Rights)
        ensures
            final(self).rights() == r,
            final(self).board == old(self).board,
    {
        self.white_k_moved = r.white_king_moved;
        self.white_rook_k_moved = r.white_rook_short_moved;
        self.white_rook_q_moved = r.white_rook_long_moved;
        self.black_k_moved = r.black_king_moved;
        self.black_rook_k_moved = r.black_rook_short_moved;
        self.black_rook_q_moved = r.black_rook_long_moved;
    }

    /// A board in the standard starting arrangement on which nothing has
    /// moved.
    pub fn new() -> (b: ChessBoard)
        ensures
            b.grid() == start_grid(),
            b.rights() == fresh_rights(),
    {
        ChessBoard {
            board: get_init_array(),
            white_k_moved: false,
            black_k_moved: false,
            white_rook_q_moved: false,
            white_rook_k_moved: false,
            black_rook_q_moved: false,
            black_rook_k_moved: false,
        }
    }

    /// Lifts what stands on `(old_i, old_j)` and sets it down on `(i, j)`,
    /// leaving the origin empty. No rule is consulted and no flag changes.
    pub fn move_piece(&mut self, old_i: usize, old_j: usize, i: usize, j: usize)
        requires
            old_i < 8,
            old_j < 8,
            i < 8,
            j < 8,
        ensures
            final(self).grid() == put(
                put(
                    old(self).grid(),
                    i as int,
                    j as int,
                    at(old(self).grid(), old_i as int, old_j as int),
                ),
                old_i as int,
                old_j as int,
                Field::Empty,
            ),
            final(self).rights() == old(self).rights(),
    {
        self.board[i][j] = self.board[old_i][old_j];
        self.board[old_i][old_j] = Piece::E;
        assert(self.grid() =~~= put(
            put(
                old(self).grid(),
                i as int,
                j as int,
                at(old(self).grid(), old_i as int, old_j as int),
            ),
            old_i as int,
            old_j as int,
            Field::Empty,
        ));
    }

    /// Writes the standard starting arrangement over the squares. The flags
    /// stay as they are.
    pub fn set_init_array(&mut self)
        ensures
            final(self).grid() == start_grid(),
            final(self).rights() == old(self).rights(),
    {
        self.board = get_init_array();
    }

    /// Writes letter `l` on `(i, j)`.
    pub fn set(&mut self, i: usize, j: usize, l: Piece)
        requires
            i < 8,
            j < 8,
        ensures
            final(self).grid() == put(old(self).grid(), i as int, j as int, l.field()),
            final(self).rights() == old(self).rights(),
            final(self).board[i as int][j as int] == l,
    {
        self.board[i][j] = l;
        assert(self.grid() =~~= put(old(self).grid(), i as int, j as int, l.field()));
    }
}

} // verus!
