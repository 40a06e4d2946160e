//! The value types of the game: colours, piece kinds, pieces, square states
//! and the errors a command can fail with.

use vstd::prelude::*;
use crate::aux::gen_starting_pos;
use crate::movegen;
use crate::movegen::Squares;
use crate::rules::{
    at, attacked_by, deploy_refusal, empty_grid, fresh_rights, grid_of, legal_moves, on_board,
    pawn_moves, pool_slot, put, rights_after_deploy, start_grid, Grid, Position, Rights,
};

verus! {

/// Why a move or a deployment was refused.
#[derive(Clone, Copy, Debug, PartialEq, Eq, Structural)]
pub enum MoveError {
    /// The destination is not among the legal moves of the origin, or a
    /// coordinate lies off the board.
    NotLegal,
    /// The acting colour is not the one whose turn it is.
    NotTurn,
    /// The board's game has already ended.
    AlreadyOver,
    /// The pool holds no piece of the requested kind.
    NoPieceInPool,
    /// A pawn reached the last rank without a valid promotion selection.
    PromotionProblem,
    /// The square chosen for a deployment is occupied.
    NotEmpty,
}

#[derive(Clone, Copy, Debug, PartialEq, Eq, Structural)]
pub enum PieceType {
    Pawn,
    Rook,
    Knight,
    Bishop,
    Queen,
    King,
}

#[derive(Clone, Copy, Debug, PartialEq, Eq, Structural)]
pub enum Color {
    White,
    Black,
}

/// A piece. `upgraded` marks a piece that came from a pawn's promotion; it
/// matters only when the piece is captured, since it then re-enters a pool
/// as a pawn.
#[derive(Clone, Copy, Debug, PartialEq, Eq, Structural)]
pub struct Piece {
    pub piece_type: PieceType,
    pub color: Color,
    pub upgraded: bool,
}

/// The state of one square. `Legal` is a marker that a renderer may lay over
/// a board to show destinations; the rules treat it as neither empty nor a
/// piece of either colour.
#[derive(Clone, Copy, Debug, PartialEq, Eq, Structural)]
pub enum Field {
    Empty,
    Piece(Piece),
    Legal,
}

impl Color {
    /// The other colour.
    pub open spec fn other(self) -> Color {
        match self {
            Color::White => Color::Black,
            Color::Black => Color::White,
        }
    }

    pub fn opponent(self) -> (c: Color)
        ensures
            c == self.other(),
    {
        match self {
            Color::White => Color::Black,
            Color::Black => Color::White,
        }
    }
}

impl Piece {
    /// A plain white rook, the default piece.
    pub fn new() -> (p: Piece)
        ensures
            p == (Piece { piece_type: PieceType::Rook, color: Color::White, upgraded: false }),
    {
        Piece { piece_type: PieceType::Rook, color: Color::White, upgraded: false }
    }
}

impl Default for Piece {
    fn default() -> (p: Piece)
        ensures
            p == (Piece { piece_type: PieceType::Rook, color: Color::White, upgraded: false }),
    {
        Piece::new()
    }
}

/// One board with everything that belongs to its game: the squares, the
/// six moved-flags, the pawn that may be captured in passing (`(8, 8)` when
/// there is none), whose turn it is, the full-move counter (`counter`), the
/// half-move clock (`pattcounter`), whether the game has ended, and the two
/// pools, each counting pawns, rooks, knights, bishops and queens.
pub struct ChessBoard {
    pub board: [[Field; 8]; 8],
    pub white_king_moved: bool,
    pub white_rook_short_moved: bool,
    pub white_rook_long_moved: bool,
    pub black_king_moved: bool,
    pub black_rook_short_moved: bool,
    pub black_rook_long_moved: bool,
    pub last_moved_pawn: (usize, usize),
    pub current_turn: Color,
    pub counter: usize,
    pub pattcounter: usize,
    pub over: bool,
    pub white_deployable: [u8; 5],
    pub black_deployable: [u8; 5],
}

impl Squares for ChessBoard {
    open spec fn grid(&self) -> Grid {
        grid_of(self.board)
    }

    fn field(&self, i: usize, j: usize) -> (f: Field) {
        self.board[i][j]
    }
}

impl ChessBoard {
    /// The six moved-flags.
    pub open spec fn rights(&self) -> Rights {
        Rights {
            white_king_moved: self.white_king_moved,
            white_rook_short_moved: self.white_rook_short_moved,
            white_rook_long_moved: self.white_rook_long_moved,
            black_king_moved: self.black_king_moved,
            black_rook_short_moved: self.black_rook_short_moved,
            black_rook_long_moved: self.black_rook_long_moved,
        }
    }

    /// The pawn that may be captured in passing, if there is one.
    pub open spec fn last_pawn(&self) -> Option<(usize, usize)> {
        if self.last_moved_pawn.0 < 8 && self.last_moved_pawn.1 < 8 {
            Some(self.last_moved_pawn)
        } else {
            None
        }
    }

    /// What move generation sees of this board.
    pub open spec fn position(&self) -> Position {
        Position { grid: self.grid(), rights: self.rights(), last_pawn: self.last_pawn() }
    }

    /// The pool of colour `c`.
    pub open spec fn pool(&self, c: Color) -> Seq<u8> {
        match c {
            Color::White => self.white_deployable@,
            Color::Black => self.black_deployable@,
        }
    }

    /// The count that the pool of colour `c` holds of kind `k`; none of
    /// kings.
    pub open spec fn stock(&self, c: Color, k: PieceType) -> int {
        match pool_slot(k) {
            Some(x) => self.pool(c)[x] as int,
            None => 0,
        }
    }

    /// The state in which every game starts: the standard arrangement,
    /// White to move, nothing moved, both counters at zero, empty pools.
    pub open spec fn is_initial(&self) -> bool {
        &&& self.grid() == start_grid()
        &&& self.rights() == fresh_rights()
        &&& self.last_moved_pawn == (8usize, 8usize)
        &&& self.current_turn == Color::White
        &&& self.counter == 0
        &&& self.pattcounter == 0
        &&& !self.over
        &&& self.white_deployable@ == seq![0u8, 0u8, 0u8, 0u8, 0u8]
        &&& self.black_deployable@ == seq![0u8, 0u8, 0u8, 0u8, 0u8]
    }

    /// A board in its initial state.
    pub fn new() -> (b: ChessBoard)
        ensures
            b.is_initial(),
    {
        let b = ChessBoard {
            board: gen_starting_pos(),
            white_king_moved: false,
            white_rook_short_moved: false,
            white_rook_long_moved: false,
            black_king_moved: false,
            black_rook_short_moved: false,
            black_rook_long_moved: false,
            last_moved_pawn: (8, 8),
            current_turn: Color::White,
            counter: 0,
            pattcounter: 0,
            over: false,
            white_deployable: [0, 0, 0, 0, 0],
            black_deployable: [0, 0, 0, 0, 0],
        };
        assert(b.white_deployable@ =~= seq![0u8, 0u8, 0u8, 0u8, 0u8]);
        assert(b.black_deployable@ =~= seq![0u8, 0u8, 0u8, 0u8, 0u8]);
        b
    }

    /// Puts the board back into its initial state.
    pub fn reset(&mut self)
        ensures
            final(self).is_initial(),
    {
        *self = ChessBoard::new();
    }

    /// Whether `(a, b)` names a square of the board.
    pub fn valid(&self, a: i32, b: i32) -> (r: bool)
        ensures
            r == on_board(a as int, b as int),
    {
        movegen::valid(a, b)
    }

    /// The state of square `(i, j)`.
    pub fn get_field(&self, i: usize, j: usize) -> (f: Field)
        requires
            i < 8,
            j < 8,
        ensures
            f == at(self.grid(), i as int, j as int),
    {
        self.board[i][j]
    }

    /// Writes a piece on square `(i, j)`, whatever stood there. Nothing
    /// else changes.
    pub fn set_piece(
        &mut self,
        piece_type: PieceType,
        color: Color,
        upgraded: bool,
        i: usize,
        j: usize,
    )
        requires
            i < 8,
            j < 8,
        ensures
            final(self).grid() == put(
                old(self).grid(),
                i as int,
                j as int,
                Field::Piece(Piece { piece_type, color, upgraded }),
            ),
            *final(self) == (ChessBoard { board: final(self).board, ..*old(self) }),
    {
        self.board[i][j] = Field::Piece(Piece { piece_type, color, upgraded });
        assert(self.grid() =~~= put(
            old(self).grid(),
            i as int,
            j as int,
            Field::Piece(Piece { piece_type, color, upgraded }),
        ));
    }

    /// Empties every square. Nothing else changes.
    pub fn all_empty(&mut self)
        ensures
            final(self).grid() == empty_grid(),
            *final(self) == (ChessBoard { board: final(self).board, ..*old(self) }),
    {
        self.board = [[Field::Empty;8];8];
        assert(self.grid() =~~= empty_grid());
    }

    /// Whether the piece on `(i, j)` stands attacked by the other colour.
    pub fn is_attacked(&self, i: usize, j: usize) -> (r: bool)
        requires
            i < 8,
            j < 8,
            at(self.grid(), i as int, j as int) is Piece,
        ensures
            r == attacked_by(
                self.grid(),
                at(self.grid(), i as int, j as int)->Piece_0.color.other(),
                i as int,
                j as int,
            ),
    {
        match self.board[i][j] {
            Field::Piece(p) => movegen::is_attacked(self, p.color.opponent(), i, j),
            _ => false,
        }
    }

    /// The moves of the pawn on `(i, j)`.
    pub fn pawn_move(&self, i: usize, j: usize) -> (v: Vec<(usize, usize)>)
        requires
            i < 8,
            j < 8,
            at(self.grid(), i as int, j as int) matches Field::Piece(p) && p.piece_type
                == PieceType::Pawn,
        ensures
            v@ == legal_moves(self.position(), i as int, j as int),
            v@ == pawn_moves(
                self.grid(),
                self.last_pawn(),
                at(self.grid(), i as int, j as int)->Piece_0.color,
                i as int,
                j as int,
            ),
    {
        self.legal_moves(i, j)
    }

    /// The pawn that may be captured in passing, if there is one.
    pub fn passing_target(&self) -> (l: Option<(usize, usize)>)
        ensures
            l == self.last_pawn(),
    {
        if self.last_moved_pawn.0 < 8 && self.last_moved_pawn.1 < 8 {
            Some(self.last_moved_pawn)
        } else {
            None
        }
    }

    /// The six moved-flags.
    pub fn moved_flags(&self) -> (r: Rights)
        ensures
            r == self.rights(),
    {
        Rights {
            white_king_moved: self.white_king_moved,
            white_rook_short_moved: self.white_rook_short_moved,
            white_rook_long_moved: self.white_rook_long_moved,
            black_king_moved: self.black_king_moved,
            black_rook_short_moved: self.black_rook_short_moved,
            black_rook_long_moved: self.black_rook_long_moved,
        }
    }

    /// The destinations of whatever stands on `(i, j)`, in the order in
    /// which they are generated; none for coordinates off the board, an
    /// empty square or a marked square.
    pub fn legal_moves(&self, i: usize, j: usize) -> (v: Vec<(usize, usize)>)
        ensures
            v@ == legal_moves(self.position(), i as int, j as int),
    {
        movegen::moves_from(self, self.moved_flags(), self.passing_target(), i, j)
    }

    /// Why deploying `piece` on `(i, j)` is refused, if it is.
    pub open spec fn deploy_error(&self, piece: Piece, i: int, j: int) -> Option<MoveError> {
        deploy_refusal(
            self.over,
            self.grid(),
            self.current_turn,
            piece.color,
            piece.piece_type,
            self.stock(piece.color, piece.piece_type),
            i,
            j,
        )
    }

    /// `post` is this board after `piece` was deployed on `(i, j)`: the
    /// square holds a fresh piece of that colour and kind, the pool of that
    /// colour holds one less of the kind, the turn has passed to the other
    /// colour, a deployed pawn is the one that may be captured in passing
    /// and resets the half-move clock, any other piece clears that pawn and
    /// advances the clock, the full-move counter advances after Black, and a
    /// rook on its home corner counts as unmoved.
    pub open spec fn deployed(&self, post: ChessBoard, piece: Piece, i: int, j: int) -> bool {
        let c = piece.color;
        let k = piece.piece_type;
        let slot = pool_slot(k).unwrap();
        &&& post.grid() == put(
            self.grid(),
            i,
            j,
            Field::Piece(Piece { piece_type: k, color: c, upgraded: false }),
        )
        &&& post.rights() == rights_after_deploy(self.rights(), c, k, i, j)
        &&& post.last_moved_pawn == if k == PieceType::Pawn {
            (i as usize, j as usize)
        } else {
            (8usize, 8usize)
        }
        &&& post.current_turn == c.other()
        &&& post.counter == self.counter + if c == Color::Black {
            1int
        } else {
            0int
        }
        &&& post.pattcounter == if k == PieceType::Pawn {
            0int
        } else {
            self.pattcounter + 1
        }
        &&& post.over == self.over
        &&& post.pool(c) == self.pool(c).update(slot, (self.pool(c)[slot] - 1) as u8)
        &&& post.pool(c.other()) == self.pool(c.other())
    }

    /// Deploys a pooled piece of the colour and kind of `piece` on `(i, j)`
    /// as that colour's turn. On refusal nothing changes.
    pub fn deploy_piece(&mut self, piece: &Piece, i: usize, j: usize) -> (r: Result<
        bool,
        MoveError,
    >)
        requires
            old(self).counter < usize::MAX,
            old(self).pattcounter < usize::MAX,
        ensures
            match r {
                Ok(done) => done && old(self).deploy_error(*piece, i as int, j as int) is None
                    && old(self).deployed(*final(self), *piece, i as int, j as int),
                Err(e) => old(self).deploy_error(*piece, i as int, j as int) == Some(e)
                    && *final(self) == *old(self),
            },
    {
        if self.over {
            return Err(MoveError::AlreadyOver);
        }
        if i >= 8 || j >= 8 {
            return Err(MoveError::NotLegal);
        }
        if self.board[i][j] != Field::Empty {
            return Err(MoveError::NotEmpty);
        }
        if self.current_turn != piece.color {
            return Err(MoveError::NotTurn);
        }
        let slot: usize = match piece.piece_type {
            PieceType::Pawn => 0,
            PieceType::Rook => 1,
            PieceType::Knight => 2,
            PieceType::Bishop => 3,
            PieceType::Queen => 4,
            PieceType::King => {
                return Err(MoveError::NoPieceInPool);
            },
        };
        let count: u8 = match piece.color {
            Color::White => self.white_deployable[slot],
            Color::Black => self.black_deployable[slot],
        };
        if count == 0 {
            return Err(MoveError::NoPieceInPool);
        }
        let is_pawn = piece.piece_type == PieceType::Pawn;
        if is_pawn && (i == 0 || i == 7) {
            return Err(MoveError::NotLegal);
        }
        let fresh = Piece { piece_type: piece.piece_type, color: piece.color, upgraded: false };
        self.board[i][j] = Field::Piece(fresh);
        assert(self.grid() =~~= put(old(self).grid(), i as int, j as int, Field::Piece(fresh)));
        if is_pawn {
            self.last_moved_pawn = (i, j);
            self.pattcounter = 0;
        } else {
            self.last_moved_pawn = (8, 8);
            self.pattcounter = self.pattcounter + 1;
        }
        let is_rook = piece.piece_type == PieceType::Rook;
        match piece.color {
            Color::White => {
                self.white_deployable[slot] = count - 1;
                self.current_turn = Color::Black;
                if is_rook && i == 7 && j == 7 {
                    self.white_rook_short_moved = false;
                }
                if is_rook && i == 7 && j == 0 {
                    self.white_rook_long_moved = false;
                }
            },
            Color::Black => {
                self.black_deployable[slot] = count - 1;
                self.current_turn = Color::White;
                self.counter = self.counter + 1;
                if is_rook && i == 0 && j == 7 {
                    self.black_rook_short_moved = false;
                }
                if is_rook && i == 0 && j == 0 {
                    self.black_rook_long_moved = false;
                }
            },
        }
        Ok(true)
    }

    /// Whether `(i_new, j_new)` is a legal destination of what stands on
    /// `(i_old, j_old)`.
    pub fn check_legal(&self, i_old: usize, j_old: usize, i_new: usize, j_new: usize) -> (r: bool)
        ensures
            r == legal_moves(self.position(), i_old as int, j_old as int).contains(
                (i_new, j_new),
            ),
    {
        let v = self.legal_moves(i_old, j_old);
        crate::aux::contains(&v, (i_new, j_new))
    }
}

impl Default for ChessBoard {
    fn default() -> (b: ChessBoard)
        ensures
            b.is_initial(),
    {
        ChessBoard::new()
    }
}

} // verus!
