//! The model of a single position: which squares a piece may move to and
//! which squares a colour attacks, as functions on sequences and integers.

use vstd::prelude::*;
use crate::chessboard::{Color, Field, MoveError, Piece, PieceType};

verus! {

/// The 8×8 grid of a board, rank by rank. Rank 0 is Black's back rank and
/// rank 7 is White's; files run from 0 to 7.
pub type Grid = Seq<Seq<Field>>;

/// For each king and each rook's home corner, whether that piece has moved.
/// "Short" is the corner on file 7, "long" the corner on file 0.
#[derive(Clone, Copy, Debug, PartialEq, Eq, Structural)]
pub struct Rights {
    pub white_king_moved: bool,
    pub white_rook_short_moved: bool,
    pub white_rook_long_moved: bool,
    pub black_king_moved: bool,
    pub black_rook_short_moved: bool,
    pub black_rook_long_moved: bool,
}

/// What move generation depends on: the grid, the moved-flags, and the
/// square of the pawn that made a double step in the previous ply, if any.
pub struct Position {
    pub grid: Grid,
    pub rights: Rights,
    pub last_pawn: Option<(usize, usize)>,
}

/// The grid that a board stored as a two-dimensional array stands for.
pub open spec fn grid_of(a: [[Field; 8]; 8]) -> Grid {
    Seq::new(8, |i: int| Seq::new(8, |j: int| a[i][j]))
}

/// The kind of piece that starts on file `j` of a back rank.
pub open spec fn back_row_kind(j: int) -> PieceType {
    if j == 0 || j == 7 {
        PieceType::Rook
    } else if j == 1 || j == 6 {
        PieceType::Knight
    } else if j == 2 || j == 5 {
        PieceType::Bishop
    } else if j == 3 {
        PieceType::Queen
    } else {
        PieceType::King
    }
}

/// What stands on `(i, j)` when a game begins: Black's pieces on rank 0 and
/// pawns on rank 1, White's pawns on rank 6 and pieces on rank 7.
pub open spec fn start_field(i: int, j: int) -> Field {
    if i == 0 {
        Field::Piece(
            Piece { piece_type: back_row_kind(j), color: Color::Black, upgraded: false },
        )
    } else if i == 1 {
        Field::Piece(Piece { piece_type: PieceType::Pawn, color: Color::Black, upgraded: false })
    } else if i == 6 {
        Field::Piece(Piece { piece_type: PieceType::Pawn, color: Color::White, upgraded: false })
    } else if i == 7 {
        Field::Piece(
            Piece { piece_type: back_row_kind(j), color: Color::White, upgraded: false },
        )
    } else {
        Field::Empty
    }
}

/// The standard starting arrangement.
pub open spec fn start_grid() -> Grid {
    Seq::new(8, |i: int| Seq::new(8, |j: int| start_field(i, j)))
}

/// The grid without a single piece.
pub open spec fn empty_grid() -> Grid {
    Seq::new(8, |i: int| Seq::new(8, |j: int| Field::Empty))
}

/// The grid `g` with `f` written on `(i, j)`.
pub open spec fn put(g: Grid, i: int, j: int, f: Field) -> Grid
    recommends
        on_board(i, j),
{
    g.update(i, g[i].update(j, f))
}

/// No moved-flag is set.
pub open spec fn fresh_rights() -> Rights {
    Rights {
        white_king_moved: false,
        white_rook_short_moved: false,
        white_rook_long_moved: false,
        black_king_moved: false,
        black_rook_short_moved: false,
        black_rook_long_moved: false,
    }
}

/// The pool slot of a kind of piece: pawn, rook, knight, bishop, queen, in
/// that order. Kings are never pooled.
pub open spec fn pool_slot(k: PieceType) -> Option<int> {
    match k {
        PieceType::Pawn => Some(0),
        PieceType::Rook => Some(1),
        PieceType::Knight => Some(2),
        PieceType::Bishop => Some(3),
        PieceType::Queen => Some(4),
        PieceType::King => None,
    }
}

/// The pool slot that a captured `piece` goes to: a promoted piece is handed
/// on as a pawn, any other by its kind, and a king not at all.
pub open spec fn credit_slot(piece: Piece) -> Option<int> {
    if piece.piece_type == PieceType::King {
        None
    } else if piece.upgraded {
        Some(0)
    } else {
        pool_slot(piece.piece_type)
    }
}

/// Why a deployment is refused, if it is. The checks come in this order:
/// the game on the board is over; the square is off the board; the square
/// is not empty; it is not the deploying colour's turn; the pool holds no
/// piece of the kind (`stock` is its count; there is none for kings); a pawn
/// would land on the first or the last rank.
pub open spec fn deploy_refusal(
    over: bool,
    g: Grid,
    turn: Color,
    c: Color,
    k: PieceType,
    stock: int,
    i: int,
    j: int,
) -> Option<MoveError> {
    if over {
        Some(MoveError::AlreadyOver)
    } else if !on_board(i, j) {
        Some(MoveError::NotLegal)
    } else if at(g, i, j) != Field::Empty {
        Some(MoveError::NotEmpty)
    } else if turn != c {
        Some(MoveError::NotTurn)
    } else if k == PieceType::King || stock <= 0 {
        Some(MoveError::NoPieceInPool)
    } else if k == PieceType::Pawn && (i == 0 || i == 7) {
        Some(MoveError::NotLegal)
    } else {
        None
    }
}

/// The moved-flags after a piece of colour `c` and kind `k` was deployed on
/// `(i, j)`: a rook set down on a home corner of its colour makes that
/// corner's rook count as unmoved again.
pub open spec fn rights_after_deploy(r: Rights, c: Color, k: PieceType, i: int, j: int) -> Rights {
    if k == PieceType::Rook && i == back_rank(c) && j == 7 {
        match c {
            Color::White => Rights { white_rook_short_moved: false, ..r },
            Color::Black => Rights { black_rook_short_moved: false, ..r },
        }
    } else if k == PieceType::Rook && i == back_rank(c) && j == 0 {
        match c {
            Color::White => Rights { white_rook_long_moved: false, ..r },
            Color::Black => Rights { black_rook_long_moved: false, ..r },
        }
    } else {
        r
    }
}

pub open spec fn on_board(i: int, j: int) -> bool {
    0 <= i < 8 && 0 <= j < 8
}

/// The state of square `(i, j)`.
pub open spec fn at(g: Grid, i: int, j: int) -> Field
    recommends
        on_board(i, j),
{
    g[i][j]
}

/// A square as the executable code names it.
pub open spec fn sq(i: int, j: int) -> (usize, usize) {
    (i as usize, j as usize)
}

/// `(i, j)` is on the board and empty.
pub open spec fn vacant(g: Grid, i: int, j: int) -> bool {
    on_board(i, j) && at(g, i, j) == Field::Empty
}

/// `(i, j)` is on the board and holds a piece of colour `c`.
pub open spec fn held_by(g: Grid, i: int, j: int, c: Color) -> bool {
    on_board(i, j) && (at(g, i, j) matches Field::Piece(p) && p.color == c)
}

/// `(i, j)` is on the board and holds a piece of colour `c` and kind `k`.
pub open spec fn holds(g: Grid, i: int, j: int, c: Color, k: PieceType) -> bool {
    on_board(i, j) && (at(g, i, j) matches Field::Piece(p) && p.color == c && p.piece_type == k)
}

/// A piece of colour `c` may come to rest on `(i, j)`: the square is on the
/// board and is empty or holds an enemy piece.
pub open spec fn landable(g: Grid, c: Color, i: int, j: int) -> bool {
    vacant(g, i, j) || held_by(g, i, j, c.other())
}

/// How many squares lie ahead of `(i, j)` in direction `(di, dj)`, plus one.
pub open spec fn room(i: int, j: int, di: int, dj: int) -> int {
    if di > 0 {
        8 - i
    } else if di < 0 {
        i + 1
    } else if dj > 0 {
        8 - j
    } else {
        j + 1
    }
}

/// The squares a sliding piece of colour `c` reaches from `(i, j)` in
/// direction `(di, dj)`, nearest first: every empty square up to the first
/// occupied one, and that one too if it holds an enemy piece.
pub open spec fn ray(g: Grid, c: Color, i: int, j: int, di: int, dj: int) -> Seq<(usize, usize)>
    decreases room(i, j, di, dj),
{
    if (di == 0 && dj == 0) || !on_board(i + di, j + dj) {
        Seq::empty()
    } else if vacant(g, i + di, j + dj) {
        seq![sq(i + di, j + dj)] + ray(g, c, i + di, j + dj, di, dj)
    } else if held_by(g, i + di, j + dj, c.other()) {
        seq![sq(i + di, j + dj)]
    } else {
        Seq::empty()
    }
}

/// The coordinate `k` steps from `i` in the direction of `di`.
pub open spec fn ahead(i: int, di: int, k: int) -> int {
    if di > 0 {
        i + k
    } else if di < 0 {
        i - k
    } else {
        i
    }
}

/// The squares strictly between `(i, j)` and the square `k` steps from it in
/// direction `(di, dj)` are all empty.
pub open spec fn clear_way(g: Grid, i: int, j: int, di: int, dj: int, k: int) -> bool {
    forall|m: int| 1 <= m < k ==> #[trigger] vacant(g, ahead(i, di, m), ahead(j, dj, m))
}

/// A piece of colour `c` sliding from `(i, j)` in direction `(di, dj)` gets
/// to `(a, b)`: the square lies some steps away in that direction, all
/// squares on the way are empty, and the square itself is empty or holds an
/// enemy piece.
pub open spec fn slides_to(
    g: Grid,
    c: Color,
    i: int,
    j: int,
    di: int,
    dj: int,
    a: int,
    b: int,
) -> bool {
    exists|k: int|
        1 <= k && a == ahead(i, di, k) && b == ahead(j, dj, k) && #[trigger] clear_way(
            g,
            i,
            j,
            di,
            dj,
            k,
        ) && landable(g, c, a, b)
}

/// The single square `(i + di, j + dj)` if a piece of colour `c` may land
/// there, else nothing.
pub open spec fn hop(g: Grid, c: Color, i: int, j: int, di: int, dj: int) -> Seq<(usize, usize)> {
    if landable(g, c, i + di, j + dj) {
        seq![sq(i + di, j + dj)]
    } else {
        Seq::empty()
    }
}

/// Moves along the file: towards rank 0 first, then towards rank 7.
pub open spec fn vertical_moves(g: Grid, c: Color, i: int, j: int) -> Seq<(usize, usize)> {
    ray(g, c, i, j, -1, 0) + ray(g, c, i, j, 1, 0)
}

/// Moves along the rank: towards file 0 first, then towards file 7.
pub open spec fn horizontal_moves(g: Grid, c: Color, i: int, j: int) -> Seq<(usize, usize)> {
    ray(g, c, i, j, 0, -1) + ray(g, c, i, j, 0, 1)
}

/// A rook's moves: its file, then its rank.
pub open spec fn cross_moves(g: Grid, c: Color, i: int, j: int) -> Seq<(usize, usize)> {
    vertical_moves(g, c, i, j) + horizontal_moves(g, c, i, j)
}

/// A bishop's moves, one diagonal after the other.
pub open spec fn diagonal_moves(g: Grid, c: Color, i: int, j: int) -> Seq<(usize, usize)> {
    ray(g, c, i, j, 1, 1) + ray(g, c, i, j, -1, 1) + ray(g, c, i, j, -1, -1) + ray(
        g,
        c,
        i,
        j,
        1,
        -1,
    )
}

/// A knight's moves.
pub open spec fn knight_moves(g: Grid, c: Color, i: int, j: int) -> Seq<(usize, usize)> {
    hop(g, c, i, j, -2, 1) + hop(g, c, i, j, -2, -1) + hop(g, c, i, j, 2, 1) + hop(
        g,
        c,
        i,
        j,
        2,
        -1,
    ) + hop(g, c, i, j, 1, -2) + hop(g, c, i, j, 1, 2) + hop(g, c, i, j, -1, -2) + hop(
        g,
        c,
        i,
        j,
        -1,
        2,
    )
}

/// The king's single steps. An attacked square is no obstacle: in this
/// variant a king may walk into an attack, and losing it ends the game.
pub open spec fn king_steps(g: Grid, c: Color, i: int, j: int) -> Seq<(usize, usize)> {
    hop(g, c, i, j, -1, -1) + hop(g, c, i, j, -1, 0) + hop(g, c, i, j, -1, 1) + hop(
        g,
        c,
        i,
        j,
        0,
        -1,
    ) + hop(g, c, i, j, 0, 1) + hop(g, c, i, j, 1, -1) + hop(g, c, i, j, 1, 0) + hop(
        g,
        c,
        i,
        j,
        1,
        1,
    )
}

/// The first occupied square met from `(i, j)` in direction `(di, dj)`, or
/// `Empty` if the way to the edge is clear.
pub open spec fn first_hit(g: Grid, i: int, j: int, di: int, dj: int) -> Field
    decreases room(i, j, di, dj),
{
    if (di == 0 && dj == 0) || !on_board(i + di, j + dj) {
        Field::Empty
    } else if at(g, i + di, j + dj) == Field::Empty {
        first_hit(g, i + di, j + dj, di, dj)
    } else {
        at(g, i + di, j + dj)
    }
}

/// `f` is a piece of colour `c` and kind `k`.
pub open spec fn is_piece(f: Field, c: Color, k: PieceType) -> bool {
    f matches Field::Piece(p) && p.color == c && p.piece_type == k
}

/// A rook or queen of colour `by` looks at `(i, j)` along `(di, dj)`.
pub open spec fn line_threat(g: Grid, by: Color, i: int, j: int, di: int, dj: int) -> bool {
    is_piece(first_hit(g, i, j, di, dj), by, PieceType::Rook) || is_piece(
        first_hit(g, i, j, di, dj),
        by,
        PieceType::Queen,
    )
}

/// A bishop or queen of colour `by` looks at `(i, j)` along `(di, dj)`.
pub open spec fn diagonal_threat(g: Grid, by: Color, i: int, j: int, di: int, dj: int) -> bool {
    is_piece(first_hit(g, i, j, di, dj), by, PieceType::Bishop) || is_piece(
        first_hit(g, i, j, di, dj),
        by,
        PieceType::Queen,
    )
}

/// The rank change of one pawn step: White walks towards rank 0, Black
/// towards rank 7.
pub open spec fn forward(c: Color) -> int {
    match c {
        Color::White => -1,
        Color::Black => 1,
    }
}

/// The rank on which a colour's pawns start.
pub open spec fn pawn_rank(c: Color) -> int {
    match c {
        Color::White => 6,
        Color::Black => 1,
    }
}

/// The rank on which a colour's king and rooks start.
pub open spec fn back_rank(c: Color) -> int {
    match c {
        Color::White => 7,
        Color::Black => 0,
    }
}

/// The rank on which a colour's pawns promote.
pub open spec fn last_rank(c: Color) -> int {
    back_rank(c.other())
}

/// A pawn of colour `by` attacks `(i, j)`.
pub open spec fn pawn_threat(g: Grid, by: Color, i: int, j: int) -> bool {
    holds(g, i - forward(by), j - 1, by, PieceType::Pawn) || holds(
        g,
        i - forward(by),
        j + 1,
        by,
        PieceType::Pawn,
    )
}

/// A knight of colour `by` attacks `(i, j)`.
pub open spec fn knight_threat(g: Grid, by: Color, i: int, j: int) -> bool {
    holds(g, i - 2, j - 1, by, PieceType::Knight) || holds(g, i - 2, j + 1, by, PieceType::Knight)
        || holds(g, i + 2, j - 1, by, PieceType::Knight) || holds(
        g,
        i + 2,
        j + 1,
        by,
        PieceType::Knight,
    ) || holds(g, i - 1, j - 2, by, PieceType::Knight) || holds(
        g,
        i - 1,
        j + 2,
        by,
        PieceType::Knight,
    ) || holds(g, i + 1, j - 2, by, PieceType::Knight) || holds(
        g,
        i + 1,
        j + 2,
        by,
        PieceType::Knight,
    )
}

/// The king of colour `by` stands next to `(i, j)`.
pub open spec fn king_threat(g: Grid, by: Color, i: int, j: int) -> bool {
    holds(g, i - 1, j - 1, by, PieceType::King) || holds(g, i - 1, j, by, PieceType::King)
        || holds(g, i - 1, j + 1, by, PieceType::King) || holds(g, i, j - 1, by, PieceType::King)
        || holds(g, i, j + 1, by, PieceType::King) || holds(g, i + 1, j - 1, by, PieceType::King)
        || holds(g, i + 1, j, by, PieceType::King) || holds(g, i + 1, j + 1, by, PieceType::King)
}

/// Some piece of colour `by` could capture on `(i, j)`: a pawn on a forward
/// diagonal, a rook, bishop or queen along a clear line, a knight a jump
/// away, or the king next to it. What stands on `(i, j)` itself plays no
/// part. Off the board nothing is attacked.
pub open spec fn attacked_by(g: Grid, by: Color, i: int, j: int) -> bool {
    on_board(i, j) && (pawn_threat(g, by, i, j) || line_threat(g, by, i, j, 0, 1) || line_threat(
        g,
        by,
        i,
        j,
        0,
        -1,
    ) || line_threat(g, by, i, j, 1, 0) || line_threat(g, by, i, j, -1, 0) || diagonal_threat(
        g,
        by,
        i,
        j,
        1,
        1,
    ) || diagonal_threat(g, by, i, j, -1, 1) || diagonal_threat(g, by, i, j, -1, -1)
        || diagonal_threat(g, by, i, j, 1, -1) || knight_threat(g, by, i, j) || king_threat(
        g,
        by,
        i,
        j,
    ))
}

impl Rights {
    pub open spec fn king_moved(self, c: Color) -> bool {
        match c {
            Color::White => self.white_king_moved,
            Color::Black => self.black_king_moved,
        }
    }

    pub open spec fn rook_short_moved(self, c: Color) -> bool {
        match c {
            Color::White => self.white_rook_short_moved,
            Color::Black => self.black_rook_short_moved,
        }
    }

    pub open spec fn rook_long_moved(self, c: Color) -> bool {
        match c {
            Color::White => self.white_rook_long_moved,
            Color::Black => self.black_rook_long_moved,
        }
    }
}

/// The king of colour `c` on `(i, j)` may castle towards file 7: it stands
/// on its home square, neither it nor the rook in that corner has moved, the
/// two squares between them are empty, and the king's square, the square it
/// crosses and the square it lands on are not attacked.
pub open spec fn may_castle_short(g: Grid, rights: Rights, c: Color, i: int, j: int) -> bool {
    let h = back_rank(c);
    &&& i == h && j == 4
    &&& !rights.king_moved(c)
    &&& !rights.rook_short_moved(c)
    &&& holds(g, h, 7, c, PieceType::Rook)
    &&& vacant(g, h, 5)
    &&& vacant(g, h, 6)
    &&& !attacked_by(g, c.other(), h, 4)
    &&& !attacked_by(g, c.other(), h, 5)
    &&& !attacked_by(g, c.other(), h, 6)
}

/// The king of colour `c` on `(i, j)` may castle towards file 0: as for the
/// short side, with three squares between king and rook.
pub open spec fn may_castle_long(g: Grid, rights: Rights, c: Color, i: int, j: int) -> bool {
    let h = back_rank(c);
    &&& i == h && j == 4
    &&& !rights.king_moved(c)
    &&& !rights.rook_long_moved(c)
    &&& holds(g, h, 0, c, PieceType::Rook)
    &&& vacant(g, h, 1)
    &&& vacant(g, h, 2)
    &&& vacant(g, h, 3)
    &&& !attacked_by(g, c.other(), h, 4)
    &&& !attacked_by(g, c.other(), h, 3)
    &&& !attacked_by(g, c.other(), h, 2)
}

/// The castling destinations open to the king of colour `c` on `(i, j)`,
/// the short side first.
pub open spec fn castling_moves(g: Grid, rights: Rights, c: Color, i: int, j: int) -> Seq<
    (usize, usize),
> {
    (if may_castle_short(g, rights, c, i, j) {
        seq![sq(back_rank(c), 6)]
    } else {
        Seq::empty()
    }) + (if may_castle_long(g, rights, c, i, j) {
        seq![sq(back_rank(c), 2)]
    } else {
        Seq::empty()
    })
}

/// A king's moves: its single steps, then its castling destinations.
pub open spec fn king_moves(g: Grid, rights: Rights, c: Color, i: int, j: int) -> Seq<
    (usize, usize),
> {
    king_steps(g, c, i, j) + castling_moves(g, rights, c, i, j)
}

/// A pawn's steps straight ahead: one square if it is empty, and from the
/// pawn's starting rank a second one if that is empty too.
pub open spec fn pawn_advances(g: Grid, c: Color, i: int, j: int) -> Seq<(usize, usize)> {
    if vacant(g, i + forward(c), j) {
        if i == pawn_rank(c) && vacant(g, i + 2 * forward(c), j) {
            seq![sq(i + forward(c), j), sq(i + 2 * forward(c), j)]
        } else {
            seq![sq(i + forward(c), j)]
        }
    } else {
        Seq::empty()
    }
}

/// A pawn's capture towards file `j + dj`, if an enemy piece stands there.
pub open spec fn pawn_capture(g: Grid, c: Color, i: int, j: int, dj: int) -> Seq<(usize, usize)> {
    if held_by(g, i + forward(c), j + dj, c.other()) {
        seq![sq(i + forward(c), j + dj)]
    } else {
        Seq::empty()
    }
}

/// The pawn of colour `c` on `(i, j)` may capture in passing towards file
/// `j + dj`: the square beside it holds an enemy pawn, that pawn is the one
/// named by `last`, and the square behind that pawn is empty.
pub open spec fn may_pass(
    g: Grid,
    last: Option<(usize, usize)>,
    c: Color,
    i: int,
    j: int,
    dj: int,
) -> bool {
    &&& (last matches Some(l) && l.0 == i && l.1 == j + dj)
    &&& holds(g, i, j + dj, c.other(), PieceType::Pawn)
    &&& vacant(g, i + forward(c), j + dj)
}

/// A pawn's capture in passing towards file `j + dj`.
pub open spec fn pawn_passing(
    g: Grid,
    last: Option<(usize, usize)>,
    c: Color,
    i: int,
    j: int,
    dj: int,
) -> Seq<(usize, usize)> {
    if may_pass(g, last, c, i, j, dj) {
        seq![sq(i + forward(c), j + dj)]
    } else {
        Seq::empty()
    }
}

/// A pawn's moves: straight ahead, the captures towards file 0 and file 7,
/// then the captures in passing towards file 0 and file 7. Promotion is not
/// the generator's concern; a pawn on its last rank has no move.
pub open spec fn pawn_moves(g: Grid, last: Option<(usize, usize)>, c: Color, i: int, j: int) -> Seq<
    (usize, usize),
> {
    pawn_advances(g, c, i, j) + pawn_capture(g, c, i, j, -1) + pawn_capture(g, c, i, j, 1)
        + pawn_passing(g, last, c, i, j, -1) + pawn_passing(g, last, c, i, j, 1)
}

/// The moves of piece `q` standing on `(i, j)`.
pub open spec fn piece_moves(p: Position, q: Piece, i: int, j: int) -> Seq<(usize, usize)> {
    match q.piece_type {
        PieceType::Pawn => pawn_moves(p.grid, p.last_pawn, q.color, i, j),
        PieceType::Rook => cross_moves(p.grid, q.color, i, j),
        PieceType::Knight => knight_moves(p.grid, q.color, i, j),
        PieceType::Bishop => diagonal_moves(p.grid, q.color, i, j),
        PieceType::Queen => cross_moves(p.grid, q.color, i, j) + diagonal_moves(
            p.grid,
            q.color,
            i,
            j,
        ),
        PieceType::King => king_moves(p.grid, p.rights, q.color, i, j),
    }
}

/// The destinations of whatever stands on `(i, j)`, in the order in which
/// they are generated. A square off the board, an empty square and a marked
/// square have none.
pub open spec fn legal_moves(p: Position, i: int, j: int) -> Seq<(usize, usize)> {
    if !on_board(i, j) {
        Seq::empty()
    } else {
        match at(p.grid, i, j) {
            Field::Piece(q) => piece_moves(p, q, i, j),
            _ => Seq::empty(),
        }
    }
}

/// The moved-flags after piece `q` has left `(i, j)` by an ordinary move: a
/// king sets its colour's king flag, and a rook that leaves a home corner
/// of its colour sets that corner's flag.
pub open spec fn rights_after_move(r: Rights, q: Piece, i: int, j: int) -> Rights {
    match (q.piece_type, q.color) {
        (PieceType::King, Color::White) => Rights { white_king_moved: true, ..r },
        (PieceType::King, Color::Black) => Rights { black_king_moved: true, ..r },
        (PieceType::Rook, Color::White) => if i == 7 && j == 7 {
            Rights { white_rook_short_moved: true, ..r }
        } else if i == 7 && j == 0 {
            Rights { white_rook_long_moved: true, ..r }
        } else {
            r
        },
        (PieceType::Rook, Color::Black) => if i == 0 && j == 7 {
            Rights { black_rook_short_moved: true, ..r }
        } else if i == 0 && j == 0 {
            Rights { black_rook_long_moved: true, ..r }
        } else {
            r
        },
        _ => r,
    }
}

/// `(a, b)` comes before `(i, j)` when the board is read rank by rank.
pub open spec fn before(a: int, b: int, i: int, j: int) -> bool {
    a < i || (a == i && b < j)
}

/// No piece of colour `c` other than a king has a move.
pub open spec fn stuck(p: Position, c: Color) -> bool {
    forall|i: int, j: int|
        held_by(p.grid, i, j, c) && !holds(p.grid, i, j, c, PieceType::King) ==> (
        #[trigger] legal_moves(p, i, j)).len() == 0
}

/// `(i, j)` holds the king of colour `c`: the first one in reading order,
/// should there be several.
pub open spec fn king_on(g: Grid, c: Color, i: int, j: int) -> bool {
    &&& holds(g, i, j, c, PieceType::King)
    &&& forall|a: int, b: int|
        before(a, b, i, j) ==> !#[trigger] holds(g, a, b, c, PieceType::King)
}

/// Colour `c` has a king on the board and it is not attacked.
pub open spec fn king_at_ease(g: Grid, c: Color) -> bool {
    exists|i: int, j: int| #[trigger] king_on(g, c, i, j) && !attacked_by(g, c.other(), i, j)
}

/// Every square of `s` is one on which a piece of colour `c` may land.
#[verifier::opaque]
pub open spec fn all_landable(s: Seq<(usize, usize)>, g: Grid, c: Color) -> bool {
    forall|k: int| 0 <= k < s.len() ==> landable(g, c, (#[trigger] s[k]).0 as int, s[k].1 as int)
}

/// A slide never leaves the board, never passes an occupied square and
/// never ends on a piece of its own colour.
pub proof fn lemma_ray_landable(g: Grid, c: Color, i: int, j: int, di: int, dj: int)
    ensures
        all_landable(ray(g, c, i, j, di, dj), g, c),
    decreases room(i, j, di, dj),
{
    reveal(all_landable);
    if (di == 0 && dj == 0) || !on_board(i + di, j + dj) {
    } else if vacant(g, i + di, j + dj) {
        lemma_ray_landable(g, c, i + di, j + dj, di, dj);
    }
}

/// A single step, where it can be made, ends on a landable square.
pub proof fn lemma_hop_landable(g: Grid, c: Color, i: int, j: int, di: int, dj: int)
    ensures
        all_landable(hop(g, c, i, j, di, dj), g, c),
{
    reveal(all_landable);
}

/// Joining two lists of landable squares gives a list of landable squares.
pub proof fn lemma_join_landable(a: Seq<(usize, usize)>, b: Seq<(usize, usize)>, g: Grid, c: Color)
    requires
        all_landable(a, g, c),
        all_landable(b, g, c),
    ensures
        all_landable(a + b, g, c),
{
    reveal(all_landable);
    assert forall|k: int| 0 <= k < (a + b).len() implies landable(
        g,
        c,
        (#[trigger] (a + b)[k]).0 as int,
        (a + b)[k].1 as int,
    ) by {
        if k < a.len() {
            assert((a + b)[k] == a[k]);
        } else {
            assert((a + b)[k] == b[k - a.len()]);
        }
    }
}

/// A rook's destinations are landable.
pub proof fn lemma_cross_landable(g: Grid, c: Color, i: int, j: int)
    ensures
        all_landable(cross_moves(g, c, i, j), g, c),
{
    lemma_ray_landable(g, c, i, j, -1, 0);
    lemma_ray_landable(g, c, i, j, 1, 0);
    lemma_ray_landable(g, c, i, j, 0, -1);
    lemma_ray_landable(g, c, i, j, 0, 1);
    lemma_join_landable(ray(g, c, i, j, -1, 0), ray(g, c, i, j, 1, 0), g, c);
    lemma_join_landable(ray(g, c, i, j, 0, -1), ray(g, c, i, j, 0, 1), g, c);
    lemma_join_landable(vertical_moves(g, c, i, j), horizontal_moves(g, c, i, j), g, c);
}

/// A bishop's destinations are landable.
pub proof fn lemma_diagonal_landable(g: Grid, c: Color, i: int, j: int)
    ensures
        all_landable(diagonal_moves(g, c, i, j), g, c),
{
    lemma_ray_landable(g, c, i, j, 1, 1);
    lemma_ray_landable(g, c, i, j, -1, 1);
    lemma_ray_landable(g, c, i, j, -1, -1);
    lemma_ray_landable(g, c, i, j, 1, -1);
    let a = ray(g, c, i, j, 1, 1) + ray(g, c, i, j, -1, 1);
    lemma_join_landable(ray(g, c, i, j, 1, 1), ray(g, c, i, j, -1, 1), g, c);
    lemma_join_landable(a, ray(g, c, i, j, -1, -1), g, c);
    lemma_join_landable(a + ray(g, c, i, j, -1, -1), ray(g, c, i, j, 1, -1), g, c);
}

/// Eight single steps joined are landable.
proof fn lemma_hops_landable(g: Grid, c: Color, s: Seq<Seq<(usize, usize)>>)
    requires
        s.len() == 8,
        forall|k: int| 0 <= k < 8 ==> all_landable(#[trigger] s[k], g, c),
    ensures
        all_landable(s[0] + s[1] + s[2] + s[3] + s[4] + s[5] + s[6] + s[7], g, c),
{
    lemma_join_landable(s[0], s[1], g, c);
    lemma_join_landable(s[0] + s[1], s[2], g, c);
    lemma_join_landable(s[0] + s[1] + s[2], s[3], g, c);
    lemma_join_landable(s[0] + s[1] + s[2] + s[3], s[4], g, c);
    lemma_join_landable(s[0] + s[1] + s[2] + s[3] + s[4], s[5], g, c);
    lemma_join_landable(s[0] + s[1] + s[2] + s[3] + s[4] + s[5], s[6], g, c);
    lemma_join_landable(s[0] + s[1] + s[2] + s[3] + s[4] + s[5] + s[6], s[7], g, c);
}

/// A knight's destinations are landable.
pub proof fn lemma_knight_landable(g: Grid, c: Color, i: int, j: int)
    ensures
        all_landable(knight_moves(g, c, i, j), g, c),
{
    lemma_hop_landable(g, c, i, j, -2, 1);
    lemma_hop_landable(g, c, i, j, -2, -1);
    lemma_hop_landable(g, c, i, j, 2, 1);
    lemma_hop_landable(g, c, i, j, 2, -1);
    lemma_hop_landable(g, c, i, j, 1, -2);
    lemma_hop_landable(g, c, i, j, 1, 2);
    lemma_hop_landable(g, c, i, j, -1, -2);
    lemma_hop_landable(g, c, i, j, -1, 2);
    lemma_hops_landable(
        g,
        c,
        seq![
            hop(g, c, i, j, -2, 1),
            hop(g, c, i, j, -2, -1),
            hop(g, c, i, j, 2, 1),
            hop(g, c, i, j, 2, -1),
            hop(g, c, i, j, 1, -2),
            hop(g, c, i, j, 1, 2),
            hop(g, c, i, j, -1, -2),
            hop(g, c, i, j, -1, 2),
        ],
    );
}

/// A king's single steps are landable.
pub proof fn lemma_king_steps_landable(g: Grid, c: Color, i: int, j: int)
    ensures
        all_landable(king_steps(g, c, i, j), g, c),
{
    lemma_hop_landable(g, c, i, j, -1, -1);
    lemma_hop_landable(g, c, i, j, -1, 0);
    lemma_hop_landable(g, c, i, j, -1, 1);
    lemma_hop_landable(g, c, i, j, 0, -1);
    lemma_hop_landable(g, c, i, j, 0, 1);
    lemma_hop_landable(g, c, i, j, 1, -1);
    lemma_hop_landable(g, c, i, j, 1, 0);
    lemma_hop_landable(g, c, i, j, 1, 1);
    lemma_hops_landable(
        g,
        c,
        seq![
            hop(g, c, i, j, -1, -1),
            hop(g, c, i, j, -1, 0),
            hop(g, c, i, j, -1, 1),
            hop(g, c, i, j, 0, -1),
            hop(g, c, i, j, 0, 1),
            hop(g, c, i, j, 1, -1),
            hop(g, c, i, j, 1, 0),
            hop(g, c, i, j, 1, 1),
        ],
    );
}

/// A king's destinations, castling included, are landable.
pub proof fn lemma_king_landable(g: Grid, rights: Rights, c: Color, i: int, j: int)
    ensures
        all_landable(king_moves(g, rights, c, i, j), g, c),
{
    lemma_king_steps_landable(g, c, i, j);
    assert(all_landable(castling_moves(g, rights, c, i, j), g, c)) by {
        reveal(all_landable);
    }
    lemma_join_landable(king_steps(g, c, i, j), castling_moves(g, rights, c, i, j), g, c);
}

/// A pawn's destinations are landable.
pub proof fn lemma_pawn_landable(g: Grid, last: Option<(usize, usize)>, c: Color, i: int, j: int)
    ensures
        all_landable(pawn_moves(g, last, c, i, j), g, c),
{
    let a = pawn_advances(g, c, i, j);
    let b = pawn_capture(g, c, i, j, -1);
    let d = pawn_capture(g, c, i, j, 1);
    let e = pawn_passing(g, last, c, i, j, -1);
    let f = pawn_passing(g, last, c, i, j, 1);
    assert(all_landable(a, g, c) && all_landable(b, g, c) && all_landable(d, g, c)
        && all_landable(e, g, c) && all_landable(f, g, c)) by {
        reveal(all_landable);
    }
    lemma_join_landable(a, b, g, c);
    lemma_join_landable(a + b, d, g, c);
    lemma_join_landable(a + b + d, e, g, c);
    lemma_join_landable(a + b + d + e, f, g, c);
}

/// Every legal destination is a square of the board that is empty or holds
/// an enemy piece: no move leaves the board or captures a piece of the
/// mover's own colour.
pub proof fn lemma_moves_landable(p: Position, i: int, j: int)
    requires
        on_board(i, j),
        at(p.grid, i, j) is Piece,
    ensures
        all_landable(legal_moves(p, i, j), p.grid, at(p.grid, i, j)->Piece_0.color),
{
    let g = p.grid;
    let q = at(g, i, j)->Piece_0;
    let c = q.color;
    match q.piece_type {
        PieceType::Pawn => lemma_pawn_landable(g, p.last_pawn, c, i, j),
        PieceType::Rook => lemma_cross_landable(g, c, i, j),
        PieceType::Knight => lemma_knight_landable(g, c, i, j),
        PieceType::Bishop => lemma_diagonal_landable(g, c, i, j),
        PieceType::Queen => {
            lemma_cross_landable(g, c, i, j);
            lemma_diagonal_landable(g, c, i, j);
            lemma_join_landable(cross_moves(g, c, i, j), diagonal_moves(g, c, i, j), g, c);
        },
        PieceType::King => lemma_king_landable(g, p.rights, c, i, j),
    }
}

/// A destination of a legal move is a square of the board.
pub proof fn lemma_destination_on_board(p: Position, i: int, j: int, t: (usize, usize))
    requires
        legal_moves(p, i, j).contains(t),
    ensures
        on_board(i, j),
        at(p.grid, i, j) is Piece,
        landable(p.grid, at(p.grid, i, j)->Piece_0.color, t.0 as int, t.1 as int),
        t.0 < 8 && t.1 < 8,
{
    reveal(all_landable);
    lemma_moves_landable(p, i, j);
}

} // verus!
