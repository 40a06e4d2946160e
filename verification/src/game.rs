//! The game on one board: whose turn it is, the clocks, the pending
//! promotion, the two pools and the outcome, with the commands that change
//! them.

use vstd::prelude::*;
use crate::aux::contains;
use crate::board::{man, ChessBoard, Piece};
use crate::chessboard;
use crate::chessboard::{Color, Field, MoveError, PieceType};
use crate::logic::Winner;
use crate::movegen;
use crate::movegen::Squares;
use crate::rules::{
    at, attacked_by, back_rank, before, credit_slot, deploy_refusal, held_by, holds,
    king_at_ease, king_on, last_rank, legal_moves, lemma_destination_on_board, pool_slot, put,
    rights_after_deploy, rights_after_move, stuck, Grid, Position,
};

verus! {

/// Everything that belongs to the game on one board.
#[derive(Clone, Copy)]
pub struct Game {
    /// The squares and the six moved-flags.
    pub board: ChessBoard,
    /// The pawn that made a double step, or was deployed, in the previous
    /// ply: the one that may be captured in passing.
    pub pawn_in_last_turn: Option<(usize, usize)>,
    /// Whether it is White's turn.
    pub white_active: bool,
    /// The piece that the next promoting pawn turns into; `E` when nothing
    /// has been chosen.
    pub upgrade_to: Piece,
    /// Plies since the last capture or pawn move.
    pub half_moves_last_capture: usize,
    /// The number of the current full move.
    pub movectr: usize,
    /// White's pool: pawns, rooks, knights, bishops, queens.
    pub white_capture: [u8; 5],
    /// Black's pool, in the same order.
    pub black_capture: [u8; 5],
    /// How the game stands.
    pub winner: Winner,
}

/// What carrying out a checked move involves.
pub struct Plan {
    /// The piece that moves.
    pub mover: chessboard::Piece,
    /// The letter to write on the destination.
    pub placed: Piece,
    /// Whether a pawn reaches its last rank.
    pub promotes: bool,
    /// Whether the move is a capture in passing.
    pub passes: bool,
    /// Whether the move is a castling.
    pub castles: bool,
    /// The piece taken off the board.
    pub cap: Option<chessboard::Piece>,
}

/// The outcome when colour `c` takes the enemy king on the first or on the
/// second board.
pub open spec fn win(board1: bool, c: Color) -> Winner {
    match (board1, c) {
        (true, Color::White) => Winner::W1,
        (true, Color::Black) => Winner::B1,
        (false, Color::White) => Winner::W2,
        (false, Color::Black) => Winner::B2,
    }
}

/// The kind that a pending promotion `choice` gives a pawn of colour `c`:
/// the choice has to be a rook, knight, bishop or queen of that colour.
pub open spec fn promotion_kind(choice: Piece, c: Color) -> Option<PieceType> {
    match choice.field() {
        Field::Piece(u) => if u.color == c && (u.piece_type == PieceType::Rook || u.piece_type
            == PieceType::Knight || u.piece_type == PieceType::Bishop || u.piece_type
            == PieceType::Queen) {
            Some(u.piece_type)
        } else {
            None
        },
        _ => None,
    }
}

/// The kind of piece that a letter asks to deploy. A letter that names no
/// piece is treated like a king: no pool ever holds one.
pub open spec fn deploy_kind(letter: Piece) -> PieceType {
    match letter.field() {
        Field::Piece(u) => u.piece_type,
        _ => PieceType::King,
    }
}

/// Every slot of a pool can still take one more piece.
pub open spec fn roomy(pool: Seq<u8>) -> bool {
    pool[0] < u8::MAX && pool[1] < u8::MAX && pool[2] < u8::MAX && pool[3] < u8::MAX && pool[4]
        < u8::MAX
}

/// The colour that a flag "white" stands for.
pub open spec fn color_of(white: bool) -> Color {
    if white {
        Color::White
    } else {
        Color::Black
    }
}

impl Game {
    /// What move generation sees of this game.
    pub open spec fn position(&self) -> Position {
        Position {
            grid: self.board.grid(),
            rights: self.board.rights(),
            last_pawn: self.pawn_in_last_turn,
        }
    }

    /// The colour whose turn it is.
    pub open spec fn turn(&self) -> Color {
        color_of(self.white_active)
    }

    /// The pool of colour `c`.
    pub open spec fn pool(&self, c: Color) -> Seq<u8> {
        match c {
            Color::White => self.white_capture@,
            Color::Black => self.black_capture@,
        }
    }

    /// The pool of colour `c` holds nothing.
    pub open spec fn pool_is_empty(&self, c: Color) -> bool {
        forall|x: int| 0 <= x < 5 ==> #[trigger] self.pool(c)[x] == 0
    }

    /// Colour `c` is stalemated: none of its pieces but the king has a move,
    /// its king is on the board and not attacked, and its pool is empty.
    pub open spec fn stalemate(&self, c: Color) -> bool {
        &&& stuck(self.position(), c)
        &&& king_at_ease(self.board.grid(), c)
        &&& self.pool_is_empty(c)
    }

    /// The piece that a move from `(fi, fj)` moves.
    pub open spec fn mover(&self, fi: usize, fj: usize) -> chessboard::Piece {
        at(self.board.grid(), fi as int, fj as int)->Piece_0
    }

    /// The move takes a pawn to its last rank.
    pub open spec fn promotes(&self, fi: usize, fj: usize, ti: usize) -> bool {
        self.mover(fi, fj).piece_type == PieceType::Pawn && ti == last_rank(
            self.mover(fi, fj).color,
        )
    }

    /// Why the move from `(fi, fj)` to `(ti, tj)` is refused, if it is. The
    /// checks come in this order: the game is over; the destination is not
    /// among the legal moves of the origin; the piece is not of the colour
    /// whose turn it is; a pawn would reach its last rank with no valid
    /// promotion chosen.
    pub open spec fn move_error(&self, fi: usize, fj: usize, ti: usize, tj: usize) -> Option<
        MoveError,
    > {
        if self.winner != Winner::N {
            Some(MoveError::AlreadyOver)
        } else if !legal_moves(self.position(), fi as int, fj as int).contains((ti, tj)) {
            Some(MoveError::NotLegal)
        } else if self.mover(fi, fj).color != self.turn() {
            Some(MoveError::NotTurn)
        } else if self.promotes(fi, fj, ti) && promotion_kind(
            self.upgrade_to,
            self.mover(fi, fj).color,
        ) is None {
            Some(MoveError::PromotionProblem)
        } else {
            None
        }
    }

    /// The move is a capture in passing: a pawn changes file and lands on
    /// an empty square.
    pub open spec fn passes(&self, fi: usize, fj: usize, ti: usize, tj: usize) -> bool {
        self.mover(fi, fj).piece_type == PieceType::Pawn && fj != tj && at(
            self.board.grid(),
            ti as int,
            tj as int,
        ) == Field::Empty
    }

    /// The move is a castling: the king leaves its home square for a square
    /// two files away.
    pub open spec fn castles(&self, fi: usize, fj: usize, ti: usize, tj: usize) -> bool {
        self.mover(fi, fj).piece_type == PieceType::King && fi == back_rank(
            self.mover(fi, fj).color,
        ) && fj == 4 && ti == fi && (tj == 6 || tj == 2)
    }

    /// The piece that the move takes off the board, if any: what stands on
    /// the destination, or for a capture in passing the pawn beside the
    /// origin.
    pub open spec fn captured(&self, fi: usize, fj: usize, ti: usize, tj: usize) -> Option<
        chessboard::Piece,
    > {
        let victim = if self.passes(fi, fj, ti, tj) {
            at(self.board.grid(), fi as int, tj as int)
        } else {
            at(self.board.grid(), ti as int, tj as int)
        };
        match victim {
            Field::Piece(x) => Some(x),
            _ => None,
        }
    }

    /// What the move sets down on its destination: the mover, or for a
    /// promotion a promoted piece of the chosen kind.
    pub open spec fn placed(&self, fi: usize, fj: usize, ti: usize) -> Field {
        let m = self.mover(fi, fj);
        if self.promotes(fi, fj, ti) {
            man(promotion_kind(self.upgrade_to, m.color).unwrap(), m.color, true)
        } else {
            Field::Piece(m)
        }
    }

    /// The squares after the move: the destination holds what was placed,
    /// the origin is empty, a pawn captured in passing is gone, and in a
    /// castling the rook has gone from its corner to the square the king
    /// crossed.
    pub open spec fn grid_after(&self, fi: usize, fj: usize, ti: usize, tj: usize) -> Grid {
        let g = self.board.grid();
        let g1 = put(
            put(g, ti as int, tj as int, self.placed(fi, fj, ti)),
            fi as int,
            fj as int,
            Field::Empty,
        );
        let g2 = if self.passes(fi, fj, ti, tj) {
            put(g1, fi as int, tj as int, Field::Empty)
        } else {
            g1
        };
        if self.castles(fi, fj, ti, tj) && tj == 6 {
            put(put(g2, fi as int, 5, at(g, fi as int, 7)), fi as int, 7, Field::Empty)
        } else if self.castles(fi, fj, ti, tj) && tj == 2 {
            put(put(g2, fi as int, 3, at(g, fi as int, 0)), fi as int, 0, Field::Empty)
        } else {
            g2
        }
    }

    /// `post` is this game after the move from `(fi, fj)` to `(ti, tj)` on
    /// the first (`board1`) or second board. Besides the squares: the
    /// moved-flags follow the mover; a pawn's double step makes it the pawn
    /// that may be captured in passing, any other move clears that pawn; the
    /// turn passes; a promotion uses up the pending choice; the half-move
    /// clock restarts on a capture or pawn move and else advances; the
    /// full-move counter advances after Black; the pools of this board stay;
    /// and the game
    /// is won if a king was taken, else drawn if either colour is now
    /// stalemated, else goes on.
    pub open spec fn moved(
        &self,
        post: Game,
        board1: bool,
        fi: usize,
        fj: usize,
        ti: usize,
        tj: usize,
    ) -> bool {
        let m = self.mover(fi, fj);
        let cap = self.captured(fi, fj, ti, tj);
        &&& post.board.grid() == self.grid_after(fi, fj, ti, tj)
        &&& post.board.rights() == rights_after_move(self.board.rights(), m, fi as int, fj as int)
        &&& post.pawn_in_last_turn == if m.piece_type == PieceType::Pawn && (ti == fi + 2 || fi
            == ti + 2) {
            Some((ti, tj))
        } else {
            None
        }
        &&& post.white_active == !self.white_active
        &&& post.upgrade_to == if self.promotes(fi, fj, ti) {
            Piece::E
        } else {
            self.upgrade_to
        }
        &&& post.half_moves_last_capture == if cap is Some || m.piece_type == PieceType::Pawn {
            0int
        } else {
            self.half_moves_last_capture + 1
        }
        &&& post.movectr == self.movectr + if m.color == Color::Black {
            1int
        } else {
            0int
        }
        &&& post.white_capture == self.white_capture
        &&& post.black_capture == self.black_capture
        &&& post.winner == if cap matches Some(x) && x.piece_type == PieceType::King {
            win(board1, m.color)
        } else if post.stalemate(Color::White) || post.stalemate(Color::Black) {
            Winner::P
        } else {
            Winner::N
        }
    }

    /// `post` is this game after the player of colour `by` on the other
    /// board took `cap` there: the pool of colour `by` holds one more in the
    /// slot of the piece, a promoted piece counting as a pawn, and the pool
    /// of the other colour is as it was. A king, or no capture, changes
    /// nothing.
    pub open spec fn credited(
        &self,
        post: Game,
        by: Color,
        cap: Option<chessboard::Piece>,
    ) -> bool {
        match cap {
            Some(x) => match credit_slot(x) {
                Some(slot) => {
                    &&& post.pool(by) == self.pool(by).update(
                        slot,
                        (self.pool(by)[slot] + 1) as u8,
                    )
                    &&& post.pool(by.other()) == self.pool(by.other())
                    &&& post == (Game {
                        white_capture: post.white_capture,
                        black_capture: post.black_capture,
                        ..*self
                    })
                },
                None => post == *self,
            },
            None => post == *self,
        }
    }

    /// The count that the pool of colour `c` holds of kind `k`; none of
    /// kings.
    pub open spec fn stock(&self, c: Color, k: PieceType) -> int {
        match pool_slot(k) {
            Some(x) => self.pool(c)[x] as int,
            None => 0,
        }
    }

    /// Why deploying the piece that `letter` names, as colour `white`, on
    /// `(i, j)` is refused, if it is.
    pub open spec fn deploy_error(&self, white: bool, letter: Piece, i: usize, j: usize) -> Option<
        MoveError,
    > {
        deploy_refusal(
            self.winner != Winner::N,
            self.board.grid(),
            self.turn(),
            color_of(white),
            deploy_kind(letter),
            self.stock(color_of(white), deploy_kind(letter)),
            i as int,
            j as int,
        )
    }

    /// `post` is this game after the deployment: the square holds a fresh
    /// piece of the colour and kind, the pool of the colour holds one less
    /// of the kind, the turn has passed, a deployed pawn is the pawn that
    /// may be captured in passing and restarts the half-move clock, any
    /// other piece clears that pawn and advances the clock, the full-move
    /// counter advances after Black, and a rook on a home corner of its
    /// colour counts as unmoved. A deployment ends no game.
    pub open spec fn deployed(&self, post: Game, white: bool, letter: Piece, i: usize, j: usize) -> bool {
        let c = color_of(white);
        let k = deploy_kind(letter);
        let slot = pool_slot(k).unwrap();
        &&& post.board.grid() == put(self.board.grid(), i as int, j as int, man(k, c, false))
        &&& post.board.rights() == rights_after_deploy(
            self.board.rights(),
            c,
            k,
            i as int,
            j as int,
        )
        &&& post.pawn_in_last_turn == if k == PieceType::Pawn {
            Some((i, j))
        } else {
            None
        }
        &&& post.white_active == !self.white_active
        &&& post.upgrade_to == self.upgrade_to
        &&& post.half_moves_last_capture == if k == PieceType::Pawn {
            0int
        } else {
            self.half_moves_last_capture + 1
        }
        &&& post.movectr == self.movectr + if c == Color::Black {
            1int
        } else {
            0int
        }
        &&& post.pool(c) == self.pool(c).update(slot, (self.pool(c)[slot] - 1) as u8)
        &&& post.pool(c.other()) == self.pool(c.other())
        &&& post.winner == self.winner
    }

    /// The destinations of whatever stands on `(i, j)`.
    pub fn legal_moves(&self, i: usize, j: usize) -> (v: Vec<(usize, usize)>)
        ensures
            v@ == legal_moves(self.position(), i as int, j as int),
    {
        movegen::moves_from(&self.board, self.board.moved_flags(), self.pawn_in_last_turn, i, j)
    }

    /// Whether the pool of colour `c` holds nothing.
    pub fn pool_empty(&self, c: Color) -> (r: bool)
        ensures
            r == self.pool_is_empty(c),
    {
        let pool: [u8; 5] = match c {
            Color::White => self.white_capture,
            Color::Black => self.black_capture,
        };
        assert(pool@ == self.pool(c));
        let r = pool[0] == 0 && pool[1] == 0 && pool[2] == 0 && pool[3] == 0 && pool[4] == 0;
        assert(r == self.pool_is_empty(c)) by {
            let s = self.pool(c);
            assert(s[0] == pool[0] && s[1] == pool[1] && s[2] == pool[2] && s[3] == pool[3] && s[4]
                == pool[4]);
        }
        r
    }

    /// The square of the king of colour `c`: the first one in reading
    /// order, or `None` if the colour has no king on the board.
    pub fn find_king(&self, c: Color) -> (r: Option<(usize, usize)>)
        ensures
            r matches Some(s) ==> s.0 < 8 && s.1 < 8 && king_on(
                self.board.grid(),
                c,
                s.0 as int,
                s.1 as int,
            ),
            r is None ==> forall|a: int, b: int|
                !#[trigger] holds(self.board.grid(), a, b, c, PieceType::King),
    {
        let mut i: usize = 0;
        while i < 8
            invariant
                i <= 8,
                forall|a: int, b: int|
                    before(a, b, i as int, 0) ==> !#[trigger] holds(
                        self.board.grid(),
                        a,
                        b,
                        c,
                        PieceType::King,
                    ),
            decreases 8 - i,
        {
            let mut j: usize = 0;
            while j < 8
                invariant
                    i < 8,
                    j <= 8,
                    forall|a: int, b: int|
                        before(a, b, i as int, j as int) ==> !#[trigger] holds(
                            self.board.grid(),
                            a,
                            b,
                            c,
                            PieceType::King,
                        ),
                decreases 8 - j,
            {
                if movegen::has_piece(&self.board, i as i32, j as i32, c, PieceType::King) {
                    return Some((i, j));
                }
                j += 1;
            }
            i += 1;
        }
        None
    }

    /// Whether colour `c` is stalemated.
    pub fn is_stalemate(&self, c: Color) -> (r: bool)
        ensures
            r == self.stalemate(c),
    {
        let ghost p = self.position();
        let mut i: usize = 0;
        while i < 8
            invariant
                i <= 8,
                p == self.position(),
                forall|a: int, b: int|
                    before(a, b, i as int, 0) && held_by(p.grid, a, b, c) && !holds(
                        p.grid,
                        a,
                        b,
                        c,
                        PieceType::King,
                    ) ==> (#[trigger] legal_moves(p, a, b)).len() == 0,
            decreases 8 - i,
        {
            let mut j: usize = 0;
            while j < 8
                invariant
                    i < 8,
                    j <= 8,
                    p == self.position(),
                    forall|a: int, b: int|
                        before(a, b, i as int, j as int) && held_by(p.grid, a, b, c) && !holds(
                            p.grid,
                            a,
                            b,
                            c,
                            PieceType::King,
                        ) ==> (#[trigger] legal_moves(p, a, b)).len() == 0,
                decreases 8 - j,
            {
                if movegen::is_held_by(&self.board, i as i32, j as i32, c) && !movegen::has_piece(
                    &self.board,
                    i as i32,
                    j as i32,
                    c,
                    PieceType::King,
                ) {
                    let v = self.legal_moves(i, j);
                    if v.len() != 0 {
                        assert(legal_moves(p, i as int, j as int).len() != 0);
                        return false;
                    }
                }
                j += 1;
            }
            i += 1;
        }
        assert(stuck(p, c));
        match self.find_king(c) {
            None => {
                assert(!king_at_ease(p.grid, c));
                false
            },
            Some(s) => {
                let safe = !movegen::is_attacked(&self.board, c.opponent(), s.0, s.1);
                assert(safe == king_at_ease(p.grid, c)) by {
                    if king_at_ease(p.grid, c) {
                        let (a, b) = choose|a: int, b: int| #[trigger]
                            king_on(p.grid, c, a, b) && !attacked_by(p.grid, c.other(), a, b);
                        assert(holds(p.grid, a, b, c, PieceType::King));
                        assert(holds(p.grid, s.0 as int, s.1 as int, c, PieceType::King));
                        assert(a == s.0 && b == s.1);
                    }
                }
                safe && self.pool_empty(c)
            },
        }
    }

    /// Checks the move from `(fi, fj)` to `(ti, tj)` against the rules and
    /// says what carrying it out involves.
    pub fn plan_move(&self, fi: usize, fj: usize, ti: usize, tj: usize) -> (r: Result<
        Plan,
        MoveError,
    >)
        ensures
            match r {
                Ok(plan) => {
                    &&& self.move_error(fi, fj, ti, tj) is None
                    &&& fi < 8 && fj < 8 && ti < 8 && tj < 8
                    &&& at(self.board.grid(), fi as int, fj as int) is Piece
                    &&& plan.mover == self.mover(fi, fj)
                    &&& plan.placed.field() == self.placed(fi, fj, ti)
                    &&& plan.promotes == self.promotes(fi, fj, ti)
                    &&& plan.passes == self.passes(fi, fj, ti, tj)
                    &&& plan.castles == self.castles(fi, fj, ti, tj)
                    &&& plan.cap == self.captured(fi, fj, ti, tj)
                },
                Err(e) => self.move_error(fi, fj, ti, tj) == Some(e),
            },
    {
        if self.winner != Winner::N {
            return Err(MoveError::AlreadyOver);
        }
        let v = self.legal_moves(fi, fj);
        if !contains(&v, (ti, tj)) {
            return Err(MoveError::NotLegal);
        }
        proof {
            lemma_destination_on_board(self.position(), fi as int, fj as int, (ti, tj));
        }
        let letter = self.board.board[fi][fj];
        let m = match letter.to_field() {
            Field::Piece(m) => m,
            _ => {
                return Err(MoveError::NotLegal);
            },
        };
        let c = m.color;
        if (c == Color::White) != self.white_active {
            return Err(MoveError::NotTurn);
        }
        let last: usize = match c {
            Color::White => 0,
            Color::Black => 7,
        };
        let promotes = m.piece_type == PieceType::Pawn && ti == last;
        let mut placed = letter;
        if promotes {
            match self.upgrade_to.to_field() {
                Field::Piece(u) => {
                    if u.color == c && (u.piece_type == PieceType::Rook || u.piece_type
                        == PieceType::Knight || u.piece_type == PieceType::Bishop || u.piece_type
                        == PieceType::Queen) {
                        placed = Piece::promoted_letter(u.piece_type, c);
                    } else {
                        return Err(MoveError::PromotionProblem);
                    }
                },
                _ => {
                    return Err(MoveError::PromotionProblem);
                },
            }
        }
        let target = self.board.board[ti][tj].to_field();
        let passes = m.piece_type == PieceType::Pawn && fj != tj && target == Field::Empty;
        let victim = if passes {
            self.board.board[fi][tj].to_field()
        } else {
            target
        };
        let cap = match victim {
            Field::Piece(x) => Some(x),
            _ => None,
        };
        let castles = m.piece_type == PieceType::King && fi == movegen::home_rank(c) && fj == 4
            && ti == fi && (tj == 6 || tj == 2);
        Ok(Plan { mover: m, placed, promotes, passes, castles, cap })
    }

    /// Rearranges the squares for a move that has been checked.
    fn shift(
        &mut self,
        plan: &Plan,
        fi: usize,
        fj: usize,
        ti: usize,
        tj: usize,
    )
        requires
            fi < 8 && fj < 8 && ti < 8 && tj < 8,
            plan.placed.field() == old(self).placed(fi, fj, ti),
            plan.passes == old(self).passes(fi, fj, ti, tj),
            plan.castles == old(self).castles(fi, fj, ti, tj),
        ensures
            final(self).board.grid() == old(self).grid_after(fi, fj, ti, tj),
            *final(self) == (Game {
                board: ChessBoard { board: final(self).board.board, ..old(self).board },
                ..*old(self)
            }),
    {
        let short_rook = self.board.board[fi][7];
        let long_rook = self.board.board[fi][0];
        self.board.board[ti][tj] = plan.placed;
        self.board.board[fi][fj] = Piece::E;
        if plan.passes {
            self.board.board[fi][tj] = Piece::E;
        }
        if plan.castles && tj == 6 {
            self.board.board[fi][5] = short_rook;
            self.board.board[fi][7] = Piece::E;
        } else if plan.castles && tj == 2 {
            self.board.board[fi][3] = long_rook;
            self.board.board[fi][0] = Piece::E;
        }
        assert(self.board.grid() =~~= old(self).grid_after(fi, fj, ti, tj));
    }

    /// Writes down how the game stands after a ply by colour `c` on the
    /// first (`board1`) or second board: won if a king was taken, else
    /// drawn if either colour is stalemated, else undecided.
    pub fn judge(&mut self, board1: bool, c: Color, king_taken: bool)
        ensures
            *final(self) == (Game { winner: final(self).winner, ..*old(self) }),
            final(self).winner == if king_taken {
                win(board1, c)
            } else if final(self).stalemate(Color::White) || final(self).stalemate(Color::Black) {
                Winner::P
            } else {
                Winner::N
            },
    {
        if king_taken {
            self.winner = match (board1, c) {
                (true, Color::White) => Winner::W1,
                (true, Color::Black) => Winner::B1,
                (false, Color::White) => Winner::W2,
                (false, Color::Black) => Winner::B2,
            };
        } else if self.is_stalemate(Color::White) || self.is_stalemate(Color::Black) {
            self.winner = Winner::P;
        } else {
            self.winner = Winner::N;
        }
        proof {
            assert(self.position() == old(self).position());
            assert(self.pool(Color::White) == old(self).pool(Color::White));
            assert(self.pool(Color::Black) == old(self).pool(Color::Black));
        }
    }

    /// Makes the move from `(fi, fj)` to `(ti, tj)` on the first (`board1`)
    /// or second board and returns the colour that moved and the piece it
    /// took, which the caller owes to that colour's pool on the other
    /// board. On refusal nothing changes.
    pub fn make_move(&mut self, board1: bool, fi: usize, fj: usize, ti: usize, tj: usize) -> (r:
        Result<(Color, Option<chessboard::Piece>), MoveError>)
        requires
            old(self).half_moves_last_capture < usize::MAX,
            old(self).movectr < usize::MAX,
        ensures
            match r {
                Ok(done) => {
                    &&& old(self).move_error(fi, fj, ti, tj) is None
                    &&& done.0 == old(self).mover(fi, fj).color
                    &&& done.1 == old(self).captured(fi, fj, ti, tj)
                    &&& old(self).moved(*final(self), board1, fi, fj, ti, tj)
                },
                Err(e) => old(self).move_error(fi, fj, ti, tj) == Some(e) && *final(self) == *old(
                    self,
                ),
            },
    {
        let plan = match self.plan_move(fi, fj, ti, tj) {
            Ok(plan) => plan,
            Err(e) => {
                return Err(e);
            },
        };
        let m = plan.mover;
        let flags = movegen::flags_after_move(self.board.moved_flags(), m, fi, fj);
        self.shift(&plan, fi, fj, ti, tj);
        self.board.set_moved_flags(flags);
        if m.piece_type == PieceType::Pawn && (ti == fi + 2 || fi == ti + 2) {
            self.pawn_in_last_turn = Some((ti, tj));
        } else {
            self.pawn_in_last_turn = None;
        }
        self.white_active = !self.white_active;
        if plan.promotes {
            self.upgrade_to = Piece::E;
        }
        if plan.cap.is_some() || m.piece_type == PieceType::Pawn {
            self.half_moves_last_capture = 0;
        } else {
            self.half_moves_last_capture = self.half_moves_last_capture + 1;
        }
        if m.color == Color::Black {
            self.movectr = self.movectr + 1;
        }
        let king_taken = match plan.cap {
            Some(x) => x.piece_type == PieceType::King,
            None => false,
        };
        self.judge(board1, m.color, king_taken);
        Ok((m.color, plan.cap))
    }

    /// Adds a piece that the player of colour `by` took on the other board
    /// to this board's pool of colour `by`.
    pub fn credit(&mut self, by: Color, cap: Option<chessboard::Piece>)
        requires
            roomy(old(self).pool(Color::White)),
            roomy(old(self).pool(Color::Black)),
        ensures
            old(self).credited(*final(self), by, cap),
    {
        if let Some(x) = cap {
            if let Some(slot) = crate::aux::box_index(&x) {
                match by {
                    Color::White => {
                        self.white_capture[slot] = self.white_capture[slot] + 1;
                    },
                    Color::Black => {
                        self.black_capture[slot] = self.black_capture[slot] + 1;
                    },
                }
            }
        }
    }

    /// Deploys the piece that `letter` names, as colour `white`, on
    /// `(i, j)`. On refusal nothing changes.
    pub fn deploy(&mut self, white: bool, letter: Piece, i: usize, j: usize) -> (r: Result<
        bool,
        MoveError,
    >)
        requires
            old(self).half_moves_last_capture < usize::MAX,
            old(self).movectr < usize::MAX,
        ensures
            match r {
                Ok(done) => done && old(self).deploy_error(white, letter, i, j) is None && old(
                    self,
                ).deployed(*final(self), white, letter, i, j),
                Err(e) => old(self).deploy_error(white, letter, i, j) == Some(e) && *final(self)
                    == *old(self),
            },
    {
        if self.winner != Winner::N {
            return Err(MoveError::AlreadyOver);
        }
        if i >= 8 || j >= 8 {
            return Err(MoveError::NotLegal);
        }
        if self.board.board[i][j] != Piece::E {
            assert(self.board.board[i as int][j as int].field() != Field::Empty);
            return Err(MoveError::NotEmpty);
        }
        if white != self.white_active {
            return Err(MoveError::NotTurn);
        }
        let c = if white {
            Color::White
        } else {
            Color::Black
        };
        let k = match letter.to_field() {
            Field::Piece(u) => u.piece_type,
            _ => PieceType::King,
        };
        let slot: usize = match k {
            PieceType::Pawn => 0,
            PieceType::Rook => 1,
            PieceType::Knight => 2,
            PieceType::Bishop => 3,
            PieceType::Queen => 4,
            PieceType::King => {
                return Err(MoveError::NoPieceInPool);
            },
        };
        let count: u8 = if white {
            self.white_capture[slot]
        } else {
            self.black_capture[slot]
        };
        if count == 0 {
            return Err(MoveError::NoPieceInPool);
        }
        if k == PieceType::Pawn && (i == 0 || i == 7) {
            return Err(MoveError::NotLegal);
        }
        let flags = movegen::flags_after_deploy(self.board.moved_flags(), c, k, i, j);
        self.board.set(i, j, Piece::plain_letter(k, c));
        self.board.set_moved_flags(flags);
        if white {
            self.white_capture[slot] = count - 1;
        } else {
            self.black_capture[slot] = count - 1;
            self.movectr = self.movectr + 1;
        }
        if k == PieceType::Pawn {
            self.pawn_in_last_turn = Some((i, j));
            self.half_moves_last_capture = 0;
        } else {
            self.pawn_in_last_turn = None;
            self.half_moves_last_capture = self.half_moves_last_capture + 1;
        }
        self.white_active = !self.white_active;
        Ok(true)
    }
}

} // verus!
