//! The table: two boards whose games are tied together by the pools. A
//! piece taken on one board goes to the other board's pool of the colour
//! that took it, from which it may later be deployed there.

use vstd::prelude::*;
use crate::board::{ChessBoard, Piece};
pub use crate::chessboard::MoveError;
use crate::chessboard::{Color, Field, PieceType};
use crate::game::{color_of, roomy, win, Game};
use crate::movegen;
use crate::movegen::Squares;
use crate::rules::{
    at, attacked_by, before, credit_slot, empty_grid, fresh_rights, held_by, legal_moves,
    on_board, put, start_grid, vacant,
};

verus! {

/// How the game on a board stands: won by White or Black on the first or
/// second board, not decided (`N`), or drawn by stalemate (`P`).
#[derive(Clone, Copy, Debug, PartialEq, Eq, Structural)]
pub enum Winner {
    W1,
    B1,
    N,
    P,
    W2,
    B2,
}

/// Two boards with all that belongs to their games. Fields ending in `1`
/// or `b1` belong to the first board, those ending in `2` or `b2` to the
/// second.
pub struct ChessLogic {
    pub chess_board1: ChessBoard,
    pub chess_board2: ChessBoard,
    /// The pawn that may be captured in passing.
    pub pawn_in_last_turn_b1: Option<(usize, usize)>,
    pub pawn_in_last_turn_b2: Option<(usize, usize)>,
    /// Whether it is White's turn.
    pub white_active_1: bool,
    pub white_active_2: bool,
    /// The pending promotion; `E` when nothing has been chosen.
    pub upgrade_to1: Piece,
    pub upgrade_to2: Piece,
    /// Plies since the last capture or pawn move.
    pub half_moves_last_capture1: usize,
    pub half_moves_last_capture2: usize,
    /// The number of the current full move.
    pub movectr1: usize,
    pub movectr2: usize,
    /// The pools: pawns, rooks, knights, bishops, queens.
    pub board1_white_capture: [u8; 5],
    pub board1_black_capture: [u8; 5],
    pub board2_white_capture: [u8; 5],
    pub board2_black_capture: [u8; 5],
    /// How each game stands.
    pub winner1: Winner,
    pub winner2: Winner,
}

/// The slot that a letter takes in a pool: a promoted piece counts as a
/// pawn; kings, empty and marked squares have none.
pub open spec fn letter_slot(letter: Piece) -> Option<int> {
    match letter.field() {
        Field::Piece(x) => credit_slot(x),
        _ => None,
    }
}

/// The plain letter of the kind that `letter` names, in the colour opposed
/// to `iswhite`; `E` and `L` stay as they are.
pub open spec fn enemy_letter(iswhite: bool, letter: Piece) -> Piece {
    match letter.field() {
        Field::Piece(x) => Piece::plain(x.piece_type, color_of(iswhite).other()),
        _ => letter,
    }
}

/// The promoted letter of the kind that `letter` names, in the colour
/// opposed to `iswhite`; pawns and kings have no promoted form and give
/// their plain letter, `E` and `L` stay as they are.
pub open spec fn enemy_promoted_letter(iswhite: bool, letter: Piece) -> Piece {
    match letter.field() {
        Field::Piece(x) => Piece::promoted(x.piece_type, color_of(iswhite).other()),
        _ => letter,
    }
}

/// The letter that `set_promotion` stores for `letter`: the plain letter of
/// the same kind and colour, if the kind is one a pawn can turn into.
pub open spec fn promotion_letter(letter: Piece) -> Option<Piece> {
    match letter.field() {
        Field::Piece(x) => if x.piece_type == PieceType::Rook || x.piece_type == PieceType::Knight
            || x.piece_type == PieceType::Bishop || x.piece_type == PieceType::Queen {
            Some(Piece::plain(x.piece_type, x.color))
        } else {
            None
        },
        _ => None,
    }
}

/// A game as it starts: the standard arrangement, White to move in move 1,
/// nothing moved, nothing chosen, empty pools, undecided.
pub open spec fn is_fresh(g: Game) -> bool {
    &&& g.board.grid() == start_grid()
    &&& g.board.rights() == fresh_rights()
    &&& g.pawn_in_last_turn is None
    &&& g.white_active
    &&& g.upgrade_to == Piece::E
    &&& g.half_moves_last_capture == 0
    &&& g.movectr == 1
    &&& g.white_capture@ == seq![0u8, 0u8, 0u8, 0u8, 0u8]
    &&& g.black_capture@ == seq![0u8, 0u8, 0u8, 0u8, 0u8]
    &&& g.winner == Winner::N
}

impl ChessLogic {
    /// The game on the first (`board1`) or second board.
    pub open spec fn game(&self, board1: bool) -> Game {
        if board1 {
            Game {
                board: self.chess_board1,
                pawn_in_last_turn: self.pawn_in_last_turn_b1,
                white_active: self.white_active_1,
                upgrade_to: self.upgrade_to1,
                half_moves_last_capture: self.half_moves_last_capture1,
                movectr: self.movectr1,
                white_capture: self.board1_white_capture,
                black_capture: self.board1_black_capture,
                winner: self.winner1,
            }
        } else {
            Game {
                board: self.chess_board2,
                pawn_in_last_turn: self.pawn_in_last_turn_b2,
                white_active: self.white_active_2,
                upgrade_to: self.upgrade_to2,
                half_moves_last_capture: self.half_moves_last_capture2,
                movectr: self.movectr2,
                white_capture: self.board2_white_capture,
                black_capture: self.board2_black_capture,
                winner: self.winner2,
            }
        }
    }

    /// The game on the first (`board1`) or second board.
    pub fn game_of(&self, board1: bool) -> (g: Game)
        ensures
            g == self.game(board1),
    {
        if board1 {
            Game {
                board: self.chess_board1,
                pawn_in_last_turn: self.pawn_in_last_turn_b1,
                white_active: self.white_active_1,
                upgrade_to: self.upgrade_to1,
                half_moves_last_capture: self.half_moves_last_capture1,
                movectr: self.movectr1,
                white_capture: self.board1_white_capture,
                black_capture: self.board1_black_capture,
                winner: self.winner1,
            }
        } else {
            Game {
                board: self.chess_board2,
                pawn_in_last_turn: self.pawn_in_last_turn_b2,
                white_active: self.white_active_2,
                upgrade_to: self.upgrade_to2,
                half_moves_last_capture: self.half_moves_last_capture2,
                movectr: self.movectr2,
                white_capture: self.board2_white_capture,
                black_capture: self.board2_black_capture,
                winner: self.winner2,
            }
        }
    }

    /// Replaces the game on the first (`board1`) or second board.
    pub fn set_game(&mut self, board1: bool, g: Game)
        ensures
            final(self).game(board1) == g,
            final(self).game(!board1) == old(self).game(!board1),
    {
        if board1 {
            self.chess_board1 = g.board;
            self.pawn_in_last_turn_b1 = g.pawn_in_last_turn;
            self.white_active_1 = g.white_active;
            self.upgrade_to1 = g.upgrade_to;
            self.half_moves_last_capture1 = g.half_moves_last_capture;
            self.movectr1 = g.movectr;
            self.board1_white_capture = g.white_capture;
            self.board1_black_capture = g.black_capture;
            self.winner1 = g.winner;
        } else {
            self.chess_board2 = g.board;
            self.pawn_in_last_turn_b2 = g.pawn_in_last_turn;
            self.white_active_2 = g.white_active;
            self.upgrade_to2 = g.upgrade_to;
            self.half_moves_last_capture2 = g.half_moves_last_capture;
            self.movectr2 = g.movectr;
            self.board2_white_capture = g.white_capture;
            self.board2_black_capture = g.black_capture;
            self.winner2 = g.winner;
        }
    }

    /// A table on which both games are about to start.
    pub fn new() -> (t: ChessLogic)
        ensures
            is_fresh(t.game(true)),
            is_fresh(t.game(false)),
    {
        let t = ChessLogic {
            chess_board1: ChessBoard::new(),
            chess_board2: ChessBoard::new(),
            pawn_in_last_turn_b1: None,
            pawn_in_last_turn_b2: None,
            white_active_1: true,
            white_active_2: true,
            upgrade_to1: Piece::E,
            upgrade_to2: Piece::E,
            half_moves_last_capture1: 0,
            half_moves_last_capture2: 0,
            movectr1: 1,
            movectr2: 1,
            board1_white_capture: [0, 0, 0, 0, 0],
            board1_black_capture: [0, 0, 0, 0, 0],
            board2_white_capture: [0, 0, 0, 0, 0],
            board2_black_capture: [0, 0, 0, 0, 0],
            winner1: Winner::N,
            winner2: Winner::N,
        };
        assert(t.board1_white_capture@ =~= seq![0u8, 0u8, 0u8, 0u8, 0u8]);
        assert(t.board1_black_capture@ =~= seq![0u8, 0u8, 0u8, 0u8, 0u8]);
        assert(t.board2_white_capture@ =~= seq![0u8, 0u8, 0u8, 0u8, 0u8]);
        assert(t.board2_black_capture@ =~= seq![0u8, 0u8, 0u8, 0u8, 0u8]);
        t
    }

    /// Puts both games back to their start.
    pub fn refresh(&mut self)
        ensures
            is_fresh(final(self).game(true)),
            is_fresh(final(self).game(false)),
    {
        *self = ChessLogic::new();
    }

    /// Whether the king of the given colour has moved on the given board.
    pub fn get_if_king_moved(&self, board1: bool, white: bool) -> (r: bool)
        ensures
            r == self.game(board1).board.rights().king_moved(color_of(white)),
    {
        if board1 {
            if white {
                self.chess_board1.white_k_moved
            } else {
                self.chess_board1.black_k_moved
            }
        } else {
            if white {
                self.chess_board2.white_k_moved
            } else {
                self.chess_board2.black_k_moved
            }
        }
    }

    /// The four pools: first board White, first board Black, second board
    /// White, second board Black.
    pub fn get_pools(&self) -> (r: ([u8; 5], [u8; 5], [u8; 5], [u8; 5]))
        ensures
            r.0 == self.game(true).white_capture,
            r.1 == self.game(true).black_capture,
            r.2 == self.game(false).white_capture,
            r.3 == self.game(false).black_capture,
    {
        (
            self.board1_white_capture,
            self.board1_black_capture,
            self.board2_white_capture,
            self.board2_black_capture,
        )
    }

    /// Whether it is White's turn on the given board.
    pub fn get_white_active(&self, board1: bool) -> (r: bool)
        ensures
            r == self.game(board1).white_active,
    {
        if board1 {
            self.white_active_1
        } else {
            self.white_active_2
        }
    }

    /// The number of the current full move on the given board.
    pub fn get_movectr(&self, board1: bool) -> (r: usize)
        ensures
            r == self.game(board1).movectr,
    {
        if board1 {
            self.movectr1
        } else {
            self.movectr2
        }
    }

    /// The plies since the last capture or pawn move on the given board.
    pub fn get_half_moves(&self, board1: bool) -> (r: usize)
        ensures
            r == self.game(board1).half_moves_last_capture,
    {
        if board1 {
            self.half_moves_last_capture1
        } else {
            self.half_moves_last_capture2
        }
    }

    /// The count in slot `i` of the pool of the given board and colour.
    pub fn get_captured_piece(&self, board1: bool, white: bool, i: usize) -> (r: u8)
        requires
            i < 5,
        ensures
            r == self.game(board1).pool(color_of(white))[i as int],
    {
        if board1 {
            if white {
                self.board1_white_capture[i]
            } else {
                self.board1_black_capture[i]
            }
        } else {
            if white {
                self.board2_white_capture[i]
            } else {
                self.board2_black_capture[i]
            }
        }
    }

    /// Adds one to (`inc`) or takes one from slot `i` of the pool of the
    /// given board and colour. Nothing else changes.
    pub fn set_captured_piece(&mut self, board1: bool, white: bool, i: usize, inc: bool)
        requires
            i < 5,
            inc ==> old(self).game(board1).pool(color_of(white))[i as int] < u8::MAX,
            !inc ==> old(self).game(board1).pool(color_of(white))[i as int] > 0,
        ensures
            final(self).game(board1).pool(color_of(white)) == old(self).game(board1).pool(
                color_of(white),
            ).update(
                i as int,
                if inc {
                    (old(self).game(board1).pool(color_of(white))[i as int] + 1) as u8
                } else {
                    (old(self).game(board1).pool(color_of(white))[i as int] - 1) as u8
                },
            ),
            final(self).game(board1).pool(color_of(!white)) == old(self).game(board1).pool(
                color_of(!white),
            ),
            final(self).game(board1) == (Game {
                white_capture: final(self).game(board1).white_capture,
                black_capture: final(self).game(board1).black_capture,
                ..old(self).game(board1)
            }),
            final(self).game(!board1) == old(self).game(!board1),
    {
        let mut g = self.game_of(board1);
        if white {
            if inc {
                g.white_capture[i] = g.white_capture[i] + 1;
            } else {
                g.white_capture[i] = g.white_capture[i] - 1;
            }
        } else {
            if inc {
                g.black_capture[i] = g.black_capture[i] + 1;
            } else {
                g.black_capture[i] = g.black_capture[i] - 1;
            }
        }
        self.set_game(board1, g);
    }

    /// The pawn that may be captured in passing on the given board.
    pub fn get_pawn_in_last_turn(&self, board1: bool) -> (r: Option<(usize, usize)>)
        ensures
            r == self.game(board1).pawn_in_last_turn,
    {
        if board1 {
            self.pawn_in_last_turn_b1
        } else {
            self.pawn_in_last_turn_b2
        }
    }

    /// Names the pawn that may be captured in passing on the given board.
    /// Nothing else changes.
    pub fn set_pawn_in_last_turn(&mut self, board1: bool, x: Option<(usize, usize)>)
        ensures
            final(self).game(board1) == (Game { pawn_in_last_turn: x, ..old(self).game(board1) }),
            final(self).game(!board1) == old(self).game(!board1),
    {
        if board1 {
            self.pawn_in_last_turn_b1 = x;
        } else {
            self.pawn_in_last_turn_b2 = x;
        }
    }

    /// How the game on the given board stands.
    pub fn get_winner(&self, board1: bool) -> (r: Winner)
        ensures
            r == self.game(board1).winner,
    {
        if board1 {
            self.winner1
        } else {
            self.winner2
        }
    }

    /// The given board.
    pub fn get_board_n(&self, board1: bool) -> (r: &ChessBoard)
        ensures
            *r == self.game(board1).board,
    {
        if board1 {
            &self.chess_board1
        } else {
            &self.chess_board2
        }
    }

    /// Whether `(a, b)` names a square of the board.
    pub fn valid(&self, a: i32, b: i32) -> (r: bool)
        ensures
            r == on_board(a as int, b as int),
    {
        movegen::valid(a, b)
    }

    /// The letter on `(i, j)` of the given board.
    pub fn get_piece(&self, chessboard1: bool, i: usize, j: usize) -> (letter: Piece)
        requires
            i < 8,
            j < 8,
        ensures
            letter == self.game(chessboard1).board.board[i as int][j as int],
            letter.field() == at(self.game(chessboard1).board.grid(), i as int, j as int),
    {
        if chessboard1 {
            self.chess_board1.board[i][j]
        } else {
            self.chess_board2.board[i][j]
        }
    }

    /// Whether `(i, j)` of the given board holds exactly `piece`; `false`
    /// for coordinates off the board.
    pub fn check_for_piece(&self, board1: bool, piece: Piece, i: i32, j: i32) -> (r: bool)
        ensures
            r == (on_board(i as int, j as int) && self.game(board1).board.board[i as int][j as int]
                == piece),
    {
        if !movegen::valid(i, j) {
            false
        } else {
            self.get_piece(board1, i as usize, j as usize) == piece
        }
    }

    /// Whether `(i, j)` of the given board is empty.
    pub fn is_empty(&self, board1: bool, i: usize, j: usize) -> (r: bool)
        requires
            i < 8,
            j < 8,
        ensures
            r == vacant(self.game(board1).board.grid(), i as int, j as int),
    {
        self.get_piece(board1, i, j) == Piece::E
    }

    /// Whether `(i, j)` of the given board holds a white piece.
    pub fn is_white(&self, board1: bool, i: usize, j: usize) -> (r: bool)
        requires
            i < 8,
            j < 8,
        ensures
            r == held_by(self.game(board1).board.grid(), i as int, j as int, Color::White),
    {
        movegen::is_held_by(self.get_board_n(board1), i as i32, j as i32, Color::White)
    }

    /// Whether `(i, j)` of the given board holds a piece of the colour
    /// opposed to `white`.
    pub fn is_enemy(&self, board1: bool, white: bool, i: usize, j: usize) -> (r: bool)
        requires
            i < 8,
            j < 8,
        ensures
            r == held_by(
                self.game(board1).board.grid(),
                i as int,
                j as int,
                color_of(white).other(),
            ),
    {
        let c = if white {
            Color::Black
        } else {
            Color::White
        };
        movegen::is_held_by(self.get_board_n(board1), i as i32, j as i32, c)
    }

    /// The plain letter of the kind of `piece` in the colour opposed to
    /// `iswhite`.
    pub fn get_piece_w_en(&self, iswhite: bool, piece: Piece) -> (letter: Piece)
        ensures
            letter == enemy_letter(iswhite, piece),
    {
        let c = if iswhite {
            Color::Black
        } else {
            Color::White
        };
        match piece.to_field() {
            Field::Piece(x) => Piece::plain_letter(x.piece_type, c),
            _ => piece,
        }
    }

    /// The promoted letter of the kind of `piece` in the colour opposed to
    /// `iswhite`.
    pub fn get_piece_w_upgrade_en(&self, iswhite: bool, piece: Piece) -> (letter: Piece)
        ensures
            letter == enemy_promoted_letter(iswhite, piece),
    {
        let c = if iswhite {
            Color::Black
        } else {
            Color::White
        };
        match piece.to_field() {
            Field::Piece(x) => Piece::promoted_letter(x.piece_type, c),
            _ => piece,
        }
    }

    /// The pool slot of a letter.
    pub fn box_index(&self, piece: Piece) -> (r: Option<usize>)
        ensures
            r matches Some(x) ==> letter_slot(piece) == Some(x as int),
            r is None ==> letter_slot(piece) is None,
    {
        match piece.to_field() {
            Field::Piece(x) => crate::aux::box_index(&x),
            _ => None,
        }
    }

    /// The destinations of whatever stands on `(old_i, old_j)` of the given
    /// board, in the order in which they are generated. Coordinates off
    /// the board, an empty square and a marked square give an empty list.
    pub fn get_legal_moves(&self, board1: bool, old_i: usize, old_j: usize) -> (v: Vec<
        (usize, usize),
    >)
        ensures
            v@ == legal_moves(self.game(board1).position(), old_i as int, old_j as int),
    {
        let board = self.get_board_n(board1);
        movegen::moves_from(
            board,
            board.moved_flags(),
            self.get_pawn_in_last_turn(board1),
            old_i,
            old_j,
        )
    }

    /// Whether `(i, j)` is a legal destination of what stands on
    /// `(i_old, j_old)` of the given board.
    pub fn legality_check(&self, board1: bool, i_old: usize, j_old: usize, i: usize, j: usize) -> (r:
        bool)
        ensures
            r == legal_moves(self.game(board1).position(), i_old as int, j_old as int).contains(
                (i, j),
            ),
    {
        let v = self.get_legal_moves(board1, i_old, j_old);
        crate::aux::contains(&v, (i, j))
    }

    /// The attack oracle: whether a piece of the colour opposed to
    /// `iswhite` could capture on `(i, j)` of the given board. It serves
    /// castling only; no other move is held back by an attack.
    pub fn is_attacked(&self, board1: bool, iswhite: bool, i: usize, j: usize) -> (r: bool)
        ensures
            r == attacked_by(
                self.game(board1).board.grid(),
                color_of(iswhite).other(),
                i as int,
                j as int,
            ),
    {
        let by = if iswhite {
            Color::Black
        } else {
            Color::White
        };
        movegen::is_attacked(self.get_board_n(board1), by, i, j)
    }

    /// Empties every square of the given board. Nothing else changes.
    pub fn all_empty(&mut self, board1: bool)
        ensures
            final(self).game(board1).board.grid() == empty_grid(),
            final(self).game(board1) == (Game {
                board: ChessBoard {
                    board: final(self).game(board1).board.board,
                    ..old(self).game(board1).board
                },
                ..old(self).game(board1)
            }),
            final(self).game(!board1) == old(self).game(!board1),
    {
        if board1 {
            self.chess_board1.board = [[Piece::E;8];8];
        } else {
            self.chess_board2.board = [[Piece::E;8];8];
        }
        assert(self.game(board1).board.grid() =~~= empty_grid());
    }

    /// Writes `piece` on `(i, j)` of the given board. Nothing else changes.
    pub fn set_piece(&mut self, board1: bool, piece: Piece, i: usize, j: usize)
        requires
            i < 8,
            j < 8,
        ensures
            final(self).game(board1).board.grid() == put(
                old(self).game(board1).board.grid(),
                i as int,
                j as int,
                piece.field(),
            ),
            final(self).game(board1) == (Game {
                board: ChessBoard {
                    board: final(self).game(board1).board.board,
                    ..old(self).game(board1).board
                },
                ..old(self).game(board1)
            }),
            final(self).game(!board1) == old(self).game(!board1),
    {
        if board1 {
            self.chess_board1.board[i][j] = piece;
        } else {
            self.chess_board2.board[i][j] = piece;
        }
        assert(self.game(board1).board.grid() =~~= put(
            old(self).game(board1).board.grid(),
            i as int,
            j as int,
            piece.field(),
        ));
    }

    /// The given board, to be changed in place.
    pub fn get_board(&mut self, board1: bool) -> (r: &mut ChessBoard)
        ensures
            *r == old(self).game(board1).board,
            final(self).game(board1) == (Game { board: *final(r), ..old(self).game(board1) }),
            final(self).game(!board1) == old(self).game(!board1),
    {
        if board1 {
            &mut self.chess_board1
        } else {
            &mut self.chess_board2
        }
    }

    /// The counters that a move on the given board may advance can still
    /// be advanced: its two clocks, and every slot of the other board's
    /// pools.
    pub open spec fn has_room(&self, board1: bool) -> bool {
        let other = self.game(!board1);
        &&& self.game(board1).half_moves_last_capture < usize::MAX
        &&& self.game(board1).movectr < usize::MAX
        &&& roomy(other.pool(Color::White))
        &&& roomy(other.pool(Color::Black))
    }

    /// Whether the counters that a move on the given board may advance can
    /// still be advanced.
    pub fn room_for_move(&self, board1: bool) -> (r: bool)
        ensures
            r == self.has_room(board1),
    {
        let g = self.game_of(board1);
        let o = self.game_of(!board1);
        let w = o.white_capture;
        let k = o.black_capture;
        g.half_moves_last_capture < usize::MAX && g.movectr < usize::MAX && w[0] < u8::MAX && w[1]
            < u8::MAX && w[2] < u8::MAX && w[3] < u8::MAX && w[4] < u8::MAX && k[0] < u8::MAX
            && k[1] < u8::MAX && k[2] < u8::MAX && k[3] < u8::MAX && k[4] < u8::MAX
    }

    /// Moves what stands on `(i_old, j_old)` of the given board to
    /// `(i, j)`. The move is refused with `AlreadyOver` once the board's
    /// game has ended, with `NotLegal` if the destination is not a legal
    /// move of the origin, with `NotTurn` if the piece is not of the colour
    /// to move, and with `PromotionProblem` if a pawn would reach its last
    /// rank with no rook, knight, bishop or queen of its colour chosen;
    /// then nothing changes. Otherwise the move is made, and a piece taken
    /// goes to the other board's pool of the colour that moved: a promoted
    /// piece as a pawn, a king not at all.
    pub fn movemaker(&mut self, board1: bool, i_old: usize, j_old: usize, i: usize, j: usize) -> (r:
        Result<bool, MoveError>)
        requires
            old(self).has_room(board1),
        ensures
            match r {
                Ok(done) => {
                    &&& done
                    &&& old(self).game(board1).move_error(i_old, j_old, i, j) is None
                    &&& old(self).game(board1).moved(
                        final(self).game(board1),
                        board1,
                        i_old,
                        j_old,
                        i,
                        j,
                    )
                    &&& old(self).game(!board1).credited(
                        final(self).game(!board1),
                        old(self).game(board1).mover(i_old, j_old).color,
                        old(self).game(board1).captured(i_old, j_old, i, j),
                    )
                },
                Err(e) => old(self).game(board1).move_error(i_old, j_old, i, j) == Some(e)
                    && *final(self) == *old(self),
            },
    {
        let mut g = self.game_of(board1);
        match g.make_move(board1, i_old, j_old, i, j) {
            Err(e) => Err(e),
            Ok(done) => {
                let mut o = self.game_of(!board1);
                o.credit(done.0, done.1);
                self.set_game(board1, g);
                self.set_game(!board1, o);
                Ok(true)
            },
        }
    }

    /// Deploys a pooled piece of the kind of `piece` and the colour `white`
    /// on `(i, j)` of the given board. The deployment is refused with
    /// `AlreadyOver` once the board's game has ended, with `NotLegal` for a
    /// square off the board, with `NotEmpty` for an occupied square, with
    /// `NotTurn` if it is not that colour's turn, with `NoPieceInPool` if
    /// the colour's pool on this board holds no piece of the kind, and with
    /// `NotLegal` for a pawn on the first or last rank; then nothing
    /// changes.
    pub fn deploy_piece(&mut self, board1: bool, white: bool, piece: Piece, i: usize, j: usize) -> (r:
        Result<bool, MoveError>)
        requires
            old(self).game(board1).half_moves_last_capture < usize::MAX,
            old(self).game(board1).movectr < usize::MAX,
        ensures
            match r {
                Ok(done) => {
                    &&& done
                    &&& old(self).game(board1).deploy_error(white, piece, i, j) is None
                    &&& old(self).game(board1).deployed(
                        final(self).game(board1),
                        white,
                        piece,
                        i,
                        j,
                    )
                    &&& final(self).game(!board1) == old(self).game(!board1)
                },
                Err(e) => old(self).game(board1).deploy_error(white, piece, i, j) == Some(e)
                    && *final(self) == *old(self),
            },
    {
        let mut g = self.game_of(board1);
        match g.deploy(white, piece, i, j) {
            Err(e) => Err(e),
            Ok(done) => {
                self.set_game(board1, g);
                Ok(done)
            },
        }
    }

    /// Ends the game on the given board by the resignation of the given
    /// colour: the other colour wins.
    pub fn resign(&mut self, board1: bool, white: bool)
        ensures
            final(self).game(board1) == (Game {
                winner: win(board1, color_of(white).other()),
                ..old(self).game(board1)
            }),
            final(self).game(!board1) == old(self).game(!board1),
    {
        if board1 {
            if white {
                self.winner1 = Winner::B1;
            } else {
                self.winner1 = Winner::W1;
            }
        } else {
            if white {
                self.winner2 = Winner::B2;
            } else {
                self.winner2 = Winner::W2;
            }
        }
    }

    /// Whether the given colour is stalemated on the given board; if so,
    /// the board's game is drawn.
    pub fn check_patt(&mut self, board1: bool, white: bool) -> (r: bool)
        ensures
            r == old(self).game(board1).stalemate(color_of(white)),
            final(self).game(board1) == if r {
                Game { winner: Winner::P, ..old(self).game(board1) }
            } else {
                old(self).game(board1)
            },
            final(self).game(!board1) == old(self).game(!board1),
    {
        let c = if white {
            Color::White
        } else {
            Color::Black
        };
        let r = self.game_of(board1).is_stalemate(c);
        if r {
            if board1 {
                self.winner1 = Winner::P;
            } else {
                self.winner2 = Winner::P;
            }
        }
        r
    }

    /// Whether the pool of the given board and colour holds nothing.
    pub fn pool_empty(&self, board1: bool, white: bool) -> (r: bool)
        ensures
            r == self.game(board1).pool_is_empty(color_of(white)),
    {
        let c = if white {
            Color::White
        } else {
            Color::Black
        };
        self.game_of(board1).pool_empty(c)
    }

    /// Adds the piece that `piece` names to the pool of the given board and
    /// colour: a promoted piece as a pawn; a king, `E` and `L` not at all.
    pub fn recv_piece(&mut self, board1: bool, white: bool, piece: Piece)
        requires
            roomy(old(self).game(board1).pool(color_of(white))),
        ensures
            match letter_slot(piece) {
                Some(slot) => {
                    &&& final(self).game(board1).pool(color_of(white)) == old(self).game(
                        board1,
                    ).pool(color_of(white)).update(
                        slot,
                        (old(self).game(board1).pool(color_of(white))[slot] + 1) as u8,
                    )
                    &&& final(self).game(board1).pool(color_of(!white)) == old(self).game(
                        board1,
                    ).pool(color_of(!white))
                    &&& final(self).game(board1) == (Game {
                        white_capture: final(self).game(board1).white_capture,
                        black_capture: final(self).game(board1).black_capture,
                        ..old(self).game(board1)
                    })
                    &&& final(self).game(!board1) == old(self).game(!board1)
                },
                None => *final(self) == *old(self),
            },
    {
        if let Some(slot) = self.box_index(piece) {
            self.set_captured_piece(board1, white, slot, true);
        }
    }

    /// The first square, reading rank by rank, of the given board that
    /// holds exactly the letter `piece`.
    pub fn find_piece(&self, piece: Piece, board1: bool) -> (r: Option<(usize, usize)>)
        ensures
            r matches Some(s) ==> {
                &&& s.0 < 8 && s.1 < 8
                &&& self.game(board1).board.board[s.0 as int][s.1 as int] == piece
                &&& forall|a: int, d: int|
                    on_board(a, d) && before(a, d, s.0 as int, s.1 as int) ==> (
                    #[trigger] self.game(board1).board.board[a][d]) != piece
            },
            r is None ==> forall|a: int, d: int|
                on_board(a, d) ==> (#[trigger] self.game(board1).board.board[a][d]) != piece,
    {
        let board = self.get_board_n(board1);
        let mut i: usize = 0;
        while i < 8
            invariant
                i <= 8,
                *board == self.game(board1).board,
                forall|a: int, d: int|
                    on_board(a, d) && before(a, d, i as int, 0) ==> (#[trigger] board.board[a][d])
                        != piece,
            decreases 8 - i,
        {
            let mut j: usize = 0;
            while j < 8
                invariant
                    i < 8,
                    j <= 8,
                    *board == self.game(board1).board,
                    forall|a: int, d: int|
                        on_board(a, d) && before(a, d, i as int, j as int) ==> (
                        #[trigger] board.board[a][d]) != piece,
                decreases 8 - j,
            {
                if board.board[i][j] == piece {
                    return Some((i, j));
                }
                j += 1;
            }
            i += 1;
        }
        None
    }

    /// Which castlings the moved-flags of the given board still allow:
    /// White's short and long, then Black's short and long. A castling is
    /// allowed as long as neither the king nor the rook of that side has
    /// moved.
    pub fn get_castling_rights(&self, board1: bool) -> (x: [bool; 4])
        ensures
            x[0] == (!self.game(board1).board.rights().white_king_moved && !self.game(
                board1,
            ).board.rights().white_rook_short_moved),
            x[1] == (!self.game(board1).board.rights().white_king_moved && !self.game(
                board1,
            ).board.rights().white_rook_long_moved),
            x[2] == (!self.game(board1).board.rights().black_king_moved && !self.game(
                board1,
            ).board.rights().black_rook_short_moved),
            x[3] == (!self.game(board1).board.rights().black_king_moved && !self.game(
                board1,
            ).board.rights().black_rook_long_moved),
    {
        let f = self.get_board_n(board1).moved_flags();
        [
            !f.white_king_moved && !f.white_rook_short_moved,
            !f.white_king_moved && !f.white_rook_long_moved,
            !f.black_king_moved && !f.black_rook_short_moved,
            !f.black_king_moved && !f.black_rook_long_moved,
        ]
    }

    /// Chooses what the next promoting pawn on the given board turns into.
    /// A rook, knight, bishop or queen, promoted or not, is accepted and
    /// stored as the plain letter of its kind and colour; anything else is
    /// refused with `false` and changes nothing.
    pub fn set_promotion(&mut self, board1: bool, piece: Piece) -> (r: bool)
        ensures
            r == (promotion_letter(piece) is Some),
            final(self).game(board1) == if r {
                Game { upgrade_to: promotion_letter(piece).unwrap(), ..old(self).game(board1) }
            } else {
                old(self).game(board1)
            },
            final(self).game(!board1) == old(self).game(!board1),
    {
        let choice = match piece.to_field() {
            Field::Piece(x) => {
                if x.piece_type == PieceType::Rook || x.piece_type == PieceType::Knight
                    || x.piece_type == PieceType::Bishop || x.piece_type == PieceType::Queen {
                    Piece::plain_letter(x.piece_type, x.color)
                } else {
                    return false;
                }
            },
            _ => {
                return false;
            },
        };
        if board1 {
            self.upgrade_to1 = choice;
        } else {
            self.upgrade_to2 = choice;
        }
        true
    }

    /// Withdraws the pending promotion of the given board.
    pub fn reset_promotion(&mut self, board1: bool)
        ensures
            final(self).game(board1) == (Game { upgrade_to: Piece::E, ..old(self).game(board1) }),
            final(self).game(!board1) == old(self).game(!board1),
    {
        if board1 {
            self.upgrade_to1 = Piece::E;
        } else {
            self.upgrade_to2 = Piece::E;
        }
    }

    /// The letters of the given board with `L` laid over every square of
    /// `locs`, for a renderer to show the destinations of a piece. The
    /// board itself is not touched; squares of `locs` off the board are
    /// passed over.
    pub fn with_legal(&self, board1: bool, locs: &Vec<(usize, usize)>) -> (shown: [[Piece; 8]; 8])
        ensures
            forall|a: int, d: int|
                on_board(a, d) ==> #[trigger] shown[a][d] == if locs@.contains(
                    (a as usize, d as usize),
                ) {
                    Piece::L
                } else {
                    self.game(board1).board.board[a][d]
                },
    {
        let mut shown = self.get_board_n(board1).board;
        let ghost base = shown;
        let mut k: usize = 0;
        while k < locs.len()
            invariant
                k <= locs.len(),
                base == self.game(board1).board.board,
                forall|a: int, d: int|
                    on_board(a, d) ==> #[trigger] shown[a][d] == if locs@.subrange(
                        0,
                        k as int,
                    ).contains((a as usize, d as usize)) {
                        Piece::L
                    } else {
                        base[a][d]
                    },
            decreases locs.len() - k,
        {
            let (i, j) = locs[k];
            let ghost before_step = shown;
            if i < 8 && j < 8 {
                shown[i][j] = Piece::L;
            }
            proof {
                let s0 = locs@.subrange(0, k as int);
                let s1 = locs@.subrange(0, k as int + 1);
                assert(s1 =~= s0.push(locs@[k as int]));
                assert forall|a: int, d: int| on_board(a, d) implies #[trigger] shown[a][d] == if s1.contains(
                    (a as usize, d as usize),
                ) {
                    Piece::L
                } else {
                    base[a][d]
                } by {
                    let t = (a as usize, d as usize);
                    if s0.contains(t) {
                        let w = choose|w: int| 0 <= w < s0.len() && s0[w] == t;
                        assert(s1[w] == t);
                    }
                    if t == locs@[k as int] {
                        assert(s1[k as int] == t);
                    }
                    if s1.contains(t) {
                        let w = choose|w: int| 0 <= w < s1.len() && s1[w] == t;
                        if w < k {
                            assert(s0[w] == t);
                        }
                    }
                }
            }
            k += 1;
        }
        assert(locs@.subrange(0, k as int) =~= locs@);
        shown
    }
}

} // verus!
