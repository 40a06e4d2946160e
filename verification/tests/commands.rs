use bughouse::board::Piece;
use bughouse::chessboard::MoveError;
use bughouse::info_courier::{gen_fen, gen_pool};
use bughouse::logic::{ChessLogic, Winner};
use bughouse::util::contains;

#[test]
#[allow(non_snake_case)]
fn tests_deploying_pieces_W_fen() {
    let mut cl = ChessLogic::new();
    cl.recv_piece(true, true, Piece::P);
    assert!(cl.deploy_piece(true, true, Piece::P, 4, 4) == Ok(true));
    let a = gen_fen(&cl);
    let st = "rnbqkbnr/pppppppp/8/8/4P3/8/PPPPPPPP/RNBQKBNR b KQkq e3 0 1".to_string();
    assert_eq!(st, a.0);
    cl.recv_piece(true, false, Piece::r);
    assert!(cl.deploy_piece(true, false, Piece::r, 3, 4) == Ok(true));
    let a = gen_fen(&cl);
    let st = "rnbqkbnr/pppppppp/8/4r3/4P3/8/PPPPPPPP/RNBQKBNR w KQkq - 1 2".to_string();
    assert_eq!(st, a.0);
}

#[test]
fn trivial_yfen() {
    let mut cl = ChessLogic::new();
    let mut a = gen_fen(&cl);
    let mut st = "rnbqkbnr/pppppppp/8/8/8/8/PPPPPPPP/RNBQKBNR w KQkq - 0 1".to_string();
    assert_eq!(st, a.0);
    assert_eq!(st, a.1);

    assert!(cl.movemaker(true, 6, 4, 4, 4) == Ok(true));
    a = gen_fen(&cl);
    st = "rnbqkbnr/pppppppp/8/8/4P3/8/PPPP1PPP/RNBQKBNR b KQkq e3 0 1".to_string();
    assert_eq!(st, a.0);

    assert!(cl.movemaker(true, 1, 2, 3, 2) == Ok(true));
    a = gen_fen(&cl);
    st = "rnbqkbnr/pp1ppppp/8/2p5/4P3/8/PPPP1PPP/RNBQKBNR w KQkq c6 0 2".to_string();
    assert_eq!(st, a.0);

    assert!(cl.movemaker(true, 7, 6, 5, 5) == Ok(true));
    a = gen_fen(&cl);
    st = "rnbqkbnr/pp1ppppp/8/2p5/4P3/5N2/PPPP1PPP/RNBQKB1R b KQkq - 1 2".to_string();
    assert_eq!(st, a.0);
}

#[test]
fn is_move_legal() {
    let mut cl = ChessLogic::new();
    cl.white_active_1 = false;
    assert!(cl.movemaker(true, 1, 1, 3, 1) == Ok(true));
    cl.white_active_1 = false;
    assert!(cl.movemaker(true, 1, 7, 3, 7) == Ok(true));
    cl.white_active_1 = false;
    assert!(cl.movemaker(true, 0, 1, 2, 2) == Ok(true));
    cl.white_active_1 = false;
    assert!(cl.movemaker(true, 1, 1, 4, 1) == Err(MoveError::NotLegal));
    cl.white_active_1 = false;
    assert!(cl.movemaker(true, 0, 0, 1, 0) == Err(MoveError::NotLegal));
    cl.white_active_1 = false;
    assert!(cl.movemaker(true, 0, 0, 2, 0) == Err(MoveError::NotLegal));
}

#[test]
fn pinned_piece() {
    let mut cl = ChessLogic::new();
    cl.all_empty(true);
    cl.set_piece(true, Piece::R, 0, 0);
    cl.set_piece(true, Piece::r, 4, 0);
    cl.set_piece(true, Piece::k, 5, 0);
    cl.white_active_1 = false;
    assert!(cl.movemaker(true, 4, 0, 4, 7) == Ok(true));
    cl.all_empty(true);
    cl.set_piece(true, Piece::R, 0, 0);
    cl.set_piece(true, Piece::r, 4, 0);
    cl.set_piece(true, Piece::k, 5, 0);
    cl.white_active_1 = false;
    assert!(cl.movemaker(true, 5, 0, 5, 1) == Ok(true));
    cl.all_empty(true);
    cl.set_piece(true, Piece::R, 0, 0);
    cl.set_piece(true, Piece::r, 4, 0);
    cl.set_piece(true, Piece::k, 5, 0);
    cl.white_active_1 = false;
    assert!(cl.movemaker(true, 5, 0, 6, 1) == Ok(true));
    cl.all_empty(true);
    cl.set_piece(true, Piece::R, 0, 0);
    cl.set_piece(true, Piece::r, 4, 0);
    cl.set_piece(true, Piece::k, 5, 0);
    cl.white_active_1 = false;
    assert!(cl.movemaker(true, 5, 0, 4, 0) == Err(MoveError::NotLegal));
}

#[test]
fn promotion() {
    let mut cl = ChessLogic::new();
    cl.all_empty(true);
    cl.set_piece(true, Piece::P, 1, 7);
    cl.upgrade_to1 = Piece::Q;
    assert!(cl.movemaker(true, 1, 7, 0, 7) == Ok(true));
    assert!(cl.chess_board1.board[0][7] == Piece::UQ);
    assert!(cl.upgrade_to1 == Piece::E);

    cl.all_empty(false);
    cl.set_piece(false, Piece::p, 6, 7);
    cl.upgrade_to2 = Piece::r;
    cl.white_active_2 = false;
    assert!(cl.movemaker(false, 6, 7, 7, 7) == Ok(true));
    assert!(cl.chess_board2.board[7][7] == Piece::Ur);
    assert!(cl.upgrade_to2 == Piece::E);

    let mut cl = ChessLogic::new();
    cl.all_empty(true);
    cl.set_piece(true, Piece::P, 1, 0);
    cl.upgrade_to1 = Piece::N;
    assert!(cl.movemaker(true, 1, 0, 0, 0) == Ok(true));
    assert!(cl.chess_board1.board[0][0] == Piece::UN);
    assert!(cl.upgrade_to1 == Piece::E);
}

#[test]
fn castling_white_side_effect4() {
    let mut cl = ChessLogic::new();
    cl.all_empty(false);
    cl.set_piece(false, Piece::k, 0, 4);
    cl.set_piece(false, Piece::r, 0, 7);
    cl.set_piece(false, Piece::r, 0, 0);
    let vec = cl.get_legal_moves(false, 0, 4);
    assert!(contains(&vec, (0, 6)));
    assert!(contains(&vec, (0, 2)));
    cl.white_active_2 = false;
    assert!(cl.movemaker(false, 0, 4, 0, 2) == Ok(true));
    assert!(cl.chess_board2.board[0][0] == Piece::E);
    assert!(cl.chess_board2.board[0][4] == Piece::E);
    // The castling pieces keep their colour.
    assert!(cl.chess_board2.board[0][2] == Piece::k);
    assert!(cl.chess_board2.board[0][3] == Piece::r);
}

#[test]
fn capture_piece() {
    //the order is P-R-N-B-Q
    let mut cl = ChessLogic::new();
    cl.all_empty(true);
    cl.set_piece(true, Piece::R, 0, 0);
    cl.set_piece(true, Piece::r, 4, 0);
    cl.white_active_1 = false;
    assert!(cl.movemaker(true, 4, 0, 0, 0) == Ok(true));
    println!(
        "{}== num of capture rooks on board2 which Black took",
        cl.get_captured_piece(false, false, 1)
    );
    // Black took the rook, so it lies in Black's pool of the other board.
    assert!(cl.get_captured_piece(false, false, 1) == 1);
    assert!(cl.get_captured_piece(false, true, 1) == 0);
    cl.set_piece(true, Piece::Q, 0, 7);
    cl.white_active_1 = false;
    assert!(cl.movemaker(true, 0, 0, 0, 7) == Ok(true));

    assert!(cl.get_captured_piece(false, false, 4) == 1);
    cl.set_piece(true, Piece::Q, 7, 7);
    cl.white_active_1 = false;
    assert!(cl.movemaker(true, 0, 7, 7, 7) == Ok(true));
    assert!(cl.get_captured_piece(false, false, 4) == 2);
    cl.set_piece(true, Piece::K, 6, 7);
    assert!(cl.movemaker(true, 6, 7, 7, 7) == Ok(true));
    assert!(cl.get_captured_piece(false, true, 1) == 1);
    assert_eq!(cl.get_pools().0, [0, 0, 0, 0, 0]);
    assert_eq!(cl.get_pools().1, [0, 0, 0, 0, 0]);
}

#[test]
fn capture_piece2() {
    let mut cl = ChessLogic::new();
    cl.all_empty(false);
    cl.set_piece(false, Piece::R, 0, 0);
    cl.set_piece(false, Piece::r, 4, 0);
    cl.white_active_2 = false;

    assert!(cl.movemaker(false, 4, 0, 0, 0) == Ok(true));
    assert!(cl.get_captured_piece(true, false, 1) == 1);

    cl.all_empty(true);
    cl.set_piece(true, Piece::R, 0, 0);
    cl.set_piece(true, Piece::r, 4, 0);
    assert!(cl.white_active_2);
    assert!(cl.movemaker(true, 0, 0, 4, 0) == Ok(true));
    assert!(cl.get_captured_piece(false, true, 1) == 1);

    cl.all_empty(false);
    cl.set_piece(false, Piece::R, 0, 0);
    cl.set_piece(false, Piece::r, 4, 0);
    assert!(cl.white_active_2);
    assert!(cl.movemaker(false, 0, 0, 4, 0) == Ok(true));
    assert!(cl.get_captured_piece(true, true, 1) == 1);
}

#[test]
fn capture_goes_to_the_capturing_colour() {
    let mut cl = ChessLogic::new();
    cl.all_empty(true);
    cl.set_piece(true, Piece::r, 0, 0);
    cl.set_piece(true, Piece::R, 4, 0);
    assert!(cl.movemaker(true, 4, 0, 0, 0) == Ok(true));
    assert_eq!(cl.get_captured_piece(false, true, 1), 1);
    assert_eq!(cl.get_captured_piece(false, false, 1), 0);
    assert_eq!(cl.get_pools().0, [0, 0, 0, 0, 0]);
    assert_eq!(cl.get_pools().1, [0, 0, 0, 0, 0]);
    assert_eq!(cl.get_pools().2, [0, 1, 0, 0, 0]);
    assert_eq!(cl.get_pools().3, [0, 0, 0, 0, 0]);
    // What White took, White may deploy on the other board.
    assert!(cl.deploy_piece(false, true, Piece::R, 4, 4) == Ok(true));
    assert!(cl.get_piece(false, 4, 4) == Piece::R);
    assert_eq!(cl.get_pools().2, [0, 0, 0, 0, 0]);
}

#[test]
fn illegal_rook() {
    let mut cl = ChessLogic::new();
    cl.all_empty(true);
    cl.set_piece(true, Piece::K, 7, 4);
    cl.set_piece(true, Piece::R, 7, 7);
    cl.set_piece(true, Piece::r, 0, 0);
    let board1 = true;
    assert!(cl.movemaker(board1, 7, 7, 6, 7) == Ok(true));
    assert!(cl.movemaker(board1, 0, 0, 1, 0) == Ok(true));
    assert!(cl.movemaker(board1, 6, 7, 7, 7) == Ok(true));
    assert!(cl.movemaker(board1, 1, 0, 1, 1) == Ok(true));
    assert!(cl.movemaker(board1, 7, 4, 7, 6) == Err(MoveError::NotLegal));
}

#[test]
fn castling_black() {
    let mut cl = ChessLogic::new();
    cl.all_empty(true);
    cl.set_piece(true, Piece::k, 0, 4);
    cl.set_piece(true, Piece::r, 0, 7);
    cl.set_piece(true, Piece::r, 0, 0);
    let vec = cl.get_legal_moves(true, 0, 4);
    assert!(contains(&vec, (0, 6)));
    assert!(contains(&vec, (0, 2)));

    // A rook on file 1 attacks none of the squares the king stands on,
    // crosses or reaches, so both castlings stay.
    cl.set_piece(true, Piece::R, 7, 1);
    let vec = cl.get_legal_moves(true, 0, 4);
    assert!(contains(&vec, (0, 6)));
    assert!(contains(&vec, (0, 2)));

    cl.set_piece(true, Piece::R, 7, 6);
    let vec = cl.get_legal_moves(true, 0, 4);
    assert!(!contains(&vec, (0, 6)));
    assert!(contains(&vec, (0, 2)));

    cl.set_piece(true, Piece::E, 7, 1);
    cl.set_piece(true, Piece::E, 7, 6);
    cl.set_piece(true, Piece::Q, 7, 4);
    let vec = cl.get_legal_moves(true, 0, 4);
    assert!(!contains(&vec, (0, 6)));
    assert!(!contains(&vec, (0, 2)));
}

#[test]
fn castling_white() {
    let mut cl = ChessLogic::new();
    cl.all_empty(true);
    cl.set_piece(true, Piece::K, 7, 4);
    cl.set_piece(true, Piece::R, 7, 7);
    cl.set_piece(true, Piece::R, 7, 0);
    let vec = cl.get_legal_moves(true, 7, 4);
    assert!(contains(&vec, (7, 6)));
    assert!(contains(&vec, (7, 2)));

    // A rook on file 1 attacks none of the squares the king stands on,
    // crosses or reaches, so both castlings stay.
    cl.set_piece(true, Piece::r, 0, 1);
    let vec = cl.get_legal_moves(true, 7, 4);
    assert!(contains(&vec, (7, 6)));
    assert!(contains(&vec, (7, 2)));

    cl.set_piece(true, Piece::r, 0, 6);
    let vec = cl.get_legal_moves(true, 7, 4);
    assert!(!contains(&vec, (7, 6)));
    assert!(contains(&vec, (7, 2)));

    cl.set_piece(true, Piece::E, 0, 1);
    cl.set_piece(true, Piece::E, 0, 6);
    cl.set_piece(true, Piece::q, 0, 4);
    let vec = cl.get_legal_moves(true, 7, 4);
    assert!(!contains(&vec, (7, 6)));
    assert!(!contains(&vec, (7, 2)));
}

#[test]
fn castling_white_side_effect1() {
    let mut cl = ChessLogic::new();
    cl.all_empty(true);
    cl.set_piece(true, Piece::K, 7, 4);
    cl.set_piece(true, Piece::R, 7, 7);
    cl.set_piece(true, Piece::R, 7, 0);
    let vec = cl.get_legal_moves(true, 7, 4);
    assert!(contains(&vec, (7, 6)));
    assert!(contains(&vec, (7, 2)));

    assert!(cl.movemaker(true, 7, 4, 7, 6) == Ok(true));
    assert!(cl.chess_board1.board[7][7] == Piece::E);
    assert!(cl.chess_board1.board[7][4] == Piece::E);
    assert!(cl.chess_board1.board[7][6] == Piece::K);
    assert!(cl.chess_board1.board[7][5] == Piece::R);
}

#[test]
fn castling_white_side_effect2() {
    let mut cl = ChessLogic::new();
    cl.all_empty(true);
    cl.set_piece(true, Piece::K, 7, 4);
    cl.set_piece(true, Piece::R, 7, 7);
    cl.set_piece(true, Piece::R, 7, 0);
    let vec = cl.get_legal_moves(true, 7, 4);
    assert!(contains(&vec, (7, 6)));
    assert!(contains(&vec, (7, 2)));

    assert!(cl.movemaker(true, 7, 4, 7, 2) == Ok(true));
    assert!(cl.chess_board1.board[7][0] == Piece::E);
    assert!(cl.chess_board1.board[7][4] == Piece::E);
    assert!(cl.chess_board1.board[7][2] == Piece::K);
    assert!(cl.chess_board1.board[7][3] == Piece::R);
}

#[test]
fn castling_white_side_effect3() {
    let mut cl = ChessLogic::new();
    cl.all_empty(false);
    cl.set_piece(false, Piece::K, 7, 4);
    cl.set_piece(false, Piece::R, 7, 7);
    cl.set_piece(false, Piece::R, 7, 0);
    let vec = cl.get_legal_moves(false, 7, 4);
    assert!(contains(&vec, (7, 6)));
    assert!(contains(&vec, (7, 2)));

    assert!(cl.movemaker(false, 7, 4, 7, 2) == Ok(true));
    assert!(cl.chess_board2.board[7][0] == Piece::E);
    assert!(cl.chess_board2.board[7][4] == Piece::E);
    assert!(cl.chess_board2.board[7][2] == Piece::K);
    assert!(cl.chess_board2.board[7][3] == Piece::R);
}

#[test]
fn start_rooks_cannot_move() {
    let cl = ChessLogic::new();
    for board1 in [true, false] {
        for (i, j) in [(0, 0), (0, 7), (7, 0), (7, 7)] {
            assert_eq!(cl.get_legal_moves(board1, i, j), Vec::new());
        }
    }
}

#[test]
fn rook_on_empty_board_has_its_rank_and_file() {
    let mut cl = ChessLogic::new();
    cl.all_empty(true);
    cl.set_piece(true, Piece::R, 3, 3);
    let mut vec = cl.get_legal_moves(true, 3, 3);
    assert_eq!(
        vec,
        [
            (2, 3), (1, 3), (0, 3), (4, 3), (5, 3), (6, 3), (7, 3),
            (3, 2), (3, 1), (3, 0), (3, 4), (3, 5), (3, 6), (3, 7),
        ]
    );
    vec.sort();
    vec.dedup();
    assert_eq!(vec.len(), 14);
}

#[test]
fn pawn_beside_last_moved_pawn_may_pass() {
    let mut cl = ChessLogic::new();
    cl.all_empty(true);
    cl.set_piece(true, Piece::P, 4, 1);
    cl.white_active_1 = false;
    cl.recv_piece(true, false, Piece::p);
    assert!(cl.deploy_piece(true, false, Piece::p, 4, 0) == Ok(true));
    assert_eq!(cl.get_pawn_in_last_turn(true), Some((4, 0)));
    let vec = cl.get_legal_moves(true, 4, 1);
    assert!(contains(&vec, (3, 0)));
    assert_eq!(vec, [(3, 1), (3, 0)]);
}

#[test]
fn capture_in_passing_removes_the_passed_pawn() {
    let mut cl = ChessLogic::new();
    cl.all_empty(true);
    cl.set_piece(true, Piece::P, 3, 1);
    cl.set_piece(true, Piece::p, 1, 0);
    cl.set_piece(true, Piece::R, 7, 7);
    cl.set_piece(true, Piece::r, 0, 7);
    cl.white_active_1 = false;
    assert!(cl.movemaker(true, 1, 0, 3, 0) == Ok(true));
    assert_eq!(cl.get_pawn_in_last_turn(true), Some((3, 0)));
    assert!(cl.movemaker(true, 3, 1, 2, 0) == Ok(true));
    assert!(cl.get_piece(true, 2, 0) == Piece::P);
    assert!(cl.get_piece(true, 3, 0) == Piece::E);
    assert!(cl.get_piece(true, 3, 1) == Piece::E);
    assert_eq!(cl.get_captured_piece(false, true, 0), 1);
    assert_eq!(cl.get_captured_piece(false, false, 0), 0);
    assert_eq!(cl.get_half_moves(true), 0);
    assert_eq!(cl.get_pawn_in_last_turn(true), None);
}

#[test]
fn single_step_clears_the_passing_pawn() {
    let mut cl = ChessLogic::new();
    assert!(cl.movemaker(true, 6, 0, 5, 0) == Ok(true));
    assert_eq!(cl.get_pawn_in_last_turn(true), None);
    assert!(cl.movemaker(true, 1, 0, 3, 0) == Ok(true));
    assert_eq!(cl.get_pawn_in_last_turn(true), Some((3, 0)));
    assert_eq!(cl.get_movectr(true), 2);
}

#[test]
fn deploying_uses_up_the_pool() {
    let mut cl = ChessLogic::new();
    cl.recv_piece(true, true, Piece::R);
    assert_eq!(cl.get_captured_piece(true, true, 1), 1);
    assert!(cl.deploy_piece(true, true, Piece::R, 4, 4) == Ok(true));
    assert_eq!(cl.get_captured_piece(true, true, 1), 0);
    assert!(!cl.get_white_active(true));
    assert!(cl.get_piece(true, 4, 4) == Piece::R);
    assert_eq!(cl.get_half_moves(true), 1);

    cl.white_active_1 = true;
    assert!(cl.deploy_piece(true, true, Piece::R, 4, 5) == Err(MoveError::NoPieceInPool));
    cl.recv_piece(true, true, Piece::R);
    assert!(cl.deploy_piece(true, true, Piece::R, 4, 4) == Err(MoveError::NotEmpty));
    assert_eq!(cl.get_captured_piece(true, true, 1), 1);
    assert!(cl.get_white_active(true));
}

#[test]
fn deployment_refusals() {
    let mut cl = ChessLogic::new();
    cl.recv_piece(true, true, Piece::P);
    cl.recv_piece(true, false, Piece::p);
    cl.recv_piece(true, true, Piece::UQ);
    assert_eq!(cl.get_captured_piece(true, true, 0), 2);
    assert!(cl.deploy_piece(true, true, Piece::P, 8, 0) == Err(MoveError::NotLegal));
    assert!(cl.deploy_piece(true, true, Piece::P, 4, 8) == Err(MoveError::NotLegal));
    assert!(cl.deploy_piece(true, false, Piece::p, 4, 4) == Err(MoveError::NotTurn));
    assert!(cl.deploy_piece(true, true, Piece::K, 4, 4) == Err(MoveError::NoPieceInPool));
    assert!(cl.deploy_piece(true, true, Piece::E, 4, 4) == Err(MoveError::NoPieceInPool));
    assert!(cl.deploy_piece(true, true, Piece::Q, 4, 4) == Err(MoveError::NoPieceInPool));
    cl.all_empty(true);
    assert!(cl.deploy_piece(true, true, Piece::P, 0, 3) == Err(MoveError::NotLegal));
    assert!(cl.deploy_piece(true, true, Piece::P, 7, 3) == Err(MoveError::NotLegal));
    assert!(cl.deploy_piece(true, true, Piece::P, 1, 3) == Ok(true));
    assert_eq!(cl.get_captured_piece(true, true, 0), 1);
    cl.resign(true, false);
    assert!(cl.get_winner(true) == Winner::W1);
    assert!(cl.deploy_piece(true, false, Piece::p, 4, 4) == Err(MoveError::AlreadyOver));
}

#[test]
fn deployed_rook_restores_castling() {
    let mut cl = ChessLogic::new();
    cl.all_empty(true);
    cl.set_piece(true, Piece::K, 7, 4);
    cl.chess_board1.white_rook_k_moved = true;
    cl.recv_piece(true, true, Piece::R);
    assert_eq!(cl.get_castling_rights(true), [false, true, true, true]);
    assert!(cl.deploy_piece(true, true, Piece::R, 7, 7) == Ok(true));
    assert_eq!(cl.get_castling_rights(true), [true, true, true, true]);
    assert!(contains(&cl.get_legal_moves(true, 7, 4), (7, 6)));
}

#[test]
fn king_capture_ends_one_board_only() {
    let mut cl = ChessLogic::new();
    cl.all_empty(true);
    cl.set_piece(true, Piece::K, 7, 4);
    cl.set_piece(true, Piece::R, 7, 0);
    cl.set_piece(true, Piece::r, 0, 4);
    cl.set_piece(true, Piece::k, 0, 0);
    cl.white_active_1 = false;
    cl.recv_piece(true, true, Piece::N);
    assert!(cl.movemaker(true, 0, 4, 7, 4) == Ok(true));
    assert!(cl.get_winner(true) == Winner::B1);
    assert!(cl.get_winner(false) == Winner::N);
    assert_eq!(cl.get_pools().2, [0, 0, 0, 0, 0]);
    assert_eq!(cl.get_pools().3, [0, 0, 0, 0, 0]);
    assert!(cl.movemaker(true, 7, 0, 7, 1) == Err(MoveError::AlreadyOver));
    assert!(cl.deploy_piece(true, true, Piece::N, 4, 4) == Err(MoveError::AlreadyOver));
    assert_eq!(cl.get_legal_moves(true, 7, 0).len(), 11);
    assert!(cl.movemaker(false, 6, 4, 4, 4) == Ok(true));
    assert!(cl.get_winner(false) == Winner::N);

    let mut cl = ChessLogic::new();
    cl.all_empty(false);
    cl.set_piece(false, Piece::k, 0, 0);
    cl.set_piece(false, Piece::Q, 0, 7);
    assert!(cl.movemaker(false, 0, 7, 0, 0) == Ok(true));
    assert!(cl.get_winner(false) == Winner::W2);
    assert!(cl.get_winner(true) == Winner::N);
}

#[test]
fn exposing_the_king_is_allowed() {
    let mut cl = ChessLogic::new();
    cl.all_empty(true);
    cl.set_piece(true, Piece::K, 7, 0);
    cl.set_piece(true, Piece::R, 4, 0);
    cl.set_piece(true, Piece::r, 0, 0);
    cl.set_piece(true, Piece::k, 0, 7);
    assert!(!cl.is_attacked(true, true, 7, 0));
    assert!(cl.movemaker(true, 4, 0, 4, 5) == Ok(true));
    assert!(cl.is_attacked(true, true, 7, 0));
    assert!(cl.get_winner(true) == Winner::N);
    assert!(cl.movemaker(true, 0, 0, 7, 0) == Ok(true));
    assert!(cl.get_winner(true) == Winner::B1);
}

#[test]
fn promotion_needs_a_choice() {
    let mut cl = ChessLogic::new();
    cl.all_empty(true);
    cl.set_piece(true, Piece::P, 1, 7);
    cl.set_piece(true, Piece::n, 0, 6);
    assert!(cl.movemaker(true, 1, 7, 0, 7) == Err(MoveError::PromotionProblem));
    assert!(cl.get_piece(true, 1, 7) == Piece::P);
    assert!(cl.get_white_active(true));
    assert!(!cl.set_promotion(true, Piece::K));
    assert!(!cl.set_promotion(true, Piece::P));
    assert!(cl.set_promotion(true, Piece::q));
    assert!(cl.movemaker(true, 1, 7, 0, 7) == Err(MoveError::PromotionProblem));
    assert!(cl.set_promotion(true, Piece::UB));
    assert!(cl.upgrade_to1 == Piece::B);
    cl.reset_promotion(true);
    assert!(cl.upgrade_to1 == Piece::E);
    assert!(cl.set_promotion(true, Piece::R));
    assert!(cl.movemaker(true, 1, 7, 0, 6) == Ok(true));
    assert!(cl.get_piece(true, 0, 6) == Piece::UR);
    assert!(cl.get_piece(true, 1, 7) == Piece::E);
    assert!(cl.upgrade_to1 == Piece::E);
    assert_eq!(cl.get_captured_piece(false, true, 2), 1);
    assert_eq!(cl.get_captured_piece(false, false, 2), 0);
}

#[test]
fn captured_promoted_piece_returns_as_pawn() {
    let mut cl = ChessLogic::new();
    cl.all_empty(true);
    cl.set_piece(true, Piece::Uq, 4, 4);
    cl.set_piece(true, Piece::R, 4, 0);
    cl.set_piece(true, Piece::r, 0, 0);
    assert!(cl.movemaker(true, 4, 0, 4, 4) == Ok(true));
    assert_eq!(cl.get_pools().2, [1, 0, 0, 0, 0]);
    assert_eq!(cl.get_pools().3, [0, 0, 0, 0, 0]);
    assert_eq!(cl.box_index(Piece::Uq), Some(0));
    assert_eq!(cl.box_index(Piece::q), Some(4));
    assert_eq!(cl.box_index(Piece::k), None);
}

#[test]
fn stalemate_draws_the_board() {
    let mut cl = ChessLogic::new();
    cl.all_empty(true);
    cl.set_piece(true, Piece::K, 7, 7);
    cl.set_piece(true, Piece::P, 3, 0);
    cl.set_piece(true, Piece::p, 2, 0);
    cl.set_piece(true, Piece::k, 0, 7);
    cl.set_piece(true, Piece::r, 0, 3);
    cl.white_active_1 = false;
    assert!(!cl.check_patt(true, false));
    assert!(cl.get_winner(true) == Winner::N);
    assert!(cl.movemaker(true, 0, 3, 0, 4) == Ok(true));
    assert!(cl.get_winner(true) == Winner::P);
    assert!(cl.get_piece(true, 0, 4) == Piece::r);
    assert!(cl.movemaker(true, 7, 7, 7, 6) == Err(MoveError::AlreadyOver));
    assert!(cl.get_winner(false) == Winner::N);
}

#[test]
fn no_stalemate_with_a_piece_in_the_pool_or_an_attacked_king() {
    let mut cl = ChessLogic::new();
    cl.all_empty(true);
    cl.set_piece(true, Piece::K, 7, 7);
    cl.set_piece(true, Piece::P, 3, 0);
    cl.set_piece(true, Piece::p, 2, 0);
    assert!(cl.pool_empty(true, true));
    cl.recv_piece(true, true, Piece::N);
    assert!(!cl.pool_empty(true, true));
    assert!(!cl.check_patt(true, true));
    cl.set_captured_piece(true, true, 2, false);
    cl.set_piece(true, Piece::r, 0, 7);
    assert!(!cl.check_patt(true, true));
    cl.set_piece(true, Piece::E, 0, 7);
    assert!(cl.check_patt(true, true));
    assert!(cl.get_winner(true) == Winner::P);
}

#[test]
fn wrong_turn_is_refused() {
    let mut cl = ChessLogic::new();
    assert!(cl.movemaker(true, 1, 0, 2, 0) == Err(MoveError::NotTurn));
    assert!(cl.movemaker(true, 9, 0, 2, 0) == Err(MoveError::NotLegal));
    assert!(cl.movemaker(true, 6, 0, 9, 0) == Err(MoveError::NotLegal));
    assert!(cl.movemaker(true, 4, 4, 3, 4) == Err(MoveError::NotLegal));
    assert!(cl.get_white_active(true));
    assert_eq!(cl.get_half_moves(true), 0);
}

#[test]
fn pools_are_written_by_kind() {
    assert_eq!(gen_pool(&[2, 1, 0, 1, 3], true), "PPRBQQQ");
    assert_eq!(gen_pool(&[1, 0, 2, 0, 1], false), "pnnq");
    assert_eq!(gen_pool(&[0, 0, 0, 0, 0], false), "");
}

#[test]
fn refresh_and_find() {
    let mut cl = ChessLogic::new();
    assert_eq!(cl.find_piece(Piece::K, true), Some((7, 4)));
    assert_eq!(cl.find_piece(Piece::p, false), Some((1, 0)));
    assert_eq!(cl.find_piece(Piece::UQ, true), None);
    assert!(!cl.get_if_king_moved(true, true));
    assert!(cl.movemaker(true, 6, 4, 4, 4) == Ok(true));
    assert!(cl.movemaker(true, 1, 4, 3, 4) == Ok(true));
    assert!(cl.movemaker(true, 7, 4, 6, 4) == Ok(true));
    assert!(cl.get_if_king_moved(true, true));
    assert_eq!(cl.get_castling_rights(true), [false, false, true, true]);
    assert_eq!(cl.get_half_moves(true), 1);
    cl.refresh();
    assert!(!cl.get_if_king_moved(true, true));
    assert_eq!(cl.get_movectr(true), 1);
    assert!(cl.get_piece(true, 7, 4) == Piece::K);
    assert!(cl.get_piece_w_en(true, Piece::UR) == Piece::r);
    assert!(cl.get_piece_w_upgrade_en(false, Piece::q) == Piece::UQ);
    let shown = cl.with_legal(true, &cl.get_legal_moves(true, 6, 0));
    assert!(shown[5][0] == Piece::L && shown[4][0] == Piece::L && shown[6][0] == Piece::P);
    assert!(cl.get_piece(true, 5, 0) == Piece::E);
}

#[test]
#[allow(non_snake_case)]
fn test_2_deploying_pieces_W_fen() {
    let mut cl = ChessLogic::new();
    cl.recv_piece(true, true, Piece::P);
    assert!(cl.deploy_piece(true, true, Piece::P, 4, 4) == Ok(true));
    let a = gen_fen(&cl);
    // Nothing has moved, so every castling letter is still written.
    let st = "rnbqkbnr/pppppppp/8/8/4P3/8/PPPPPPPP/RNBQKBNR b KQkq e3 0 1".to_string();
    assert_eq!(st, a.0);
    cl.recv_piece(true, false, Piece::r);
    assert!(cl.deploy_piece(true, false, Piece::r, 3, 4) == Ok(true));
    let a = gen_fen(&cl);
    let st = "rnbqkbnr/pppppppp/8/4r3/4P3/8/PPPPPPPP/RNBQKBNR w KQkq - 1 2".to_string();
    assert_eq!(st, a.0);
    cl.chess_board1.white_k_moved = true;
    cl.chess_board1.black_rook_q_moved = true;
    let st = "rnbqkbnr/pppppppp/8/4r3/4P3/8/PPPPPPPP/RNBQKBNR w --k- - 1 2".to_string();
    assert_eq!(st, gen_fen(&cl).0);
}
