use bughouse::board::Piece;
use bughouse::logic::ChessLogic;
use bughouse::util::{contains, normalize};

fn sorted(v: &Vec<(usize, usize)>) -> Vec<usize> {
    let mut n = normalize(v);
    n.sort();
    n
}

#[test]
fn tests_it_works() {
    assert_eq!(2 + 2, 4);
}

#[test]
fn test_2_it_works() {
    assert_eq!(2 + 2, 4);
}

#[test]
fn king1() {
    let mut cl = ChessLogic::new();

    cl.all_empty(true);
    cl.set_piece(true, Piece::q, 7, 7);
    cl.set_piece(true, Piece::r, 0, 3);
    cl.set_piece(true, Piece::K, 6, 5);
    let vec = cl.get_legal_moves(true, 6, 5);
    let mut vecbyhand = Vec::new();

    vecbyhand.push((5, 6));
    vecbyhand.push((5, 4));
    vecbyhand.push((5, 5));
    vecbyhand.push((6, 4));
    vecbyhand.push((6, 6));
    vecbyhand.push((7, 4));
    vecbyhand.push((7, 5));
    vecbyhand.push((7, 6));
    let mut vec_norm = normalize(&vec);
    let mut vecbyhand_norm = normalize(&vecbyhand);
    vec_norm.sort();
    vecbyhand_norm.sort();

    assert_eq!(vec_norm, vecbyhand_norm);
}

#[test]
fn rook2() {
    let mut cl = ChessLogic::new();
    cl.all_empty(true);
    cl.set_piece(true, Piece::q, 5, 0);
    cl.set_piece(true, Piece::k, 3, 0);
    cl.set_piece(true, Piece::Ur, 4, 0);
    cl.set_piece(true, Piece::b, 4, 1);

    assert_eq!(cl.get_legal_moves(true, 4, 0), Vec::new());

    cl.all_empty(true);
    cl.set_piece(true, Piece::UQ, 5, 0);
    cl.set_piece(true, Piece::K, 3, 0);
    cl.set_piece(true, Piece::r, 4, 0);
    cl.set_piece(true, Piece::B, 4, 1);

    let vec = cl.get_legal_moves(true, 4, 0);
    let mut vecbyhand = Vec::new();

    vecbyhand.push((5, 0));
    vecbyhand.push((3, 0));
    vecbyhand.push((4, 1));

    let mut vec_norm = normalize(&vec);
    let mut vecbyhand_norm = normalize(&vecbyhand);
    vec_norm.sort();
    vecbyhand_norm.sort();

    assert_eq!(vec_norm, vecbyhand_norm)
}

#[test]
fn attacks1() {
    let mut cl = ChessLogic::new();

    cl.set_piece(true, Piece::P, 5, 4);
    cl.set_piece(true, Piece::p, 5, 5);
    cl.set_piece(true, Piece::R, 4, 2);
    cl.set_piece(true, Piece::q, 4, 3);
    cl.set_piece(true, Piece::E, 1, 7);
    for i in 0..8 {
        cl.set_piece(true, Piece::E, 6, i);
    }

    assert_eq!(true, cl.is_attacked(true, true, 6, 6));
    assert_eq!(true, cl.is_attacked(true, true, 7, 7));
    assert_eq!(true, cl.is_attacked(true, true, 3, 4));
    assert_eq!(true, cl.is_attacked(true, true, 2, 3));
    assert_eq!(true, cl.is_attacked(true, true, 0, 5));
    assert_eq!(true, cl.is_attacked(true, true, 6, 4));
    assert_eq!(true, cl.is_attacked(true, true, 4, 7));
    assert_eq!(true, cl.is_attacked(true, true, 7, 0));
    assert_eq!(false, cl.is_attacked(true, true, 5, 1))
}

#[test]
fn checkmate1() {
    let mut cl = ChessLogic::new();
    cl.all_empty(true);
    cl.set_piece(true, Piece::N, 1, 4);
    cl.set_piece(true, Piece::R, 5, 7);
    cl.set_piece(true, Piece::p, 1, 6);
    cl.set_piece(true, Piece::k, 1, 7);

    let vec = cl.get_legal_moves(true, 1, 7);
    assert_eq!(vec, [(0, 6), (0, 7), (2, 6), (2, 7)])
}

#[test]
fn checkmate2() {
    let mut cl = ChessLogic::new();
    cl.all_empty(true);
    cl.chess_board1.board[0][0] = Piece::Q;
    cl.chess_board1.board[0][7] = Piece::k;
    cl.chess_board1.board[1][7] = Piece::p;
    cl.chess_board1.board[1][6] = Piece::p;

    let vec = cl.get_legal_moves(true, 0, 7);
    assert_eq!(vec, [(0, 6)])
}

#[test]
fn fools_mate() {
    let mut cl = ChessLogic::new();
    cl.chess_board1.board[6][6] = Piece::E;
    cl.chess_board1.board[6][5] = Piece::E;
    cl.chess_board1.board[4][6] = Piece::P;
    cl.chess_board1.board[5][5] = Piece::P;
    cl.chess_board1.board[4][7] = Piece::Uq;

    let vec = cl.get_legal_moves(true, 7, 4);
    assert_eq!(vec, [(6, 5)])
}

#[test]
fn rook_move() {
    let mut cl = ChessLogic::new();

    cl.all_empty(true);
    cl.set_piece(true, Piece::R, 4, 4);
    cl.set_piece(true, Piece::R, 4, 6);
    let vec = cl.get_legal_moves(true, 4, 4);
    let mut vecbyhand = Vec::new();

    vecbyhand.push((4, 5));
    vecbyhand.push((3, 4));
    vecbyhand.push((2, 4));
    vecbyhand.push((1, 4));
    vecbyhand.push((0, 4));
    vecbyhand.push((5, 4));
    vecbyhand.push((6, 4));
    vecbyhand.push((7, 4));
    vecbyhand.push((4, 3));
    vecbyhand.push((4, 2));
    vecbyhand.push((4, 1));
    vecbyhand.push((4, 0));

    let mut vec_norm = normalize(&vec);
    let mut vecbyhand_norm = normalize(&vecbyhand);
    vec_norm.sort();
    vecbyhand_norm.sort();

    assert_eq!(vec_norm, vecbyhand_norm);

    cl.all_empty(true);
    cl.set_piece(true, Piece::r, 4, 4);
    cl.set_piece(true, Piece::r, 4, 6);
    let vec2 = cl.get_legal_moves(true, 4, 4);
    let mut vec_norm2 = normalize(&vec2);
    vec_norm2.sort();
    assert_eq!(vec_norm2, vecbyhand_norm);
}

#[test]
fn bishop_move() {
    let mut cl = ChessLogic::new();

    cl.all_empty(true);
    cl.set_piece(true, Piece::b, 4, 4);
    cl.set_piece(true, Piece::b, 5, 5);
    let mut vec = cl.get_legal_moves(true, 4, 4);
    let mut vecbyhand = Vec::new();
    vecbyhand.push((0, 0));
    vecbyhand.push((1, 1));
    vecbyhand.push((2, 2));
    vecbyhand.push((3, 3));

    vecbyhand.push((5, 3));
    vecbyhand.push((6, 2));
    vecbyhand.push((7, 1));

    vecbyhand.push((3, 5));
    vecbyhand.push((2, 6));
    vecbyhand.push((1, 7));

    let mut vec_norm = normalize(&vec);
    let mut vecbyhand_norm = normalize(&vecbyhand);
    vec_norm.sort();
    vecbyhand_norm.sort();

    assert_eq!(vec_norm, vecbyhand_norm);

    cl.all_empty(true);
    cl.set_piece(true, Piece::B, 4, 4);
    cl.set_piece(true, Piece::B, 5, 5);
    vec = cl.get_legal_moves(true, 4, 4);

    let mut vec_norm = normalize(&vec);
    let mut vecbyhand_norm = normalize(&vecbyhand);
    vec_norm.sort();
    vecbyhand_norm.sort();

    assert_eq!(vec_norm, vecbyhand_norm);
}

#[test]
fn queen_move() {
    let mut cl = ChessLogic::new();
    cl.all_empty(true);
    cl.set_piece(true, Piece::Q, 0, 0);
    cl.set_piece(true, Piece::Uq, 7, 7);
    let vec_queen = cl.get_legal_moves(true, 7, 7);
    let mut vecbyhand_queen = Vec::new();

    vecbyhand_queen.push((0, 0));
    vecbyhand_queen.push((1, 1));
    vecbyhand_queen.push((2, 2));
    vecbyhand_queen.push((3, 3));
    vecbyhand_queen.push((4, 4));
    vecbyhand_queen.push((5, 5));
    vecbyhand_queen.push((6, 6));

    vecbyhand_queen.push((6, 7));
    vecbyhand_queen.push((5, 7));
    vecbyhand_queen.push((4, 7));
    vecbyhand_queen.push((3, 7));
    vecbyhand_queen.push((2, 7));
    vecbyhand_queen.push((1, 7));
    vecbyhand_queen.push((0, 7));

    vecbyhand_queen.push((7, 6));
    vecbyhand_queen.push((7, 5));
    vecbyhand_queen.push((7, 4));
    vecbyhand_queen.push((7, 3));
    vecbyhand_queen.push((7, 2));
    vecbyhand_queen.push((7, 1));
    vecbyhand_queen.push((7, 0));

    let mut vec_norm = normalize(&vec_queen);
    let mut vecbyhand_norm = normalize(&vecbyhand_queen);
    vec_norm.sort();
    vecbyhand_norm.sort();

    assert_eq!(vec_norm, vecbyhand_norm);
}

#[test]
fn cool_checkmate1() {
    let mut cl = ChessLogic::new();
    cl.all_empty(true);
    cl.set_piece(true, Piece::k, 2, 4);
    cl.set_piece(true, Piece::Q, 3, 2);
    cl.set_piece(true, Piece::P, 2, 2);
    cl.set_piece(true, Piece::K, 4, 5);
    cl.set_piece(true, Piece::n, 0, 0);
    cl.set_piece(true, Piece::R, 0, 5);

    let vec = cl.get_legal_moves(true, 2, 4);
    let vecbyhand = [(1, 3), (1, 4), (1, 5), (2, 3), (2, 5), (3, 3), (3, 4), (3, 5)];
    assert_eq!(vec, vecbyhand);
}

#[test]
fn pawn_attacks() {
    let cl = ChessLogic::new();
    let _vec = cl.get_legal_moves(true, 6, 7);
    assert_eq!(false, cl.is_attacked(true, true, 5, 7));
    assert_eq!(false, cl.is_attacked(true, true, 5, 6));
    assert_eq!(false, cl.is_attacked(true, true, 5, 0));

    assert_eq!(true, cl.is_attacked(true, false, 5, 7));
    assert_eq!(true, cl.is_attacked(true, false, 5, 6));
    assert_eq!(true, cl.is_attacked(true, false, 5, 0));

    assert_eq!(true, cl.is_attacked(true, true, 2, 1));
    assert_eq!(true, cl.is_attacked(true, true, 2, 0));
    assert_eq!(true, cl.is_attacked(true, true, 2, 7));
    assert_eq!(true, cl.is_attacked(true, true, 2, 3));

    assert_eq!(false, cl.is_attacked(true, true, 4, 0));
    assert_eq!(false, cl.is_attacked(true, true, 4, 7));
    assert_eq!(false, cl.is_attacked(true, true, 3, 7));
    assert_eq!(false, cl.is_attacked(true, true, 3, 0));
    assert_eq!(false, cl.is_attacked(true, true, 3, 4));
}

#[test]
fn enpassant() {
    let mut cl = ChessLogic::new();
    cl.all_empty(true);
    cl.set_piece(true, Piece::p, 4, 0);
    cl.set_piece(true, Piece::P, 4, 1);
    cl.set_pawn_in_last_turn(true, Some((4, 1)));
    let mut vec = cl.get_legal_moves(true, 4, 0);

    let mut vecbyhand = Vec::new();
    vecbyhand.push((5, 0));
    vecbyhand.push((5, 1));
    assert_eq!(vec, vecbyhand);

    cl.all_empty(true);
    cl.set_piece(true, Piece::p, 4, 7);
    cl.set_piece(true, Piece::P, 4, 6);
    cl.set_pawn_in_last_turn(true, Some((4, 6)));
    vec = cl.get_legal_moves(true, 4, 7);

    vecbyhand = Vec::new();
    vecbyhand.push((5, 7));
    vecbyhand.push((5, 6));
    assert_eq!(vec, vecbyhand);

    cl.all_empty(true);
    cl.set_piece(true, Piece::p, 4, 6);
    cl.set_piece(true, Piece::P, 4, 7);
    cl.set_pawn_in_last_turn(true, Some((4, 7)));
    vec = cl.get_legal_moves(true, 4, 6);

    vecbyhand = Vec::new();
    vecbyhand.push((5, 6));
    vecbyhand.push((5, 7));
    assert_eq!(vec, vecbyhand);

    cl.all_empty(true);
    cl.set_piece(true, Piece::p, 3, 6);
    cl.set_piece(true, Piece::P, 3, 7);
    cl.set_pawn_in_last_turn(true, Some((3, 6)));
    vec = cl.get_legal_moves(true, 3, 7);

    vecbyhand = Vec::new();
    vecbyhand.push((2, 7));
    vecbyhand.push((2, 6));
    assert_eq!(vec, vecbyhand);

    cl.all_empty(true);
    cl.set_piece(true, Piece::p, 3, 0);
    cl.set_piece(true, Piece::P, 3, 1);
    cl.set_pawn_in_last_turn(true, Some((3, 0)));
    vec = cl.get_legal_moves(true, 3, 1);

    vecbyhand = Vec::new();
    vecbyhand.push((2, 1));
    vecbyhand.push((2, 0));
    assert_eq!(vec, vecbyhand);

    cl.all_empty(true);
    cl.set_piece(true, Piece::p, 3, 0);
    cl.set_piece(true, Piece::P, 3, 1);
    cl.set_pawn_in_last_turn(true, None);
    vec = cl.get_legal_moves(true, 3, 1);

    vecbyhand = Vec::new();
    vecbyhand.push((2, 1));
    assert_eq!(vec, vecbyhand);
}

#[test]
fn horse_bishop_checkmate() {
    let mut cl = ChessLogic::new();
    cl.all_empty(true);
    cl.set_piece(true, Piece::k, 1, 7);
    cl.set_piece(true, Piece::K, 1, 5);
    cl.set_piece(true, Piece::UB, 0, 5);
    cl.set_piece(true, Piece::N, 3, 4);

    let vec = cl.get_legal_moves(true, 1, 7);
    assert_eq!(vec, [(0, 6), (0, 7), (1, 6), (2, 6), (2, 7)]);

    let mut cl = ChessLogic::new();
    cl.all_empty(true);
    cl.set_piece(true, Piece::k, 0, 0);
    cl.set_piece(true, Piece::K, 2, 1);
    cl.set_piece(true, Piece::UB, 2, 2);
    cl.set_piece(true, Piece::N, 2, 0);

    let vec = cl.get_legal_moves(true, 0, 0);
    assert_eq!(vec, [(0, 1), (1, 0), (1, 1)]);
}

#[test]
fn legality_check() {
    let cl = ChessLogic::new();
    //pawns
    assert_eq!(true, cl.legality_check(true, 1, 1, 3, 1));
    assert_eq!(true, cl.legality_check(true, 1, 1, 2, 1));
    assert_eq!(false, cl.legality_check(true, 1, 1, 4, 1));
    assert_eq!(true, cl.legality_check(true, 6, 7, 5, 7));
    assert_eq!(false, cl.legality_check(true, 6, 7, 6, 7));
    assert_eq!(false, cl.legality_check(true, 6, 7, 5, 6));
}

#[test]
fn board2_1() {
    let mut cl = ChessLogic::new();
    cl.all_empty(false);
    cl.set_piece(false, Piece::q, 5, 0);
    cl.set_piece(false, Piece::k, 3, 0);
    cl.set_piece(false, Piece::r, 4, 0);
    cl.set_piece(false, Piece::b, 4, 1);
    let vecc = cl.get_legal_moves(false, 4, 0);
    assert_eq!(vecc, Vec::new());

    cl.all_empty(false);
    cl.set_piece(false, Piece::Q, 5, 0);
    cl.set_piece(false, Piece::K, 3, 0);
    cl.set_piece(false, Piece::r, 4, 0);
    cl.set_piece(false, Piece::B, 4, 1);

    let vec = cl.get_legal_moves(false, 4, 0);
    let mut vecbyhand = Vec::new();

    vecbyhand.push((5, 0));
    vecbyhand.push((3, 0));
    vecbyhand.push((4, 1));

    let mut vec_norm = normalize(&vec);
    let mut vecbyhand_norm = normalize(&vecbyhand);
    vec_norm.sort();
    vecbyhand_norm.sort();

    assert_eq!(vec_norm, vecbyhand_norm)
}

#[test]
fn board2_2() {
    let mut cl = ChessLogic::new();
    cl.all_empty(false);
    cl.set_piece(false, Piece::k, 2, 4);
    cl.set_piece(false, Piece::Q, 3, 2);
    cl.set_piece(false, Piece::P, 2, 2);
    cl.set_piece(false, Piece::K, 4, 5);
    cl.set_piece(false, Piece::n, 0, 0);
    cl.set_piece(false, Piece::R, 0, 5);

    let vec = cl.get_legal_moves(false, 2, 4);
    let mut vecbyhand = Vec::new();
    vecbyhand.push((1, 3));
    vecbyhand.push((1, 4));
    vecbyhand.push((1, 5));
    vecbyhand.push((2, 3));
    vecbyhand.push((2, 5));
    vecbyhand.push((3, 3));
    vecbyhand.push((3, 4));
    vecbyhand.push((3, 5));
    assert_eq!(vec, vecbyhand);
}

#[test]
fn cool_checkmate2() {
    let mut cl = ChessLogic::new();
    cl.all_empty(true);
    cl.set_piece(true, Piece::k, 2, 4);
    cl.set_piece(true, Piece::P, 2, 3);
    cl.set_piece(true, Piece::P, 3, 4);
    cl.set_piece(true, Piece::B, 4, 2);
    cl.set_piece(true, Piece::p, 3, 5);
    cl.set_piece(true, Piece::Un, 1, 3);

    let vec = cl.get_legal_moves(true, 2, 4);
    let vecbyhand = [(1, 4), (1, 5), (2, 3), (2, 5), (3, 3), (3, 4)];
    assert_eq!(vec, vecbyhand);
}

#[test]
fn chincough() {
    let mut cl = ChessLogic::new();
    cl.all_empty(true);
    cl.set_piece(true, Piece::K, 0, 0);
    cl.set_piece(true, Piece::P, 0, 1);
    cl.set_piece(true, Piece::P, 1, 0);
    cl.set_piece(true, Piece::P, 1, 1);
    cl.set_piece(true, Piece::n, 1, 2);

    let vec = cl.get_legal_moves(true, 0, 0);
    assert_eq!(vec, Vec::new());
    let vec2 = cl.get_legal_moves(true, 1, 0);
    assert_eq!(vec2, Vec::new());
    let vec3 = cl.get_legal_moves(true, 0, 1);
    assert_eq!(vec3, Vec::new());
}

#[test]
fn up() {
    let mut cl = ChessLogic::new();
    cl.all_empty(true);
    cl.set_piece(true, Piece::Ur, 0, 7);
    let vec = cl.get_legal_moves(true, 0, 7);
    assert!(!contains(&vec, (1, 1)));
    assert_eq!(sorted(&vec).len(), 14);
}

#[test]
fn squares_can_be_asked() {
    let mut cl = ChessLogic::new();
    assert!(cl.is_empty(true, 4, 4));
    assert!(!cl.is_empty(true, 6, 4));
    assert!(cl.is_white(true, 6, 4));
    assert!(!cl.is_white(true, 1, 4));
    assert!(!cl.is_white(true, 4, 4));
    assert!(cl.is_enemy(true, true, 1, 4));
    assert!(!cl.is_enemy(true, true, 6, 4));
    assert!(cl.is_enemy(false, false, 6, 4));
    assert!(!cl.is_enemy(false, false, 4, 4));
    assert!(cl.valid(0, 7) && !cl.valid(-1, 0) && !cl.valid(0, 8));
    assert!(cl.check_for_piece(true, Piece::K, 7, 4));
    assert!(!cl.check_for_piece(true, Piece::K, 7, 3));
    assert!(!cl.check_for_piece(true, Piece::K, 8, 4));
    cl.set_piece(false, Piece::L, 4, 4);
    assert!(!cl.is_empty(false, 4, 4));
    assert_eq!(cl.get_legal_moves(false, 4, 4), Vec::new());
    assert_eq!(cl.get_legal_moves(false, 6, 4), [(5, 4)]);
    assert_eq!(cl.get_legal_moves(false, 9, 4), Vec::new());
    assert!(!cl.is_attacked(false, true, 9, 4));

    cl.get_board(true).move_piece(6, 4, 4, 4);
    assert!(cl.get_piece(true, 4, 4) == Piece::P);
    assert!(cl.get_piece(true, 6, 4) == Piece::E);
    assert!(cl.get_board_n(true).board[4][4] == Piece::P);
    cl.get_board(true).set_init_array();
    assert!(cl.chess_board1.board == bughouse::board::get_init_array());
    assert!(cl.room_for_move(true));
    cl.movectr1 = usize::MAX;
    assert!(!cl.room_for_move(true));
    assert!(cl.room_for_move(false));
}

#[test]
fn knight_moves_in_order() {
    let mut cl = ChessLogic::new();
    cl.all_empty(true);
    cl.set_piece(true, Piece::N, 4, 4);
    cl.set_piece(true, Piece::P, 2, 5);
    cl.set_piece(true, Piece::p, 6, 3);
    assert_eq!(
        cl.get_legal_moves(true, 4, 4),
        [(2, 3), (6, 5), (6, 3), (5, 2), (5, 6), (3, 2), (3, 6)]
    );
    assert_eq!(cl.get_legal_moves(true, 2, 5), [(1, 5)]);
    cl.set_piece(true, Piece::n, 0, 0);
    assert_eq!(cl.get_legal_moves(true, 0, 0), [(2, 1), (1, 2)]);
}
