use bughouse::aux;
use bughouse::chessboard::{ChessBoard, Color, Field, MoveError, Piece, PieceType};

#[test]
fn trivial() {
    assert_eq!(1, 1);
}

#[test]
fn initial_state_print() {
    let cb = ChessBoard::new();
    assert_eq!(
        cb.get_field(7, 4),
        Field::Piece(Piece { piece_type: PieceType::King, color: Color::White, upgraded: false })
    );
    assert!(true);
}

#[test]
fn rook_legal_moves_1() {
    let mut cl = ChessBoard::new();
    cl.all_empty();
    cl.set_piece(PieceType::Rook, Color::White, false, 3, 3);
    let fields = cl.legal_moves(3, 3);
    let pre_calc = [(0, 3), (1, 3), (2, 3), (4, 3), (5, 3), (6, 3), (7, 3)];

    for tup in pre_calc.iter() {
        let has = aux::contains(&fields, *tup);
        if !has {
            println!("{:?} not in vector {:?}", tup, fields);
        }
        assert!(has);
    }
}

#[test]
fn bishop_legal_moves_1() {
    let mut cl = ChessBoard::new();
    cl.all_empty();
    cl.set_piece(PieceType::Bishop, Color::White, false, 7, 7);
    let fields = cl.legal_moves(7, 7);
    let pre_calc = [(0, 0), (1, 1), (2, 2), (3, 3), (4, 4), (5, 5), (6, 6)];

    for tup in pre_calc.iter() {
        let has = aux::contains(&fields, *tup);
        if !has {
            println!("{:?} not in vector {:?}", tup, fields);
        }
        assert!(has);
    }
}

#[test]
fn queen_legal_moves_1() {
    let mut cl = ChessBoard::new();
    cl.all_empty();
    cl.set_piece(PieceType::Queen, Color::White, false, 7, 7);
    let fields = cl.legal_moves(7, 7);
    let pre_calc = [
        (0, 0), (1, 1), (2, 2), (3, 3), (4, 4), (5, 5), (6, 6),
        (6, 7), (5, 7), (4, 7), (3, 7), (2, 7), (1, 7), (0, 7),
        (7, 6), (7, 5), (7, 4), (7, 3), (7, 2), (7, 1), (7, 0),
    ];

    for tup in pre_calc.iter() {
        let has = aux::contains(&fields, *tup);
        if !has {
            println!("{:?} not in vector {:?}", tup, fields);
        }
        assert!(has);
    }
}

#[test]
fn pieces_are_shown_by_letter() {
    assert_eq!(aux::apply_modifications('p', Color::White, false), "P");
    assert_eq!(aux::apply_modifications('q', Color::White, true), "UQ");
    assert_eq!(aux::apply_modifications('n', Color::Black, true), "Un");
    assert_eq!(aux::apply_modifications('k', Color::Black, false), "k");
    assert_eq!(aux::apply_modifications('ß', Color::White, false), "SS");
    assert_eq!(aux::with_mark("SS", true), "USS");
    assert_eq!(aux::with_mark("r", false), "r");
    assert_eq!(aux::with_mark("", true), "U");
    assert_eq!(aux::text_of('q'), "q");
}

#[test]
fn pool_slots() {
    let rook = Piece { piece_type: PieceType::Rook, color: Color::Black, upgraded: false };
    let made = Piece { piece_type: PieceType::Queen, color: Color::White, upgraded: true };
    let king = Piece { piece_type: PieceType::King, color: Color::White, upgraded: false };
    assert_eq!(aux::box_index(&rook), Some(1));
    assert_eq!(aux::box_index(&made), Some(0));
    assert_eq!(aux::box_index(&king), None);
    assert_eq!(Piece::new(), Piece { piece_type: PieceType::Rook, color: Color::White, upgraded: false });
}

#[test]
fn board_deployment() {
    let mut cb = ChessBoard::new();
    let rook = Piece { piece_type: PieceType::Rook, color: Color::White, upgraded: true };
    assert!(cb.deploy_piece(&rook, 4, 4) == Err(MoveError::NoPieceInPool));
    cb.white_deployable[1] = 1;
    assert!(cb.deploy_piece(&rook, 6, 4) == Err(MoveError::NotEmpty));
    assert!(cb.deploy_piece(&rook, 4, 9) == Err(MoveError::NotLegal));
    assert!(cb.deploy_piece(&rook, 4, 4) == Ok(true));
    assert_eq!(
        cb.get_field(4, 4),
        Field::Piece(Piece { piece_type: PieceType::Rook, color: Color::White, upgraded: false })
    );
    assert_eq!(cb.white_deployable, [0, 0, 0, 0, 0]);
    assert!(cb.current_turn == Color::Black);
    assert_eq!(cb.pattcounter, 1);
    assert_eq!(cb.counter, 0);
    assert!(cb.deploy_piece(&rook, 4, 5) == Err(MoveError::NotTurn));
    assert!(cb.is_attacked(6, 4) == false);
    assert!(cb.is_attacked(1, 4) == true);
    assert!(cb.check_legal(6, 0, 4, 0));
    assert_eq!(cb.pawn_move(6, 0), [(5, 0), (4, 0)]);
    assert!(cb.valid(7, 0) && !cb.valid(8, 0) && !cb.valid(0, -1));
    cb.over = true;
    assert!(cb.deploy_piece(&rook, 4, 5) == Err(MoveError::AlreadyOver));
    cb.reset();
    assert!(cb.current_turn == Color::White && !cb.over);
    assert_eq!(cb.get_field(4, 4), Field::Empty);
}
