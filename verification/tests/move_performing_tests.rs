use r_chess::bitboard::Bitboard;
use r_chess::enums::{Piece, Square};
use r_chess::errors::PerformMoveError;
use r_chess::move_performing::{perform_move, Move};

#[test]
fn test_perform_move_opera_game() {
    let position_fen = "rnbqkbnr/pppppppp/8/8/8/8/PPPPPPPP/RNBQKBNR w KQkq - 0 1";
    let bitboard = position_fen.parse::<Bitboard>().unwrap();

    let move1 = Move {
        orig: Square::E2,
        dest: Square::E4,

        promotion: None,
    };
    let bitboard = perform_move(&bitboard, &move1).unwrap();
    assert_eq!(
        bitboard.to_str(),
        "rnbqkbnr/pppppppp/8/8/4P3/8/PPPP1PPP/RNBQKBNR b KQkq e3 0 1"
    );

    let move2 = Move {
        orig: Square::E7,
        dest: Square::E5,

        promotion: None,
    };
    let bitboard = perform_move(&bitboard, &move2).unwrap();
    assert_eq!(
        bitboard.to_str(),
        "rnbqkbnr/pppp1ppp/8/4p3/4P3/8/PPPP1PPP/RNBQKBNR w KQkq e6 0 2"
    );

    let move3 = Move {
        orig: Square::G1,
        dest: Square::F3,

        promotion: None,
    };
    let bitboard = perform_move(&bitboard, &move3).unwrap();
    assert_eq!(
        bitboard.to_str(),
        "rnbqkbnr/pppp1ppp/8/4p3/4P3/5N2/PPPP1PPP/RNBQKB1R b KQkq - 1 2"
    );

    let move4 = Move {
        orig: Square::D7,
        dest: Square::D6,

        promotion: None,
    };
    let bitboard = perform_move(&bitboard, &move4).unwrap();
    assert_eq!(
        bitboard.to_str(),
        "rnbqkbnr/ppp2ppp/3p4/4p3/4P3/5N2/PPPP1PPP/RNBQKB1R w KQkq - 0 3"
    );

    let move5 = Move {
        orig: Square::D2,
        dest: Square::D4,

        promotion: None,
    };
    let bitboard = perform_move(&bitboard, &move5).unwrap();
    assert_eq!(
        bitboard.to_str(),
        "rnbqkbnr/ppp2ppp/3p4/4p3/3PP3/5N2/PPP2PPP/RNBQKB1R b KQkq d3 0 3"
    );

    let move6 = Move {
        orig: Square::C8,
        dest: Square::G4,

        promotion: None,
    };
    let bitboard = perform_move(&bitboard, &move6).unwrap();
    assert_eq!(
        bitboard.to_str(),
        "rn1qkbnr/ppp2ppp/3p4/4p3/3PP1b1/5N2/PPP2PPP/RNBQKB1R w KQkq - 1 4"
    );

    let move7 = Move {
        orig: Square::D4,
        dest: Square::E5,

        promotion: None,
    };
    let bitboard = perform_move(&bitboard, &move7).unwrap();
    assert_eq!(
        bitboard.to_str(),
        "rn1qkbnr/ppp2ppp/3p4/4P3/4P1b1/5N2/PPP2PPP/RNBQKB1R b KQkq - 0 4"
    );

    let move8 = Move {
        orig: Square::G4,
        dest: Square::F3,

        promotion: None,
    };
    let bitboard = perform_move(&bitboard, &move8).unwrap();
    assert_eq!(
        bitboard.to_str(),
        "rn1qkbnr/ppp2ppp/3p4/4P3/4P3/5b2/PPP2PPP/RNBQKB1R w KQkq - 0 5"
    );

    let move9 = Move {
        orig: Square::D1,
        dest: Square::F3,

        promotion: None,
    };
    let bitboard = perform_move(&bitboard, &move9).unwrap();
    assert_eq!(
        bitboard.to_str(),
        "rn1qkbnr/ppp2ppp/3p4/4P3/4P3/5Q2/PPP2PPP/RNB1KB1R b KQkq - 0 5"
    );

    let move10 = Move {
        orig: Square::D6,
        dest: Square::E5,

        promotion: None,
    };
    let bitboard = perform_move(&bitboard, &move10).unwrap();
    assert_eq!(
        bitboard.to_str(),
        "rn1qkbnr/ppp2ppp/8/4p3/4P3/5Q2/PPP2PPP/RNB1KB1R w KQkq - 0 6"
    );

    // Skip moves till castling
    let position_fen = "r3kb1r/p2nqppp/5n2/1B2p1B1/4P3/1Q6/PPP2PPP/R3K2R w KQkq - 1 12";
    let bitboard = position_fen.parse::<Bitboard>().unwrap();
    let move23 = Move {
        orig: Square::E1,
        dest: Square::C1,

        promotion: None,
    };
    let bitboard = perform_move(&bitboard, &move23).unwrap();
    assert_eq!(
        bitboard.to_str(),
        "r3kb1r/p2nqppp/5n2/1B2p1B1/4P3/1Q6/PPP2PPP/2KR3R b kq - 2 12"
    )
}

#[test]
fn test_perform_move_promotion() {
    let position_fen = "8/4P3/k3K3/8/8/8/8/8 w - - 0 1";
    let bitboard = position_fen.parse::<Bitboard>().unwrap();
    let move1 = Move {
        orig: Square::E7,
        dest: Square::E8,

        promotion: Some(Piece::Rook),
    };
    let bitboard = perform_move(&bitboard, &move1).unwrap();
    assert_eq!(bitboard.to_str(), "4R3/8/k3K3/8/8/8/8/8 b - - 0 1")
}

#[test]
fn test_perform_move_en_passant() {
    let position_fen = "rnbqkbnr/pp1p2pp/8/2pPpp2/4P3/8/PPP2PPP/RNBQKBNR w KQkq c6 0 4";
    let bitboard = position_fen.parse::<Bitboard>().unwrap();
    let move1 = Move {
        orig: Square::D5,
        dest: Square::C6,

        promotion: None,
    };
    let bitboard = perform_move(&bitboard, &move1).unwrap();
    assert_eq!(
        bitboard.to_str(),
        "rnbqkbnr/pp1p2pp/2P5/4pp2/4P3/8/PPP2PPP/RNBQKBNR b KQkq - 0 4"
    )
}

#[test]
fn test_remove_castle_rights_on_king_move() {
    let position_fen = "rnbqkbnr/pppppppp/8/8/8/8/PPPPPPPP/R3K2R w KQkq - 0 1";
    let bitboard = position_fen.parse::<Bitboard>().unwrap();
    let move1 = Move {
        orig: Square::E1,
        dest: Square::D1,

        promotion: None,
    };

    let bitboard = perform_move(&bitboard, &move1).unwrap();
    assert_eq!(
        bitboard.to_str(),
        "rnbqkbnr/pppppppp/8/8/8/8/PPPPPPPP/R2K3R b kq - 1 1"
    )
}

#[test]
fn test_remove_castle_rights_on_rook_move() {
    let position_fen = "r3k2r/pppppppp/8/8/8/8/PPPPPPPP/R3K2R b KQkq - 1 1";
    let bitboard = position_fen.parse::<Bitboard>().unwrap();
    let move1 = Move {
        orig: Square::A8,
        dest: Square::B8,

        promotion: None,
    };

    let bitboard = perform_move(&bitboard, &move1).unwrap();
    assert_eq!(
        bitboard.to_str(),
        "1r2k2r/pppppppp/8/8/8/8/PPPPPPPP/R3K2R w KQk - 2 2"
    )
}

#[test]
fn test_remove_castle_rights_all_corners() {
    let base = "r3k2r/pppppppp/8/8/8/8/PPPPPPPP/R3K2R";

    // White queenside rook from A1.
    let bitboard = format!("{} w KQkq - 0 1", base).parse::<Bitboard>().unwrap();
    let next = perform_move(
        &bitboard,
        &Move { orig: Square::A1, dest: Square::B1, promotion: None },
    )
    .unwrap();
    assert_eq!(next.to_str(), "r3k2r/pppppppp/8/8/8/8/PPPPPPPP/1R2K2R b Kkq - 1 1");

    // White kingside rook from H1.
    let next = perform_move(
        &bitboard,
        &Move { orig: Square::H1, dest: Square::G1, promotion: None },
    )
    .unwrap();
    assert_eq!(next.to_str(), "r3k2r/pppppppp/8/8/8/8/PPPPPPPP/R3K1R1 b Qkq - 1 1");

    // Black kingside rook from H8.
    let bitboard = format!("{} b KQkq - 0 1", base).parse::<Bitboard>().unwrap();
    let next = perform_move(
        &bitboard,
        &Move { orig: Square::H8, dest: Square::G8, promotion: None },
    )
    .unwrap();
    assert_eq!(next.to_str(), "r3k1r1/pppppppp/8/8/8/8/PPPPPPPP/R3K2R w KQq - 1 2");

    // Black king from E8.
    let next = perform_move(
        &bitboard,
        &Move { orig: Square::E8, dest: Square::D8, promotion: None },
    )
    .unwrap();
    assert_eq!(next.to_str(), "r2k3r/pppppppp/8/8/8/8/PPPPPPPP/R3K2R w KQ - 1 2");

    // White kingside castling clears both White rights.
    let bitboard = format!("{} w KQkq - 0 1", base).parse::<Bitboard>().unwrap();
    let next = perform_move(
        &bitboard,
        &Move { orig: Square::E1, dest: Square::G1, promotion: None },
    )
    .unwrap();
    assert_eq!(next.to_str(), "r3k2r/pppppppp/8/8/8/8/PPPPPPPP/R4RK1 b kq - 1 1");

    // Black queenside castling clears both Black rights.
    let bitboard = format!("{} b KQkq - 0 1", base).parse::<Bitboard>().unwrap();
    let next = perform_move(
        &bitboard,
        &Move { orig: Square::E8, dest: Square::C8, promotion: None },
    )
    .unwrap();
    assert_eq!(next.to_str(), "2kr3r/pppppppp/8/8/8/8/PPPPPPPP/R3K2R w KQ - 1 2");
}

#[test]
fn test_perform_move_impossible_double_push() {
    // A pawn standing on its third rank moving two ranks backwards derives
    // a midpoint below the board.
    let position_fen = "4k3/8/8/8/8/1P6/8/4K3 w - - 0 1";
    let bitboard = position_fen.parse::<Bitboard>().unwrap();
    let move1 = Move {
        orig: Square::B3,
        dest: Square::B1,
        promotion: None,
    };
    assert_eq!(
        perform_move(&bitboard, &move1),
        Err(PerformMoveError::ImpossibleDoublePush)
    );
}

#[test]
fn test_perform_move_en_passant_impossible() {
    // An en-passant target on the first rank puts the captured pawn's
    // square below the board.
    let position_fen = "4k3/8/8/8/8/8/3P4/4K3 w - e1 0 1";
    let bitboard = position_fen.parse::<Bitboard>().unwrap();
    let move1 = Move {
        orig: Square::D2,
        dest: Square::E1,
        promotion: None,
    };
    assert_eq!(
        perform_move(&bitboard, &move1),
        Err(PerformMoveError::EnPassantImpossible)
    );
}

#[test]
fn test_perform_move_capture_resets_half_move_clock() {
    let position_fen = "4k3/8/8/3p4/4P3/8/8/4K3 w - - 7 13";
    let bitboard = position_fen.parse::<Bitboard>().unwrap();
    let move1 = Move {
        orig: Square::E4,
        dest: Square::D5,
        promotion: None,
    };
    let bitboard = perform_move(&bitboard, &move1).unwrap();
    assert_eq!(bitboard.to_str(), "4k3/8/8/3P4/8/8/8/4K3 b - - 0 13");
}
