use r_chess::attack_tables::AttackTables;
use r_chess::bitboard::Bitboard;
use r_chess::board_slice::BoardSlice;
use r_chess::enums::{CastleMoves, Color, Piece, Square};
use r_chess::errors::FENParseError;

#[test]
fn test_get_piece() {
    let position_fen = "rnbqkbnr/pppppppp/8/8/8/8/PPPPPPPP/RNBQKBNR w KQkq - 0 1";
    let bitboard = position_fen.parse::<Bitboard>().unwrap();
    assert_eq!(
        bitboard.get_piece(Color::White, Piece::Rook),
        BoardSlice(0x0000000000000081)
    );

    assert_eq!(
        bitboard.get_piece(Color::Black, Piece::Pawn),
        BoardSlice(0x00FF000000000000)
    );
}

#[test]
fn test_get_all_pieces() {
    let position_fen = "rnbqkbnr/pppppppp/8/8/8/8/PPPPPPPP/RNBQKBNR w KQkq - 0 1";
    let bitboard = position_fen.parse::<Bitboard>().unwrap();

    assert_eq!(bitboard.get_all_pieces(), BoardSlice(0xFFFF00000000FFFF));
}

#[test]
fn test_get_color_pieces() {
    let position_fen = "rnbqkbnr/pppppppp/8/8/8/8/PPPPPPPP/RNBQKBNR w KQkq - 0 1";
    let bitboard = position_fen.parse::<Bitboard>().unwrap();

    assert_eq!(
        bitboard.get_color_pieces(Color::White),
        BoardSlice(0x000000000000FFFF)
    );
    assert_eq!(
        bitboard.get_color_pieces(Color::Black),
        BoardSlice(0xFFFF000000000000)
    );
}

#[test]
fn test_get_king_square() {
    let position_fen = "rnbqkbnr/pppppppp/8/8/8/8/PPPPPPPP/RNBQKBNR w KQkq - 0 1";
    let bitboard = position_fen.parse::<Bitboard>().unwrap();

    assert_eq!(bitboard.get_king_square(Color::White), Square::E1);
    assert_eq!(bitboard.get_king_square(Color::Black), Square::E8);
}

#[test]
fn test_is_square_attacked() {
    let tables = AttackTables::new().unwrap();
    let position_fen = "rnbqkbnr/pppppppp/8/8/8/8/PPPPPPPP/RNBQKBNR w KQkq - 0 1";
    let bitboard = position_fen.parse::<Bitboard>().unwrap();

    assert_eq!(
        bitboard.is_square_attacked(&tables, Color::White, Square::E3),
        true
    );
    assert_eq!(
        bitboard.is_square_attacked(&tables, Color::White, Square::E4),
        false
    );

    assert_eq!(
        bitboard.is_square_attacked(&tables, Color::Black, Square::E6),
        true
    );
    assert_eq!(
        bitboard.is_square_attacked(&tables, Color::Black, Square::E5),
        false
    );

    assert_eq!(
        bitboard.is_square_attacked(&tables, Color::White, Square::E1),
        true
    );

    let position_fen = "k6q/8/8/8/7R/8/8/K6B w KQkq - 0 1";
    let bitboard = position_fen.parse::<Bitboard>().unwrap();

    assert_eq!(
        bitboard.is_square_attacked(&tables, Color::White, Square::D5),
        true
    );
    assert_eq!(
        bitboard.is_square_attacked(&tables, Color::White, Square::A3),
        false
    );

    assert_eq!(
        bitboard.is_square_attacked(&tables, Color::Black, Square::A7),
        true
    );
    assert_eq!(
        bitboard.is_square_attacked(&tables, Color::Black, Square::H1),
        false
    );
}

#[test]
fn test_is_king_in_check() {
    let tables = AttackTables::new().unwrap();
    let position_fen = "rnbqkbnr/pppppppp/8/8/8/8/PPPPPPPP/RNBQKBNR w KQkq - 0 1";
    let bitboard = position_fen.parse::<Bitboard>().unwrap();

    assert_eq!(bitboard.is_king_in_check(&tables, Color::White), false);

    let position_fen = "k6q/8/8/8/7R/8/8/K6B w KQkq - 0 1";
    let bitboard = position_fen.parse::<Bitboard>().unwrap();

    assert_eq!(bitboard.is_king_in_check(&tables, Color::White), true);
    assert_eq!(bitboard.is_king_in_check(&tables, Color::Black), true);
}

#[test]
fn test_move_piece() {
    let position_fen = "rnbqkbnr/pppppppp/8/8/8/8/PPPPPPPP/RNBQKBNR w KQkq - 0 1";
    let mut bitboard = position_fen.parse::<Bitboard>().unwrap();

    bitboard.move_piece(Color::White, Piece::Queen, Square::D1, Square::E1);
    assert_eq!(bitboard.get_piece(Color::White, Piece::Queen), BoardSlice(0x10));
}

#[test]
fn test_toggle_move() {
    let position_fen = "rnbqkbnr/pppppppp/8/8/8/8/PPPPPPPP/RNBQKBNR w KQkq - 0 1";
    let mut bitboard = position_fen.parse::<Bitboard>().unwrap();

    bitboard.toggle_move();
    assert_eq!(bitboard.to_move, Color::Black);

    bitboard.toggle_move();
    assert_eq!(bitboard.to_move, Color::White);
}

#[test]
fn test_remove_castling_right() {
    let position_fen = "rnbqkbnr/pppppppp/8/8/8/8/PPPPPPPP/RNBQKBNR w KQkq - 0 1";
    let mut bitboard = position_fen.parse::<Bitboard>().unwrap();

    bitboard.remove_castling_right(CastleMoves::WhiteKingsideCastle);
    assert_eq!(bitboard.castling_rights, 0b1110);
}

#[test]
fn test_to_str_valid_1() {
    let position_fen = "rnbqkbnr/pppppppp/8/8/8/8/PPPPPPPP/RNBQKBNR w KQkq - 0 1";
    let bitboard = position_fen.parse::<Bitboard>().unwrap();
    assert_eq!(bitboard.to_str(), position_fen);
}

#[test]
fn test_to_str_valid_2() {
    let position_fen = "rnbqkbnr/pppppppp/8/8/4P3/8/PPPP1PPP/RNBQKBNR b KQkq e3 1 1";
    let bitboard = position_fen.parse::<Bitboard>().unwrap();
    assert_eq!(bitboard.to_str(), position_fen);
}

#[test]
fn test_from_str_valid_1() {
    let position_fen = "rnbqkbnr/pppppppp/8/8/8/8/PPPPPPPP/RNBQKBNR w KQkq - 0 1";
    assert_eq!(
        position_fen.parse::<Bitboard>(),
        Ok(Bitboard {
            pieces: [
                BoardSlice(0x000000000000FF00),
                BoardSlice(0x0000000000000042),
                BoardSlice(0x0000000000000024),
                BoardSlice(0x0000000000000081),
                BoardSlice(0x0000000000000008),
                BoardSlice(0x0000000000000010),
                BoardSlice(0x00FF000000000000),
                BoardSlice(0x4200000000000000),
                BoardSlice(0x2400000000000000),
                BoardSlice(0x8100000000000000),
                BoardSlice(0x0800000000000000),
                BoardSlice(0x1000000000000000),
            ],
            to_move: Color::White,
            castling_rights: (CastleMoves::WhiteKingsideCastle.mask()
                | CastleMoves::WhiteQueensideCastle.mask()
                | CastleMoves::BlackKingsideCastle.mask()
                | CastleMoves::BlackQueensideCastle.mask()),
            en_passant_square: None,
            half_move_clock: 0,
            full_move_clock: 1
        })
    );
}

#[test]
fn test_from_str_valid_2() {
    let position_fen = "rnbqkbnr/pppppppp/8/8/4P3/8/PPPP1PPP/RNBQKBNR b KQkq e3 1 1";
    assert_eq!(
        position_fen.parse::<Bitboard>(),
        Ok(Bitboard {
            pieces: [
                BoardSlice(0x000000001000EF00),
                BoardSlice(0x0000000000000042),
                BoardSlice(0x0000000000000024),
                BoardSlice(0x0000000000000081),
                BoardSlice(0x0000000000000008),
                BoardSlice(0x0000000000000010),
                BoardSlice(0x00FF000000000000),
                BoardSlice(0x4200000000000000),
                BoardSlice(0x2400000000000000),
                BoardSlice(0x8100000000000000),
                BoardSlice(0x0800000000000000),
                BoardSlice(0x1000000000000000),
            ],
            to_move: Color::Black,
            castling_rights: (CastleMoves::WhiteKingsideCastle.mask()
                | CastleMoves::WhiteQueensideCastle.mask()
                | CastleMoves::BlackKingsideCastle.mask()
                | CastleMoves::BlackQueensideCastle.mask()),
            en_passant_square: Some(Square::E3),
            half_move_clock: 1,
            full_move_clock: 1
        })
    )
}

#[test]
fn test_from_str_errors() {
    let position_fen = "1 2 3 4 5";
    assert_eq!(
        position_fen.parse::<Bitboard>(),
        Err(FENParseError::IncorrectPartsCount(5))
    );

    let position_fen = "rnbqkbnr/pppppppp/9/8/8/8/PPPPPPPP/RNBQKBNR w KQkq - 0 1";
    assert_eq!(
        position_fen.parse::<Bitboard>(),
        Err(FENParseError::IncorrectBoardRowLength(6))
    );

    let position_fen = "rnbqkbnrr/pppppppp/8/8/8/8/PPPPPPPP/RNBQKBNR w KQkq - 0 1";
    assert_eq!(
        position_fen.parse::<Bitboard>(),
        Err(FENParseError::IncorrectBoardRowLength(8))
    );

    let position_fen = "rnbqkbnr/pppppppp/8/8/8/8/PPPPPPPP/RNBQKBNt w KQkq - 0 1";
    assert_eq!(
        position_fen.parse::<Bitboard>(),
        Err(FENParseError::IncorrectBoard('t'))
    );

    let position_fen = "rnbqkbnr/pppppppp/8/8/8/8/PPPPPPPP/RNBQKBNR x KQkq - 0 1";
    assert_eq!(
        position_fen.parse::<Bitboard>(),
        Err(FENParseError::IncorrectToMove)
    );

    let position_fen = "rnbqkbnr/pppppppp/8/8/8/8/PPPPPPPP/RNBQKBNR w xKQkq - 0 1";
    assert_eq!(
        position_fen.parse::<Bitboard>(),
        Err(FENParseError::IncorrectCastlingRights)
    );

    let position_fen = "rnbqkbnr/pppppppp/8/8/8/8/PPPPPPPP/RNBQKBNR w KQkq e9 0 1";
    assert_eq!(
        position_fen.parse::<Bitboard>(),
        Err(FENParseError::IncorrectEnPassantSquare)
    );

    let position_fen = "rnbqkbnr/pppppppp/8/8/8/8/PPPPPPPP/RNBQKBNR w KQkq - x 1";
    assert_eq!(
        position_fen.parse::<Bitboard>(),
        Err(FENParseError::IncorrectHalfMoveClock)
    );

    let position_fen = "rnbqkbnr/pppppppp/8/8/8/8/PPPPPPPP/RNBQKBNR w KQkq - 0 x";
    assert_eq!(
        position_fen.parse::<Bitboard>(),
        Err(FENParseError::IncorrectFullMoveClock)
    )
}

#[test]
fn from_str_valid_1() {
    let position_fen = "rnbqkbnr/pppppppp/8/8/8/8/PPPPPPPP/RNBQKBNR w KQkq - 0 1";
    assert_eq!(
        position_fen.parse::<Bitboard>(),
        Ok(Bitboard {
            pieces: [
                BoardSlice(0x000000000000FF00),
                BoardSlice(0x0000000000000042),
                BoardSlice(0x0000000000000024),
                BoardSlice(0x0000000000000081),
                BoardSlice(0x0000000000000008),
                BoardSlice(0x0000000000000010),
                BoardSlice(0x00FF000000000000),
                BoardSlice(0x4200000000000000),
                BoardSlice(0x2400000000000000),
                BoardSlice(0x8100000000000000),
                BoardSlice(0x0800000000000000),
                BoardSlice(0x1000000000000000),
            ],
            to_move: Color::White,
            castling_rights: (CastleMoves::WhiteKingsideCastle.mask()
                | CastleMoves::WhiteQueensideCastle.mask()
                | CastleMoves::BlackKingsideCastle.mask()
                | CastleMoves::BlackQueensideCastle.mask()),
            en_passant_square: None,
            half_move_clock: 0,
            full_move_clock: 1
        })
    );
}

#[test]
fn from_str_valid_2() {
    let position_fen = "rnbqkbnr/pppppppp/8/8/4P3/8/PPPP1PPP/RNBQKBNR b KQkq e3 1 1";
    assert_eq!(
        position_fen.parse::<Bitboard>(),
        Ok(Bitboard {
            pieces: [
                BoardSlice(0x000000001000EF00),
                BoardSlice(0x0000000000000042),
                BoardSlice(0x0000000000000024),
                BoardSlice(0x0000000000000081),
                BoardSlice(0x0000000000000008),
                BoardSlice(0x0000000000000010),
                BoardSlice(0x00FF000000000000),
                BoardSlice(0x4200000000000000),
                BoardSlice(0x2400000000000000),
                BoardSlice(0x8100000000000000),
                BoardSlice(0x0800000000000000),
                BoardSlice(0x1000000000000000),
            ],
            to_move: Color::Black,
            castling_rights: (CastleMoves::WhiteKingsideCastle.mask()
                | CastleMoves::WhiteQueensideCastle.mask()
                | CastleMoves::BlackKingsideCastle.mask()
                | CastleMoves::BlackQueensideCastle.mask()),
            en_passant_square: Some(Square::E3),
            half_move_clock: 1,
            full_move_clock: 1
        })
    )
}

#[test]
fn from_str_errors() {
    let position_fen = "rnbqkbnr/pppppppp/9/8/8/8/PPPPPPPP/RNBQKBNR w KQkq - 0 1";
    assert_eq!(
        position_fen.parse::<Bitboard>(),
        Err(FENParseError::IncorrectBoardRowLength(6))
    );

    let position_fen = "rnbqkbnrr/pppppppp/8/8/8/8/PPPPPPPP/RNBQKBNR w KQkq - 0 1";
    assert_eq!(
        position_fen.parse::<Bitboard>(),
        Err(FENParseError::IncorrectBoardRowLength(8))
    );

    let position_fen = "rnbqkbnr/pppppppp/8/8/8/8/PPPPPPPP/RNBQKBNt w KQkq - 0 1";
    assert_eq!(
        position_fen.parse::<Bitboard>(),
        Err(FENParseError::IncorrectBoard('t'))
    );

    let position_fen = "rnbqkbnr/pppppppp/8/8/8/8/PPPPPPPP/RNBQKBNR x KQkq - 0 1";
    assert_eq!(
        position_fen.parse::<Bitboard>(),
        Err(FENParseError::IncorrectToMove)
    );

    let position_fen = "rnbqkbnr/pppppppp/8/8/8/8/PPPPPPPP/RNBQKBNR w xKQkq - 0 1";
    assert_eq!(
        position_fen.parse::<Bitboard>(),
        Err(FENParseError::IncorrectCastlingRights)
    );

    let position_fen = "rnbqkbnr/pppppppp/8/8/8/8/PPPPPPPP/RNBQKBNR w KQkq e9 0 1";
    assert_eq!(
        position_fen.parse::<Bitboard>(),
        Err(FENParseError::IncorrectEnPassantSquare)
    );

    let position_fen = "rnbqkbnr/pppppppp/8/8/8/8/PPPPPPPP/RNBQKBNR w KQkq - x 1";
    assert_eq!(
        position_fen.parse::<Bitboard>(),
        Err(FENParseError::IncorrectHalfMoveClock)
    );

    let position_fen = "rnbqkbnr/pppppppp/8/8/8/8/PPPPPPPP/RNBQKBNR w KQkq - 0 x";
    assert_eq!(
        position_fen.parse::<Bitboard>(),
        Err(FENParseError::IncorrectFullMoveClock)
    )
}

#[test]
fn test_from_str_board_length_error() {
    let position_fen = "rnbqkbnr/pppppppp/8/8/8/PPPPPPPP/RNBQKBNR w KQkq - 0 1";
    assert_eq!(
        position_fen.parse::<Bitboard>(),
        Err(FENParseError::IncorrectBoardLength(7))
    );
    assert_eq!("".parse::<Bitboard>(), Err(FENParseError::IncorrectPartsCount(0)));
}

#[test]
fn test_from_str_row_underflow_error() {
    let position_fen = "rnbqkbnr/ppppppp/8/8/8/8/PPPPPPPP/RNBQKBNR w KQkq - 0 1";
    assert_eq!(
        position_fen.parse::<Bitboard>(),
        Err(FENParseError::IncorrectBoardRowLength(7))
    );
    let position_fen = "rnbqkbn/pppppppp/8/8/8/8/PPPPPPPP/RNBQKBNR w KQkq - 0 1";
    assert_eq!(
        position_fen.parse::<Bitboard>(),
        Err(FENParseError::IncorrectBoardRowLength(8))
    );
}

#[test]
fn test_from_str_clock_overflow_error() {
    let position_fen = "rnbqkbnr/pppppppp/8/8/8/8/PPPPPPPP/RNBQKBNR w KQkq - 99999999999999999999 1";
    assert_eq!(
        position_fen.parse::<Bitboard>(),
        Err(FENParseError::IncorrectHalfMoveClock)
    );
}

#[test]
fn test_parse_serialize_parse_round_trip() {
    let fens = [
        "rnbqkbnr/pppppppp/8/8/8/8/PPPPPPPP/RNBQKBNR w KQkq - 0 1",
        "r3kb1r/p2nqppp/5n2/1B2p1B1/4P3/1Q6/PPP2PPP/R3K2R w KQkq - 1 12",
        "8/4P3/k3K3/8/8/8/8/8 w - - 0 1",
        "rnbqkbnr/pp1p2pp/8/2pPpp2/4P3/8/PPP2PPP/RNBQKBNR w KQkq c6 0 4",
        "k6q/8/8/8/7R/8/8/K6B b - - 99 512",
    ];
    for fen in fens.iter() {
        let bitboard = fen.parse::<Bitboard>().unwrap();
        let again = bitboard.to_str().parse::<Bitboard>().unwrap();
        assert_eq!(bitboard, again);
        assert_eq!(bitboard.to_str(), *fen);
    }
}
