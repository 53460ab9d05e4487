use r_chess::attack_tables::bishop_attack_generators::{
    generate_bishop_attack_mask, generate_bishop_attacks_on_the_fly,
};
use r_chess::attack_tables::magic_number_generator::{
    generate_magic_number, init_magic_number_generator,
};
use r_chess::attack_tables::occupancies::set_occupancy;
use r_chess::attack_tables::occupancy::get_occupancy;
use r_chess::attack_tables::rook_attack_generators::{
    generate_rook_attack_mask, generate_rook_attacks_on_the_fly,
};
use r_chess::attack_tables::AttackTables;
use r_chess::board_slice::BoardSlice;
use r_chess::enums::{Color, Piece, Square};
use r_chess::errors::MagicNumberError;

#[test]
fn test_pawn_move_table() {
    let t = AttackTables::new().unwrap();
    assert_eq!(t.get_pawn_moves(Color::White, Square::A1), BoardSlice(0));
    assert_eq!(
        t.get_pawn_moves(Color::White, Square::D2),
        BoardSlice(1 << Square::D3 as usize)
    );
    assert_eq!(
        t.get_pawn_moves(Color::White, Square::E6),
        BoardSlice(0x10000000000000)
    );
    assert_eq!(t.get_pawn_moves(Color::White, Square::H8), BoardSlice(0));

    assert_eq!(t.get_pawn_moves(Color::Black, Square::A8), BoardSlice(0));
    assert_eq!(
        t.get_pawn_moves(Color::Black, Square::D7),
        BoardSlice(1 << Square::D6 as usize)
    );
    assert_eq!(t.get_pawn_moves(Color::Black, Square::E3), BoardSlice(0x1000));
    assert_eq!(t.get_pawn_moves(Color::Black, Square::H1), BoardSlice(0));
}

#[test]
fn test_pawn_attack_table() {
    let t = AttackTables::new().unwrap();
    assert_eq!(t.get_pawn_attacks(Color::White, Square::A1), BoardSlice(0x200));
    assert_eq!(t.get_pawn_attacks(Color::White, Square::A2), BoardSlice(0x20000));
    assert_eq!(
        t.get_pawn_attacks(Color::White, Square::D4),
        BoardSlice(0x1400000000)
    );
    assert_eq!(
        t.get_pawn_attacks(Color::White, Square::H6),
        BoardSlice(0x40000000000000)
    );
    assert_eq!(t.get_pawn_attacks(Color::White, Square::H8), BoardSlice(0));

    assert_eq!(
        t.get_pawn_attacks(Color::Black, Square::A8),
        BoardSlice(0x2000000000000)
    );
    assert_eq!(
        t.get_pawn_attacks(Color::Black, Square::A7),
        BoardSlice(0x20000000000)
    );
    assert_eq!(
        t.get_pawn_attacks(Color::Black, Square::D5),
        BoardSlice(0x14000000)
    );
    assert_eq!(t.get_pawn_attacks(Color::Black, Square::H3), BoardSlice(0x4000));
    assert_eq!(t.get_pawn_attacks(Color::Black, Square::H1), BoardSlice(0));
}

#[test]
fn test_double_pawn_move_table() {
    let t = AttackTables::new().unwrap();
    assert_eq!(
        t.get_double_pawn_moves(Color::White, Square::D2),
        BoardSlice(1 << Square::D4 as usize)
    );
    assert_eq!(t.get_double_pawn_moves(Color::White, Square::D1), BoardSlice(0));
    assert_eq!(
        t.get_double_pawn_moves(Color::Black, Square::D7),
        BoardSlice(1 << Square::D5 as usize)
    );
    assert_eq!(t.get_double_pawn_moves(Color::White, Square::D8), BoardSlice(0));
}

#[test]
fn test_inverse_double_pawn_move_table() {
    let t = AttackTables::new().unwrap();
    assert_eq!(
        t.get_inverse_double_pawn_moves(Color::White, Square::B4),
        BoardSlice(1 << Square::B2 as usize)
    );
    assert_eq!(
        t.get_inverse_double_pawn_moves(Color::White, Square::G4),
        BoardSlice(1 << Square::G2 as usize)
    );
    assert_eq!(
        t.get_inverse_double_pawn_moves(Color::Black, Square::B5),
        BoardSlice(1 << Square::B7 as usize)
    );
    assert_eq!(
        t.get_inverse_double_pawn_moves(Color::Black, Square::G5),
        BoardSlice(1 << Square::G7 as usize)
    );
    assert_eq!(
        t.get_inverse_double_pawn_moves(Color::White, Square::B3),
        BoardSlice(0)
    );
}

#[test]
fn test_knight_attack_table() {
    let t = AttackTables::new().unwrap();
    assert_eq!(t.get_knight_attacks(Square::A1), BoardSlice(0x20400));
    assert_eq!(t.get_knight_attacks(Square::H8), BoardSlice(0x20400000000000));
    assert_eq!(t.get_knight_attacks(Square::E4), BoardSlice(0x284400442800));
    assert_eq!(t.get_knight_attacks(Square::B2), BoardSlice(0x5080008));
    assert_eq!(t.get_knight_attacks(Square::G7), BoardSlice(0x100010a000000000));
}

#[test]
fn test_king_attack_table() {
    let t = AttackTables::new().unwrap();
    assert_eq!(t.get_king_attacks(Square::A1), BoardSlice(0x302));
    assert_eq!(t.get_king_attacks(Square::H8), BoardSlice(0x40c0000000000000));
    assert_eq!(t.get_king_attacks(Square::E4), BoardSlice(0x3828380000));
    assert_eq!(t.get_king_attacks(Square::B2), BoardSlice(0x70507));
    assert_eq!(t.get_king_attacks(Square::G7), BoardSlice(0xe0a0e00000000000));
}

#[test]
fn test_get_bishop_attacks() {
    let t = AttackTables::new().unwrap();
    let square = Square::D3;
    let blockers =
        BoardSlice(1 << Square::C2 as u64 | 1 << Square::E2 as u64 | 1 << Square::B5 as u64);
    assert_eq!(t.get_bishop_attacks(square, blockers), BoardSlice(0x80402214001400));

    let square = Square::E4;
    let blockers = BoardSlice(
        1 << Square::E3 as u64
            | 1 << Square::D4 as u64
            | 1 << Square::E5 as u64
            | 1 << Square::F4 as u64,
    );
    assert_eq!(t.get_bishop_attacks(square, blockers), BoardSlice(0x182442800284482));

    let square = Square::C6;
    let blockers = BoardSlice(
        1 << Square::E3 as u64
            | 1 << Square::G2 as u64
            | 1 << Square::E4 as u64
            | 1 << Square::B7 as u64,
    );
    assert_eq!(t.get_bishop_attacks(square, blockers), BoardSlice(0x100a000a11000000));
}

#[test]
fn test_get_rook_attacks() {
    let t = AttackTables::new().unwrap();
    let square = Square::E4;
    let blockers = BoardSlice(
        1 << Square::E3 as u64
            | 1 << Square::D4 as u64
            | 1 << Square::F4 as u64
            | 1 << Square::E7 as u64,
    );
    assert_eq!(t.get_rook_attacks(square, blockers), BoardSlice(0x10101028100000));

    let square = Square::C3;
    let blockers = BoardSlice(
        1 << Square::C5 as u64
            | 1 << Square::C7 as u64
            | 1 << Square::G7 as u64
            | 1 << Square::G3 as u64,
    );
    assert_eq!(t.get_rook_attacks(square, blockers), BoardSlice(0x4047b0404));

    let square = Square::D4;
    let blockers = BoardSlice(
        1 << Square::C3 as u64
            | 1 << Square::C5 as u64
            | 1 << Square::E5 as u64
            | 1 << Square::E3 as u64,
    );
    assert_eq!(t.get_rook_attacks(square, blockers), BoardSlice(0x8080808f7080808));
}

#[test]
fn test_get_queen_attacks() {
    let t = AttackTables::new().unwrap();
    let square = Square::E4;
    let blockers = BoardSlice(
        1 << Square::E2 as u64
            | 1 << Square::G2 as u64
            | 1 << Square::G4 as u64
            | 1 << Square::G6 as u64
            | 1 << Square::E6 as u64,
    );
    assert_eq!(t.get_queen_attacks(square, blockers), BoardSlice(0x10254386f385402));
}

#[test]
fn test_bishop_attack_mask() {
    assert_eq!(
        generate_bishop_attack_mask(Square::A1),
        BoardSlice(0x40201008040200)
    );
    assert_eq!(
        generate_bishop_attack_mask(Square::D4),
        BoardSlice(0x40221400142200)
    );
    assert_eq!(
        generate_bishop_attack_mask(Square::F4),
        BoardSlice(0x4085000500800)
    );
    assert_eq!(generate_bishop_attack_mask(Square::E2), BoardSlice(0x244280000));
}

#[test]
fn test_bishop_attacks_on_the_fly() {
    assert_eq!(
        generate_bishop_attacks_on_the_fly(
            Square::D4,
            BoardSlice(
                (1 << Square::B2 as usize)
                    | (1 << Square::E3 as usize)
                    | (1 << Square::F6 as usize)
            )
        ),
        BoardSlice(0x1221400140200)
    );

    assert_eq!(
        generate_bishop_attacks_on_the_fly(
            Square::F3,
            BoardSlice(
                (1 << Square::E2 as usize)
                    | (1 << Square::G2 as usize)
                    | (1 << Square::G4 as usize)
            )
        ),
        BoardSlice(0x102040850005000)
    );
}

#[test]
fn test_rook_attack_mask() {
    assert_eq!(generate_rook_attack_mask(Square::A1), BoardSlice(0x101010101017e));
    assert_eq!(generate_rook_attack_mask(Square::D4), BoardSlice(0x8080876080800));
    assert_eq!(
        generate_rook_attack_mask(Square::F4),
        BoardSlice(0x2020205e202000)
    );
    assert_eq!(
        generate_rook_attack_mask(Square::E2),
        BoardSlice(0x10101010106e00)
    );
}

#[test]
fn test_rook_attacks_on_the_fly() {
    assert_eq!(
        generate_rook_attacks_on_the_fly(
            Square::D4,
            BoardSlice(
                (1 << Square::A4 as usize)
                    | (1 << Square::D2 as usize)
                    | (1 << Square::G4 as usize)
            )
        ),
        BoardSlice(0x808080877080800)
    );

    assert_eq!(
        generate_rook_attacks_on_the_fly(
            Square::F3,
            BoardSlice(
                (1 << Square::F2 as usize)
                    | (1 << Square::G3 as usize)
                    | (1 << Square::F4 as usize)
            )
        ),
        BoardSlice(0x205f2000)
    );
}

#[test]
fn set_occupancy_valid() {
    assert_eq!(set_occupancy(3, 4, BoardSlice(0b110001100)), BoardSlice(0b1100));
    assert_eq!(
        set_occupancy(8, 5, BoardSlice(0b110001110)),
        BoardSlice(0b10000000)
    )
}

#[test]
fn test_get_occupancy() {
    assert_eq!(get_occupancy(3, 4, BoardSlice(0b110001100)), BoardSlice(0b1100));
    assert_eq!(
        get_occupancy(8, 5, BoardSlice(0b110001110)),
        BoardSlice(0b10000000)
    )
}

#[test]
fn test_magic_lookup_equals_on_the_fly() {
    let t = AttackTables::new().unwrap();
    let squares = [Square::A1, Square::E4, Square::H8, Square::D3, Square::C6];
    for &square in squares.iter() {
        let rook_mask = generate_rook_attack_mask(square);
        let rook_bits = rook_mask.0.count_ones() as usize;
        for i in 0..(1usize << rook_bits) {
            let occ = get_occupancy(i, rook_bits, rook_mask);
            assert_eq!(
                t.get_rook_attacks(square, occ),
                generate_rook_attacks_on_the_fly(square, occ)
            );
        }
        let bishop_mask = generate_bishop_attack_mask(square);
        let bishop_bits = bishop_mask.0.count_ones() as usize;
        for i in 0..(1usize << bishop_bits) {
            let occ = get_occupancy(i, bishop_bits, bishop_mask);
            assert_eq!(
                t.get_bishop_attacks(square, occ),
                generate_bishop_attacks_on_the_fly(square, occ)
            );
        }
    }
}

#[test]
fn test_generate_magic_number() {
    init_magic_number_generator();
    assert_eq!(
        generate_magic_number(Square::E4, Piece::Queen),
        Err(MagicNumberError::IncorrectPiece)
    );
    assert!(generate_magic_number(Square::E4, Piece::Bishop).is_ok());
}
