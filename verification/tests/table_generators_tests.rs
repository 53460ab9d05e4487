use r_chess::board_slice::BoardSlice;
use r_chess::enums::{file_mask, rank_mask, Color, File, Rank, Square};
use r_chess::table_generators::{
    generate_bishop_attack_mask, generate_king_attack_table, generate_knight_attack_table,
    generate_pawn_attack_table, generate_rook_attack_mask,
};

#[test]
fn pawn_attack_table_valid() {
    let white_attack_table = generate_pawn_attack_table(Color::White);
    let black_attack_table = generate_pawn_attack_table(Color::Black);
    assert_eq!(white_attack_table[Square::A1 as usize], BoardSlice(0));
    assert_eq!(white_attack_table[Square::D2 as usize], BoardSlice(0x8080000));
    assert_eq!(
        white_attack_table[Square::E6 as usize],
        BoardSlice(0x10000000000000)
    );
    assert_eq!(white_attack_table[Square::H8 as usize], BoardSlice(0));
    assert_eq!(black_attack_table[Square::A8 as usize], BoardSlice(0));
    assert_eq!(
        black_attack_table[Square::D7 as usize],
        BoardSlice(0x80800000000)
    );
    assert_eq!(black_attack_table[Square::E2 as usize], BoardSlice(0x10));
    assert_eq!(black_attack_table[Square::H1 as usize], BoardSlice(0));
}

#[test]
fn knight_attack_table_valid() {
    let attack_table = generate_knight_attack_table();
    assert_eq!(attack_table[Square::A1 as usize], BoardSlice(0x20400));
    assert_eq!(attack_table[Square::H8 as usize], BoardSlice(0x20400000000000));
    assert_eq!(attack_table[Square::E4 as usize], BoardSlice(0x284400442800));
    assert_eq!(attack_table[Square::B2 as usize], BoardSlice(0x5080008));
    assert_eq!(attack_table[Square::G7 as usize], BoardSlice(0x100010a000000000));
}

#[test]
fn king_attack_table_valid() {
    let attack_table = generate_king_attack_table();
    assert_eq!(attack_table[Square::A1 as usize], BoardSlice(0x302));
    assert_eq!(attack_table[Square::H8 as usize], BoardSlice(0x40c0000000000000));
    assert_eq!(attack_table[Square::E4 as usize], BoardSlice(0x3828380000));
    assert_eq!(attack_table[Square::B2 as usize], BoardSlice(0x70507));
    assert_eq!(attack_table[Square::G7 as usize], BoardSlice(0xe0a0e00000000000));
}

#[test]
fn bishop_attack_mask_valid() {
    assert_eq!(
        generate_bishop_attack_mask(Square::A1),
        BoardSlice(0x40201008040200)
    );
    assert_eq!(
        generate_bishop_attack_mask(Square::D4),
        BoardSlice(0x40221400142200)
    );
    assert_eq!(
        generate_bishop_attack_mask(Square::F4),
        BoardSlice(0x4085000500800)
    );
    assert_eq!(generate_bishop_attack_mask(Square::E2), BoardSlice(0x244280000));
}

#[test]
fn rook_attack_mask_valid() {
    assert_eq!(generate_rook_attack_mask(Square::A1), BoardSlice(0x101010101017e));
    assert_eq!(generate_rook_attack_mask(Square::D4), BoardSlice(0x8080876080800));
    assert_eq!(
        generate_rook_attack_mask(Square::F4),
        BoardSlice(0x2020205e202000)
    );
    assert_eq!(
        generate_rook_attack_mask(Square::E2),
        BoardSlice(0x10101010106e00)
    );
}

#[test]
fn test_board_slice_iter() {
    let board_slice = BoardSlice(0b1010101);
    let squares: Vec<Square> = board_slice.iter();
    let expected_vec = vec![Square::A1, Square::C1, Square::E1, Square::G1];
    assert_eq!(squares, expected_vec);
}

#[test]
fn test_file_and_rank_masks() {
    assert_eq!(file_mask(File::AFile), BoardSlice(0x0101010101010101));
    assert_eq!(file_mask(File::HFile), BoardSlice(0x8080808080808080));
    assert_eq!(rank_mask(Rank::Rank1), BoardSlice(0xFF));
    assert_eq!(rank_mask(Rank::Rank8), BoardSlice(0xFF00000000000000));
}
