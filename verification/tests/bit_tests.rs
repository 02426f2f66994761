use crabablanca::bit_functions::bidirectional_shift;
use crabablanca::bit_functions::bishop_move_mask;
use crabablanca::bit_functions::bit_to_coord;
use crabablanca::bit_functions::coord_to_bit;
use crabablanca::bit_functions::count_bits;
use crabablanca::bit_functions::fill_from;
use crabablanca::bit_functions::fill_to;
use crabablanca::bit_functions::get_lsb;
use crabablanca::bit_functions::get_msb;
use crabablanca::bit_functions::get_rank_or_file;
use crabablanca::bit_functions::iterate_over;
use crabablanca::bit_functions::king_forward_mask;
use crabablanca::bit_functions::king_move_mask;
use crabablanca::bit_functions::knight_move_mask;
use crabablanca::bit_functions::move_piece;
use crabablanca::bit_functions::pawn_capture_mask;
use crabablanca::bit_functions::queen_move_mask;
use crabablanca::bit_functions::rook_move_mask;
use crabablanca::bit_functions::sd;
use crabablanca::bit_functions::sl;
use crabablanca::bit_functions::sr;
use crabablanca::bit_functions::su;

#[test]
fn lsb_is_lowest_single_bit() {
    // The lowest set bit is a power of two inside the input, and counts one.
    let samples: [u64; 6] = [1, 0x8000, 0xF0F0, u64::MAX, 0x8000000000000000, 0x4400000000000002];
    for &x in samples.iter() {
        let l = get_lsb(x);
        assert_ne!(l, 0);
        assert_eq!(l & x, l);
        assert_eq!(l & (l - 1), 0);
        assert_eq!(count_bits(l), 1);
        assert_eq!(x & (l - 1), 0);
    }
    assert_eq!(get_lsb(0), 0);
    assert_eq!(get_lsb(0b1011000), 0b1000);
}

#[test]
fn msb_is_highest_single_bit() {
    assert_eq!(get_msb(0), 0);
    assert_eq!(get_msb(1), 1);
    assert_eq!(get_msb(0b1011000), 0b1000000);
    assert_eq!(get_msb(u64::MAX), 0x8000000000000000);
}

#[test]
fn popcount_counts_bits() {
    assert_eq!(count_bits(0), 0);
    assert_eq!(count_bits(u64::MAX), 64);
    assert_eq!(count_bits(0x1010101), 4);
}

#[test]
fn iterate_over_partitions_input() {
    // The single-bit boards are as many as the set bits and union back
    // to the input, lowest first.
    let x: u64 = 0x8000000000000421;
    let parts = iterate_over(x);
    assert_eq!(parts.len(), count_bits(x) as usize);
    let mut acc: u64 = 0;
    let mut prev: u64 = 0;
    for &p in parts.iter() {
        assert_eq!(count_bits(p), 1);
        assert_eq!(p & x, p);
        assert!(p > prev);
        prev = p;
        acc |= p;
    }
    assert_eq!(acc, x);
    assert_eq!(parts, vec![0x1, 0x20, 0x400, 0x8000000000000000]);
    assert!(iterate_over(0).is_empty());
}

#[test]
fn fills_cover_the_board_and_meet_in_the_bit() {
    let bits: [u64; 4] = [1, 0x10, 0x8000000000000000, 0x400000];
    for &b in bits.iter() {
        assert_eq!(fill_from(b) | fill_to(b), u64::MAX);
        assert_eq!(fill_from(b) & fill_to(b), b);
    }
    assert_eq!(fill_from(0), 0);
    assert_eq!(fill_to(0), 0);
    assert_eq!(fill_from(0x100), 0xFFFFFFFFFFFFFF00);
    assert_eq!(fill_to(0x100), 0x1FF);
}

#[test]
fn single_step_shifts_respect_edges() {
    let e4: u64 = 1 << 28;
    assert_eq!(sl(e4), 1 << 27);
    assert_eq!(sr(e4), 1 << 29);
    assert_eq!(su(e4), 1 << 36);
    assert_eq!(sd(e4), 1 << 20);
    let a1: u64 = 1;
    assert_eq!(sl(a1), 0);
    assert_eq!(sd(a1), 0);
    let h8: u64 = 1 << 63;
    assert_eq!(sr(h8), 0);
    assert_eq!(su(h8), 0);
}

#[test]
fn pawn_capture_mask_clamps_edge_files() {
    let e4: u64 = 1 << 28;
    assert_eq!(pawn_capture_mask(e4, 1), (1 << 35) | (1 << 37));
    assert_eq!(pawn_capture_mask(e4, 0), (1 << 19) | (1 << 21));
    let a4: u64 = 1 << 24;
    assert_eq!(pawn_capture_mask(a4, 1), 1 << 33);
    let h4: u64 = 1 << 31;
    assert_eq!(pawn_capture_mask(h4, 1), 1 << 38);
}

#[test]
fn knight_mask_excludes_wraps_and_own_pieces() {
    let a1: u64 = 1;
    // From a1 the knight reaches only b3 and c2.
    assert_eq!(knight_move_mask(a1, 0), (1 << 17) | (1 << 10));
    // Own piece on b3 removes that square.
    assert_eq!(knight_move_mask(a1, 1 << 17), 1 << 10);
    let e4: u64 = 1 << 28;
    assert_eq!(count_bits(knight_move_mask(e4, 0)), 8);
}

#[test]
fn rook_mask_stops_before_own_and_on_enemy() {
    let a1: u64 = 1;
    // Own piece on a3, enemy on c1: up-ray ends below a3, right-ray ends
    // on the capturable c1.
    let own: u64 = (1 << 16) | a1;
    let enemy: u64 = 1 << 2;
    let mask = rook_move_mask(a1, own, enemy);
    assert_eq!(mask, (1 << 8) | (1 << 1) | (1 << 2));
}

#[test]
fn bishop_mask_runs_the_diagonals() {
    let c1: u64 = 1 << 2;
    let mask = bishop_move_mask(c1, 0, 0);
    // Diagonals through c1: b2 a3 and d2 e3 f4 g5 h6.
    let expect = (1 << 9) | (1 << 16) | (1 << 11) | (1 << 20) | (1 << 29) | (1 << 38) | (1 << 47);
    assert_eq!(mask, expect);
    let e4: u64 = 1 << 28;
    let q = queen_move_mask(e4, 0, 0);
    assert_eq!(q, rook_move_mask(e4, 0, 0) | bishop_move_mask(e4, 0, 0));
}

#[test]
fn king_mask_is_the_ring() {
    let e4: u64 = 1 << 28;
    assert_eq!(count_bits(king_move_mask(e4, e4)), 8);
    let a1: u64 = 1;
    assert_eq!(king_move_mask(a1, a1), (1 << 1) | (1 << 8) | (1 << 9));
}

#[test]
fn king_forward_mask_is_the_shield() {
    let e1: u64 = 1 << 4;
    assert_eq!(king_forward_mask(e1, 1), (1 << 11) | (1 << 12) | (1 << 13));
    let e8: u64 = 1 << 60;
    assert_eq!(king_forward_mask(e8, 0), (1 << 51) | (1 << 52) | (1 << 53));
}

#[test]
fn move_piece_moves_or_erases() {
    // The board holding the source moves the bit; others lose the target.
    assert_eq!(move_piece(0b0001, 0b0001, 0b1000), 0b1000);
    assert_eq!(move_piece(0b1010, 0b0001, 0b1000), 0b0010);
}

#[test]
fn coordinates_round_trip() {
    let e4: u64 = 1 << 28;
    let (file, rank) = bit_to_coord(e4);
    assert_eq!((file, rank), (4, 3));
    assert_eq!(coord_to_bit((file, rank)), e4);
    assert_eq!(coord_to_bit((0, 0)), 1);
    assert_eq!(coord_to_bit((7, 7)), 1 << 63);
}

#[test]
fn rank_and_file_masks_from_characters() {
    assert_eq!(get_rank_or_file('1'), 0xFF);
    assert_eq!(get_rank_or_file('4'), 0xFF000000);
    assert_eq!(get_rank_or_file('a'), 0x0101010101010101);
    assert_eq!(get_rank_or_file('h'), 0x8080808080808080);
    assert_eq!(get_rank_or_file('x'), 0);
    assert_eq!(get_rank_or_file('9'), 0);
}

#[test]
fn bidirectional_shift_follows_the_mover() {
    assert_eq!(bidirectional_shift(1 << 8, 8, 1), 1 << 16);
    assert_eq!(bidirectional_shift(1 << 8, 8, 0), 1);
}
