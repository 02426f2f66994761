//! Geometry constants over 64-bit bitboards.
//!
//! Square `n` of the board is bit `n`: `n = rank * 8 + file`, rank 0 being
//! White's back rank and file 0 the a-file.
use vstd::prelude::*;

verus! {

/// White's back rank (rank 1 of the board, bits 0..=7).
pub const RANK_1: u64 = 0x00000000000000FF;
/// Rank 2, the white pawns' starting rank.
pub const RANK_2: u64 = 0x000000000000FF00;
/// Rank 7, the black pawns' starting rank.
pub const RANK_7: u64 = 0x00FF000000000000;
/// Black's back rank (rank 8, bits 56..=63).
pub const RANK_8: u64 = 0xFF00000000000000;

/// The a-file (file 0, bits 0, 8, 16, ...).
pub const FILE_A: u64 = 0x0101010101010101;
/// The b-file.
pub const FILE_B: u64 = 0x0202020202020202;
/// The c-file.
pub const FILE_C: u64 = 0x0404040404040404;
/// The d-file.
pub const FILE_D: u64 = 0x0808080808080808;
/// The e-file.
pub const FILE_E: u64 = 0x1010101010101010;
/// The f-file.
pub const FILE_F: u64 = 0x2020202020202020;
/// The g-file.
pub const FILE_G: u64 = 0x4040404040404040;
/// The h-file (file 7).
pub const FILE_H: u64 = 0x8080808080808080;

/// The main diagonal a1-h8.
pub const MAIN_DIAG: u64 = 0x8040201008040201;
/// The anti-diagonal h1-a8.
pub const ANTI_DIAG: u64 = 0x0102040810204080;

/// The four central squares d4, e4, d5, e5.
pub const CENTRE: u64 = 0x0000001818000000;

} // verus!
