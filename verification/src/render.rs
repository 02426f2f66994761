//! The position as plain piece placements: every occupied square with its
//! file, rank, piece kind and colour, for a renderer to paint. Drawing
//! itself is terminal work and stays outside the library.
use vstd::prelude::*;

use crate::bit_functions::bit_to_coord;
use crate::bit_functions::bits_asc;
use crate::bit_functions::file_of;
use crate::bit_functions::iterate_over;
use crate::bit_functions::lemma_bits_asc_props;
use crate::bit_functions::rank_of;
use crate::board::Board;
use crate::board::Piece;

verus! {

/// The squares of one piece board as (file, rank, kind, colour) entries,
/// lowest square first; colour 1 is White, 0 is Black.
pub open spec fn placed(bits: u64, kind: Piece, colour: u8) -> Seq<(u16, u16, Piece, u8)> {
    bits_asc(bits).map_values(
        |b: u64| ((file_of(b) as u16, rank_of(b) as u16, kind, colour)),
    )
}

/// Every piece of the position as a placement entry, pawns first, then
/// bishops, knights, rooks, queens and kings, White before Black within
/// each kind.
pub open spec fn board_placements(b: Board) -> Seq<(u16, u16, Piece, u8)> {
    placed(b.white_pawns, Piece::Pawn, 1) + placed(b.black_pawns, Piece::Pawn, 0) + placed(
        b.white_bishops,
        Piece::Bishop,
        1,
    ) + placed(b.black_bishops, Piece::Bishop, 0) + placed(b.white_knights, Piece::Knight, 1)
        + placed(b.black_knights, Piece::Knight, 0) + placed(b.white_rooks, Piece::Rook, 1)
        + placed(b.black_rooks, Piece::Rook, 0) + placed(b.white_queens, Piece::Queen, 1) + placed(
        b.black_queens,
        Piece::Queen,
        0,
    ) + placed(b.white_king, Piece::King, 1) + placed(b.black_king, Piece::King, 0)
}

/// Appends one piece board's placements.
#[verifier::loop_isolation(false)]
fn push_placements(bits: u64, kind: Piece, colour: u8, out: &mut Vec<(u16, u16, Piece, u8)>)
    ensures
        final(out)@ == old(out)@ + placed(bits, kind, colour),
{
    let locs = iterate_over(bits);
    proof {
        lemma_bits_asc_props(bits);
        assert(out@ + locs@.take(0).map_values(
            |b: u64| ((file_of(b) as u16, rank_of(b) as u16, kind, colour)),
        ) =~= out@);
    }
    let ghost base = out@;
    let mut i: usize = 0;
    while i < locs.len()
        invariant
            i <= locs@.len(),
            out@ == base + locs@.take(i as int).map_values(
                |b: u64| ((file_of(b) as u16, rank_of(b) as u16, kind, colour)),
            ),
        decreases locs@.len() - i,
    {
        let p = locs[i];
        let c = bit_to_coord(p);
        out.push((c.0, c.1, kind, colour));
        proof {
            assert(out@ =~= base + locs@.take(i + 1).map_values(
                |b: u64| ((file_of(b) as u16, rank_of(b) as u16, kind, colour)),
            ));
        }
        i = i + 1;
    }
    proof {
        assert(locs@.take(locs@.len() as int) =~= locs@);
    }
}

/// Every piece of the position as a (file, rank, kind, colour) entry.
pub fn piece_placements(board: &Board) -> (r: Vec<(u16, u16, Piece, u8)>)
    ensures
        r@ == board_placements(*board),
{
    let mut out: Vec<(u16, u16, Piece, u8)> = Vec::new();
    push_placements(board.white_pawns, Piece::Pawn, 1, &mut out);
    push_placements(board.black_pawns, Piece::Pawn, 0, &mut out);
    push_placements(board.white_bishops, Piece::Bishop, 1, &mut out);
    push_placements(board.black_bishops, Piece::Bishop, 0, &mut out);
    push_placements(board.white_knights, Piece::Knight, 1, &mut out);
    push_placements(board.black_knights, Piece::Knight, 0, &mut out);
    push_placements(board.white_rooks, Piece::Rook, 1, &mut out);
    push_placements(board.black_rooks, Piece::Rook, 0, &mut out);
    push_placements(board.white_queens, Piece::Queen, 1, &mut out);
    push_placements(board.black_queens, Piece::Queen, 0, &mut out);
    push_placements(board.white_king, Piece::King, 1, &mut out);
    push_placements(board.black_king, Piece::King, 0, &mut out);
    proof {
        assert(out@ =~= board_placements(*board));
    }
    out
}

} // verus!
