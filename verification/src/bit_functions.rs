//! Pure functions over 64-bit piece sets: population count, least and most
//! significant bit, bit iteration, ray fills and the per-piece attack masks.
//!
//! Every executable function has an exact contract: it returns the value of
//! the spec function of the same shape. The spec functions are the
//! mathematical model that the board logic is specified against.
use vstd::prelude::*;

use crate::constants::FILE_A;
use crate::constants::FILE_B;
use crate::constants::FILE_C;
use crate::constants::FILE_D;
use crate::constants::FILE_E;
use crate::constants::FILE_F;
use crate::constants::FILE_G;
use crate::constants::FILE_H;
use crate::constants::RANK_1;
use crate::constants::RANK_8;

verus! {

/// A bitboard holding exactly one square.
pub open spec fn is_bit(b: u64) -> bool {
    b != 0 && b & ((b - 1) as u64) == 0
}

/// Number of set bits, defined by peeling the lowest-order bit position.
pub open spec fn popcount(x: u64) -> nat
    decreases x,
{
    if x == 0 {
        0
    } else {
        ((x % 2) + popcount(x / 2)) as nat
    }
}

/// The lowest set bit of `x`, or 0 when `x` is 0.
pub open spec fn lsb(x: u64) -> u64 {
    if x == 0 {
        0
    } else {
        x & ((!x + 1) as u64)
    }
}

/// Every bit position smeared downwards: all positions at or below the
/// highest set bit of `x` are set in the result.
pub open spec fn smear_down(x: u64) -> u64 {
    let a = x | (x >> 1);
    let b = a | (a >> 2);
    let c = b | (b >> 4);
    let d = c | (c >> 8);
    let e = d | (d >> 16);
    e | (e >> 32)
}

/// The highest set bit of `x`, or 0 when `x` is 0.
pub open spec fn msb(x: u64) -> u64 {
    smear_down(x) ^ (smear_down(x) >> 1)
}

/// All squares at or above the lowest set bit of `x`; 0 when `x` is 0.
pub open spec fn fill_up(x: u64) -> u64 {
    if x == 0 {
        0
    } else {
        !((lsb(x) - 1) as u64)
    }
}

/// All squares at or below the lowest set bit of `x`; 0 when `x` is 0.
pub open spec fn fill_down(x: u64) -> u64 {
    if x == 0 {
        0
    } else {
        lsb(x) | ((lsb(x) - 1) as u64)
    }
}

/// Core facts about `lsb`: it is a single bit of `x`, no lower bit of `x`
/// is set, and it is the unique such bit.
pub proof fn lemma_lsb_props(x: u64)
    by (bit_vector)
    ensures
        x != 0 ==> is_bit(lsb(x)),
        lsb(x) & x == lsb(x),
        lsb(x) <= x,
        x != 0 ==> x & ((lsb(x) - 1) as u64) == 0,
        x == 0 ==> lsb(x) == 0,
        is_bit(x) ==> lsb(x) == x,
{
}

/// Core facts about `msb`: it is a single bit of `x` and no higher bit of
/// `x` is set.
pub proof fn lemma_msb_props(x: u64)
    by (bit_vector)
    ensures
        x != 0 ==> is_bit(msb(x)),
        msb(x) & x == msb(x),
        x == 0 ==> msb(x) == 0,
        x != 0 ==> x & !(msb(x) | ((msb(x) - 1) as u64)) == 0,
        is_bit(x) ==> msb(x) == x,
{
}

/// Clearing the lowest set bit removes exactly one bit from the count.
pub proof fn lemma_popcount_remove_lsb(x: u64)
    requires
        x != 0,
    ensures
        popcount((x - lsb(x)) as u64) == popcount(x) - 1,
    decreases x,
{
    lemma_lsb_props(x);
    if x % 2 == 1 {
        assert(lsb(x) == 1) by (bit_vector)
            requires
                x % 2 == 1,
        ;
        assert((x - 1) % 2 == 0 && (x - 1) / 2 == x / 2);
        assert(popcount((x - 1) as u64) == popcount(((x - 1) as u64) / 2));
    } else {
        let h = (x / 2) as u64;
        let y = (x - lsb(x)) as u64;
        assert(h != 0 && y == (2 * ((h - lsb(h)) as u64)) as u64) by (bit_vector)
            requires
                x % 2 == 0,
                x != 0,
                h == (x / 2) as u64,
                y == (x - lsb(x)) as u64,
        ;
        lemma_lsb_props(h);
        let yh = (h - lsb(h)) as u64;
        assert(y % 2 == 0 && y / 2 == yh);
        lemma_popcount_remove_lsb(h);
        assert(popcount(y) == popcount(yh));
        assert(popcount(x) == popcount(h));
    }
}

/// A single bit counts as one.
pub proof fn lemma_popcount_single(b: u64)
    requires
        is_bit(b),
    ensures
        popcount(b) == 1,
    decreases b,
{
    if b == 1 {
        assert(popcount(1u64) == 1 + popcount(0u64)) by {
            reveal_with_fuel(popcount, 2);
        }
    } else {
        assert(b % 2 == 0 && is_bit((b / 2) as u64)) by (bit_vector)
            requires
                is_bit(b) && b != 1,
        ;
        lemma_popcount_single((b / 2) as u64);
    }
}

/// A board without set bits is the empty board.
pub proof fn lemma_popcount_zero(x: u64)
    requires
        popcount(x) == 0,
    ensures
        x == 0,
    decreases x,
{
    if x != 0 {
        if x % 2 == 0 {
            lemma_popcount_zero((x / 2) as u64);
        }
    }
}

/// A board with exactly one set bit is a single square.
pub proof fn lemma_popcount_one(x: u64)
    requires
        popcount(x) == 1,
    ensures
        is_bit(x),
    decreases x,
{
    if x % 2 == 1 {
        lemma_popcount_zero((x / 2) as u64);
        assert(x / 2 == 0 ==> x == 1);
        assert(is_bit(1u64)) by (bit_vector);
    } else {
        lemma_popcount_one((x / 2) as u64);
        assert(is_bit((x / 2) as u64) && x % 2 == 0 ==> is_bit(x)) by (bit_vector);
    }
}

/// The single-bit boards of `x`, lowest first.
pub open spec fn bits_asc(x: u64) -> Seq<u64>
    decreases x,
    via bits_asc_decreases
{
    if x == 0 {
        Seq::empty()
    } else {
        seq![lsb(x)] + bits_asc((x - lsb(x)) as u64)
    }
}

#[via_fn]
proof fn bits_asc_decreases(x: u64) {
    lemma_lsb_props(x);
}

/// The union of a sequence of bitboards.
pub open spec fn or_all(s: Seq<u64>) -> u64
    decreases s.len(),
{
    if s.len() == 0 {
        0
    } else {
        or_all(s.drop_last()) | s.last()
    }
}

/// `bits_asc(x)` partitions `x`: its members are single bits of `x`, in
/// strictly increasing order, their union is `x` and there are
/// `popcount(x)` of them; a single bit is a member exactly when it is set
/// in `x`.
pub proof fn lemma_bits_asc_props(x: u64)
    ensures
        bits_asc(x).len() == popcount(x),
        or_all(bits_asc(x)) == x,
        forall|i: int|
            0 <= i < bits_asc(x).len() ==> is_bit(#[trigger] bits_asc(x)[i]) && bits_asc(x)[i] & x
                == bits_asc(x)[i],
        forall|i: int, j: int|
            0 <= i < j < bits_asc(x).len() ==> bits_asc(x)[i] < bits_asc(x)[j],
        forall|b: u64| is_bit(b) && b & x != 0 ==> bits_asc(x).contains(b),
        forall|b: u64| bits_asc(x).contains(b) ==> is_bit(b) && b & x != 0,
    decreases x,
{
    lemma_lsb_props(x);
    if x == 0 {
        assert(forall|b: u64| #[trigger] (b & 0u64) == 0) by (bit_vector);
    } else {
        let l = lsb(x);
        let rest = (x - l) as u64;
        lemma_popcount_remove_lsb(x);
        lemma_bits_asc_props(rest);
        assert(rest & x == rest && rest < x) by (bit_vector)
            requires
                x != 0 && rest == (x - lsb(x)) as u64,
        ;
        let s = bits_asc(x);
        assert(s == seq![l] + bits_asc(rest));
        assert forall|i: int| 0 <= i < s.len() implies is_bit(#[trigger] s[i]) && s[i] & x
            == s[i] by {
            if i > 0 {
                let b = bits_asc(rest)[i - 1];
                assert(b & rest == b ==> b & x == b) by (bit_vector)
                    requires
                        rest & x == rest,
                ;
            }
        }
        assert forall|i: int, j: int| 0 <= i < j < s.len() implies s[i] < s[j] by {
            if i == 0 {
                let b = bits_asc(rest)[j - 1];
                assert(is_bit(b) && b & rest != 0 ==> lsb(x) < b) by (bit_vector)
                    requires
                        x != 0 && rest == (x - lsb(x)) as u64,
                ;
            }
        }
        assert forall|b: u64| is_bit(b) && b & x != 0 implies s.contains(b) by {
            if b != l {
                assert(b & rest != 0) by (bit_vector)
                    requires
                        is_bit(b) && b & x != 0 && b != lsb(x) && x != 0 && rest == (x - lsb(
                            x,
                        )) as u64,
                ;
                assert(bits_asc(rest).contains(b));
                let k = choose|k: int| 0 <= k < bits_asc(rest).len() && bits_asc(rest)[k] == b;
                assert(s[k + 1] == b);
            } else {
                assert(s[0] == b);
            }
        }
        assert forall|b: u64| s.contains(b) implies is_bit(b) && b & x != 0 by {
            let k = choose|k: int| 0 <= k < s.len() && s[k] == b;
            assert(b & x == b);
        }
        assert(or_all(s) == x) by {
            lemma_or_all_prepend(l, bits_asc(rest));
            assert((l | rest) == x) by (bit_vector)
                requires
                    x != 0 && l == lsb(x) && rest == (x - lsb(x)) as u64,
            ;
        }
    }
}

/// Prepending a board to a sequence unions it into the total.
proof fn lemma_or_all_prepend(b: u64, s: Seq<u64>)
    ensures
        or_all(seq![b] + s) == b | or_all(s),
    decreases s.len(),
{
    if s.len() == 0 {
        assert(seq![b] + s == seq![b]);
        assert(or_all(seq![b]) == or_all(seq![b].drop_last()) | b);
        assert(or_all(Seq::<u64>::empty()) | b == 0 | b);
        assert(0 | b == b && b == b | 0) by (bit_vector);
    } else {
        let t = seq![b] + s;
        assert(t.drop_last() == seq![b] + s.drop_last());
        lemma_or_all_prepend(b, s.drop_last());
        let c = or_all(s.drop_last());
        let d = s.last();
        assert((b | c) | d == b | (c | d)) by (bit_vector);
    }
}

/// Returns the lowest set bit of `bits`, as a bitboard; 0 when `bits` is 0.
pub fn get_lsb(bits: u64) -> (r: u64)
    ensures
        r == lsb(bits),
{
    if bits == 0 {
        return 0;
    }
    proof {
        assert(!bits <= 0xFFFF_FFFF_FFFF_FFFEu64) by (bit_vector)
            requires
                bits != 0,
        ;
    }
    bits & (!bits + 1)
}

/// Returns the highest set bit of `bits`, as a bitboard; 0 when `bits` is 0.
pub fn get_msb(bits: u64) -> (r: u64)
    ensures
        r == msb(bits),
{
    let a = bits | (bits >> 1);
    let b = a | (a >> 2);
    let c = b | (b >> 4);
    let d = c | (c >> 8);
    let e = d | (d >> 16);
    let s = e | (e >> 32);
    s ^ (s >> 1)
}

/// Number of set bits of `bits`.
pub fn count_bits(bits: u64) -> (r: u8)
    ensures
        r == popcount(bits),
{
    let mut tmp = bits;
    let mut count: u8 = 0;
    proof {
        lemma_popcount_bound(bits);
    }
    while tmp != 0
        invariant
            count + popcount(tmp) == popcount(bits),
            popcount(bits) <= 64,
        decreases tmp,
    {
        let l = get_lsb(tmp);
        proof {
            lemma_lsb_props(tmp);
            lemma_popcount_remove_lsb(tmp);
            lemma_popcount_bound((tmp - l) as u64);
        }
        count = count + 1;
        tmp = tmp - l;
    }
    count
}

/// Any value below the `k`-th power of two has at most `k` set bits.
proof fn lemma_popcount_width(x: u64, k: nat)
    requires
        x < vstd::arithmetic::power2::pow2(k),
    ensures
        popcount(x) <= k,
    decreases k,
{
    if k == 0 {
        assert(vstd::arithmetic::power2::pow2(0) == 1) by {
            vstd::arithmetic::power2::lemma2_to64();
        }
    } else if x == 0 {
    } else {
        assert(vstd::arithmetic::power2::pow2(k) == 2 * vstd::arithmetic::power2::pow2(
            (k - 1) as nat,
        )) by {
            vstd::arithmetic::power2::lemma_pow2_unfold(k);
        }
        lemma_popcount_width((x / 2) as u64, (k - 1) as nat);
    }
}

/// The count of any 64-bit board fits in 64.
pub proof fn lemma_popcount_bound(x: u64)
    ensures
        popcount(x) <= 64,
{
    assert(vstd::arithmetic::power2::pow2(64) == 0x10000000000000000) by {
        vstd::arithmetic::power2::lemma2_to64_rest();
    }
    lemma_popcount_width(x, 64);
}

/// All squares at or above the lowest set bit of `bits`; 0 when `bits` is 0.
pub fn fill_from(bit: u64) -> (r: u64)
    ensures
        r == fill_up(bit),
{
    if bit == 0 {
        return 0;
    }
    let l = get_lsb(bit);
    proof {
        lemma_lsb_props(bit);
    }
    !(l - 1)
}

/// All squares at or below the lowest set bit of `bits`; 0 when `bits` is 0.
pub fn fill_to(bit: u64) -> (r: u64)
    ensures
        r == fill_down(bit),
{
    if bit == 0 {
        return 0;
    }
    let l = get_lsb(bit);
    proof {
        lemma_lsb_props(bit);
    }
    l | (l - 1)
}

/// The single-bit boards forming `bits`, lowest first.
pub fn iterate_over(bits: u64) -> (r: Vec<u64>)
    ensures
        r@ == bits_asc(bits),
{
    let mut locs: Vec<u64> = Vec::new();
    let mut tmp = bits;
    while tmp != 0
        invariant
            bits_asc(bits) =~= locs@ + bits_asc(tmp),
        decreases tmp,
    {
        let l = get_lsb(tmp);
        proof {
            lemma_lsb_props(tmp);
        }
        locs.push(l);
        tmp = tmp - l;
        proof {
            assert(bits_asc(bits) =~= locs@ + bits_asc(tmp));
        }
    }
    proof {
        assert(locs@ + bits_asc(0) =~= locs@);
    }
    locs
}

/// The lowest-set-bit law: for any nonzero board, `lsb` returns a subset
/// of the board that is a power of two and counts exactly one square.
pub proof fn lemma_lsb_law(x: u64)
    requires
        x != 0,
    ensures
        lsb(x) & x == lsb(x),
        is_bit(lsb(x)),
        popcount(lsb(x)) == 1,
{
    lemma_lsb_props(x);
    lemma_popcount_single(lsb(x));
}

/// The iteration law: the single-bit boards of `x` are as many as `x` has
/// set bits, and their union is exactly `x`.
pub proof fn lemma_iterate_partition(x: u64)
    ensures
        bits_asc(x).len() == popcount(x),
        or_all(bits_asc(x)) == x,
{
    lemma_bits_asc_props(x);
}

/// The fill law: for a nonzero board, the upward and downward fills cover
/// every square between them, and meet exactly in the lowest set bit — so
/// for a single square they meet in that square.
pub proof fn lemma_fill_halves(x: u64)
    by (bit_vector)
    requires
        x != 0,
    ensures
        fill_up(x) | fill_down(x) == 0xFFFF_FFFF_FFFF_FFFFu64,
        fill_up(x) & fill_down(x) == lsb(x),
        is_bit(x) ==> fill_up(x) & fill_down(x) == x,
{
}

/// One square towards the a-file; 0 if the square would leave the board.
pub open spec fn left_one(bit: u64) -> u64 {
    if bit & FILE_A != 0 {
        0
    } else {
        bit >> 1
    }
}

/// One square towards the h-file; 0 if the square would leave the board.
pub open spec fn right_one(bit: u64) -> u64 {
    if bit & FILE_H != 0 {
        0
    } else {
        bit << 1
    }
}

/// One square towards rank 8; 0 if the square would leave the board.
pub open spec fn up_one(bit: u64) -> u64 {
    if bit & RANK_8 != 0 {
        0
    } else {
        bit << 8
    }
}

/// One square towards rank 1; 0 if the square would leave the board.
pub open spec fn down_one(bit: u64) -> u64 {
    if bit & RANK_1 != 0 {
        0
    } else {
        bit >> 8
    }
}

pub fn sl(bit: u64) -> (r: u64)
    ensures
        r == left_one(bit),
{
    if bit & FILE_A != 0 {
        0
    } else {
        bit >> 1u64
    }
}

pub fn sr(bit: u64) -> (r: u64)
    ensures
        r == right_one(bit),
{
    if bit & FILE_H != 0 {
        0
    } else {
        bit << 1u64
    }
}

pub fn su(bit: u64) -> (r: u64)
    ensures
        r == up_one(bit),
{
    if bit & RANK_8 != 0 {
        0
    } else {
        bit << 8u64
    }
}

pub fn sd(bit: u64) -> (r: u64)
    ensures
        r == down_one(bit),
{
    if bit & RANK_1 != 0 {
        0
    } else {
        bit >> 8u64
    }
}

/// The diagonal-forward capture squares of a pawn on `bit`, clamped at the
/// board's edge files; `to_move` 1 is a white pawn, otherwise black.
pub open spec fn pawn_capture(bit: u64, to_move: u8) -> u64 {
    if to_move == 1 {
        if bit & FILE_A != 0 {
            bit << 9
        } else if bit & FILE_H != 0 {
            bit << 7
        } else {
            (bit << 7) | (bit << 9)
        }
    } else {
        if bit & FILE_A != 0 {
            bit >> 7
        } else if bit & FILE_H != 0 {
            bit >> 9
        } else {
            (bit >> 7) | (bit >> 9)
        }
    }
}

pub fn pawn_capture_mask(bit: u64, to_move: u8) -> (r: u64)
    ensures
        r == pawn_capture(bit, to_move),
{
    if to_move == 1 {
        if bit & FILE_A != 0 {
            bit << 9u64
        } else if bit & FILE_H != 0 {
            bit << 7u64
        } else {
            (bit << 7u64) | (bit << 9u64)
        }
    } else {
        if bit & FILE_A != 0 {
            bit >> 7u64
        } else if bit & FILE_H != 0 {
            bit >> 9u64
        } else {
            (bit >> 7u64) | (bit >> 9u64)
        }
    }
}

/// The eight knight destinations from `bit`, with wrap-arounds across the
/// board's edge masked off, minus the side's own pieces and the source.
pub open spec fn knight_mask(bit: u64, own_pieces: u64) -> u64 {
    let m = ((bit << 17) & !FILE_A) | ((bit << 15) & !FILE_H) | ((bit << 10) & !(FILE_A | FILE_B))
        | ((bit << 6) & !(FILE_G | FILE_H)) | ((bit >> 15) & !FILE_A) | ((bit >> 17) & !FILE_H) | ((
    bit >> 6) & !(FILE_A | FILE_B)) | ((bit >> 10) & !(FILE_G | FILE_H));
    m & !own_pieces & !bit
}

pub fn knight_move_mask(bit: u64, own_pieces: u64) -> (r: u64)
    ensures
        r == knight_mask(bit, own_pieces),
        r & own_pieces == 0,
        r & bit == 0,
{
    let m = ((bit << 17u64) & !FILE_A) | ((bit << 15u64) & !FILE_H) | ((bit << 10u64) & !(FILE_A
        | FILE_B)) | ((bit << 6u64) & !(FILE_G | FILE_H)) | ((bit >> 15u64) & !FILE_A) | ((bit
        >> 17u64) & !FILE_H) | ((bit >> 6u64) & !(FILE_A | FILE_B)) | ((bit >> 10u64) & !(FILE_G
        | FILE_H));
    proof {
        lemma_mask_excludes(m, own_pieces, bit);
    }
    m & !own_pieces & !bit
}

/// The 3-by-3 neighbourhood of the king on `bit`, minus the source square
/// and the side's own pieces.
pub open spec fn king_mask(bit: u64, own_pieces: u64) -> u64 {
    let row = left_one(bit) | right_one(bit) | bit;
    (row | up_one(row) | down_one(row)) & !bit & !own_pieces
}

pub fn king_move_mask(bit: u64, own_pieces: u64) -> (r: u64)
    ensures
        r == king_mask(bit, own_pieces),
        r & own_pieces == 0,
        r & bit == 0,
{
    let row = sl(bit) | sr(bit) | bit;
    let m = row | su(row) | sd(row);
    proof {
        lemma_mask_excludes(m, bit, own_pieces);
    }
    m & !bit & !own_pieces
}

/// The squares a pawn shield of the king on `bit` would stand on: the
/// square one rank ahead of the king and its two file-neighbours.
pub open spec fn king_forward(bit: u64, to_move: u8) -> u64 {
    let f = if to_move == 1 {
        up_one(bit)
    } else {
        down_one(bit)
    };
    f | left_one(f) | right_one(f)
}

pub fn king_forward_mask(bit: u64, to_move: u8) -> (r: u64)
    ensures
        r == king_forward(bit, to_move),
{
    let f = if to_move == 1 {
        su(bit)
    } else {
        sd(bit)
    };
    f | sl(f) | sr(f)
}

/// A mask that excludes both given boards contains no square of either.
proof fn lemma_mask_excludes(m: u64, a: u64, b: u64)
    by (bit_vector)
    ensures
        (m & !a & !b) & a == 0,
        (m & !a & !b) & b == 0,
{
}

/// One line `ray` through the single square `bit`, truncated independently
/// in each direction: before the nearest own piece, after the nearest
/// enemy piece.
pub open spec fn ray_blocked(bit: u64, ray: u64, own_pieces: u64, enemy_pieces: u64) -> u64 {
    let forward_ray = ray & fill_up(bit);
    let backward_ray = ray & fill_down(bit);
    let own_forward_blocker = fill_up(lsb(own_pieces & !bit & forward_ray));
    let own_backward_blocker = fill_down(msb(own_pieces & !bit & backward_ray));
    let enemy_forward_blocker = fill_up(lsb(enemy_pieces & forward_ray)) << 1;
    let enemy_backward_blocker = fill_down(msb(enemy_pieces & backward_ray)) >> 1;
    (forward_ray & !(enemy_forward_blocker | own_forward_blocker)) | (backward_ray & !(
    enemy_backward_blocker | own_backward_blocker))
}

/// Every bit of a board is at or above its own lowest bit.
proof fn lemma_within_fill_up(z: u64)
    by (bit_vector)
    ensures
        z & !fill_up(lsb(z)) == 0,
{
}

/// Every bit of a board is at or below its own highest bit.
proof fn lemma_within_fill_down(z: u64)
    by (bit_vector)
    ensures
        z & !fill_down(msb(z)) == 0,
{
}

/// A ray truncated before a set of blockers avoids every square of that
/// set, in both halves, and stays on the ray.
proof fn lemma_ray_parts(up: u64, down: u64, of: u64, ob: u64, ef: u64, eb: u64, w: u64, ray: u64)
    by (bit_vector)
    requires
        (w & (ray & up)) & !of == 0,
        (w & (ray & down)) & !ob == 0,
    ensures
        (((ray & up) & !(ef | of)) | ((ray & down) & !(eb | ob))) & w == 0,
        (((ray & up) & !(ef | of)) | ((ray & down) & !(eb | ob))) & ray == (((ray & up) & !(ef
            | of)) | ((ray & down) & !(eb | ob))),
{
}

/// The allowed squares of a blocked ray lie on the ray and avoid every own
/// piece other than the source square itself.
pub proof fn lemma_ray_blocked_props(bit: u64, ray: u64, own_pieces: u64, enemy_pieces: u64)
    ensures
        ray_blocked(bit, ray, own_pieces, enemy_pieces) & ray == ray_blocked(
            bit,
            ray,
            own_pieces,
            enemy_pieces,
        ),
        ray_blocked(bit, ray, own_pieces, enemy_pieces) & (own_pieces & !bit) == 0,
{
    let w = own_pieces & !bit;
    let up = fill_up(bit);
    let down = fill_down(bit);
    lemma_within_fill_up(w & (ray & up));
    lemma_within_fill_down(w & (ray & down));
    lemma_ray_parts(
        up,
        down,
        fill_up(lsb(w & (ray & up))),
        fill_down(msb(w & (ray & down))),
        fill_up(lsb(enemy_pieces & (ray & up))) << 1,
        fill_down(msb(enemy_pieces & (ray & down))) >> 1,
        w,
        ray,
    );
}

pub fn block_ray(bit: u64, ray: u64, own_pieces: u64, enemy_pieces: u64) -> (r: u64)
    ensures
        r == ray_blocked(bit, ray, own_pieces, enemy_pieces),
        r & (own_pieces & !bit) == 0,
{
    let forward: u64 = fill_from(bit);
    let backward: u64 = fill_to(bit);

    let forward_ray: u64 = ray & forward;
    let backward_ray: u64 = ray & backward;

    let own_forward_blocker: u64 = fill_from(get_lsb(own_pieces & !bit & forward_ray));
    let own_backward_blocker: u64 = fill_to(get_msb(own_pieces & !bit & backward_ray));

    let enemy_forward_blocker: u64 = fill_from(get_lsb(enemy_pieces & forward_ray)) << 1u64;
    let enemy_backward_blocker: u64 = fill_to(get_msb(enemy_pieces & backward_ray)) >> 1u64;

    proof {
        lemma_ray_blocked_props(bit, ray, own_pieces, enemy_pieces);
    }
    (forward_ray & !(enemy_forward_blocker | own_forward_blocker)) | (backward_ray & !(
    enemy_backward_blocker | own_backward_blocker))
}

/// The rank (0 at White's back rank) of the lowest set square of `bit`;
/// 8 when `bit` is 0.
pub open spec fn rank_of(bit: u64) -> int {
    vstd::std_specs::bits::u64_trailing_zeros(bit) as int / 8
}

/// The file (0 at the a-file) of the lowest set square of `bit`.
pub open spec fn file_of(bit: u64) -> int {
    vstd::std_specs::bits::u64_trailing_zeros(bit) as int % 8
}

/// Rank and file of the lowest set square, both zero-indexed.
pub fn get_bit_rf(bit: u64) -> (r: (u8, u8))
    ensures
        r.0 as int == rank_of(bit),
        r.1 as int == file_of(bit),
        r.0 <= 8,
        r.1 <= 7,
        bit != 0 ==> r.0 <= 7,
{
    proof {
        vstd::std_specs::bits::axiom_u64_trailing_zeros(bit);
    }
    let t = bit.trailing_zeros();
    ((t / 8) as u8, (t % 8) as u8)
}

/// The rank through the square `bit`, built by spreading sideways with
/// the board's edge files masking off wrap-arounds.
pub open spec fn rank_through(bit: u64) -> u64 {
    let s1 = bit | ((bit << 1) & !FILE_A) | ((bit >> 1) & !FILE_H);
    let s2 = s1 | ((s1 << 2) & !(FILE_A | FILE_B)) | ((s1 >> 2) & !(FILE_G | FILE_H));
    s2 | ((s2 << 4) & !(FILE_A | FILE_B | FILE_C | FILE_D)) | ((s2 >> 4) & !(FILE_E | FILE_F
        | FILE_G | FILE_H))
}

/// The file through the square `bit`, built by spreading vertically.
pub open spec fn file_through(bit: u64) -> u64 {
    let s1 = bit | (bit << 8) | (bit >> 8);
    let s2 = s1 | (s1 << 16) | (s1 >> 16);
    s2 | (s2 << 32) | (s2 >> 32)
}

/// The diagonal parallel to a1-h8 through the square `bit`.
pub open spec fn main_diag_through(bit: u64) -> u64 {
    let s1 = bit | ((bit << 9) & !FILE_A) | ((bit >> 9) & !FILE_H);
    let s2 = s1 | ((s1 << 18) & !(FILE_A | FILE_B)) | ((s1 >> 18) & !(FILE_G | FILE_H));
    s2 | ((s2 << 36) & !(FILE_A | FILE_B | FILE_C | FILE_D)) | ((s2 >> 36) & !(FILE_E | FILE_F
        | FILE_G | FILE_H))
}

/// The diagonal parallel to h1-a8 through the square `bit`.
pub open spec fn anti_diag_through(bit: u64) -> u64 {
    let s1 = bit | ((bit << 7) & !FILE_H) | ((bit >> 7) & !FILE_A);
    let s2 = s1 | ((s1 << 14) & !(FILE_G | FILE_H)) | ((s1 >> 14) & !(FILE_A | FILE_B));
    s2 | ((s2 << 28) & !(FILE_E | FILE_F | FILE_G | FILE_H)) | ((s2 >> 28) & !(FILE_A | FILE_B
        | FILE_C | FILE_D))
}

/// The bishop's reachable squares from `bit`: both diagonals through the
/// source, each truncated by the ray blocker, minus the source.
pub open spec fn bishop_mask(bit: u64, own_pieces: u64, enemy_pieces: u64) -> u64 {
    (ray_blocked(bit, main_diag_through(bit), own_pieces, enemy_pieces) | ray_blocked(
        bit,
        anti_diag_through(bit),
        own_pieces,
        enemy_pieces,
    )) & !bit
}

/// Joining two blocked rays and dropping the source square avoids every
/// own piece and the source.
proof fn lemma_two_rays(b1: u64, b2: u64, own_pieces: u64, bit: u64)
    by (bit_vector)
    requires
        b1 & (own_pieces & !bit) == 0,
        b2 & (own_pieces & !bit) == 0,
    ensures
        ((b1 | b2) & !bit) & own_pieces == 0,
        ((b1 | b2) & !bit) & bit == 0,
{
}

pub fn bishop_move_mask(bit: u64, own_pieces: u64, enemy_pieces: u64) -> (r: u64)
    ensures
        r == bishop_mask(bit, own_pieces, enemy_pieces),
        r & own_pieces == 0,
        r & bit == 0,
{
    let s1 = bit | ((bit << 9u64) & !FILE_A) | ((bit >> 9u64) & !FILE_H);
    let s2 = s1 | ((s1 << 18u64) & !(FILE_A | FILE_B)) | ((s1 >> 18u64) & !(FILE_G | FILE_H));
    let main_diag = s2 | ((s2 << 36u64) & !(FILE_A | FILE_B | FILE_C | FILE_D)) | ((s2 >> 36u64)
        & !(FILE_E | FILE_F | FILE_G | FILE_H));

    let a1 = bit | ((bit << 7u64) & !FILE_H) | ((bit >> 7u64) & !FILE_A);
    let a2 = a1 | ((a1 << 14u64) & !(FILE_G | FILE_H)) | ((a1 >> 14u64) & !(FILE_A | FILE_B));
    let anti_diag = a2 | ((a2 << 28u64) & !(FILE_E | FILE_F | FILE_G | FILE_H)) | ((a2 >> 28u64) & !(
    FILE_A | FILE_B | FILE_C | FILE_D));

    let main_ray: u64 = block_ray(bit, main_diag, own_pieces, enemy_pieces);
    let anti_ray: u64 = block_ray(bit, anti_diag, own_pieces, enemy_pieces);

    proof {
        lemma_two_rays(main_ray, anti_ray, own_pieces, bit);
    }
    (main_ray | anti_ray) & !bit
}

/// The rook's reachable squares from `bit`: the source's rank and file,
/// each truncated by the ray blocker, minus the source.
pub open spec fn rook_mask(bit: u64, own_pieces: u64, enemy_pieces: u64) -> u64 {
    (ray_blocked(bit, rank_through(bit), own_pieces, enemy_pieces) | ray_blocked(
        bit,
        file_through(bit),
        own_pieces,
        enemy_pieces,
    )) & !bit
}

pub fn rook_move_mask(bit: u64, own_pieces: u64, enemy_pieces: u64) -> (r: u64)
    ensures
        r == rook_mask(bit, own_pieces, enemy_pieces),
        r & own_pieces == 0,
        r & bit == 0,
{
    let s1 = bit | ((bit << 1u64) & !FILE_A) | ((bit >> 1u64) & !FILE_H);
    let s2 = s1 | ((s1 << 2u64) & !(FILE_A | FILE_B)) | ((s1 >> 2u64) & !(FILE_G | FILE_H));
    let rank_line = s2 | ((s2 << 4u64) & !(FILE_A | FILE_B | FILE_C | FILE_D)) | ((s2 >> 4u64) & !(
    FILE_E | FILE_F | FILE_G | FILE_H));

    let f1 = bit | (bit << 8u64) | (bit >> 8u64);
    let f2 = f1 | (f1 << 16u64) | (f1 >> 16u64);
    let file_line = f2 | (f2 << 32u64) | (f2 >> 32u64);

    let hori_ray: u64 = block_ray(bit, rank_line, own_pieces, enemy_pieces);
    let vert_ray: u64 = block_ray(bit, file_line, own_pieces, enemy_pieces);

    proof {
        lemma_two_rays(hori_ray, vert_ray, own_pieces, bit);
    }
    (hori_ray | vert_ray) & !bit
}

/// The queen's reachable squares: the union of the rook's and bishop's.
pub open spec fn queen_mask(bit: u64, own_pieces: u64, enemy_pieces: u64) -> u64 {
    rook_mask(bit, own_pieces, enemy_pieces) | bishop_mask(bit, own_pieces, enemy_pieces)
}

pub fn queen_move_mask(bit: u64, own_pieces: u64, enemy_pieces: u64) -> (r: u64)
    ensures
        r == queen_mask(bit, own_pieces, enemy_pieces),
        r & own_pieces == 0,
        r & bit == 0,
{
    let rm = rook_move_mask(bit, own_pieces, enemy_pieces);
    let bm = bishop_move_mask(bit, own_pieces, enemy_pieces);
    proof {
        assert(rm & own_pieces == 0 && bm & own_pieces == 0 ==> (rm | bm) & own_pieces == 0 && (rm
            & bit == 0 && bm & bit == 0 ==> (rm | bm) & bit == 0)) by (bit_vector);
    }
    rm | bm
}

/// Moving a bit between two bitboards: if the board holds the source
/// square it moves to the destination, otherwise the destination square is
/// cleared (a captured occupant leaves its own board).
pub open spec fn moved(bits: u64, from: u64, to: u64) -> u64 {
    if bits & from != 0 {
        (bits & !from) | to
    } else {
        bits & !to
    }
}

pub fn move_piece(bits: u64, from: u64, to: u64) -> (r: u64)
    ensures
        r == moved(bits, from, to),
{
    if (bits & from) != 0 {
        (bits & !from) | to
    } else {
        bits & !to
    }
}

/// Shifts towards rank 8 for White (`direction` 1), towards rank 1 for
/// Black: the forward direction of the side to move.
pub open spec fn forward_shift(bits: u64, shift: u64, direction: u8) -> u64 {
    if direction == 1 {
        bits << shift
    } else {
        bits >> shift
    }
}

pub fn bidirectional_shift(bits: u64, shift: u64, direction: u8) -> (r: u64)
    requires
        shift < 64,
    ensures
        r == forward_shift(bits, shift, direction),
{
    if direction == 1 {
        bits << shift
    } else {
        bits >> shift
    }
}

/// The bitboard of the square on the given file (first coordinate) and
/// rank (second coordinate), both zero-indexed.
pub fn coord_to_bit(coords: (u16, u16)) -> (r: u64)
    requires
        coords.0 < 8,
        coords.1 < 8,
    ensures
        r == 1u64 << ((coords.0 + 8 * coords.1) as u64),
        is_bit(r),
{
    let f = coords.0 as u64;
    let rk = coords.1 as u64;
    proof {
        assert(f < 8 && rk < 8 ==> ((1u64 << f) << (8 * rk)) == 1u64 << ((f + 8 * rk) as u64)
            && is_bit(1u64 << ((f + 8 * rk) as u64))) by (bit_vector);
    }
    (1u64 << f) << (8 * rk)
}

/// The (file, rank) coordinates of the lowest set square of `bit`.
pub fn bit_to_coord(bit: u64) -> (r: (u16, u16))
    requires
        bit != 0,
    ensures
        r.0 as int == file_of(bit),
        r.1 as int == rank_of(bit),
        r.0 < 8,
        r.1 < 8,
{
    proof {
        vstd::std_specs::bits::axiom_u64_trailing_zeros(bit);
    }
    let pos = bit.trailing_zeros() as u16;
    (pos % 8, pos / 8)
}

/// A single square is the square of its own coordinates: converting a
/// bitboard to (file, rank) and back yields the same bitboard.
pub proof fn lemma_square_round_trip(bit: u64)
    requires
        is_bit(bit),
    ensures
        1u64 << ((file_of(bit) + 8 * rank_of(bit)) as u64) == bit,
{
    vstd::std_specs::bits::axiom_u64_trailing_zeros(bit);
    let t = vstd::std_specs::bits::u64_trailing_zeros(bit) as u64;
    assert(t < 64 && (bit >> t) & 1u64 == 1u64 && is_bit(bit) ==> bit == 1u64 << t) by (bit_vector);
    assert(file_of(bit) + 8 * rank_of(bit) == t as int);
}

/// The rank mask for a digit character '1'..'8', the file mask for a
/// letter 'a'..'h', and 0 for any other character.
pub open spec fn rank_or_file_mask(c: char) -> u64 {
    if 49 <= c as int && c as int <= 56 {
        RANK_1 << ((8 * (c as int - 49)) as u64)
    } else if 97 <= c as int && c as int <= 104 {
        FILE_A << ((c as int - 97) as u64)
    } else {
        0
    }
}

pub fn get_rank_or_file(c: char) -> (r: u64)
    ensures
        r == rank_or_file_mask(c),
{
    let v = c as u32;
    if 49 <= v && v <= 56 {
        RANK_1 << ((8 * (v - 49)) as u64)
    } else if 97 <= v && v <= 104 {
        FILE_A << ((v - 97) as u64)
    } else {
        0
    }
}

} // verus!
