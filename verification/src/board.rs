//! The position type: twelve piece bitboards with derived aggregates,
//! check, checkmate and castling state, and the side to move.
//!
//! A `Board` is a value: applying a move yields a fresh successor and never
//! mutates the old position. `wf` is the invariant every position built by
//! `new` or by a legal move satisfies.
use vstd::prelude::*;

use crate::bit_functions::bidirectional_shift;
use crate::bit_functions::coord_to_bit;
use crate::bit_functions::get_bit_rf;
use crate::bit_functions::get_rank_or_file;
use crate::bit_functions::lemma_popcount_one;
use crate::bit_functions::lemma_popcount_single;
use crate::bit_functions::lemma_popcount_zero;
use crate::bit_functions::popcount;
use crate::bit_functions::rank_of;
use crate::bit_functions::rank_or_file_mask;
use crate::bit_functions::count_bits;
use vstd::string::StrSliceExecFns;
use crate::bit_functions::bishop_mask;
use crate::bit_functions::bishop_move_mask;
use crate::bit_functions::bits_asc;
use crate::bit_functions::forward_shift;
use crate::bit_functions::iterate_over;
use crate::bit_functions::lemma_bits_asc_props;
use crate::bit_functions::queen_move_mask;
use crate::bit_functions::is_bit;
use crate::bit_functions::king_mask;
use crate::bit_functions::king_move_mask;
use crate::bit_functions::knight_mask;
use crate::bit_functions::knight_move_mask;
use crate::bit_functions::move_piece;
use crate::bit_functions::moved;
use crate::bit_functions::pawn_capture;
use crate::bit_functions::pawn_capture_mask;
use crate::bit_functions::queen_mask;
use crate::bit_functions::rook_mask;
use crate::bit_functions::rook_move_mask;
use crate::constants::RANK_1;
use crate::constants::RANK_2;
use crate::constants::RANK_7;
use crate::constants::RANK_8;

verus! {

/// White king's home square e1.
pub const WHITE_KING_HOME: u64 = 0x10;
/// White queenside rook's home square a1.
pub const WHITE_QS_ROOK: u64 = 0x1;
/// White kingside rook's home square h1.
pub const WHITE_KS_ROOK: u64 = 0x80;
/// Black king's home square e8.
pub const BLACK_KING_HOME: u64 = 0x1000000000000000;
/// Black queenside rook's home square a8.
pub const BLACK_QS_ROOK: u64 = 0x0100000000000000;
/// Black kingside rook's home square h8.
pub const BLACK_KS_ROOK: u64 = 0x8000000000000000;
/// Squares between White's king and queenside rook: b1, c1, d1.
pub const WHITE_QS_EMPTY: u64 = 0xE;
/// Squares between White's king and kingside rook: f1, g1.
pub const WHITE_KS_EMPTY: u64 = 0x60;
/// Squares between Black's king and queenside rook: b8, c8, d8.
pub const BLACK_QS_EMPTY: u64 = 0x0E00000000000000;
/// Squares between Black's king and kingside rook: f8, g8.
pub const BLACK_KS_EMPTY: u64 = 0x6000000000000000;

/// The six piece kinds of either colour.
#[derive(Clone, Copy, Debug, PartialEq, Eq)]
pub enum Piece {
    Pawn,
    Knight,
    Bishop,
    Rook,
    Queen,
    King,
}

/// A chess position.
///
/// `to_move` is 1 when White is to move and 0 when Black is. The castle
/// flag pairs are (queenside, kingside). The three aggregate boards are
/// kept identical to the unions of their constituents.
#[derive(Clone, Copy, Debug, PartialEq, Eq, Hash)]
pub struct Board {
    pub white_pawns: u64,
    pub white_knights: u64,
    pub white_bishops: u64,
    pub white_rooks: u64,
    pub white_queens: u64,
    pub white_king: u64,
    pub black_pawns: u64,
    pub black_knights: u64,
    pub black_bishops: u64,
    pub black_rooks: u64,
    pub black_queens: u64,
    pub black_king: u64,
    pub all_white: u64,
    pub all_black: u64,
    pub all_pieces: u64,
    pub white_check: bool,
    pub black_check: bool,
    pub white_checkmate: bool,
    pub black_checkmate: bool,
    pub white_castle_flags: (bool, bool),
    pub black_castle_flags: (bool, bool),
    pub to_move: u8,
}

impl Board {
    /// The union of White's piece boards.
    pub open spec fn white_union(self) -> u64 {
        self.white_pawns | self.white_knights | self.white_bishops | self.white_rooks
            | self.white_queens | self.white_king
    }

    /// The union of Black's piece boards.
    pub open spec fn black_union(self) -> u64 {
        self.black_pawns | self.black_knights | self.black_bishops | self.black_rooks
            | self.black_queens | self.black_king
    }

    /// White's six piece boards are pairwise disjoint.
    pub open spec fn disjoint_white(self) -> bool {
        &&& self.white_pawns & self.white_knights == 0
        &&& self.white_pawns & self.white_bishops == 0
        &&& self.white_pawns & self.white_rooks == 0
        &&& self.white_pawns & self.white_queens == 0
        &&& self.white_pawns & self.white_king == 0
        &&& self.white_knights & self.white_bishops == 0
        &&& self.white_knights & self.white_rooks == 0
        &&& self.white_knights & self.white_queens == 0
        &&& self.white_knights & self.white_king == 0
        &&& self.white_bishops & self.white_rooks == 0
        &&& self.white_bishops & self.white_queens == 0
        &&& self.white_bishops & self.white_king == 0
        &&& self.white_rooks & self.white_queens == 0
        &&& self.white_rooks & self.white_king == 0
        &&& self.white_queens & self.white_king == 0
    }

    /// Black's six piece boards are pairwise disjoint.
    pub open spec fn disjoint_black(self) -> bool {
        &&& self.black_pawns & self.black_knights == 0
        &&& self.black_pawns & self.black_bishops == 0
        &&& self.black_pawns & self.black_rooks == 0
        &&& self.black_pawns & self.black_queens == 0
        &&& self.black_pawns & self.black_king == 0
        &&& self.black_knights & self.black_bishops == 0
        &&& self.black_knights & self.black_rooks == 0
        &&& self.black_knights & self.black_queens == 0
        &&& self.black_knights & self.black_king == 0
        &&& self.black_bishops & self.black_rooks == 0
        &&& self.black_bishops & self.black_queens == 0
        &&& self.black_bishops & self.black_king == 0
        &&& self.black_rooks & self.black_queens == 0
        &&& self.black_rooks & self.black_king == 0
        &&& self.black_queens & self.black_king == 0
    }

    /// The three aggregate boards agree with the piece boards, and the two
    /// colours occupy disjoint squares.
    pub open spec fn aggregates_ok(self) -> bool {
        &&& self.all_white == self.white_union()
        &&& self.all_black == self.black_union()
        &&& self.all_pieces == (self.all_white | self.all_black)
        &&& self.all_white & self.all_black == 0
    }

    /// Each side has exactly one king square.
    pub open spec fn kings_ok(self) -> bool {
        is_bit(self.white_king) && is_bit(self.black_king)
    }

    /// A still-set castle flag means the side's king and the corresponding
    /// rook stand on their home squares.
    pub open spec fn castle_rights_ok(self) -> bool {
        &&& (self.white_castle_flags.0 || self.white_castle_flags.1) ==> self.white_king
            == WHITE_KING_HOME
        &&& self.white_castle_flags.0 ==> self.white_rooks & WHITE_QS_ROOK != 0
        &&& self.white_castle_flags.1 ==> self.white_rooks & WHITE_KS_ROOK != 0
        &&& (self.black_castle_flags.0 || self.black_castle_flags.1) ==> self.black_king
            == BLACK_KING_HOME
        &&& self.black_castle_flags.0 ==> self.black_rooks & BLACK_QS_ROOK != 0
        &&& self.black_castle_flags.1 ==> self.black_rooks & BLACK_KS_ROOK != 0
    }

    /// White's king square is attacked by some black piece, each piece
    /// moving by its own mask on the present occupancy.
    pub open spec fn white_in_check(self) -> bool {
        ||| pawn_capture(self.white_king, 1) & self.black_pawns != 0
        ||| knight_mask(self.white_king, self.all_white) & self.black_knights != 0
        ||| bishop_mask(self.white_king, self.all_white, self.all_black) & (self.black_bishops
            | self.black_queens) != 0
        ||| rook_mask(self.white_king, self.all_white, self.all_black) & (self.black_rooks
            | self.black_queens) != 0
        ||| king_mask(self.white_king, self.all_white) & self.black_king != 0
    }

    /// Black's king square is attacked by some white piece.
    pub open spec fn black_in_check(self) -> bool {
        ||| pawn_capture(self.black_king, 0) & self.white_pawns != 0
        ||| knight_mask(self.black_king, self.all_black) & self.white_knights != 0
        ||| bishop_mask(self.black_king, self.all_black, self.all_white) & (self.white_bishops
            | self.white_queens) != 0
        ||| rook_mask(self.black_king, self.all_black, self.all_white) & (self.white_rooks
            | self.white_queens) != 0
        ||| king_mask(self.black_king, self.all_black) & self.white_king != 0
    }

    /// The stored check flags say exactly whether each king is attacked.
    pub open spec fn checks_ok(self) -> bool {
        self.white_check == self.white_in_check() && self.black_check == self.black_in_check()
    }

    /// The piece boards of one side: `side` 1 is White, 0 is Black.
    pub open spec fn piece_set(self, kind: Piece, side: u8) -> u64 {
        match kind {
            Piece::Pawn => if side == 1 {
                self.white_pawns
            } else {
                self.black_pawns
            },
            Piece::Knight => if side == 1 {
                self.white_knights
            } else {
                self.black_knights
            },
            Piece::Bishop => if side == 1 {
                self.white_bishops
            } else {
                self.black_bishops
            },
            Piece::Rook => if side == 1 {
                self.white_rooks
            } else {
                self.black_rooks
            },
            Piece::Queen => if side == 1 {
                self.white_queens
            } else {
                self.black_queens
            },
            Piece::King => if side == 1 {
                self.white_king
            } else {
                self.black_king
            },
        }
    }

    /// The aggregate of the side to move.
    pub open spec fn own_pieces(self) -> u64 {
        if self.to_move == 1 {
            self.all_white
        } else {
            self.all_black
        }
    }

    /// The aggregate of the side not to move.
    pub open spec fn enemy_pieces(self) -> u64 {
        if self.to_move == 1 {
            self.all_black
        } else {
            self.all_white
        }
    }

    /// The king of the side to move.
    pub open spec fn own_king(self) -> u64 {
        if self.to_move == 1 {
            self.white_king
        } else {
            self.black_king
        }
    }

    /// The king of the side not to move.
    pub open spec fn enemy_king(self) -> u64 {
        if self.to_move == 1 {
            self.black_king
        } else {
            self.white_king
        }
    }

    /// The candidate successor of moving the occupant of `from` to `to`:
    /// every piece board moves the bit (a previous occupant of `to` is
    /// erased from its own board), a castling king brings its rook over,
    /// spent castle rights are cleared, a pawn reaching its promotion rank
    /// becomes a queen, the side to move flips, the aggregates are rebuilt
    /// and the check flags are recomputed. Checkmate flags are left false.
    pub open spec fn moved_board(self, from: u64, to: u64) -> Board {
        let white_rooks_castled = if self.to_move == 1 && from == self.white_king && to
            == self.white_king << 2 {
            moved(self.white_rooks, WHITE_KS_ROOK, self.white_king << 1)
        } else if self.to_move == 1 && from == self.white_king && to == self.white_king >> 2 {
            moved(self.white_rooks, WHITE_QS_ROOK, self.white_king >> 1)
        } else {
            self.white_rooks
        };
        let black_rooks_castled = if self.to_move != 1 && from == self.black_king && to
            == self.black_king << 2 {
            moved(self.black_rooks, BLACK_KS_ROOK, self.black_king << 1)
        } else if self.to_move != 1 && from == self.black_king && to == self.black_king >> 2 {
            moved(self.black_rooks, BLACK_QS_ROOK, self.black_king >> 1)
        } else {
            self.black_rooks
        };
        let wp = moved(self.white_pawns, from, to);
        let wn = moved(self.white_knights, from, to);
        let wb = moved(self.white_bishops, from, to);
        let wr = moved(white_rooks_castled, from, to);
        let wq = moved(self.white_queens, from, to);
        let wk = moved(self.white_king, from, to);
        let bp = moved(self.black_pawns, from, to);
        let bn = moved(self.black_knights, from, to);
        let bb = moved(self.black_bishops, from, to);
        let br = moved(black_rooks_castled, from, to);
        let bq = moved(self.black_queens, from, to);
        let bk = moved(self.black_king, from, to);
        let promo_white = self.to_move == 1 && from & self.white_pawns != 0 && to & RANK_8 != 0;
        let promo_black = self.to_move != 1 && from & self.black_pawns != 0 && to & RANK_1 != 0;
        let wp2 = if promo_white {
            wp & !to
        } else {
            wp
        };
        let wq2 = if promo_white {
            wq | to
        } else {
            wq
        };
        let bp2 = if promo_black {
            bp & !to
        } else {
            bp
        };
        let bq2 = if promo_black {
            bq | to
        } else {
            bq
        };
        let aw = wp2 | wn | wb | wr | wq2 | wk;
        let ab = bp2 | bn | bb | br | bq2 | bk;
        let base = Board {
            white_pawns: wp2,
            white_knights: wn,
            white_bishops: wb,
            white_rooks: wr,
            white_queens: wq2,
            white_king: wk,
            black_pawns: bp2,
            black_knights: bn,
            black_bishops: bb,
            black_rooks: br,
            black_queens: bq2,
            black_king: bk,
            all_white: aw,
            all_black: ab,
            all_pieces: aw | ab,
            white_check: false,
            black_check: false,
            white_checkmate: false,
            black_checkmate: false,
            white_castle_flags: (
                self.white_castle_flags.0 && from != WHITE_QS_ROOK && to != WHITE_QS_ROOK && from
                    != WHITE_KING_HOME,
                self.white_castle_flags.1 && from != WHITE_KS_ROOK && to != WHITE_KS_ROOK && from
                    != WHITE_KING_HOME,
            ),
            black_castle_flags: (
                self.black_castle_flags.0 && from != BLACK_QS_ROOK && to != BLACK_QS_ROOK && from
                    != BLACK_KING_HOME,
                self.black_castle_flags.1 && from != BLACK_KS_ROOK && to != BLACK_KS_ROOK && from
                    != BLACK_KING_HOME,
            ),
            to_move: if self.to_move == 1 {
                0
            } else {
                1
            },
        };
        Board { white_check: base.white_in_check(), black_check: base.black_in_check(), ..base }
    }

    /// The legality gate: the move stands only if the side that made it is
    /// not in check afterwards.
    pub open spec fn apply_basic(self, from: u64, to: u64) -> Option<Board> {
        let nb = self.moved_board(from, to);
        if self.to_move == 1 && nb.white_check {
            Option::None
        } else if self.to_move != 1 && nb.black_check {
            Option::None
        } else {
            Option::Some(nb)
        }
    }

    /// The push and capture destinations of the pawn on `p`, in the order
    /// they are tried: single push, double push, captures from low to
    /// high. A capture of the enemy king square is never a candidate.
    pub open spec fn pawn_targets(self, p: u64) -> Seq<u64> {
        let single = forward_shift(p, 8, self.to_move);
        let dbl = forward_shift(p, 16, self.to_move);
        let start_rank = if self.to_move == 1 {
            RANK_2
        } else {
            RANK_7
        };
        let pushes = if self.all_pieces & single == 0 {
            seq![single]
        } else {
            Seq::empty()
        };
        let doubles = if p & start_rank != 0 && self.all_pieces & dbl == 0 && self.all_pieces
            & single == 0 {
            seq![dbl]
        } else {
            Seq::empty()
        };
        pushes + doubles + cap_targets(
            bits_asc(pawn_capture(p, self.to_move)),
            self.enemy_pieces(),
            self.enemy_king(),
        )
    }

    /// The attack mask of a non-pawn piece of the side to move on `f`.
    pub open spec fn mask_of(self, kind: Piece, f: u64) -> u64 {
        match kind {
            Piece::Pawn => 0,
            Piece::Knight => knight_mask(f, self.own_pieces()),
            Piece::Bishop => bishop_mask(f, self.own_pieces(), self.enemy_pieces()),
            Piece::Rook => rook_mask(f, self.own_pieces(), self.enemy_pieces()),
            Piece::Queen => queen_mask(f, self.own_pieces(), self.enemy_pieces()),
            Piece::King => king_mask(f, self.own_pieces()),
        }
    }

    /// The destinations tried for a piece of the given kind on `f`, from
    /// low to high.
    pub open spec fn targets_of(self, kind: Piece, f: u64) -> Seq<u64> {
        match kind {
            Piece::Pawn => self.pawn_targets(f),
            _ => free_targets(bits_asc(self.mask_of(kind, f)), self.enemy_king()),
        }
    }

    /// The source squares of the side to move's pieces of one kind, from
    /// low to high.
    pub open spec fn own_srcs(self, kind: Piece) -> Seq<u64> {
        bits_asc(self.piece_set(kind, self.to_move))
    }

    /// Successors reached from source `f` over the listed destinations,
    /// appended to `acc`; destinations whose move fails the legality gate
    /// contribute nothing.
    pub open spec fn succ_targets(self, f: u64, ts: Seq<u64>, acc: Seq<Board>) -> Seq<Board>
        decreases ts.len(),
    {
        if ts.len() == 0 {
            acc
        } else {
            let pre = self.succ_targets(f, ts.drop_last(), acc);
            match self.apply_basic(f, ts.last()) {
                Option::Some(nb) => pre.push(nb),
                Option::None => pre,
            }
        }
    }

    /// Successors of all listed sources of one piece kind, appended to
    /// `acc`, sources in the listed order.
    pub open spec fn succ_src(self, kind: Piece, srcs: Seq<u64>, acc: Seq<Board>) -> Seq<Board>
        decreases srcs.len(),
    {
        if srcs.len() == 0 {
            acc
        } else {
            self.succ_targets(
                srcs.last(),
                self.targets_of(kind, srcs.last()),
                self.succ_src(kind, srcs.drop_last(), acc),
            )
        }
    }

    /// All ordinary (non-castling) successors: pawn moves first, then
    /// knights, bishops, rooks, queens and the king.
    pub open spec fn succ_pieces(self) -> Seq<Board> {
        self.succ_src(
            Piece::King,
            self.own_srcs(Piece::King),
            self.succ_src(
                Piece::Queen,
                self.own_srcs(Piece::Queen),
                self.succ_src(
                    Piece::Rook,
                    self.own_srcs(Piece::Rook),
                    self.succ_src(
                        Piece::Bishop,
                        self.own_srcs(Piece::Bishop),
                        self.succ_src(
                            Piece::Knight,
                            self.own_srcs(Piece::Knight),
                            self.succ_src(Piece::Pawn, self.own_srcs(Piece::Pawn), Seq::empty()),
                        ),
                    ),
                ),
            ),
        )
    }

    /// The castle flag of the side to move for the given wing.
    pub open spec fn castle_flag(self, kingside: bool) -> bool {
        if self.to_move == 1 {
            if kingside {
                self.white_castle_flags.1
            } else {
                self.white_castle_flags.0
            }
        } else {
            if kingside {
                self.black_castle_flags.1
            } else {
                self.black_castle_flags.0
            }
        }
    }

    /// The squares between the side to move's king and the castling rook.
    pub open spec fn castle_empties(self, kingside: bool) -> u64 {
        if self.to_move == 1 {
            if kingside {
                WHITE_KS_EMPTY
            } else {
                WHITE_QS_EMPTY
            }
        } else {
            if kingside {
                BLACK_KS_EMPTY
            } else {
                BLACK_QS_EMPTY
            }
        }
    }

    /// The square the castling king crosses.
    pub open spec fn castle_transit(self, kingside: bool) -> u64 {
        if kingside {
            self.own_king() << 1
        } else {
            self.own_king() >> 1
        }
    }

    /// The square the castling king lands on.
    pub open spec fn castle_dest(self, kingside: bool) -> u64 {
        if kingside {
            self.own_king() << 2
        } else {
            self.own_king() >> 2
        }
    }

    /// The king of the side to move is attacked in this position.
    pub open spec fn own_in_check(self) -> bool {
        if self.to_move == 1 {
            self.white_in_check()
        } else {
            self.black_in_check()
        }
    }

    /// Castling on the given wing is tried: the right persists, the king
    /// does not start in check, the squares between king and rook are
    /// empty, and the king may legally stand on the transit square.
    pub open spec fn castle_viable(self, kingside: bool) -> bool {
        &&& self.castle_flag(kingside)
        &&& !self.own_in_check()
        &&& self.all_pieces & self.castle_empties(kingside) == 0
        &&& self.apply_basic(self.own_king(), self.castle_transit(kingside)) is Some
    }

    /// Appends the castling successor for one wing, when viable and legal.
    pub open spec fn succ_castle(self, kingside: bool, acc: Seq<Board>) -> Seq<Board> {
        if self.castle_viable(kingside) {
            match self.apply_basic(self.own_king(), self.castle_dest(kingside)) {
                Option::Some(nb) => acc.push(nb),
                Option::None => acc,
            }
        } else {
            acc
        }
    }

    /// Every legal successor position, in the fixed generation order, with
    /// checkmate flags still unset: piece moves, then the queenside
    /// castle, then the kingside castle.
    pub open spec fn succ_basic(self) -> Seq<Board> {
        self.succ_castle(true, self.succ_castle(false, self.succ_pieces()))
    }

    /// The side to move has at least one legal move.
    pub open spec fn has_any_move(self) -> bool {
        self.succ_basic().len() != 0
    }

    /// Sets the checkmate flags of a freshly applied successor: a side is
    /// checkmated when it is to move, in check, and without a legal move.
    pub open spec fn finish(nb: Board) -> Board {
        Board {
            white_checkmate: nb.to_move == 1 && nb.white_check && !nb.has_any_move(),
            black_checkmate: nb.to_move == 0 && nb.black_check && !nb.has_any_move(),
            ..nb
        }
    }

    /// The full move application: the gated candidate with its checkmate
    /// flags computed.
    pub open spec fn apply_full(self, from: u64, to: u64) -> Option<Board> {
        match self.apply_basic(from, to) {
            Option::Some(nb) => Option::Some(Board::finish(nb)),
            Option::None => Option::None,
        }
    }

    /// Every legal successor position with checkmate flags computed: what
    /// `generate_move_list` returns.
    pub open spec fn succ_full(self) -> Seq<Board> {
        self.succ_basic().map_values(|b: Board| Board::finish(b))
    }

    /// The invariant of every position built by `new` or by a legal move:
    /// disjoint piece boards, coherent aggregates, one king each, a
    /// two-valued side to move, exact check flags, castle rights only with
    /// king and rook at home, and no pawns on their final ranks. What the
    /// checkmate flags say is pinned separately, by `apply_full`.
    pub open spec fn wf(self) -> bool {
        &&& self.disjoint_white()
        &&& self.disjoint_black()
        &&& self.aggregates_ok()
        &&& self.kings_ok()
        &&& self.to_move == 0 || self.to_move == 1
        &&& self.checks_ok()
        &&& self.castle_rights_ok()
        &&& self.white_pawns & RANK_8 == 0
        &&& self.black_pawns & RANK_1 == 0
    }

    /// What holds of every board `generate_move_list` returns: a
    /// well-formed successor with the side to move flipped, in which the
    /// side that just moved is not in check.
    pub open spec fn elem_ok(self, nb: Board) -> bool {
        &&& nb.wf()
        &&& nb.to_move == (if self.to_move == 1 {
            0u8
        } else {
            1u8
        })
        &&& (self.to_move == 1 ==> !nb.white_check)
        &&& (self.to_move != 1 ==> !nb.black_check)
    }

    /// The standard starting position.
    pub open spec fn start_board() -> Board {
        Board {
            white_pawns: 0x000000000000FF00,
            white_knights: 0x0000000000000042,
            white_bishops: 0x0000000000000024,
            white_rooks: 0x0000000000000081,
            white_queens: 0x0000000000000008,
            white_king: 0x0000000000000010,
            black_pawns: 0x00FF000000000000,
            black_knights: 0x4200000000000000,
            black_bishops: 0x2400000000000000,
            black_rooks: 0x8100000000000000,
            black_queens: 0x0800000000000000,
            black_king: 0x1000000000000000,
            all_white: 0x000000000000FFFF,
            all_black: 0xFFFF000000000000,
            all_pieces: 0xFFFF00000000FFFF,
            white_check: false,
            black_check: false,
            white_checkmate: false,
            black_checkmate: false,
            white_castle_flags: (true, true),
            black_castle_flags: (true, true),
            to_move: 1,
        }
    }

    /// Builds the standard starting position: pawns on ranks 2 and 7, the
    /// back-rank pieces on their conventional squares, all castle rights,
    /// White to move, no checks and no checkmates.
    pub fn new() -> (r: Board)
        ensures
            r == Board::start_board(),
            r.wf(),
    {
        proof {
            lemma_start_board_wf();
        }
        Board {
            white_pawns: 0x000000000000FF00,
            white_knights: 0x0000000000000042,
            white_bishops: 0x0000000000000024,
            white_rooks: 0x0000000000000081,
            white_queens: 0x0000000000000008,
            white_king: 0x0000000000000010,
            black_pawns: 0x00FF000000000000,
            black_knights: 0x4200000000000000,
            black_bishops: 0x2400000000000000,
            black_rooks: 0x8100000000000000,
            black_queens: 0x0800000000000000,
            black_king: 0x1000000000000000,
            all_white: 0x000000000000FFFF,
            all_black: 0xFFFF000000000000,
            all_pieces: 0xFFFF00000000FFFF,
            white_castle_flags: (true, true),
            black_castle_flags: (true, true),
            to_move: 1,
            white_check: false,
            black_check: false,
            white_checkmate: false,
            black_checkmate: false,
        }
    }

    /// Reports whether each king is attacked in this position, as
    /// (White in check, Black in check).
    pub fn check_check(&self) -> (r: (bool, bool))
        ensures
            r.0 == self.white_in_check(),
            r.1 == self.black_in_check(),
    {
        let white_checked = pawn_capture_mask(self.white_king, 1) & self.black_pawns != 0
            || knight_move_mask(self.white_king, self.all_white) & self.black_knights != 0
            || bishop_move_mask(self.white_king, self.all_white, self.all_black) & (
        self.black_bishops | self.black_queens) != 0 || rook_move_mask(
            self.white_king,
            self.all_white,
            self.all_black,
        ) & (self.black_rooks | self.black_queens) != 0 || king_move_mask(
            self.white_king,
            self.all_white,
        ) & self.black_king != 0;

        let black_checked = pawn_capture_mask(self.black_king, 0) & self.white_pawns != 0
            || knight_move_mask(self.black_king, self.all_black) & self.white_knights != 0
            || bishop_move_mask(self.black_king, self.all_black, self.all_white) & (
        self.white_bishops | self.white_queens) != 0 || rook_move_mask(
            self.black_king,
            self.all_black,
            self.all_white,
        ) & (self.white_rooks | self.white_queens) != 0 || king_move_mask(
            self.black_king,
            self.all_black,
        ) & self.white_king != 0;

        (white_checked, black_checked)
    }

    /// Applies the move without computing checkmate flags: builds the
    /// candidate successor and drops it when the mover would be in check.
    fn apply_move_basic(&self, from: u64, to: u64) -> (r: Option<Board>)
        requires
            self.wf(),
            move_shaped(*self, from, to),
        ensures
            r == self.apply_basic(from, to),
            r matches Option::Some(nb) ==> nb == self.moved_board(from, to) && nb.wf(),
    {
        let white_rooks_castled = if self.to_move == 1 && from == self.white_king && to
            == self.white_king << 2u64 {
            move_piece(self.white_rooks, WHITE_KS_ROOK, self.white_king << 1u64)
        } else if self.to_move == 1 && from == self.white_king && to == self.white_king >> 2u64 {
            move_piece(self.white_rooks, WHITE_QS_ROOK, self.white_king >> 1u64)
        } else {
            self.white_rooks
        };
        let black_rooks_castled = if self.to_move != 1 && from == self.black_king && to
            == self.black_king << 2u64 {
            move_piece(self.black_rooks, BLACK_KS_ROOK, self.black_king << 1u64)
        } else if self.to_move != 1 && from == self.black_king && to == self.black_king >> 2u64 {
            move_piece(self.black_rooks, BLACK_QS_ROOK, self.black_king >> 1u64)
        } else {
            self.black_rooks
        };
        let wp = move_piece(self.white_pawns, from, to);
        let wn = move_piece(self.white_knights, from, to);
        let wb = move_piece(self.white_bishops, from, to);
        let wr = move_piece(white_rooks_castled, from, to);
        let wq = move_piece(self.white_queens, from, to);
        let wk = move_piece(self.white_king, from, to);
        let bp = move_piece(self.black_pawns, from, to);
        let bn = move_piece(self.black_knights, from, to);
        let bb = move_piece(self.black_bishops, from, to);
        let br = move_piece(black_rooks_castled, from, to);
        let bq = move_piece(self.black_queens, from, to);
        let bk = move_piece(self.black_king, from, to);
        let promo_white = self.to_move == 1 && from & self.white_pawns != 0 && to & RANK_8 != 0;
        let promo_black = self.to_move != 1 && from & self.black_pawns != 0 && to & RANK_1 != 0;
        let wp2 = if promo_white {
            wp & !to
        } else {
            wp
        };
        let wq2 = if promo_white {
            wq | to
        } else {
            wq
        };
        let bp2 = if promo_black {
            bp & !to
        } else {
            bp
        };
        let bq2 = if promo_black {
            bq | to
        } else {
            bq
        };
        let aw = wp2 | wn | wb | wr | wq2 | wk;
        let ab = bp2 | bn | bb | br | bq2 | bk;
        let base = Board {
            white_pawns: wp2,
            white_knights: wn,
            white_bishops: wb,
            white_rooks: wr,
            white_queens: wq2,
            white_king: wk,
            black_pawns: bp2,
            black_knights: bn,
            black_bishops: bb,
            black_rooks: br,
            black_queens: bq2,
            black_king: bk,
            all_white: aw,
            all_black: ab,
            all_pieces: aw | ab,
            white_check: false,
            black_check: false,
            white_checkmate: false,
            black_checkmate: false,
            white_castle_flags: (
                self.white_castle_flags.0 && from != WHITE_QS_ROOK && to != WHITE_QS_ROOK && from
                    != WHITE_KING_HOME,
                self.white_castle_flags.1 && from != WHITE_KS_ROOK && to != WHITE_KS_ROOK && from
                    != WHITE_KING_HOME,
            ),
            black_castle_flags: (
                self.black_castle_flags.0 && from != BLACK_QS_ROOK && to != BLACK_QS_ROOK && from
                    != BLACK_KING_HOME,
                self.black_castle_flags.1 && from != BLACK_KS_ROOK && to != BLACK_KS_ROOK && from
                    != BLACK_KING_HOME,
            ),
            to_move: if self.to_move == 1 {
                0
            } else {
                1
            },
        };
        let checks = base.check_check();
        let nb = Board { white_check: checks.0, black_check: checks.1, ..base };
        proof {
            lemma_moved_board_wf(*self, from, to);
            assert(nb == self.moved_board(from, to));
        }
        if self.to_move == 1 && nb.white_check {
            Option::None
        } else if self.to_move != 1 && nb.black_check {
            Option::None
        } else {
            Option::Some(nb)
        }
    }

    /// The piece boards of one side: `side` 1 is White, 0 is Black.
    fn get_pieces(&self, kind: Piece, side: u8) -> (r: u64)
        ensures
            r == self.piece_set(kind, side),
    {
        match kind {
            Piece::Pawn => if side == 1 {
                self.white_pawns
            } else {
                self.black_pawns
            },
            Piece::Knight => if side == 1 {
                self.white_knights
            } else {
                self.black_knights
            },
            Piece::Bishop => if side == 1 {
                self.white_bishops
            } else {
                self.black_bishops
            },
            Piece::Rook => if side == 1 {
                self.white_rooks
            } else {
                self.black_rooks
            },
            Piece::Queen => if side == 1 {
                self.white_queens
            } else {
                self.black_queens
            },
            Piece::King => if side == 1 {
                self.white_king
            } else {
                self.black_king
            },
        }
    }

    /// Ground facts about one source square of the side to move: it lies
    /// among the side's pieces, and it is the side's king exactly when the
    /// kind is the king.
    proof fn lemma_source_facts(self, kind: Piece, f: u64)
        requires
            self.wf(),
            is_bit(f),
            f & self.piece_set(kind, self.to_move) != 0,
        ensures
            f & self.piece_set(kind, self.to_move) == f,
            f & self.own_pieces() == f,
            f & self.own_pieces() != 0,
            !(kind is King) ==> f != self.own_king(),
            kind is King ==> f == self.own_king(),
    {
        lemma_absorb6(
            self.white_pawns,
            self.white_knights,
            self.white_bishops,
            self.white_rooks,
            self.white_queens,
            self.white_king,
        );
        lemma_absorb6(
            self.black_pawns,
            self.black_knights,
            self.black_bishops,
            self.black_rooks,
            self.black_queens,
            self.black_king,
        );
        let set = self.piece_set(kind, self.to_move);
        let own = self.own_pieces();
        let k = self.own_king();
        lemma_sets(f, set, 0, 0, 0);
        lemma_sets(f, 0, set, own, 0);
        if kind is King {
            lemma_sets(f, k, 0, 0, 0);
        } else {
            if self.to_move == 1 {
                lemma_sets(f, k, set, 0, 0);
                lemma_sets(set, k, 0, 0, 0);
            } else {
                lemma_sets(f, k, set, 0, 0);
                lemma_sets(set, k, 0, 0, 0);
            }
            assert(f & k == 0);
            assert(f != k) by {
                lemma_sets(f, f, 0, 0, 0);
            }
        }
    }

    /// The destinations tried for the piece of `kind` on `f`, in the
    /// order the move generator visits them; each is a move the
    /// application layer accepts.
    #[verifier::loop_isolation(false)]
    #[verifier::rlimit(100)]
    fn build_targets(&self, kind: Piece, f: u64) -> (ts: Vec<u64>)
        requires
            self.wf(),
            is_bit(f),
            f & self.piece_set(kind, self.to_move) != 0,
        ensures
            ts@ == self.targets_of(kind, f),
            forall|j: int| 0 <= j < ts@.len() ==> move_shaped(*self, f, #[trigger] ts@[j]),
    {
        let own: u64 = if self.to_move == 1 {
            self.all_white
        } else {
            self.all_black
        };
        let enemy: u64 = if self.to_move == 1 {
            self.all_black
        } else {
            self.all_white
        };
        let eking: u64 = if self.to_move == 1 {
            self.black_king
        } else {
            self.white_king
        };
        proof {
            self.lemma_source_facts(kind, f);
            lemma_sets(own, enemy, self.all_white, self.all_black, 0);
        }
        match kind {
            Piece::Pawn => {
                let mut pawn_moves: Vec<u64> = Vec::new();
                proof {
                    lemma_pawn_steps(f);
                    if self.to_move == 1 {
                        lemma_sets(f, RANK_8, self.white_pawns, 0, 0);
                    } else {
                        lemma_sets(f, RANK_1, self.black_pawns, 0, 0);
                    }
                }
                let single = bidirectional_shift(f, 8, self.to_move);
                if self.all_pieces & single == 0 {
                    proof {
                        lemma_sets(self.all_pieces, single, 0, 0, 0);
                        lemma_free_square(*self, single);
                    }
                    pawn_moves.push(single);
                }
                let start_rank: u64 = if self.to_move == 1 {
                    RANK_2
                } else {
                    RANK_7
                };
                if f & start_rank != 0 {
                    let dbl = bidirectional_shift(f, 16, self.to_move);
                    if self.all_pieces & single == 0 && self.all_pieces & dbl == 0 {
                        proof {
                            lemma_sets(self.all_pieces, dbl, 0, 0, 0);
                            lemma_free_square(*self, dbl);
                        }
                        pawn_moves.push(dbl);
                    }
                }
                let ghost base = pawn_moves@;
                proof {
                    let single_s = forward_shift(f, 8, self.to_move);
                    let dbl_s = forward_shift(f, 16, self.to_move);
                    let start_s = if self.to_move == 1 {
                        RANK_2
                    } else {
                        RANK_7
                    };
                    let pushes_s = if self.all_pieces & single_s == 0 {
                        seq![single_s]
                    } else {
                        Seq::<u64>::empty()
                    };
                    let doubles_s = if f & start_s != 0 && self.all_pieces & dbl_s == 0
                        && self.all_pieces & single_s == 0 {
                        seq![dbl_s]
                    } else {
                        Seq::<u64>::empty()
                    };
                    assert(base =~= pushes_s + doubles_s);
                }
                let caps = iterate_over(pawn_capture_mask(f, self.to_move));
                proof {
                    lemma_bits_asc_props(pawn_capture(f, self.to_move));
                    assert(base + cap_targets(caps@.take(0), enemy, eking) =~= base);
                }
                let mut ci: usize = 0;
                while ci < caps.len()
                    invariant
                        ci <= caps@.len(),
                        pawn_moves@ == base + cap_targets(caps@.take(ci as int), enemy, eking),
                        forall|j: int|
                            0 <= j < pawn_moves@.len() ==> move_shaped(
                                *self,
                                f,
                                #[trigger] pawn_moves@[j],
                            ),
                    decreases caps@.len() - ci,
                {
                    let c = caps[ci];
                    if c & enemy != 0 && c & eking == 0 {
                        proof {
                            lemma_sets(c, enemy, 0, 0, 0);
                            lemma_sets(c, own, enemy, 0, 0);
                        }
                        pawn_moves.push(c);
                    }
                    proof {
                        assert(caps@.take(ci + 1).drop_last() =~= caps@.take(ci as int));
                        assert(pawn_moves@ == base + cap_targets(
                            caps@.take(ci + 1),
                            enemy,
                            eking,
                        )) by {
                            assert(base + (cap_targets(caps@.take(ci as int), enemy, eking)
                                + seq![c]) =~= (base + cap_targets(
                                caps@.take(ci as int),
                                enemy,
                                eking,
                            )).push(c));
                            assert(base + (cap_targets(caps@.take(ci as int), enemy, eking)
                                + Seq::empty()) =~= base + cap_targets(
                                caps@.take(ci as int),
                                enemy,
                                eking,
                            ));
                        }
                    }
                    ci = ci + 1;
                }
                proof {
                    assert(caps@.take(caps@.len() as int) =~= caps@);
                    assert(enemy == self.enemy_pieces() && eking == self.enemy_king());
                    assert(caps@ == bits_asc(pawn_capture(f, self.to_move)));
                    assert(pawn_moves@ == base + cap_targets(caps@, enemy, eking));
                    assert(pawn_moves@ =~= self.pawn_targets(f));
                }
                pawn_moves
            },
            _ => {
                let mask = match kind {
                    Piece::Knight => knight_move_mask(f, own),
                    Piece::Bishop => bishop_move_mask(f, own, enemy),
                    Piece::Rook => rook_move_mask(f, own, enemy),
                    Piece::Queen => queen_move_mask(f, own, enemy),
                    _ => king_move_mask(f, own),
                };
                proof {
                    lemma_bits_asc_props(mask);
                    lemma_king_mask_near(f, own);
                }
                let dests = iterate_over(mask);
                let mut ts: Vec<u64> = Vec::new();
                proof {
                    assert(free_targets(dests@.take(0), eking) =~= Seq::<u64>::empty());
                }
                let mut j: usize = 0;
                while j < dests.len()
                    invariant
                        j <= dests@.len(),
                        ts@ == free_targets(dests@.take(j as int), eking),
                        forall|q: int|
                            0 <= q < ts@.len() ==> move_shaped(*self, f, #[trigger] ts@[q]),
                    decreases dests@.len() - j,
                {
                    let t = dests[j];
                    if t & eking == 0 {
                        proof {
                            lemma_sets(t, mask, 0, 0, 0);
                            lemma_sets(t, own, mask, 0, 0);
                            if kind is King {
                                assert(t != f << 2 && t != f >> 2) by {
                                    lemma_sets(t, t, 0, 0, 0);
                                }
                            }
                        }
                        ts.push(t);
                    }
                    proof {
                        assert(dests@.take(j + 1).drop_last() =~= dests@.take(j as int));
                        if t & eking == 0 {
                            assert(free_targets(dests@.take(j + 1), eking) =~= free_targets(
                                dests@.take(j as int),
                                eking,
                            ).push(t));
                        } else {
                            assert(free_targets(dests@.take(j + 1), eking) =~= free_targets(
                                dests@.take(j as int),
                                eking,
                            ));
                        }
                    }
                    j = j + 1;
                }
                proof {
                    assert(dests@.take(dests@.len() as int) =~= dests@);
                }
                ts
            },
        }
    }

    /// Appends the successors of every piece of one kind of the side to
    /// move, sources visited from low to high.
    #[verifier::loop_isolation(false)]
    #[verifier::rlimit(100)]
    fn push_kind_moves(&self, kind: Piece, move_list: &mut Vec<Board>)
        requires
            self.wf(),
            forall|i: int|
                0 <= i < old(move_list)@.len() ==> self.elem_ok(#[trigger] old(move_list)@[i]),
        ensures
            final(move_list)@ == self.succ_src(kind, self.own_srcs(kind), old(move_list)@),
            forall|i: int|
                0 <= i < final(move_list)@.len() ==> self.elem_ok(#[trigger] final(move_list)@[i]),
    {
        let pieces = iterate_over(self.get_pieces(kind, self.to_move));
        proof {
            lemma_bits_asc_props(self.piece_set(kind, self.to_move));
            assert(pieces@.take(0) =~= Seq::<u64>::empty());
        }
        let ghost acc0 = move_list@;
        let mut i: usize = 0;
        while i < pieces.len()
            invariant
                i <= pieces@.len(),
                move_list@ == self.succ_src(kind, pieces@.take(i as int), acc0),
                forall|q: int| 0 <= q < move_list@.len() ==> self.elem_ok(#[trigger] move_list@[q]),
            decreases pieces@.len() - i,
        {
            let f = pieces[i];
            let ts = self.build_targets(kind, f);
            let ghost acc1 = move_list@;
            proof {
                assert(ts@.take(0) =~= Seq::<u64>::empty());
            }
            let mut j: usize = 0;
            while j < ts.len()
                invariant
                    j <= ts@.len(),
                    move_list@ == self.succ_targets(f, ts@.take(j as int), acc1),
                    forall|q: int|
                        0 <= q < move_list@.len() ==> self.elem_ok(#[trigger] move_list@[q]),
                decreases ts@.len() - j,
            {
                let t = ts[j];
                match self.apply_move_basic(f, t) {
                    Option::Some(nb) => { move_list.push(nb) },
                    Option::None => {},
                }
                proof {
                    assert(ts@.take(j + 1).drop_last() =~= ts@.take(j as int));
                }
                j = j + 1;
            }
            proof {
                assert(ts@.take(ts@.len() as int) =~= ts@);
                assert(pieces@.take(i + 1).drop_last() =~= pieces@.take(i as int));
            }
            i = i + 1;
        }
        proof {
            assert(pieces@.take(pieces@.len() as int) =~= pieces@);
        }
    }

    /// Appends the castling successor for one wing of the side to move,
    /// when the right persists, the king does not start in check, the
    /// span is clear, and the king may stand on both the transit and the
    /// landing square.
    #[verifier::rlimit(100)]
    fn push_castle(&self, kingside: bool, move_list: &mut Vec<Board>)
        requires
            self.wf(),
            forall|i: int|
                0 <= i < old(move_list)@.len() ==> self.elem_ok(#[trigger] old(move_list)@[i]),
        ensures
            final(move_list)@ == self.succ_castle(kingside, old(move_list)@),
            forall|i: int|
                0 <= i < final(move_list)@.len() ==> self.elem_ok(#[trigger] final(move_list)@[i]),
    {
        let king: u64 = if self.to_move == 1 {
            self.white_king
        } else {
            self.black_king
        };
        let flag: bool = if self.to_move == 1 {
            if kingside {
                self.white_castle_flags.1
            } else {
                self.white_castle_flags.0
            }
        } else {
            if kingside {
                self.black_castle_flags.1
            } else {
                self.black_castle_flags.0
            }
        };
        let empties: u64 = if self.to_move == 1 {
            if kingside {
                WHITE_KS_EMPTY
            } else {
                WHITE_QS_EMPTY
            }
        } else {
            if kingside {
                BLACK_KS_EMPTY
            } else {
                BLACK_QS_EMPTY
            }
        };
        let in_check: bool = if self.to_move == 1 {
            self.white_check
        } else {
            self.black_check
        };
        if flag && !in_check && self.all_pieces & empties == 0 {
            let transit: u64 = if kingside {
                king << 1u64
            } else {
                king >> 1u64
            };
            let dest: u64 = if kingside {
                king << 2u64
            } else {
                king >> 2u64
            };
            proof {
                lemma_castle_squares();
                lemma_absorb6(
                    self.white_pawns,
                    self.white_knights,
                    self.white_bishops,
                    self.white_rooks,
                    self.white_queens,
                    self.white_king,
                );
                lemma_absorb6(
                    self.black_pawns,
                    self.black_knights,
                    self.black_bishops,
                    self.black_rooks,
                    self.black_queens,
                    self.black_king,
                );
                lemma_sets(self.all_pieces, transit, empties, 0, 0);
                lemma_free_square(*self, transit);
                lemma_sets(self.all_pieces, dest, empties, 0, 0);
                lemma_free_square(*self, dest);
            }
            let transit_ok = self.apply_move_basic(king, transit);
            if transit_ok.is_some() {
                match self.apply_move_basic(king, dest) {
                    Option::Some(nb) => { move_list.push(nb) },
                    Option::None => {},
                }
            }
        }
    }

    /// Every legal successor position, checkmate flags unset, in the
    /// fixed generation order.
    fn list_moves_basic(&self) -> (r: Vec<Board>)
        requires
            self.wf(),
        ensures
            r@ == self.succ_basic(),
            forall|i: int| 0 <= i < r@.len() ==> self.elem_ok(#[trigger] r@[i]),
    {
        let mut move_list: Vec<Board> = Vec::new();
        self.push_kind_moves(Piece::Pawn, &mut move_list);
        self.push_kind_moves(Piece::Knight, &mut move_list);
        self.push_kind_moves(Piece::Bishop, &mut move_list);
        self.push_kind_moves(Piece::Rook, &mut move_list);
        self.push_kind_moves(Piece::Queen, &mut move_list);
        self.push_kind_moves(Piece::King, &mut move_list);
        self.push_castle(false, &mut move_list);
        self.push_castle(true, &mut move_list);
        move_list
    }

    /// The side to move has at least one legal move.
    fn has_legal_move(&self) -> (r: bool)
        requires
            self.wf(),
        ensures
            r == self.has_any_move(),
    {
        let moves = self.list_moves_basic();
        moves.len() != 0
    }

    /// Fills in the checkmate flags of a freshly applied successor.
    fn complete(nb: Board) -> (r: Board)
        requires
            nb.wf(),
        ensures
            r == Board::finish(nb),
            r.wf(),
    {
        let wcm = if nb.to_move == 1 && nb.white_check {
            !nb.has_legal_move()
        } else {
            false
        };
        let bcm = if nb.to_move == 0 && nb.black_check {
            !nb.has_legal_move()
        } else {
            false
        };
        Board { white_checkmate: wcm, black_checkmate: bcm, ..nb }
    }

    /// Applies the move of the occupant of `from` to `to` for the side to
    /// move, returning the successor position, or nothing when the move
    /// would leave the mover in check. A returned board carries exact
    /// check and checkmate flags, and the side that just moved is not in
    /// check in it.
    fn apply_move(&self, from: u64, to: u64) -> (r: Option<Board>)
        requires
            self.wf(),
            move_shaped(*self, from, to),
        ensures
            r == self.apply_full(from, to),
            r matches Option::Some(nb) ==> self.elem_ok(nb),
    {
        match self.apply_move_basic(from, to) {
            Option::Some(nb) => Option::Some(Board::complete(nb)),
            Option::None => Option::None,
        }
    }

    /// Every legal successor of this position, in a deterministic order:
    /// pawn moves first, then knights, bishops, rooks, queens, the king,
    /// then the queenside and kingside castles; within a piece type, in
    /// bit order of sources and destinations. Every returned board is
    /// well formed, has the side to move flipped, and does not leave the
    /// side that just moved in check.
    #[verifier::loop_isolation(false)]
    #[verifier::rlimit(100)]
    pub fn generate_move_list(&self) -> (r: Vec<Board>)
        requires
            self.wf(),
        ensures
            r@ == self.succ_full(),
            forall|i: int| 0 <= i < r@.len() ==> self.elem_ok(#[trigger] r@[i]),
    {
        let basics = self.list_moves_basic();
        let mut move_list: Vec<Board> = Vec::new();
        proof {
            assert(basics@.take(0).map_values(|b: Board| Board::finish(b))
                =~= Seq::<Board>::empty());
        }
        let mut i: usize = 0;
        while i < basics.len()
            invariant
                i <= basics@.len(),
                move_list@ == basics@.take(i as int).map_values(|b: Board| Board::finish(b)),
                forall|q: int| 0 <= q < move_list@.len() ==> self.elem_ok(#[trigger] move_list@[q]),
            decreases basics@.len() - i,
        {
            let nb = basics[i];
            let full = Board::complete(nb);
            move_list.push(full);
            proof {
                assert(move_list@ =~= basics@.take(i + 1).map_values(|b: Board| Board::finish(b)));
            }
            i = i + 1;
        }
        proof {
            assert(basics@.take(basics@.len() as int) =~= basics@);
        }
        move_list
    }

    /// From the check flags handed in, reports which side is checkmated:
    /// the side to move, when it is in check and has no legal move, as
    /// (White checkmated, Black checkmated).
    pub fn check_checkmate(&self, checks: (bool, bool)) -> (r: (bool, bool))
        requires
            self.wf(),
        ensures
            r.0 == (self.to_move == 1 && checks.0 && !self.has_any_move()),
            r.1 == (self.to_move == 0 && checks.1 && !self.has_any_move()),
    {
        let mut wcm = false;
        let mut bcm = false;
        if (self.to_move == 0 && checks.1) || (self.to_move == 1 && checks.0) {
            if !self.has_legal_move() {
                if self.to_move == 0 {
                    bcm = true;
                } else {
                    wcm = true;
                }
            }
        }
        (wcm, bcm)
    }

    /// The squares a piece of the given kind and side could have come
    /// from to reach `to`: its attack mask taken at the destination with
    /// own and enemy occupancy swapped; for pawns, the capture mask with
    /// the colour flipped on a capture, and the one- or two-square
    /// backward steps on a push.
    pub open spec fn reverse_mask(self, kind: Piece, side: u8, to: u64) -> u64 {
        let own = if side == 1 {
            self.all_white
        } else {
            self.all_black
        };
        let enemy = if side == 1 {
            self.all_black
        } else {
            self.all_white
        };
        if to & own != 0 {
            0
        } else if kind is Pawn {
            if to & enemy != 0 {
                pawn_capture(
                    to,
                    if side == 1 {
                        0
                    } else {
                        1
                    },
                )
            } else if side == 1 && rank_of(to) == 3 {
                let mask = (to >> 8) | (to >> 16);
                if popcount(mask & self.piece_set(Piece::Pawn, side)) == 2 {
                    to >> 8
                } else {
                    mask
                }
            } else if side != 1 && rank_of(to) == 4 {
                let mask = (to << 8) | (to << 16);
                if popcount(mask & self.piece_set(Piece::Pawn, side)) == 2 {
                    to << 8
                } else {
                    mask
                }
            } else {
                if side == 1 {
                    to >> 8
                } else {
                    to << 8
                }
            }
        } else {
            match kind {
                Piece::Knight => knight_mask(to, enemy),
                Piece::Bishop => bishop_mask(to, enemy, own),
                Piece::Rook => rook_mask(to, enemy, own),
                Piece::Queen => queen_mask(to, enemy, own),
                _ => king_mask(to, enemy),
            }
        }
    }

    /// The squares a piece of the given kind and side could have come
    /// from to reach `to`.
    fn reverse_move_mask(&self, piece_type: Piece, to_move: u8, to: u64) -> (r: u64)
        ensures
            r == self.reverse_mask(piece_type, to_move, to),
    {
        let own: u64 = if to_move == 1 {
            self.all_white
        } else {
            self.all_black
        };
        let enemy: u64 = if to_move == 1 {
            self.all_black
        } else {
            self.all_white
        };
        if to & own != 0 {
            return 0;
        }
        match piece_type {
            Piece::Pawn => {
                if to & enemy != 0 {
                    pawn_capture_mask(
                        to,
                        if to_move == 1 {
                            0
                        } else {
                            1
                        },
                    )
                } else if to_move == 1 && get_bit_rf(to).0 == 3 {
                    let mask = (to >> 8u64) | (to >> 16u64);
                    if count_bits(mask & self.get_pieces(Piece::Pawn, to_move)) == 2 {
                        to >> 8u64
                    } else {
                        mask
                    }
                } else if to_move != 1 && get_bit_rf(to).0 == 4 {
                    let mask = (to << 8u64) | (to << 16u64);
                    if count_bits(mask & self.get_pieces(Piece::Pawn, to_move)) == 2 {
                        to << 8u64
                    } else {
                        mask
                    }
                } else {
                    if to_move == 1 {
                        to >> 8u64
                    } else {
                        to << 8u64
                    }
                }
            },
            Piece::Knight => knight_move_mask(to, enemy),
            Piece::Bishop => bishop_move_mask(to, enemy, own),
            Piece::Rook => rook_move_mask(to, enemy, own),
            Piece::Queen => queen_move_mask(to, enemy, own),
            Piece::King => king_move_mask(to, enemy),
        }
    }

    /// The piece kind a leading character of a move string names: an
    /// upper-case piece letter, or a file letter for a pawn.
    pub open spec fn parse_kind(c: char) -> Option<Piece> {
        if c == 'B' {
            Option::Some(Piece::Bishop)
        } else if c == 'N' {
            Option::Some(Piece::Knight)
        } else if c == 'R' {
            Option::Some(Piece::Rook)
        } else if c == 'Q' {
            Option::Some(Piece::Queen)
        } else if c == 'K' {
            Option::Some(Piece::King)
        } else if 97 <= c as int && c as int <= 104 {
            Option::Some(Piece::Pawn)
        } else {
            Option::None
        }
    }

    /// How a short-algebraic move string resolves against this position:
    /// non-ASCII input is rejected outright; the last two characters name
    /// the destination square, the first names the piece, an `x` anywhere
    /// marks a capture, and the length decides how many disambiguating
    /// characters constrain the source file or rank. The move stands only
    /// if exactly one piece of that kind can reach the destination
    /// through the disambiguation.
    pub open spec fn spec_parse(self, s: Seq<char>) -> Option<Board> {
        if !chars_ascii(s) {
            Option::None
        } else if s.len() < 2 {
            Option::None
        } else {
            let rank_v = s[s.len() - 1] as int - 49;
            let file_v = s[s.len() - 2] as int - 97;
            if !(0 <= rank_v < 8 && 0 <= file_v < 8) {
                Option::None
            } else {
                let to = 1u64 << ((8 * rank_v + file_v) as u64);
                if to & self.enemy_king() != 0 {
                    Option::None
                } else {
                    let is_capture = s.contains('x');
                    match Board::parse_kind(s[0]) {
                        Option::None => Option::None,
                        Option::Some(kind) => {
                            let dis = if kind is Pawn && is_capture {
                                rank_or_file_mask(s[0])
                            } else if (s.len() == 4 && !is_capture) || (s.len() == 5
                                && is_capture) {
                                rank_or_file_mask(s[1])
                            } else if (s.len() == 5 && !is_capture) || (s.len() == 6
                                && is_capture) {
                                if rank_or_file_mask(s[1]) == 0 || rank_or_file_mask(s[2]) == 0 {
                                    0
                                } else {
                                    rank_or_file_mask(s[1]) | rank_or_file_mask(s[2])
                                }
                            } else {
                                0xFFFFFFFFFFFFFFFFu64
                            };
                            if dis == 0 {
                                Option::None
                            } else {
                                let from = self.reverse_mask(kind, self.to_move, to) & (
                                self.piece_set(kind, self.to_move) & dis) & dis;
                                if from == 0 {
                                    Option::None
                                } else if popcount(from) > 1 {
                                    Option::None
                                } else {
                                    self.apply_full(from, to)
                                }
                            }
                        },
                    }
                }
            }
        }
    }

    /// Resolves a short-algebraic move string against this position and
    /// applies it, returning the successor position; non-ASCII, rejected,
    /// ambiguous or malformed input yields nothing.
    #[verifier::rlimit(100)]
    pub fn parse_input(&self, input: &String) -> (r: Option<Board>)
        requires
            self.wf(),
        ensures
            r == self.spec_parse(input@),
            r matches Option::Some(nb) ==> self.elem_ok(nb),
    {
        let n = input.as_str().unicode_len();
        let mut ai: usize = 0;
        while ai < n
            invariant
                ai <= n,
                n == input@.len(),
                forall|k: int| 0 <= k < ai ==> (#[trigger] input@[k]) as int <= 127,
            decreases n - ai,
        {
            if input.as_str().get_char(ai) as u32 > 127 {
                return Option::None;
            }
            ai = ai + 1;
        }
        proof {
            assert(chars_ascii(input@));
        }
        if n < 2 {
            return Option::None;
        }
        let rank_c = input.as_str().get_char(n - 1);
        let file_c = input.as_str().get_char(n - 2);
        let rank_u = rank_c as u32;
        let file_u = file_c as u32;
        if !(49 <= rank_u && rank_u <= 56 && 97 <= file_u && file_u <= 104) {
            return Option::None;
        }
        let to = coord_to_bit(((file_u - 97) as u16, (rank_u - 49) as u16));
        let eking = if self.to_move == 1 {
            self.black_king
        } else {
            self.white_king
        };
        if to & eking != 0 {
            return Option::None;
        }
        let mut is_capture = false;
        let mut ci: usize = 0;
        while ci < n
            invariant
                ci <= n,
                n == input@.len(),
                is_capture ==> input@.contains('x'),
                !is_capture ==> forall|k: int| 0 <= k < ci ==> input@[k] != 'x',
            decreases n - ci,
        {
            if input.as_str().get_char(ci) == 'x' {
                is_capture = true;
            }
            ci = ci + 1;
        }
        proof {
            if !is_capture {
                assert(!input@.contains('x'));
            }
        }
        let first = input.as_str().get_char(0);
        let first_u = first as u32;
        let kind: Piece = if first == 'B' {
            Piece::Bishop
        } else if first == 'N' {
            Piece::Knight
        } else if first == 'R' {
            Piece::Rook
        } else if first == 'Q' {
            Piece::Queen
        } else if first == 'K' {
            Piece::King
        } else if 97 <= first_u && first_u <= 104 {
            Piece::Pawn
        } else {
            return Option::None;
        };
        let is_pawn = matches!(kind, Piece::Pawn);
        let disambig: u64 = if is_pawn && is_capture {
            get_rank_or_file(first)
        } else if (n == 4 && !is_capture) || (n == 5 && is_capture) {
            get_rank_or_file(input.as_str().get_char(1))
        } else if (n == 5 && !is_capture) || (n == 6 && is_capture) {
            let d1 = get_rank_or_file(input.as_str().get_char(1));
            let d2 = get_rank_or_file(input.as_str().get_char(2));
            if d1 == 0 || d2 == 0 {
                0
            } else {
                d1 | d2
            }
        } else {
            0xFFFFFFFFFFFFFFFF
        };
        if disambig == 0 {
            return Option::None;
        }
        let rev = self.reverse_move_mask(kind, self.to_move, to);
        let available = self.get_pieces(kind, self.to_move) & disambig;
        let from = rev & available & disambig;
        if from == 0 {
            return Option::None;
        }
        if count_bits(from) > 1 {
            return Option::None;
        }
        proof {
            lemma_from_subset(
                self.reverse_mask(kind, self.to_move, to),
                self.piece_set(kind, self.to_move),
                disambig,
            );
            if popcount(from) == 0 {
                lemma_popcount_zero(from);
            }
            lemma_popcount_one(from);
            self.lemma_source_facts(kind, from);
            if to & self.own_pieces() != 0 {
                assert(self.reverse_mask(kind, self.to_move, to) == 0);
                assert(from == 0);
            }
            if kind is King {
                lemma_king_mask_near2(to, self.enemy_pieces(), from);
            }
        }
        self.apply_move(from, to)
    }
}

/// Capture destinations: the members of `s` that hold an enemy piece
/// other than the enemy king.
pub open spec fn cap_targets(s: Seq<u64>, enemy: u64, eking: u64) -> Seq<u64>
    decreases s.len(),
{
    if s.len() == 0 {
        Seq::empty()
    } else {
        cap_targets(s.drop_last(), enemy, eking) + (if s.last() & enemy != 0 && s.last() & eking
            == 0 {
            seq![s.last()]
        } else {
            Seq::empty()
        })
    }
}

/// Every character of the string is plain ASCII.
pub open spec fn chars_ascii(s: Seq<char>) -> bool {
    forall|i: int| 0 <= i < s.len() ==> (#[trigger] s[i]) as int <= 127
}

/// Mask destinations: the members of `s` other than the enemy king square.
pub open spec fn free_targets(s: Seq<u64>, eking: u64) -> Seq<u64>
    decreases s.len(),
{
    if s.len() == 0 {
        Seq::empty()
    } else {
        free_targets(s.drop_last(), eking) + (if s.last() & eking == 0 {
            seq![s.last()]
        } else {
            Seq::empty()
        })
    }
}

/// Set algebra over bitboards: subset, disjointness and union facts used
/// throughout the move-application proofs.
proof fn lemma_sets(x: u64, y: u64, a: u64, b: u64, t: u64)
    by (bit_vector)
    ensures
        (x & a == 0 && y & a == y) ==> x & y == 0 && y & x == 0,
        (x & a == x && y & b == y && a & b == 0) ==> x & y == 0 && y & x == 0,
        (is_bit(x) && x & y != 0) ==> x & y == x,
        (x & a == x && a & b == a) ==> x & b == x,
        (x & a == x) ==> (x | t) & (a | t) == (x | t) && (x & !t) & (a & !t) == (x & !t) && (x & !t)
            & a == (x & !t) && (x & !t) & !t == (x & !t),
        a & (a | b) == a && b & (a | b) == b && t & (a | t) == t && t & (a & !t) == 0,
        (a & x == 0 && b & x == 0) ==> (a | b) & x == 0 && x & (a | b) == 0,
        (is_bit(x) && is_bit(y) && x != y) ==> x & y == 0,
        (x & a == x && a & y == 0) ==> x & y == 0 && y & x == 0,
        (x & a == x && y & a == y) ==> (x | y) & a == (x | y),
        x & x == x && y & y == y && ((x & y == 0) <==> y & x == 0),
{
}

/// How `moved` relates to the boards it reads: it stays within the old
/// board plus the destination, leaves untouched boards alone, clears the
/// destination from boards the source is absent from, and carries a
/// single-square board wholesale when it is the source.
proof fn lemma_moved_keeps(b: u64, f: u64, t: u64)
    by (bit_vector)
    ensures
        moved(b, f, t) & (b | t) == moved(b, f, t),
        (f & b == 0) ==> moved(b, f, t) == b & !t,
        (f & b == 0 && t & b == 0) ==> moved(b, f, t) == b,
        (is_bit(b) && is_bit(f) && f & b != 0) ==> f == b && moved(b, f, t) == t,
{
}

/// Moving one single-square source keeps two disjoint boards disjoint.
proof fn lemma_moved_pair(b1: u64, b2: u64, f: u64, t: u64)
    by (bit_vector)
    requires
        b1 & b2 == 0,
        is_bit(f),
    ensures
        moved(b1, f, t) & moved(b2, f, t) == 0,
{
}

/// A square other than the source and destination stays occupied.
proof fn lemma_moved_keeps_bit(b: u64, f: u64, t: u64, c: u64)
    by (bit_vector)
    ensures
        (is_bit(c) && is_bit(f) && is_bit(t) && c != f && c != t && b & c != 0) ==> moved(b, f, t)
            & c != 0,
{
}

/// A union of six boards each inside `u` is inside `u`.
proof fn lemma_union6_sub(x1: u64, x2: u64, x3: u64, x4: u64, x5: u64, x6: u64, u: u64)
    by (bit_vector)
    requires
        x1 & u == x1,
        x2 & u == x2,
        x3 & u == x3,
        x4 & u == x4,
        x5 & u == x5,
        x6 & u == x6,
    ensures
        (x1 | x2 | x3 | x4 | x5 | x6) & u == (x1 | x2 | x3 | x4 | x5 | x6),
{
}

/// Each of six boards is inside their union.
proof fn lemma_absorb6(x1: u64, x2: u64, x3: u64, x4: u64, x5: u64, x6: u64)
    by (bit_vector)
    ensures
        x1 & (x1 | x2 | x3 | x4 | x5 | x6) == x1,
        x2 & (x1 | x2 | x3 | x4 | x5 | x6) == x2,
        x3 & (x1 | x2 | x3 | x4 | x5 | x6) == x3,
        x4 & (x1 | x2 | x3 | x4 | x5 | x6) == x4,
        x5 & (x1 | x2 | x3 | x4 | x5 | x6) == x5,
        x6 & (x1 | x2 | x3 | x4 | x5 | x6) == x6,
{
}

/// The mover's side, extended by the castling transit square and the
/// destination, stays clear of the other side once the destination is
/// erased there.
proof fn lemma_cross_bound(aw: u64, ab: u64, tr: u64, t: u64)
    by (bit_vector)
    ensures
        (aw & ab == 0 && tr & ab == 0) ==> ((aw | tr | t) & (ab & !t)) == 0 && ((ab & !t) & (aw | tr
            | t)) == 0,
{
}

/// Swapping a promoted pawn for a queen on the same square keeps the two
/// boards disjoint, and disjoint from every board clear of that square.
proof fn lemma_promo_pair(pm: u64, qm: u64, x: u64, t: u64)
    by (bit_vector)
    ensures
        (pm & qm == 0) ==> (pm & !t) & (qm | t) == 0 && (qm | t) & (pm & !t) == 0,
        (pm & x == 0) ==> (pm & !t) & x == 0 && x & (pm & !t) == 0,
        (qm & x == 0 && t & x == 0) ==> (qm | t) & x == 0 && x & (qm | t) == 0,
{
}

/// A pawn board clear of a rank stays clear of it: after a move whose
/// destination avoids the rank, after erasing the destination, and after
/// any move by the other side.
proof fn lemma_pawn_rank(p: u64, f: u64, t: u64, rk: u64)
    by (bit_vector)
    ensures
        (p & rk == 0) ==> ((moved(p, f, t) & !t) & rk == 0),
        (p & rk == 0 && t & rk == 0) ==> moved(p, f, t) & rk == 0,
        (p & rk == 0 && f & p == 0) ==> moved(p, f, t) & rk == 0,
{
}

/// The concrete geometry of castling: the transit and landing squares of
/// either king, and their place between king and rook.
proof fn lemma_castle_squares()
    by (bit_vector)
    ensures
        0x10u64 << 1 == 0x20u64 && 0x10u64 << 2 == 0x40u64 && 0x10u64 >> 1 == 0x8u64 && 0x10u64 >> 2
            == 0x4u64,
        is_bit(0x20u64) && is_bit(0x40u64) && is_bit(0x8u64) && is_bit(0x4u64) && is_bit(0x10u64)
            && is_bit(0x1u64) && is_bit(0x80u64),
        0x20u64 & 0x60u64 == 0x20u64 && 0x40u64 & 0x60u64 == 0x40u64 && 0x8u64 & 0xEu64 == 0x8u64
            && 0x4u64 & 0xEu64 == 0x4u64,
        0x1000000000000000u64 << 1 == 0x2000000000000000u64 && 0x1000000000000000u64 << 2
            == 0x4000000000000000u64 && 0x1000000000000000u64 >> 1 == 0x0800000000000000u64
            && 0x1000000000000000u64 >> 2 == 0x0400000000000000u64,
        is_bit(0x2000000000000000u64) && is_bit(0x4000000000000000u64) && is_bit(
            0x0800000000000000u64,
        ) && is_bit(0x0400000000000000u64) && is_bit(0x1000000000000000u64) && is_bit(
            0x0100000000000000u64,
        ) && is_bit(0x8000000000000000u64),
        0x2000000000000000u64 & 0x6000000000000000u64 == 0x2000000000000000u64
            && 0x4000000000000000u64 & 0x6000000000000000u64 == 0x4000000000000000u64
            && 0x0800000000000000u64 & 0x0E00000000000000u64 == 0x0800000000000000u64
            && 0x0400000000000000u64 & 0x0E00000000000000u64 == 0x0400000000000000u64,
{
}

/// Every piece board avoids a square outside the occupancy.
proof fn lemma_free_square(b: Board, s: u64)
    requires
        b.aggregates_ok(),
        s & b.all_pieces == 0,
    ensures
        s & b.all_white == 0 && s & b.all_black == 0,
        s & b.white_pawns == 0 && b.white_pawns & s == 0,
        s & b.white_knights == 0 && b.white_knights & s == 0,
        s & b.white_bishops == 0 && b.white_bishops & s == 0,
        s & b.white_rooks == 0 && b.white_rooks & s == 0,
        s & b.white_queens == 0 && b.white_queens & s == 0,
        s & b.white_king == 0 && b.white_king & s == 0,
        s & b.black_pawns == 0 && b.black_pawns & s == 0,
        s & b.black_knights == 0 && b.black_knights & s == 0,
        s & b.black_bishops == 0 && b.black_bishops & s == 0,
        s & b.black_rooks == 0 && b.black_rooks & s == 0,
        s & b.black_queens == 0 && b.black_queens & s == 0,
        s & b.black_king == 0 && b.black_king & s == 0,
{
    lemma_absorb6(
        b.white_pawns,
        b.white_knights,
        b.white_bishops,
        b.white_rooks,
        b.white_queens,
        b.white_king,
    );
    lemma_absorb6(
        b.black_pawns,
        b.black_knights,
        b.black_bishops,
        b.black_rooks,
        b.black_queens,
        b.black_king,
    );
    lemma_sets(0, 0, b.all_white, b.all_black, 0);
    lemma_sets(s, b.all_white, b.all_pieces, 0, 0);
    lemma_sets(s, b.all_black, b.all_pieces, 0, 0);
    lemma_sets(s, b.white_pawns, b.all_white, 0, 0);
    lemma_sets(s, b.white_knights, b.all_white, 0, 0);
    lemma_sets(s, b.white_bishops, b.all_white, 0, 0);
    lemma_sets(s, b.white_rooks, b.all_white, 0, 0);
    lemma_sets(s, b.white_queens, b.all_white, 0, 0);
    lemma_sets(s, b.white_king, b.all_white, 0, 0);
    lemma_sets(s, b.black_pawns, b.all_black, 0, 0);
    lemma_sets(s, b.black_knights, b.all_black, 0, 0);
    lemma_sets(s, b.black_bishops, b.all_black, 0, 0);
    lemma_sets(s, b.black_rooks, b.all_black, 0, 0);
    lemma_sets(s, b.black_queens, b.all_black, 0, 0);
    lemma_sets(s, b.black_king, b.all_black, 0, 0);
}

/// The shape of a move `apply_move` is prepared to take: single-square
/// source and destination, the source among the mover's pieces, the
/// destination off them and off the enemy king's square, and a castling
/// king move only with the right intact and the span between king and
/// rook clear.
pub open spec fn move_shaped(b: Board, from: u64, to: u64) -> bool {
    &&& is_bit(from)
    &&& is_bit(to)
    &&& from & b.own_pieces() != 0
    &&& to & b.own_pieces() == 0
    &&& to & b.enemy_king() == 0
    &&& (from == b.own_king() && to == b.own_king() << 2) ==> b.castle_flag(true) && b.all_pieces
        & b.castle_empties(true) == 0
    &&& (from == b.own_king() && to == b.own_king() >> 2) ==> b.castle_flag(false) && b.all_pieces
        & b.castle_empties(false) == 0
}

/// The square the castling rook lands on (the king's transit square) when
/// the move is a castling king move, and the source square otherwise.
pub open spec fn move_transit(b: Board, from: u64, to: u64) -> u64 {
    if b.to_move == 1 && from == b.white_king && to == b.white_king << 2 {
        b.white_king << 1
    } else if b.to_move == 1 && from == b.white_king && to == b.white_king >> 2 {
        b.white_king >> 1
    } else if b.to_move != 1 && from == b.black_king && to == b.black_king << 2 {
        b.black_king << 1
    } else if b.to_move != 1 && from == b.black_king && to == b.black_king >> 2 {
        b.black_king >> 1
    } else {
        from
    }
}

/// The mover's rook board after the castling rook's interim move; the
/// unchanged rook board for any other move.
pub open spec fn rooks_interim(b: Board, from: u64, to: u64) -> (u64, u64) {
    let wr_c = if b.to_move == 1 && from == b.white_king && to == b.white_king << 2 {
        moved(b.white_rooks, WHITE_KS_ROOK, b.white_king << 1)
    } else if b.to_move == 1 && from == b.white_king && to == b.white_king >> 2 {
        moved(b.white_rooks, WHITE_QS_ROOK, b.white_king >> 1)
    } else {
        b.white_rooks
    };
    let br_c = if b.to_move != 1 && from == b.black_king && to == b.black_king << 2 {
        moved(b.black_rooks, BLACK_KS_ROOK, b.black_king << 1)
    } else if b.to_move != 1 && from == b.black_king && to == b.black_king >> 2 {
        moved(b.black_rooks, BLACK_QS_ROOK, b.black_king >> 1)
    } else {
        b.black_rooks
    };
    (wr_c, br_c)
}

/// Shared ground facts for a shaped move on a well-formed board: where
/// the source, destination and transit squares stand relative to each
/// piece board, and that the interim rook boards stay disjoint from the
/// rest of their side.
proof fn lemma_move_basics(b: Board, from: u64, to: u64)
    requires
        b.wf(),
        move_shaped(b, from, to),
    ensures
        from & b.enemy_pieces() == 0,
        to & b.white_king == 0 && to & b.black_king == 0,
        to & b.white_pawns == 0 || to & b.black_pawns == 0,
        b.to_move == 1 ==> from & b.black_pawns == 0 && from & b.black_knights == 0 && from
            & b.black_bishops == 0 && from & b.black_rooks == 0 && from & b.black_queens == 0
            && from & b.black_king == 0 && to & b.white_pawns == 0 && to & b.white_knights == 0
            && to & b.white_bishops == 0 && to & b.white_rooks == 0 && to & b.white_queens == 0,
        b.to_move != 1 ==> from & b.white_pawns == 0 && from & b.white_knights == 0 && from
            & b.white_bishops == 0 && from & b.white_rooks == 0 && from & b.white_queens == 0
            && from & b.white_king == 0 && to & b.black_pawns == 0 && to & b.black_knights == 0
            && to & b.black_bishops == 0 && to & b.black_rooks == 0 && to & b.black_queens == 0,
        move_transit(b, from, to) & b.enemy_pieces() == 0,
        rooks_interim(b, from, to).0 & (b.white_rooks | move_transit(b, from, to))
            == rooks_interim(b, from, to).0,
        rooks_interim(b, from, to).1 & (b.black_rooks | move_transit(b, from, to))
            == rooks_interim(b, from, to).1,
        b.to_move == 1 ==> disjoint_from_five(
            rooks_interim(b, from, to).0,
            b.white_pawns,
            b.white_knights,
            b.white_bishops,
            b.white_queens,
            b.white_king,
        ),
        b.to_move != 1 ==> disjoint_from_five(
            rooks_interim(b, from, to).1,
            b.black_pawns,
            b.black_knights,
            b.black_bishops,
            b.black_queens,
            b.black_king,
        ),
{
    let aw = b.all_white;
    let ab = b.all_black;
    let own = b.own_pieces();
    let opp = b.enemy_pieces();
    let transit = move_transit(b, from, to);
    lemma_absorb6(
        b.white_pawns,
        b.white_knights,
        b.white_bishops,
        b.white_rooks,
        b.white_queens,
        b.white_king,
    );
    lemma_absorb6(
        b.black_pawns,
        b.black_knights,
        b.black_bishops,
        b.black_rooks,
        b.black_queens,
        b.black_king,
    );
    lemma_castle_squares();
    lemma_sets(aw, ab, 0, 0, 0);
    lemma_sets(from, own, 0, 0, 0);
    lemma_sets(from, opp, own, 0, 0);
    lemma_sets(from, b.white_pawns, aw, 0, 0);
    lemma_sets(from, b.white_knights, aw, 0, 0);
    lemma_sets(from, b.white_bishops, aw, 0, 0);
    lemma_sets(from, b.white_rooks, aw, 0, 0);
    lemma_sets(from, b.white_queens, aw, 0, 0);
    lemma_sets(from, b.white_king, aw, 0, 0);
    lemma_sets(from, b.black_pawns, ab, 0, 0);
    lemma_sets(from, b.black_knights, ab, 0, 0);
    lemma_sets(from, b.black_bishops, ab, 0, 0);
    lemma_sets(from, b.black_rooks, ab, 0, 0);
    lemma_sets(from, b.black_queens, ab, 0, 0);
    lemma_sets(from, b.black_king, ab, 0, 0);
    lemma_sets(to, b.white_pawns, own, 0, 0);
    lemma_sets(to, b.white_knights, own, 0, 0);
    lemma_sets(to, b.white_bishops, own, 0, 0);
    lemma_sets(to, b.white_rooks, own, 0, 0);
    lemma_sets(to, b.white_queens, own, 0, 0);
    lemma_sets(to, b.white_king, own, 0, 0);
    lemma_sets(to, b.black_pawns, own, 0, 0);
    lemma_sets(to, b.black_knights, own, 0, 0);
    lemma_sets(to, b.black_bishops, own, 0, 0);
    lemma_sets(to, b.black_rooks, own, 0, 0);
    lemma_sets(to, b.black_queens, own, 0, 0);
    lemma_sets(to, b.black_king, own, 0, 0);
    let rooks_c = rooks_interim(b, from, to);
    if transit != from {
        // A castling move: the transit square lies between king and rook,
        // so it is unoccupied.
        assert(transit & b.all_pieces == 0) by {
            if b.to_move == 1 && from == b.white_king && to == b.white_king << 2 {
                lemma_sets(b.all_pieces, b.white_king << 1, WHITE_KS_EMPTY, 0, 0);
            } else if b.to_move == 1 && from == b.white_king && to == b.white_king >> 2 {
                lemma_sets(b.all_pieces, b.white_king >> 1, WHITE_QS_EMPTY, 0, 0);
            } else if b.to_move != 1 && from == b.black_king && to == b.black_king << 2 {
                lemma_sets(b.all_pieces, b.black_king << 1, BLACK_KS_EMPTY, 0, 0);
            } else {
                lemma_sets(b.all_pieces, b.black_king >> 1, BLACK_QS_EMPTY, 0, 0);
            }
        }
        lemma_free_square(b, transit);
    }
    // Both rook boards lie within themselves extended by the transit
    // square, whether or not the interim move happened.
    lemma_moved_keeps(b.white_rooks, WHITE_KS_ROOK, transit);
    lemma_moved_keeps(b.white_rooks, WHITE_QS_ROOK, transit);
    lemma_moved_keeps(b.black_rooks, BLACK_KS_ROOK, transit);
    lemma_moved_keeps(b.black_rooks, BLACK_QS_ROOK, transit);
    lemma_sets(0, 0, b.white_rooks, transit, 0);
    lemma_sets(0, 0, b.black_rooks, transit, 0);
    lemma_sets(b.white_pawns, b.white_rooks, 0, 0, 0);
    lemma_sets(b.white_knights, b.white_rooks, 0, 0, 0);
    lemma_sets(b.white_bishops, b.white_rooks, 0, 0, 0);
    lemma_sets(b.white_queens, b.white_rooks, 0, 0, 0);
    lemma_sets(b.white_king, b.white_rooks, 0, 0, 0);
    lemma_sets(b.black_pawns, b.black_rooks, 0, 0, 0);
    lemma_sets(b.black_knights, b.black_rooks, 0, 0, 0);
    lemma_sets(b.black_bishops, b.black_rooks, 0, 0, 0);
    lemma_sets(b.black_queens, b.black_rooks, 0, 0, 0);
    lemma_sets(b.black_king, b.black_rooks, 0, 0, 0);
    if b.to_move == 1 {
        if rooks_c.0 != b.white_rooks {
            lemma_sets(from, transit, 0, 0, 0);
            lemma_sets(to, transit, 0, 0, 0);
            lemma_pairs_with_interim(
                rooks_c.0,
                b.white_rooks,
                transit,
                b.white_pawns,
                b.white_knights,
                b.white_bishops,
                b.white_queens,
                b.white_king,
                from,
                to,
            );
        }
    } else {
        if rooks_c.1 != b.black_rooks {
            lemma_sets(from, transit, 0, 0, 0);
            lemma_sets(to, transit, 0, 0, 0);
            lemma_pairs_with_interim(
                rooks_c.1,
                b.black_rooks,
                transit,
                b.black_pawns,
                b.black_knights,
                b.black_bishops,
                b.black_queens,
                b.black_king,
                from,
                to,
            );
        }
    }
}

/// One board is disjoint from five others.
pub open spec fn disjoint_from_five(r: u64, x1: u64, x2: u64, x3: u64, x4: u64, x5: u64) -> bool {
    r & x1 == 0 && r & x2 == 0 && r & x3 == 0 && r & x4 == 0 && r & x5 == 0 && x1 & r == 0 && x2 & r
        == 0 && x3 & r == 0 && x4 & r == 0 && x5 & r == 0
}

/// The interim rook board of a castling move is disjoint from the other
/// boards of its side, and clear of the king's source and destination.
proof fn lemma_pairs_with_interim(
    rc: u64,
    rooks: u64,
    transit: u64,
    x1: u64,
    x2: u64,
    x3: u64,
    x4: u64,
    x5: u64,
    from: u64,
    to: u64,
)
    by (bit_vector)
    requires
        rc & (rooks | transit) == rc,
        rooks & x1 == 0 && rooks & x2 == 0 && rooks & x3 == 0 && rooks & x4 == 0 && rooks & x5 == 0,
        transit & x1 == 0 && transit & x2 == 0 && transit & x3 == 0 && transit & x4 == 0 && transit
            & x5 == 0,
        from & rooks == 0 && from & transit == 0,
        to & rooks == 0 && to & transit == 0,
    ensures
        disjoint_from_five(rc, x1, x2, x3, x4, x5),
        from & rc == 0,
        to & rc == 0,
{
}

/// Applying a shaped move keeps the six boards of each side pairwise
/// disjoint, through the interim rook move, the main move and a
/// promotion.
#[verifier::rlimit(100)]
proof fn lemma_moved_disjoint(b: Board, from: u64, to: u64)
    requires
        b.wf(),
        move_shaped(b, from, to),
    ensures
        b.moved_board(from, to).disjoint_white(),
        b.moved_board(from, to).disjoint_black(),
{
    lemma_move_basics(b, from, to);
    let rc = rooks_interim(b, from, to);
    let wr_c = rc.0;
    let br_c = rc.1;
    let wp1 = moved(b.white_pawns, from, to);
    let wn1 = moved(b.white_knights, from, to);
    let wb1 = moved(b.white_bishops, from, to);
    let wr1 = moved(wr_c, from, to);
    let wq1 = moved(b.white_queens, from, to);
    let wk1 = moved(b.white_king, from, to);
    let bp1 = moved(b.black_pawns, from, to);
    let bn1 = moved(b.black_knights, from, to);
    let bb1 = moved(b.black_bishops, from, to);
    let br1 = moved(br_c, from, to);
    let bq1 = moved(b.black_queens, from, to);
    let bk1 = moved(b.black_king, from, to);
    lemma_moved_pair(b.white_pawns, b.white_knights, from, to);
    lemma_moved_pair(b.white_pawns, b.white_bishops, from, to);
    lemma_moved_pair(b.white_pawns, wr_c, from, to);
    lemma_moved_pair(b.white_pawns, b.white_queens, from, to);
    lemma_moved_pair(b.white_pawns, b.white_king, from, to);
    lemma_moved_pair(b.white_knights, b.white_bishops, from, to);
    lemma_moved_pair(b.white_knights, wr_c, from, to);
    lemma_moved_pair(b.white_knights, b.white_queens, from, to);
    lemma_moved_pair(b.white_knights, b.white_king, from, to);
    lemma_moved_pair(b.white_bishops, wr_c, from, to);
    lemma_moved_pair(b.white_bishops, b.white_queens, from, to);
    lemma_moved_pair(b.white_bishops, b.white_king, from, to);
    lemma_moved_pair(wr_c, b.white_queens, from, to);
    lemma_moved_pair(wr_c, b.white_king, from, to);
    lemma_moved_pair(b.white_queens, b.white_king, from, to);
    lemma_moved_pair(b.black_pawns, b.black_knights, from, to);
    lemma_moved_pair(b.black_pawns, b.black_bishops, from, to);
    lemma_moved_pair(b.black_pawns, br_c, from, to);
    lemma_moved_pair(b.black_pawns, b.black_queens, from, to);
    lemma_moved_pair(b.black_pawns, b.black_king, from, to);
    lemma_moved_pair(b.black_knights, b.black_bishops, from, to);
    lemma_moved_pair(b.black_knights, br_c, from, to);
    lemma_moved_pair(b.black_knights, b.black_queens, from, to);
    lemma_moved_pair(b.black_knights, b.black_king, from, to);
    lemma_moved_pair(b.black_bishops, br_c, from, to);
    lemma_moved_pair(b.black_bishops, b.black_queens, from, to);
    lemma_moved_pair(b.black_bishops, b.black_king, from, to);
    lemma_moved_pair(br_c, b.black_queens, from, to);
    lemma_moved_pair(br_c, b.black_king, from, to);
    lemma_moved_pair(b.black_queens, b.black_king, from, to);
    if b.to_move == 1 && from & b.white_pawns != 0 && to & RANK_8 != 0 {
        // White promotion: the pawn's landing square becomes a queen.
        lemma_sets(from, b.white_pawns, 0, 0, 0);
        lemma_sets(from, b.white_knights, b.white_pawns, 0, 0);
        lemma_sets(from, b.white_bishops, b.white_pawns, 0, 0);
        lemma_sets(from, wr_c, b.white_pawns, 0, 0);
        lemma_sets(from, b.white_king, b.white_pawns, 0, 0);
        lemma_moved_keeps(b.white_knights, from, to);
        lemma_moved_keeps(b.white_bishops, from, to);
        lemma_moved_keeps(wr_c, from, to);
        lemma_moved_keeps(b.white_king, from, to);
        lemma_sets(0, 0, b.white_knights, 0, to);
        lemma_sets(0, 0, b.white_bishops, 0, to);
        lemma_sets(0, 0, wr_c, 0, to);
        lemma_sets(0, 0, b.white_king, 0, to);
        lemma_sets(wn1, wq1, 0, 0, 0);
        lemma_sets(wb1, wq1, 0, 0, 0);
        lemma_sets(wr1, wq1, 0, 0, 0);
        lemma_sets(wq1, wk1, 0, 0, 0);
        lemma_promo_pair(wp1, wq1, wn1, to);
        lemma_promo_pair(wp1, wq1, wb1, to);
        lemma_promo_pair(wp1, wq1, wr1, to);
        lemma_promo_pair(wp1, wq1, wk1, to);
    }
    if b.to_move != 1 && from & b.black_pawns != 0 && to & RANK_1 != 0 {
        // Black promotion, symmetrically.
        lemma_sets(from, b.black_pawns, 0, 0, 0);
        lemma_sets(from, b.black_knights, b.black_pawns, 0, 0);
        lemma_sets(from, b.black_bishops, b.black_pawns, 0, 0);
        lemma_sets(from, br_c, b.black_pawns, 0, 0);
        lemma_sets(from, b.black_king, b.black_pawns, 0, 0);
        lemma_moved_keeps(b.black_knights, from, to);
        lemma_moved_keeps(b.black_bishops, from, to);
        lemma_moved_keeps(br_c, from, to);
        lemma_moved_keeps(b.black_king, from, to);
        lemma_sets(0, 0, b.black_knights, 0, to);
        lemma_sets(0, 0, b.black_bishops, 0, to);
        lemma_sets(0, 0, br_c, 0, to);
        lemma_sets(0, 0, b.black_king, 0, to);
        lemma_sets(bn1, bq1, 0, 0, 0);
        lemma_sets(bb1, bq1, 0, 0, 0);
        lemma_sets(br1, bq1, 0, 0, 0);
        lemma_sets(bq1, bk1, 0, 0, 0);
        lemma_promo_pair(bp1, bq1, bn1, to);
        lemma_promo_pair(bp1, bq1, bb1, to);
        lemma_promo_pair(bp1, bq1, br1, to);
        lemma_promo_pair(bp1, bq1, bk1, to);
    }
}

/// Applying a shaped move keeps the two sides on disjoint squares, with
/// the aggregates rebuilt from the moved boards.
proof fn lemma_moved_cross(b: Board, from: u64, to: u64)
    requires
        b.wf(),
        move_shaped(b, from, to),
    ensures
        b.moved_board(from, to).all_white & b.moved_board(from, to).all_black == 0,
{
    lemma_move_basics(b, from, to);
    let nb = b.moved_board(from, to);
    let aw = b.all_white;
    let ab = b.all_black;
    let transit = move_transit(b, from, to);
    let rc = rooks_interim(b, from, to);
    lemma_sets(aw, ab, 0, 0, 0);
    lemma_absorb6(
        b.white_pawns,
        b.white_knights,
        b.white_bishops,
        b.white_rooks,
        b.white_queens,
        b.white_king,
    );
    lemma_absorb6(
        b.black_pawns,
        b.black_knights,
        b.black_bishops,
        b.black_rooks,
        b.black_queens,
        b.black_king,
    );
    if b.to_move == 1 {
        let u = aw | transit | to;
        // Each moved white board stays inside the side extended by the
        // transit and destination squares.
        assert(aw & u == aw && to & u == to && transit & u == transit) by {
            lemma_sets(0, 0, aw, transit, 0);
            lemma_sets(0, 0, aw | transit, to, 0);
            lemma_sets(aw, 0, aw | transit, u, 0);
            lemma_sets(transit, 0, aw | transit, u, 0);
        }
        lemma_in_u(b.white_pawns, from, to, aw, transit, u);
        lemma_in_u(b.white_knights, from, to, aw, transit, u);
        lemma_in_u(b.white_bishops, from, to, aw, transit, u);
        lemma_in_u(b.white_queens, from, to, aw, transit, u);
        lemma_in_u(b.white_king, from, to, aw, transit, u);
        assert(moved(rc.0, from, to) & u == moved(rc.0, from, to)) by {
            lemma_sets(b.white_rooks, 0, aw, u, 0);
            lemma_sets(b.white_rooks, transit, u, 0, 0);
            lemma_sets(rc.0, 0, b.white_rooks | transit, u, 0);
            lemma_moved_keeps(rc.0, from, to);
            lemma_sets(rc.0, to, u, 0, 0);
            lemma_sets(moved(rc.0, from, to), 0, rc.0 | to, u, 0);
        }
        let wp1 = moved(b.white_pawns, from, to);
        let wq1 = moved(b.white_queens, from, to);
        assert((wp1 & !to) & u == (wp1 & !to) && (wq1 | to) & u == (wq1 | to)) by {
            lemma_sets(wp1, 0, u, 0, to);
            lemma_sets(wq1, to, u, 0, 0);
        }
        assert(nb.all_white & u == nb.all_white) by {
            if b.to_move == 1 && from & b.white_pawns != 0 && to & RANK_8 != 0 {
                lemma_union6_sub(
                    wp1 & !to,
                    moved(b.white_knights, from, to),
                    moved(b.white_bishops, from, to),
                    moved(rc.0, from, to),
                    wq1 | to,
                    moved(b.white_king, from, to),
                    u,
                );
            } else {
                lemma_union6_sub(
                    wp1,
                    moved(b.white_knights, from, to),
                    moved(b.white_bishops, from, to),
                    moved(rc.0, from, to),
                    wq1,
                    moved(b.white_king, from, to),
                    u,
                );
            }
        }
        // Each moved black board loses the destination square.
        lemma_shrunk(b.black_pawns, from, to, ab);
        lemma_shrunk(b.black_knights, from, to, ab);
        lemma_shrunk(b.black_bishops, from, to, ab);
        lemma_shrunk(b.black_rooks, from, to, ab);
        lemma_shrunk(b.black_queens, from, to, ab);
        lemma_shrunk(b.black_king, from, to, ab);
        assert(nb.all_black & (ab & !to) == nb.all_black) by {
            lemma_union6_sub(
                moved(b.black_pawns, from, to),
                moved(b.black_knights, from, to),
                moved(b.black_bishops, from, to),
                moved(rc.1, from, to),
                moved(b.black_queens, from, to),
                moved(b.black_king, from, to),
                ab & !to,
            );
        }
        lemma_cross_bound(aw, ab, transit, to);
        lemma_sets(nb.all_white, nb.all_black, u, ab & !to, 0);
    } else {
        let u = ab | transit | to;
        assert(ab & u == ab && to & u == to && transit & u == transit) by {
            lemma_sets(0, 0, ab, transit, 0);
            lemma_sets(0, 0, ab | transit, to, 0);
            lemma_sets(ab, 0, ab | transit, u, 0);
            lemma_sets(transit, 0, ab | transit, u, 0);
        }
        lemma_in_u(b.black_pawns, from, to, ab, transit, u);
        lemma_in_u(b.black_knights, from, to, ab, transit, u);
        lemma_in_u(b.black_bishops, from, to, ab, transit, u);
        lemma_in_u(b.black_queens, from, to, ab, transit, u);
        lemma_in_u(b.black_king, from, to, ab, transit, u);
        assert(moved(rc.1, from, to) & u == moved(rc.1, from, to)) by {
            lemma_sets(b.black_rooks, 0, ab, u, 0);
            lemma_sets(b.black_rooks, transit, u, 0, 0);
            lemma_sets(rc.1, 0, b.black_rooks | transit, u, 0);
            lemma_moved_keeps(rc.1, from, to);
            lemma_sets(rc.1, to, u, 0, 0);
            lemma_sets(moved(rc.1, from, to), 0, rc.1 | to, u, 0);
        }
        let bp1 = moved(b.black_pawns, from, to);
        let bq1 = moved(b.black_queens, from, to);
        assert((bp1 & !to) & u == (bp1 & !to) && (bq1 | to) & u == (bq1 | to)) by {
            lemma_sets(bp1, 0, u, 0, to);
            lemma_sets(bq1, to, u, 0, 0);
        }
        assert(nb.all_black & u == nb.all_black) by {
            if b.to_move != 1 && from & b.black_pawns != 0 && to & RANK_1 != 0 {
                lemma_union6_sub(
                    bp1 & !to,
                    moved(b.black_knights, from, to),
                    moved(b.black_bishops, from, to),
                    moved(rc.1, from, to),
                    bq1 | to,
                    moved(b.black_king, from, to),
                    u,
                );
            } else {
                lemma_union6_sub(
                    bp1,
                    moved(b.black_knights, from, to),
                    moved(b.black_bishops, from, to),
                    moved(rc.1, from, to),
                    bq1,
                    moved(b.black_king, from, to),
                    u,
                );
            }
        }
        lemma_shrunk(b.white_pawns, from, to, aw);
        lemma_shrunk(b.white_knights, from, to, aw);
        lemma_shrunk(b.white_bishops, from, to, aw);
        lemma_shrunk(b.white_rooks, from, to, aw);
        lemma_shrunk(b.white_queens, from, to, aw);
        lemma_shrunk(b.white_king, from, to, aw);
        assert(nb.all_white & (aw & !to) == nb.all_white) by {
            lemma_union6_sub(
                moved(b.white_pawns, from, to),
                moved(b.white_knights, from, to),
                moved(b.white_bishops, from, to),
                moved(rc.0, from, to),
                moved(b.white_queens, from, to),
                moved(b.white_king, from, to),
                aw & !to,
            );
        }
        lemma_cross_bound(ab, aw, transit, to);
        lemma_sets(nb.all_black, nb.all_white, u, aw & !to, 0);
    }
}

/// A moved board of the mover's side stays inside the side's squares
/// extended by the transit and destination squares.
proof fn lemma_in_u(x: u64, from: u64, to: u64, agg: u64, transit: u64, u: u64)
    by (bit_vector)
    requires
        x & agg == x,
        agg & u == agg,
        to & u == to,
    ensures
        moved(x, from, to) & u == moved(x, from, to),
{
}

/// A board the source square avoids only loses the destination square.
proof fn lemma_shrunk(x: u64, from: u64, to: u64, agg: u64)
    by (bit_vector)
    requires
        from & x == 0,
        x & agg == x,
    ensures
        moved(x, from, to) & (agg & !to) == moved(x, from, to),
{
}

/// Applying a shaped move keeps one king per side, the castle-rights
/// invariant, and the pawns off their final ranks.
#[verifier::rlimit(100)]
proof fn lemma_moved_kings_flags(b: Board, from: u64, to: u64)
    requires
        b.wf(),
        move_shaped(b, from, to),
    ensures
        b.moved_board(from, to).kings_ok(),
        b.moved_board(from, to).castle_rights_ok(),
        b.moved_board(from, to).white_pawns & RANK_8 == 0,
        b.moved_board(from, to).black_pawns & RANK_1 == 0,
{
    lemma_move_basics(b, from, to);
    lemma_castle_squares();
    let nb = b.moved_board(from, to);
    let rc = rooks_interim(b, from, to);
    // Kings: the mover's king either makes the move itself or stands
    // still; the other king is never the source and never captured.
    lemma_moved_keeps(b.white_king, from, to);
    lemma_moved_keeps(b.black_king, from, to);
    if b.to_move == 1 {
        if from & b.white_king != 0 {
            assert(moved(b.white_king, from, to) == to);
        } else {
            assert(moved(b.white_king, from, to) == b.white_king);
        }
    } else {
        if from & b.black_king != 0 {
            assert(moved(b.black_king, from, to) == to);
        } else {
            assert(moved(b.black_king, from, to) == b.black_king);
        }
    }
    // Castle rights: a surviving flag means neither the rook's corner nor
    // the king's home square was touched.
    if nb.white_castle_flags.0 || nb.white_castle_flags.1 {
        assert(from & b.white_king == 0) by {
            lemma_sets(from, b.white_king, 0, 0, 0);
        }
        assert(nb.white_king == b.white_king);
        if nb.white_castle_flags.0 {
            lemma_moved_keeps_bit(rc.0, from, to, WHITE_QS_ROOK);
        }
        if nb.white_castle_flags.1 {
            lemma_moved_keeps_bit(rc.0, from, to, WHITE_KS_ROOK);
        }
    }
    if nb.black_castle_flags.0 || nb.black_castle_flags.1 {
        assert(from & b.black_king == 0) by {
            lemma_sets(from, b.black_king, 0, 0, 0);
        }
        assert(nb.black_king == b.black_king);
        if nb.black_castle_flags.0 {
            lemma_moved_keeps_bit(rc.1, from, to, BLACK_QS_ROOK);
        }
        if nb.black_castle_flags.1 {
            lemma_moved_keeps_bit(rc.1, from, to, BLACK_KS_ROOK);
        }
    }
    // Pawns stay off their final ranks; a pawn that reaches it is
    // promoted away.
    lemma_pawn_rank(b.white_pawns, from, to, RANK_8);
    lemma_pawn_rank(b.black_pawns, from, to, RANK_1);
}

/// Applying a shaped move to a well-formed position yields a well-formed
/// candidate successor.
#[verifier::rlimit(100)]
proof fn lemma_moved_board_wf(b: Board, from: u64, to: u64)
    requires
        b.wf(),
        move_shaped(b, from, to),
    ensures
        b.moved_board(from, to).wf(),
{
    lemma_moved_disjoint(b, from, to);
    lemma_moved_cross(b, from, to);
    lemma_moved_kings_flags(b, from, to);
}

/// Capture filtering never lengthens a destination list.
proof fn lemma_cap_targets_len(s: Seq<u64>, enemy: u64, eking: u64)
    ensures
        cap_targets(s, enemy, eking).len() <= s.len(),
    decreases s.len(),
{
    if s.len() != 0 {
        lemma_cap_targets_len(s.drop_last(), enemy, eking);
    }
}

/// King filtering never lengthens a destination list.
proof fn lemma_free_targets_len(s: Seq<u64>, eking: u64)
    ensures
        free_targets(s, eking).len() <= s.len(),
    decreases s.len(),
{
    if s.len() != 0 {
        lemma_free_targets_len(s.drop_last(), eking);
    }
}

/// No piece has more than 66 candidate destinations.
proof fn lemma_targets_len(b: Board, kind: Piece, f: u64)
    ensures
        b.targets_of(kind, f).len() <= 66,
{
    match kind {
        Piece::Pawn => {
            let caps = bits_asc(pawn_capture(f, b.to_move));
            lemma_bits_asc_props(pawn_capture(f, b.to_move));
            crate::bit_functions::lemma_popcount_bound(pawn_capture(f, b.to_move));
            lemma_cap_targets_len(caps, b.enemy_pieces(), b.enemy_king());
        },
        _ => {
            let m = b.mask_of(kind, f);
            lemma_bits_asc_props(m);
            crate::bit_functions::lemma_popcount_bound(m);
            lemma_free_targets_len(bits_asc(m), b.enemy_king());
        },
    }
}

/// Trying one source's destinations appends at most that many boards.
proof fn lemma_succ_targets_len(b: Board, f: u64, ts: Seq<u64>, acc: Seq<Board>)
    ensures
        acc.len() <= b.succ_targets(f, ts, acc).len() <= acc.len() + ts.len(),
    decreases ts.len(),
{
    if ts.len() != 0 {
        lemma_succ_targets_len(b, f, ts.drop_last(), acc);
    }
}

/// Trying one kind's sources appends at most 66 boards per source.
proof fn lemma_succ_src_len(b: Board, kind: Piece, srcs: Seq<u64>, acc: Seq<Board>)
    ensures
        acc.len() <= b.succ_src(kind, srcs, acc).len() <= acc.len() + srcs.len() * 66,
    decreases srcs.len(),
{
    if srcs.len() != 0 {
        lemma_succ_src_len(b, kind, srcs.drop_last(), acc);
        lemma_targets_len(b, kind, srcs.last());
        lemma_succ_targets_len(
            b,
            srcs.last(),
            b.targets_of(kind, srcs.last()),
            b.succ_src(kind, srcs.drop_last(), acc),
        );
    }
}

/// The twelve piece boards of a well-formed position are pairwise
/// disjoint, across colours as well as within one colour.
#[verifier::rlimit(100)]
pub proof fn lemma_pieces_pairwise_disjoint(b: Board)
    requires
        b.disjoint_white(),
        b.disjoint_black(),
        b.aggregates_ok(),
    ensures
        forall|k1: Piece, s1: u8, k2: Piece, s2: u8|
            (s1 == 1 || s1 == 0) && (s2 == 1 || s2 == 0) && !(k1 == k2 && s1 == s2)
                ==> #[trigger] (b.piece_set(k1, s1) & b.piece_set(k2, s2)) == 0,
{
    lemma_absorb6(
        b.white_pawns,
        b.white_knights,
        b.white_bishops,
        b.white_rooks,
        b.white_queens,
        b.white_king,
    );
    lemma_absorb6(
        b.black_pawns,
        b.black_knights,
        b.black_bishops,
        b.black_rooks,
        b.black_queens,
        b.black_king,
    );
    lemma_sets(b.all_white, b.all_black, 0, 0, 0);
    assert forall|k1: Piece, s1: u8, k2: Piece, s2: u8|
        (s1 == 1 || s1 == 0) && (s2 == 1 || s2 == 0) && !(k1 == k2 && s1 == s2) implies #[trigger] (
    b.piece_set(k1, s1) & b.piece_set(k2, s2)) == 0 by {
        lemma_sets(
            b.piece_set(k1, s1),
            b.piece_set(k2, s2),
            if s1 == 1 {
                b.all_white
            } else {
                b.all_black
            },
            if s2 == 1 {
                b.all_white
            } else {
                b.all_black
            },
            0,
        );
    }
}

/// The position-invariant laws of move application, stated of any
/// well-formed position and shaped move: the move is rejected exactly
/// when the side that made it would be in check; and a returned
/// successor keeps the aggregates equal to the unions of their piece
/// boards, exactly one king square per side, pairwise-disjoint piece
/// boards, check flags that record exactly whether each king is
/// attacked, and the side that just moved out of check.
#[verifier::rlimit(100)]
pub proof fn lemma_apply_move_laws(b: Board, from: u64, to: u64)
    requires
        b.wf(),
        move_shaped(b, from, to),
    ensures
        b.apply_full(from, to) is None <==> (if b.to_move == 1 {
            b.moved_board(from, to).white_in_check()
        } else {
            b.moved_board(from, to).black_in_check()
        }),
        b.apply_full(from, to) matches Option::Some(nb) ==> nb.all_white == nb.white_union()
            && nb.all_black == nb.black_union() && nb.all_pieces == (nb.all_white | nb.all_black),
        b.apply_full(from, to) matches Option::Some(nb) ==> popcount(nb.white_king) == 1
            && popcount(nb.black_king) == 1,
        b.apply_full(from, to) matches Option::Some(nb) ==> forall|
            k1: Piece,
            s1: u8,
            k2: Piece,
            s2: u8,
        |
            (s1 == 1 || s1 == 0) && (s2 == 1 || s2 == 0) && !(k1 == k2 && s1 == s2)
                ==> #[trigger] (nb.piece_set(k1, s1) & nb.piece_set(k2, s2)) == 0,
        b.apply_full(from, to) matches Option::Some(nb) ==> nb.white_check == nb.white_in_check()
            && nb.black_check == nb.black_in_check(),
        b.apply_full(from, to) matches Option::Some(nb) ==> (b.to_move == 1 ==> !nb.white_check)
            && (b.to_move != 1 ==> !nb.black_check),
{
    lemma_moved_board_wf(b, from, to);
    let m = b.moved_board(from, to);
    if b.apply_basic(from, to) is Some {
        let nb = Board::finish(m);
        assert(nb.wf());
        lemma_popcount_single(nb.white_king);
        lemma_popcount_single(nb.black_king);
        lemma_pieces_pairwise_disjoint(nb);
    }
}

/// A position has fewer than 26000 legal successors.
pub proof fn lemma_succ_basic_len(b: Board)
    ensures
        b.succ_basic().len() <= 26000,
{
    let e = Seq::<Board>::empty();
    lemma_bits_asc_props(b.piece_set(Piece::Pawn, b.to_move));
    lemma_bits_asc_props(b.piece_set(Piece::Knight, b.to_move));
    lemma_bits_asc_props(b.piece_set(Piece::Bishop, b.to_move));
    lemma_bits_asc_props(b.piece_set(Piece::Rook, b.to_move));
    lemma_bits_asc_props(b.piece_set(Piece::Queen, b.to_move));
    lemma_bits_asc_props(b.piece_set(Piece::King, b.to_move));
    crate::bit_functions::lemma_popcount_bound(b.piece_set(Piece::Pawn, b.to_move));
    crate::bit_functions::lemma_popcount_bound(b.piece_set(Piece::Knight, b.to_move));
    crate::bit_functions::lemma_popcount_bound(b.piece_set(Piece::Bishop, b.to_move));
    crate::bit_functions::lemma_popcount_bound(b.piece_set(Piece::Rook, b.to_move));
    crate::bit_functions::lemma_popcount_bound(b.piece_set(Piece::Queen, b.to_move));
    crate::bit_functions::lemma_popcount_bound(b.piece_set(Piece::King, b.to_move));
    let s1 = b.succ_src(Piece::Pawn, b.own_srcs(Piece::Pawn), e);
    let s2 = b.succ_src(Piece::Knight, b.own_srcs(Piece::Knight), s1);
    let s3 = b.succ_src(Piece::Bishop, b.own_srcs(Piece::Bishop), s2);
    let s4 = b.succ_src(Piece::Rook, b.own_srcs(Piece::Rook), s3);
    let s5 = b.succ_src(Piece::Queen, b.own_srcs(Piece::Queen), s4);
    let s6 = b.succ_src(Piece::King, b.own_srcs(Piece::King), s5);
    lemma_succ_src_len(b, Piece::Pawn, b.own_srcs(Piece::Pawn), e);
    lemma_succ_src_len(b, Piece::Knight, b.own_srcs(Piece::Knight), s1);
    lemma_succ_src_len(b, Piece::Bishop, b.own_srcs(Piece::Bishop), s2);
    lemma_succ_src_len(b, Piece::Rook, b.own_srcs(Piece::Rook), s3);
    lemma_succ_src_len(b, Piece::Queen, b.own_srcs(Piece::Queen), s4);
    lemma_succ_src_len(b, Piece::King, b.own_srcs(Piece::King), s5);
    assert(s6.len() <= 6 * 64 * 66);
}

/// A piece standing one king step away from a square is never two files
/// from it on the same rank.
proof fn lemma_king_mask_near2(t: u64, own_pieces: u64, f: u64)
    by (bit_vector)
    ensures
        (is_bit(t) && is_bit(f) && f & king_mask(t, own_pieces) != 0) ==> t != f << 2 && t != f
            >> 2,
{
}

/// The resolved source square of a parsed move lies in the piece set and
/// in the reverse mask it was filtered by.
proof fn lemma_from_subset(rev: u64, ps: u64, dis: u64)
    by (bit_vector)
    ensures
        ((rev & (ps & dis)) & dis) & ps == ((rev & (ps & dis)) & dis),
        ((rev & (ps & dis)) & dis) & rev == ((rev & (ps & dis)) & dis),
        rev == 0 ==> ((rev & (ps & dis)) & dis) == 0,
{
}

/// A pawn off its final rank steps forward to a single square, and off
/// its double-step rank two squares forward.
proof fn lemma_pawn_steps(p: u64)
    by (bit_vector)
    ensures
        (is_bit(p) && p & RANK_8 == 0) ==> is_bit(p << 8),
        (is_bit(p) && p & RANK_2 != 0) ==> is_bit(p << 16),
        (is_bit(p) && p & RANK_1 == 0) ==> is_bit(p >> 8),
        (is_bit(p) && p & RANK_7 != 0) ==> is_bit(p >> 16),
{
}

/// The king's one-step mask never contains the square two files away that
/// a castling king would land on.
proof fn lemma_king_mask_near(k: u64, own_pieces: u64)
    by (bit_vector)
    ensures
        is_bit(k) ==> king_mask(k, own_pieces) & (k << 2) == 0 && king_mask(k, own_pieces) & (k
            >> 2) == 0,
{
}

/// The starting position satisfies the board invariant.
proof fn lemma_start_board_wf()
    ensures
        Board::start_board().wf(),
{
    let b = Board::start_board();
    assert(b.disjoint_white() && b.disjoint_black() && b.aggregates_ok() && b.kings_ok()
        && b.castle_rights_ok() && b.white_pawns & RANK_8 == 0 && b.black_pawns & RANK_1 == 0) by {
        assert(0x000000000000FF00u64 & 0x0000000000000042u64 == 0 && 0x000000000000FF00u64
            & 0x0000000000000024u64 == 0 && 0x000000000000FF00u64 & 0x0000000000000081u64 == 0
            && 0x000000000000FF00u64 & 0x0000000000000008u64 == 0 && 0x000000000000FF00u64
            & 0x0000000000000010u64 == 0 && 0x0000000000000042u64 & 0x0000000000000024u64 == 0
            && 0x0000000000000042u64 & 0x0000000000000081u64 == 0 && 0x0000000000000042u64
            & 0x0000000000000008u64 == 0 && 0x0000000000000042u64 & 0x0000000000000010u64 == 0
            && 0x0000000000000024u64 & 0x0000000000000081u64 == 0 && 0x0000000000000024u64
            & 0x0000000000000008u64 == 0 && 0x0000000000000024u64 & 0x0000000000000010u64 == 0
            && 0x0000000000000081u64 & 0x0000000000000008u64 == 0 && 0x0000000000000081u64
            & 0x0000000000000010u64 == 0 && 0x0000000000000008u64 & 0x0000000000000010u64 == 0)
            by (bit_vector);
        assert(0x00FF000000000000u64 & 0x4200000000000000u64 == 0 && 0x00FF000000000000u64
            & 0x2400000000000000u64 == 0 && 0x00FF000000000000u64 & 0x8100000000000000u64 == 0
            && 0x00FF000000000000u64 & 0x0800000000000000u64 == 0 && 0x00FF000000000000u64
            & 0x1000000000000000u64 == 0 && 0x4200000000000000u64 & 0x2400000000000000u64 == 0
            && 0x4200000000000000u64 & 0x8100000000000000u64 == 0 && 0x4200000000000000u64
            & 0x0800000000000000u64 == 0 && 0x4200000000000000u64 & 0x1000000000000000u64 == 0
            && 0x2400000000000000u64 & 0x8100000000000000u64 == 0 && 0x2400000000000000u64
            & 0x0800000000000000u64 == 0 && 0x2400000000000000u64 & 0x1000000000000000u64 == 0
            && 0x8100000000000000u64 & 0x0800000000000000u64 == 0 && 0x8100000000000000u64
            & 0x1000000000000000u64 == 0 && 0x0800000000000000u64 & 0x1000000000000000u64 == 0)
            by (bit_vector);
        assert(0x000000000000FF00u64 | 0x0000000000000042u64 | 0x0000000000000024u64
            | 0x0000000000000081u64 | 0x0000000000000008u64 | 0x0000000000000010u64
            == 0x000000000000FFFFu64 && 0x00FF000000000000u64 | 0x4200000000000000u64
            | 0x2400000000000000u64 | 0x8100000000000000u64 | 0x0800000000000000u64
            | 0x1000000000000000u64 == 0xFFFF000000000000u64 && 0x000000000000FFFFu64
            | 0xFFFF000000000000u64 == 0xFFFF00000000FFFFu64 && 0x000000000000FFFFu64
            & 0xFFFF000000000000u64 == 0 && is_bit(0x0000000000000010u64) && is_bit(
            0x1000000000000000u64,
        ) && 0x0000000000000081u64 & 0x1u64 != 0 && 0x0000000000000081u64 & 0x80u64 != 0
            && 0x8100000000000000u64 & 0x0100000000000000u64 != 0 && 0x8100000000000000u64
            & 0x8000000000000000u64 != 0 && 0x000000000000FF00u64 & 0xFF00000000000000u64 == 0
            && 0x00FF000000000000u64 & 0x00000000000000FFu64 == 0) by (bit_vector);
    }
    assert(!b.white_in_check() && !b.black_in_check()) by {
        assert(pawn_capture(0x0000000000000010u64, 1) & 0x00FF000000000000u64 == 0 && knight_mask(
            0x0000000000000010u64,
            0x000000000000FFFFu64,
        ) & 0x4200000000000000u64 == 0 && king_mask(0x0000000000000010u64, 0x000000000000FFFFu64)
            & 0x1000000000000000u64 == 0 && pawn_capture(0x1000000000000000u64, 0)
            & 0x000000000000FF00u64 == 0 && knight_mask(0x1000000000000000u64, 0xFFFF000000000000u64)
            & 0x0000000000000042u64 == 0 && king_mask(0x1000000000000000u64, 0xFFFF000000000000u64)
            & 0x0000000000000010u64 == 0) by (bit_vector);
        assert(bishop_mask(0x0000000000000010u64, 0x000000000000FFFFu64, 0xFFFF000000000000u64) & (
        0x2400000000000000u64 | 0x0800000000000000u64) == 0 && rook_mask(
            0x0000000000000010u64,
            0x000000000000FFFFu64,
            0xFFFF000000000000u64,
        ) & (0x8100000000000000u64 | 0x0800000000000000u64) == 0) by (bit_vector);
        assert(bishop_mask(0x1000000000000000u64, 0xFFFF000000000000u64, 0x000000000000FFFFu64) & (
        0x0000000000000024u64 | 0x0000000000000008u64) == 0 && rook_mask(
            0x1000000000000000u64,
            0xFFFF000000000000u64,
            0x000000000000FFFFu64,
        ) & (0x0000000000000081u64 | 0x0000000000000008u64) == 0) by (bit_vector);
    }
}

} // verus!
