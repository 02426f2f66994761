//! The search: a static evaluator over positions and a depth-limited
//! alpha-beta minimax that picks the side to move's best successor.
//!
//! Scores are signed integers in tenths of a pawn, positive for a White
//! advantage. Checkmates evaluate to the mate sentinels; the search
//! windows start at the infinities.
use vstd::prelude::*;

use crate::bit_functions::count_bits;
use crate::bit_functions::king_forward;
use crate::bit_functions::king_forward_mask;
use crate::bit_functions::popcount;
use crate::board::lemma_succ_basic_len;
use crate::board::Board;
use crate::constants::CENTRE;
use crate::constants::FILE_A;
use crate::constants::FILE_B;
use crate::constants::FILE_C;
use crate::constants::FILE_D;
use crate::constants::FILE_E;
use crate::constants::FILE_F;
use crate::constants::FILE_G;
use crate::constants::FILE_H;

verus! {

/// The score of a checkmated position, in tenths of a pawn.
pub const SCORE_MATE: i64 = 99990;

/// The search window's infinity: beyond any position's evaluation.
pub const SCORE_INF: i64 = 1000000;

/// One side's material in tenths of a pawn: pawn 10, knight and bishop
/// 30, rook 50, queen 90; the king is not counted.
pub open spec fn material_of(p: u64, n: u64, b: u64, r: u64, q: u64) -> int {
    (10 * popcount(p) + 30 * popcount(n) + 30 * popcount(b) + 50 * popcount(r) + 90 * popcount(
        q,
    )) as int
}

/// The number of files holding more than one pawn of the given board.
pub open spec fn doubled_files(pawns: u64) -> int {
    (if popcount(FILE_A & pawns) > 1 {
        1int
    } else {
        0
    }) + (if popcount(FILE_B & pawns) > 1 {
        1int
    } else {
        0
    }) + (if popcount(FILE_C & pawns) > 1 {
        1int
    } else {
        0
    }) + (if popcount(FILE_D & pawns) > 1 {
        1int
    } else {
        0
    }) + (if popcount(FILE_E & pawns) > 1 {
        1int
    } else {
        0
    }) + (if popcount(FILE_F & pawns) > 1 {
        1int
    } else {
        0
    }) + (if popcount(FILE_G & pawns) > 1 {
        1int
    } else {
        0
    }) + (if popcount(FILE_H & pawns) > 1 {
        1int
    } else {
        0
    })
}

/// One side's king safety: castle rights still held plus own pawns on the
/// three shield squares ahead of the king, weighted by a full pawn.
pub open spec fn king_safety_of(flags: (bool, bool), king: u64, pawns: u64, side: u8) -> int {
    10 * ((if flags.0 {
        1int
    } else {
        0
    }) + (if flags.1 {
        1int
    } else {
        0
    }) + popcount(king_forward(king, side) & pawns))
}

/// The number of legal moves each side would have if it were its turn:
/// White's count minus Black's.
pub open spec fn mobility_of(b: Board) -> int {
    (Board { to_move: 1, ..b }).succ_basic().len() - (Board { to_move: 0, ..b }).succ_basic().len()
}

/// The static evaluation of a position, in tenths of a pawn, positive for
/// White: the mate sentinel for a checkmate, else material plus a central
/// pawn bonus, a check bonus, mobility, king safety and the doubled-pawn
/// term.
pub open spec fn spec_evaluate(b: Board) -> int {
    let wcm = b.to_move == 1 && b.white_in_check() && !b.has_any_move();
    let bcm = b.to_move == 0 && b.black_in_check() && !b.has_any_move();
    if wcm {
        -SCORE_MATE as int
    } else if bcm {
        SCORE_MATE as int
    } else {
        material_of(b.white_pawns, b.white_knights, b.white_bishops, b.white_rooks, b.white_queens)
            - material_of(
            b.black_pawns,
            b.black_knights,
            b.black_bishops,
            b.black_rooks,
            b.black_queens,
        ) + (popcount(b.white_pawns & CENTRE) - popcount(b.black_pawns & CENTRE)) + (if b.black_in_check() {
            5int
        } else {
            0
        }) - (if b.white_in_check() {
            5int
        } else {
            0
        }) + mobility_of(b) + king_safety_of(b.white_castle_flags, b.white_king, b.white_pawns, 1)
            - king_safety_of(b.black_castle_flags, b.black_king, b.black_pawns, 0) + 5 * (
        doubled_files(b.white_pawns) - doubled_files(b.black_pawns))
    }
}

/// The number of files of `pawns` holding more than one pawn.
fn count_doubled_files(pawns: u64) -> (r: i64)
    ensures
        r == doubled_files(pawns),
        0 <= r <= 8,
{
    let mut d: i64 = 0;
    if count_bits(FILE_A & pawns) > 1 {
        d = d + 1;
    }
    if count_bits(FILE_B & pawns) > 1 {
        d = d + 1;
    }
    if count_bits(FILE_C & pawns) > 1 {
        d = d + 1;
    }
    if count_bits(FILE_D & pawns) > 1 {
        d = d + 1;
    }
    if count_bits(FILE_E & pawns) > 1 {
        d = d + 1;
    }
    if count_bits(FILE_F & pawns) > 1 {
        d = d + 1;
    }
    if count_bits(FILE_G & pawns) > 1 {
        d = d + 1;
    }
    if count_bits(FILE_H & pawns) > 1 {
        d = d + 1;
    }
    d
}

/// The static evaluation of a position.
#[verifier::rlimit(50)]
fn evaluate(board: &Board) -> (r: i64)
    requires
        board.wf(),
    ensures
        r as int == spec_evaluate(*board),
{
    let checks = board.check_check();
    let checkmates = board.check_checkmate(checks);

    if checkmates.0 {
        return -SCORE_MATE;
    }
    if checkmates.1 {
        return SCORE_MATE;
    }
    let white_material: i64 = 10 * (count_bits(board.white_pawns) as i64) + 30 * (count_bits(
        board.white_knights,
    ) as i64) + 30 * (count_bits(board.white_bishops) as i64) + 50 * (count_bits(board.white_rooks)
        as i64) + 90 * (count_bits(board.white_queens) as i64);
    let black_material: i64 = 10 * (count_bits(board.black_pawns) as i64) + 30 * (count_bits(
        board.black_knights,
    ) as i64) + 30 * (count_bits(board.black_bishops) as i64) + 50 * (count_bits(board.black_rooks)
        as i64) + 90 * (count_bits(board.black_queens) as i64);
    let material_advantage: i64 = white_material - black_material;

    let centrality_advantage: i64 = count_bits(board.white_pawns & CENTRE) as i64 - count_bits(
        board.black_pawns & CENTRE,
    ) as i64;

    let checks_advantage: i64 = (if checks.1 {
        5i64
    } else {
        0
    }) - (if checks.0 {
        5i64
    } else {
        0
    });

    let wb: Board = Board { to_move: 1, ..*board };
    let bb: Board = Board { to_move: 0, ..*board };
    proof {
        assert(wb.wf() && bb.wf());
        lemma_succ_basic_len(wb);
        lemma_succ_basic_len(bb);
    }
    let white_mobility = wb.generate_move_list().len();
    let black_mobility = bb.generate_move_list().len();
    let mobility_advantage: i64 = white_mobility as i64 - black_mobility as i64;

    let white_castle_potential: i64 = (if board.white_castle_flags.0 {
        1i64
    } else {
        0
    }) + (if board.white_castle_flags.1 {
        1i64
    } else {
        0
    });
    let white_king_shield: i64 = count_bits(
        king_forward_mask(board.white_king, 1) & board.white_pawns,
    ) as i64;
    let black_castle_potential: i64 = (if board.black_castle_flags.0 {
        1i64
    } else {
        0
    }) + (if board.black_castle_flags.1 {
        1i64
    } else {
        0
    });
    let black_king_shield: i64 = count_bits(
        king_forward_mask(board.black_king, 0) & board.black_pawns,
    ) as i64;
    let king_safety_advantage: i64 = 10 * (white_castle_potential + white_king_shield) - 10 * (
    black_castle_potential + black_king_shield);

    let doubled_pawn_advantage: i64 = 5 * (count_doubled_files(board.white_pawns)
        - count_doubled_files(board.black_pawns));

    material_advantage + centrality_advantage + checks_advantage + mobility_advantage
        + king_safety_advantage + doubled_pawn_advantage
}

/// What the alpha-beta search returns for a position with the given fuel
/// and window: White maximises, Black minimises; a leaf, or a position
/// without moves, yields its static evaluation and itself; an inner node
/// yields the best evaluation over its successors and the first successor
/// realising it, pruned as soon as the window closes.
pub open spec fn spec_ab(b: Board, fuel: nat, alpha: int, beta: int) -> (int, Board)
    decreases fuel, 0int, 0int,
{
    if fuel == 0 {
        (spec_evaluate(b), b)
    } else {
        let moves = b.succ_full();
        if moves.len() == 0 {
            (spec_evaluate(b), b)
        } else if b.to_move == 1 {
            spec_ab_max(moves, 0, (fuel - 1) as nat, -SCORE_INF as int, Board::start_board(), alpha, beta)
        } else {
            spec_ab_min(moves, 0, (fuel - 1) as nat, SCORE_INF as int, Board::start_board(), alpha, beta)
        }
    }
}

/// The maximising side's fold over the successor list.
pub open spec fn spec_ab_max(
    moves: Seq<Board>,
    i: int,
    fuel: nat,
    best: int,
    best_board: Board,
    alpha: int,
    beta: int,
) -> (int, Board)
    decreases fuel, 1int, moves.len() - i,
{
    if i < 0 || i >= moves.len() {
        (best, best_board)
    } else {
        let child = spec_ab(moves[i], fuel, alpha, beta);
        let best2 = if child.0 > best {
            child.0
        } else {
            best
        };
        let bb2 = if child.0 > best {
            moves[i]
        } else {
            best_board
        };
        let alpha2 = if best2 > alpha {
            best2
        } else {
            alpha
        };
        if best2 >= beta {
            (best2, bb2)
        } else {
            spec_ab_max(moves, i + 1, fuel, best2, bb2, alpha2, beta)
        }
    }
}

/// The minimising side's fold over the successor list.
pub open spec fn spec_ab_min(
    moves: Seq<Board>,
    i: int,
    fuel: nat,
    best: int,
    best_board: Board,
    alpha: int,
    beta: int,
) -> (int, Board)
    decreases fuel, 1int, moves.len() - i,
{
    if i < 0 || i >= moves.len() {
        (best, best_board)
    } else {
        let child = spec_ab(moves[i], fuel, alpha, beta);
        let best2 = if child.0 < best {
            child.0
        } else {
            best
        };
        let bb2 = if child.0 < best {
            moves[i]
        } else {
            best_board
        };
        let beta2 = if best2 < beta {
            best2
        } else {
            beta
        };
        if best2 <= alpha {
            (best2, bb2)
        } else {
            spec_ab_min(moves, i + 1, fuel, best2, bb2, alpha, beta2)
        }
    }
}

/// A node of the search tree: a position with its static and deep
/// evaluations and, once searched, the chosen successor.
pub struct Node {
    pub depth: usize,
    pub board: Board,
    pub static_eval: i64,
    pub deep_eval: i64,
    pub best_next_move: Option<Board>,
}

impl Node {
    /// Wraps a position as a search root.
    pub fn new(board: &Board) -> (r: Node)
        requires
            board.wf(),
        ensures
            r.depth == 0,
            r.board == *board,
            r.static_eval as int == spec_evaluate(*board),
            r.deep_eval == r.static_eval,
            r.best_next_move is None,
    {
        let eval = evaluate(board);
        Node { depth: 0, board: *board, static_eval: eval, deep_eval: eval, best_next_move: Option::None }
    }

    /// The alpha-beta evaluation of `board` standing at `level`, searched
    /// to `depth`, with the window (`alpha`, `beta`).
    #[verifier::rlimit(100)]
    pub fn get_ab_eval(board: &Board, level: usize, depth: usize, alpha: i64, beta: i64) -> (r: (
        i64,
        Board,
    ))
        requires
            board.wf(),
            level <= depth,
        ensures
            r.0 as int == spec_ab(*board, (depth - level) as nat, alpha as int, beta as int).0,
            r.1 == spec_ab(*board, (depth - level) as nat, alpha as int, beta as int).1,
        decreases depth - level,
    {
        let ghost fuel = (depth - level) as nat;
        if level == depth {
            let e = evaluate(board);
            return (e, *board);
        }
        let move_list = board.generate_move_list();
        if move_list.len() == 0 {
            let e = evaluate(board);
            return (e, *board);
        }
        let ghost goal = spec_ab(*board, fuel, alpha as int, beta as int);
        if board.to_move == 1 {
            let mut best_eval: i64 = -SCORE_INF;
            let mut best_board: Board = Board::new();
            let mut a: i64 = alpha;
            let mut i: usize = 0;
            while i < move_list.len()
                invariant_except_break
                    i <= move_list@.len(),
                    board.wf(),
                    level < depth,
                    move_list@ == board.succ_full(),
                    forall|q: int|
                        0 <= q < move_list@.len() ==> board.elem_ok(#[trigger] move_list@[q]),
                    goal == spec_ab_max(
                        move_list@,
                        i as int,
                        (depth - level - 1) as nat,
                        best_eval as int,
                        best_board,
                        a as int,
                        beta as int,
                    ),
                ensures
                    goal == (best_eval as int, best_board),
                decreases move_list@.len() - i,
            {
                let child = move_list[i];
                let (move_eval, _) = Node::get_ab_eval(&child, level + 1, depth, a, beta);
                if move_eval > best_eval {
                    best_eval = move_eval;
                    best_board = child;
                }
                if best_eval > a {
                    a = best_eval;
                }
                if best_eval >= beta {
                    break ;
                }
                i = i + 1;
            }
            (best_eval, best_board)
        } else {
            let mut best_eval: i64 = SCORE_INF;
            let mut best_board: Board = Board::new();
            let mut bt: i64 = beta;
            let mut i: usize = 0;
            while i < move_list.len()
                invariant_except_break
                    i <= move_list@.len(),
                    board.wf(),
                    level < depth,
                    move_list@ == board.succ_full(),
                    forall|q: int|
                        0 <= q < move_list@.len() ==> board.elem_ok(#[trigger] move_list@[q]),
                    goal == spec_ab_min(
                        move_list@,
                        i as int,
                        (depth - level - 1) as nat,
                        best_eval as int,
                        best_board,
                        alpha as int,
                        bt as int,
                    ),
                ensures
                    goal == (best_eval as int, best_board),
                decreases move_list@.len() - i,
            {
                let child = move_list[i];
                let (move_eval, _) = Node::get_ab_eval(&child, level + 1, depth, alpha, bt);
                if move_eval < best_eval {
                    best_eval = move_eval;
                    best_board = child;
                }
                if best_eval < bt {
                    bt = best_eval;
                }
                if best_eval <= alpha {
                    break ;
                }
                i = i + 1;
            }
            (best_eval, best_board)
        }
    }

    /// Runs the search to the given depth and records the deep evaluation
    /// and the chosen successor on this node.
    pub fn process_node_cell(&mut self, depth: usize)
        requires
            old(self).board.wf(),
        ensures
            final(self).deep_eval as int == spec_ab(
                old(self).board,
                depth as nat,
                -SCORE_INF as int,
                SCORE_INF as int,
            ).0,
            final(self).best_next_move == Option::Some(
                spec_ab(old(self).board, depth as nat, -SCORE_INF as int, SCORE_INF as int).1,
            ),
            final(self).board == old(self).board,
            final(self).static_eval == old(self).static_eval,
            final(self).depth == old(self).depth,
    {
        let (deep_eval, next_move) = Node::get_ab_eval(&self.board, 0, depth, -SCORE_INF, SCORE_INF);
        self.deep_eval = deep_eval;
        self.best_next_move = Option::Some(next_move);
    }
}

} // verus!
