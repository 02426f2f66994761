use crabablanca::board::Board;
use crabablanca::engine::Node;
use crabablanca::engine::SCORE_MATE;

/// Rebuilds the aggregates and check flags of a hand-made position.
fn settle(mut b: Board) -> Board {
    b.all_white = b.white_pawns | b.white_knights | b.white_bishops | b.white_rooks
        | b.white_queens | b.white_king;
    b.all_black = b.black_pawns | b.black_knights | b.black_bishops | b.black_rooks
        | b.black_queens | b.black_king;
    b.all_pieces = b.all_white | b.all_black;
    let checks = b.check_check();
    b.white_check = checks.0;
    b.black_check = checks.1;
    b
}

#[test]
fn start_position_evaluates_even() {
    // Material, mobility, king safety and pawn structure are symmetric.
    let b = Board::new();
    let node = Node::new(&b);
    assert_eq!(node.static_eval, 0);
    assert_eq!(node.deep_eval, node.static_eval);
    assert!(node.best_next_move.is_none());
}

#[test]
fn depth_one_search_picks_the_best_child() {
    // The root's deep evaluation at depth 1 is the maximum static
    // evaluation over its successors, and the chosen successor is one of
    // them.
    let b = Board::new();
    let children = b.generate_move_list();
    assert_eq!(children.len(), 20);
    let mut best: i64 = i64::MIN;
    for c in children.iter() {
        let e = Node::new(c).static_eval;
        if e > best {
            best = e;
        }
    }
    let mut node = Node::new(&b);
    node.process_node_cell(1);
    assert_eq!(node.deep_eval, best);
    let chosen = node.best_next_move.expect("a move was chosen");
    assert!(children.contains(&chosen));
}

#[test]
fn fools_mate_is_found_at_depth_two() {
    // After 1.f3 e5 2.g4 Black mates with the queen to h4; the search
    // returns the mating successor and the mate score for White.
    let b = Board::new();
    let b = b.parse_input(&"f3".to_string()).unwrap();
    let b = b.parse_input(&"e5".to_string()).unwrap();
    let b = b.parse_input(&"g4".to_string()).unwrap();
    assert_eq!(b.to_move, 0);
    let mut node = Node::new(&b);
    node.process_node_cell(2);
    assert_eq!(node.deep_eval, -SCORE_MATE);
    let chosen = node.best_next_move.expect("a move was chosen");
    assert!(chosen.white_checkmate);
    assert!(chosen.white_check);
    // The mate is the queen's arrival on h4.
    assert_ne!(chosen.black_queens & (1u64 << 31), 0);
}

#[test]
fn back_rank_mate_is_found_at_depth_one() {
    // A boxed-in white king on g1 behind its own pawns; the black rook
    // drops to the first rank.
    let mut b = settle(Board {
        white_pawns: 0xE000,
        white_knights: 0,
        white_bishops: 0,
        white_rooks: 0,
        white_queens: 0,
        white_king: 0x40,
        black_pawns: 0,
        black_knights: 0,
        black_bishops: 0,
        black_rooks: 1u64 << 60,
        black_queens: 0,
        black_king: 1u64 << 62,
        all_white: 0,
        all_black: 0,
        all_pieces: 0,
        white_check: false,
        black_check: false,
        white_checkmate: false,
        black_checkmate: false,
        white_castle_flags: (false, false),
        black_castle_flags: (false, false),
        to_move: 0,
    });
    b.to_move = 0;
    let mut node = Node::new(&b);
    node.process_node_cell(1);
    assert_eq!(node.deep_eval, -SCORE_MATE);
    let chosen = node.best_next_move.expect("a move was chosen");
    assert!(chosen.white_checkmate);
    assert_eq!(chosen.black_rooks, 0x10);
}

#[test]
fn search_is_deterministic() {
    let b = Board::new();
    let b = b.parse_input(&"e4".to_string()).unwrap();
    let mut first = Node::new(&b);
    first.process_node_cell(2);
    let mut second = Node::new(&b);
    second.process_node_cell(2);
    assert_eq!(first.deep_eval, second.deep_eval);
    assert_eq!(first.best_next_move, second.best_next_move);
}

#[test]
fn mate_scores_beat_material() {
    // A checkmated position evaluates past any material count.
    let mut b = settle(Board {
        white_pawns: 0xE000,
        white_knights: 0,
        white_bishops: 0,
        white_rooks: 0,
        white_queens: 0,
        white_king: 0x40,
        black_pawns: 0,
        black_knights: 0,
        black_bishops: 0,
        black_rooks: 0x10,
        black_queens: 0,
        black_king: 1u64 << 62,
        all_white: 0,
        all_black: 0,
        all_pieces: 0,
        white_check: false,
        black_check: false,
        white_checkmate: false,
        black_checkmate: false,
        white_castle_flags: (false, false),
        black_castle_flags: (false, false),
        to_move: 1,
    });
    b.to_move = 1;
    let node = Node::new(&b);
    assert_eq!(node.static_eval, -SCORE_MATE);
}
