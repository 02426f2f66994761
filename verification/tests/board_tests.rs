use crabablanca::bit_functions::count_bits;
use crabablanca::board::Board;
use crabablanca::board::Piece;
use crabablanca::render::piece_placements;

/// Rebuilds the aggregates and check flags of a hand-made position.
fn settle(mut b: Board) -> Board {
    b.all_white = b.white_pawns | b.white_knights | b.white_bishops | b.white_rooks
        | b.white_queens | b.white_king;
    b.all_black = b.black_pawns | b.black_knights | b.black_bishops | b.black_rooks
        | b.black_queens | b.black_king;
    b.all_pieces = b.all_white | b.all_black;
    let checks = b.check_check();
    b.white_check = checks.0;
    b.black_check = checks.1;
    b
}

/// A board holding only the two kings on the given squares.
fn kings_only(white_king: u64, black_king: u64, to_move: u8) -> Board {
    settle(Board {
        white_pawns: 0,
        white_knights: 0,
        white_bishops: 0,
        white_rooks: 0,
        white_queens: 0,
        white_king,
        black_pawns: 0,
        black_knights: 0,
        black_bishops: 0,
        black_rooks: 0,
        black_queens: 0,
        black_king,
        all_white: 0,
        all_black: 0,
        all_pieces: 0,
        white_check: false,
        black_check: false,
        white_checkmate: false,
        black_checkmate: false,
        white_castle_flags: (false, false),
        black_castle_flags: (false, false),
        to_move,
    })
}

fn pieces_of(b: &Board) -> [u64; 12] {
    [
        b.white_pawns,
        b.white_knights,
        b.white_bishops,
        b.white_rooks,
        b.white_queens,
        b.white_king,
        b.black_pawns,
        b.black_knights,
        b.black_bishops,
        b.black_rooks,
        b.black_queens,
        b.black_king,
    ]
}

#[test]
fn start_position_fields() {
    let b = Board::new();
    assert_eq!(b.white_pawns, 0x000000000000FF00);
    assert_eq!(b.black_pawns, 0x00FF000000000000);
    assert_eq!(b.all_pieces, 0xFFFF00000000FFFF);
    assert_eq!(b.to_move, 1);
    assert!(!b.white_check && !b.black_check);
    assert!(!b.white_checkmate && !b.black_checkmate);
    assert_eq!(b.white_castle_flags, (true, true));
    assert_eq!(b.black_castle_flags, (true, true));
    assert_eq!(b.check_check(), (false, false));
}

#[test]
fn start_position_has_twenty_moves() {
    // Eight single pushes, eight double pushes, four knight moves.
    let b = Board::new();
    assert_eq!(b.generate_move_list().len(), 20);
}

#[test]
fn after_e4_black_has_twenty_moves() {
    let b = Board::new();
    let b2 = b.parse_input(&"e4".to_string()).expect("e4 is legal");
    assert_eq!(b2.to_move, 0);
    assert_eq!(b2.generate_move_list().len(), 20);
}

#[test]
fn every_successor_flips_the_mover_and_leaves_it_out_of_check() {
    let b = Board::new();
    for s in b.generate_move_list() {
        assert_eq!(s.to_move, 0);
        assert!(!s.white_check);
    }
    let b2 = b.parse_input(&"d4".to_string()).unwrap();
    for s in b2.generate_move_list() {
        assert_eq!(s.to_move, 1);
        assert!(!s.black_check);
    }
}

#[test]
fn successors_keep_the_board_invariants() {
    // Aggregates equal the unions, kings are single squares, the twelve
    // boards are pairwise disjoint, and check flags match detection.
    let b = Board::new();
    for s in b.generate_move_list() {
        let parts = pieces_of(&s);
        let white = parts[0] | parts[1] | parts[2] | parts[3] | parts[4] | parts[5];
        let black = parts[6] | parts[7] | parts[8] | parts[9] | parts[10] | parts[11];
        assert_eq!(s.all_white, white);
        assert_eq!(s.all_black, black);
        assert_eq!(s.all_pieces, white | black);
        assert_eq!(count_bits(s.white_king), 1);
        assert_eq!(count_bits(s.black_king), 1);
        for i in 0..12 {
            for j in 0..12 {
                if i != j {
                    assert_eq!(parts[i] & parts[j], 0);
                }
            }
        }
        assert_eq!((s.white_check, s.black_check), s.check_check());
    }
}

#[test]
fn kingside_castle_appears_when_legal() {
    // White king e1, rook h1, f1 and g1 empty, nothing attacking.
    let mut b = kings_only(0x10, 1u64 << 60, 1);
    b.white_rooks = 0x80;
    b.white_castle_flags = (false, true);
    let b = settle(b);
    let castled = b
        .generate_move_list()
        .into_iter()
        .any(|s| s.white_king == 0x40 && s.white_rooks == 0x20);
    assert!(castled);
}

#[test]
fn castle_blocked_by_check_on_the_transit_square() {
    // As above, but a black bishop on a6 attacks f1.
    let mut b = kings_only(0x10, 1u64 << 60, 1);
    b.white_rooks = 0x80;
    b.white_castle_flags = (false, true);
    b.black_bishops = 1u64 << 40;
    let b = settle(b);
    let castled = b.generate_move_list().into_iter().any(|s| s.white_king == 0x40);
    assert!(!castled);
}

#[test]
fn pawn_promotes_to_queen() {
    // White pawn e7, otherwise only kings; after e7-e8 the pawn is gone
    // and a queen stands on e8.
    let mut b = kings_only(0x10, 1u64 << 56, 1);
    b.white_pawns = 1u64 << 52;
    let b = settle(b);
    let after = b.parse_input(&"e8".to_string()).expect("promotion push is legal");
    assert_eq!(after.white_pawns, 0);
    assert_ne!(after.white_queens & (1u64 << 60), 0);
    assert_eq!(after.all_white, after.white_queens | after.white_king);
}

#[test]
fn castling_moves_keep_rights_cleared() {
    let mut b = kings_only(0x10, 1u64 << 60, 1);
    b.white_rooks = 0x81;
    b.white_castle_flags = (true, true);
    let b = settle(b);
    for s in b.generate_move_list() {
        if s.white_king == 0x40 {
            assert_eq!(s.white_castle_flags, (false, false));
        }
    }
}

#[test]
fn parse_input_plays_a_pawn_push() {
    let b = Board::new();
    let b2 = b.parse_input(&"e4".to_string()).unwrap();
    assert_eq!(b2.white_pawns & (1u64 << 28), 1u64 << 28);
    assert_eq!(b2.white_pawns & (1u64 << 12), 0);
}

#[test]
fn parse_input_plays_a_knight_move() {
    let b = Board::new();
    let b2 = b.parse_input(&"Nf3".to_string()).unwrap();
    assert_ne!(b2.white_knights & (1u64 << 21), 0);
    assert_eq!(b2.white_knights & (1u64 << 6), 0);
}

#[test]
fn parse_input_rejects_ambiguity_until_disambiguated() {
    // Two white rooks on the first rank both reach e1.
    let mut b = kings_only(1u64 << 12, 1u64 << 60, 1);
    b.white_rooks = 0x81;
    let b = settle(b);
    assert!(b.parse_input(&"Re1".to_string()).is_none());
    let resolved = b.parse_input(&"Rae1".to_string()).expect("file disambiguation");
    assert_eq!(resolved.white_rooks, 0x90);
}

#[test]
fn parse_input_rejects_non_ascii_text() {
    // A non-ASCII character anywhere rejects the string, even at a
    // position the length rules would otherwise ignore.
    let mut b = kings_only(0x10, 1u64 << 60, 1);
    b.white_pawns = 1u64 << 27;
    b.black_pawns = 1u64 << 36;
    let b = settle(b);
    assert!(b.parse_input(&"dxe5".to_string()).is_some());
    assert!(b.parse_input(&"dx♛e5".to_string()).is_none());
    let start = Board::new();
    assert!(start.parse_input(&"N♛♛♛♛f3".to_string()).is_none());
    assert!(start.parse_input(&"é4".to_string()).is_none());
}

#[test]
fn castle_blocked_while_king_in_check() {
    // A black knight on d3 checks e1 without touching f1 or g1; castling
    // out of the check is still not offered.
    let mut b = kings_only(0x10, 1u64 << 60, 1);
    b.white_rooks = 0x80;
    b.white_castle_flags = (false, true);
    b.black_knights = 1u64 << 19;
    let b = settle(b);
    assert!(b.white_check);
    let castled = b.generate_move_list().into_iter().any(|s| s.white_king == 0x40);
    assert!(!castled);
}

#[test]
fn parse_input_rejects_malformed_text() {
    let b = Board::new();
    assert!(b.parse_input(&"".to_string()).is_none());
    assert!(b.parse_input(&"e".to_string()).is_none());
    assert!(b.parse_input(&"z9".to_string()).is_none());
    assert!(b.parse_input(&"e9".to_string()).is_none());
    assert!(b.parse_input(&"Kxx".to_string()).is_none());
    assert!(b.parse_input(&"e5".to_string()).is_none());
}

#[test]
fn checkmate_flags_from_check_checkmate() {
    let b = Board::new();
    let checks = b.check_check();
    assert_eq!(b.check_checkmate(checks), (false, false));
}

#[test]
fn placements_list_the_whole_start_position() {
    let b = Board::new();
    let placements = piece_placements(&b);
    assert_eq!(placements.len(), 32);
    assert!(placements.contains(&(4, 0, Piece::King, 1)));
    assert!(placements.contains(&(4, 7, Piece::King, 0)));
    assert!(placements.contains(&(3, 0, Piece::Queen, 1)));
    assert_eq!(placements[0], (0, 1, Piece::Pawn, 1));
    for &(file, rank, _, _) in placements.iter() {
        assert!(file < 8 && rank < 8);
    }
}
