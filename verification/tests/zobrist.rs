use rand::rngs::StdRng;
use rand::{Rng, SeedableRng};
use std::collections::HashSet;
use zobrist::table::constant_of_draw;
use zobrist::{Color, Fingerprint, Key, Move, Piece, PieceType, Position, Square, ZobristTable};

const BLACK: Color = Color::Black;
const WHITE: Color = Color::White;

fn sq(file: u8, rank: u8) -> Square {
    Square::new(file, rank)
}

fn piece(color: Color, piece_type: PieceType) -> Piece {
    Piece::new(color, piece_type)
}

fn play(pos: &mut Position, moves: &[Move]) {
    for &m in moves {
        assert!(pos.accepts(m), "move not accepted: {:?}", m);
        pos.do_move(m);
    }
}

fn forward(c: Color) -> i32 {
    match c {
        Color::Black => -1,
        Color::White => 1,
    }
}

/// The steps of a piece as (file step, rank step, slides).
fn steps(p: Piece) -> Vec<(i32, i32, bool)> {
    let f = forward(p.color);
    let gold = vec![(-1, f, false), (0, f, false), (1, f, false), (-1, 0, false), (1, 0, false), (0, -f, false)];
    let diagonal = |slides: bool| vec![(-1, -1, slides), (-1, 1, slides), (1, -1, slides), (1, 1, slides)];
    let straight = |slides: bool| vec![(-1, 0, slides), (1, 0, slides), (0, -1, slides), (0, 1, slides)];
    match p.piece_type {
        PieceType::FU => vec![(0, f, false)],
        PieceType::KY => vec![(0, f, true)],
        PieceType::KE => vec![(-1, 2 * f, false), (1, 2 * f, false)],
        PieceType::GI => vec![(-1, f, false), (0, f, false), (1, f, false), (-1, -f, false), (1, -f, false)],
        PieceType::KI | PieceType::TO | PieceType::NY | PieceType::NK | PieceType::NG => gold,
        PieceType::KA => diagonal(true),
        PieceType::HI => straight(true),
        PieceType::OU => {
            let mut all = diagonal(false);
            all.extend(straight(false));
            all
        }
        PieceType::UM => {
            let mut all = diagonal(true);
            all.extend(straight(false));
            all
        }
        PieceType::RY => {
            let mut all = straight(true);
            all.extend(diagonal(false));
            all
        }
    }
}

type Board = [Option<Piece>; 81];

fn at(file: i32, rank: i32) -> usize {
    ((file - 1) * 9 + (rank - 1)) as usize
}

/// The squares that the piece on (file, rank) can go to, own pieces excluded.
fn targets(board: &Board, file: i32, rank: i32) -> Vec<(i32, i32)> {
    let p = board[at(file, rank)].unwrap();
    let mut out = Vec::new();
    for (df, dr, slides) in steps(p) {
        let (mut x, mut y) = (file + df, rank + dr);
        while (1..=9).contains(&x) && (1..=9).contains(&y) {
            match board[at(x, y)] {
                Some(q) if q.color == p.color => break,
                Some(_) => {
                    out.push((x, y));
                    break;
                }
                None => out.push((x, y)),
            }
            if !slides {
                break;
            }
            x += df;
            y += dr;
        }
    }
    out
}

fn in_check(board: &Board, c: Color) -> bool {
    let mut king = None;
    for file in 1..=9 {
        for rank in 1..=9 {
            if board[at(file, rank)] == Some(piece(c, PieceType::OU)) {
                king = Some((file, rank));
            }
        }
    }
    let king = match king {
        Some(k) => k,
        None => return false,
    };
    for file in 1..=9 {
        for rank in 1..=9 {
            if let Some(q) = board[at(file, rank)] {
                if q.color != c && targets(board, file, rank).contains(&king) {
                    return true;
                }
            }
        }
    }
    false
}

fn last_ranks(c: Color, rank: i32, n: i32) -> bool {
    match c {
        Color::Black => rank <= n,
        Color::White => rank >= 10 - n,
    }
}

/// The legal moves of the side to move, pawn drops that give check left out.
fn legal_moves(pos: &Position) -> Vec<Move> {
    let c = pos.side_to_move();
    let mut board: Board = [None; 81];
    for file in 1..=9 {
        for rank in 1..=9 {
            board[at(file, rank)] = pos.piece_on(sq(file as u8, rank as u8));
        }
    }
    let mut moves = Vec::new();
    for file in 1..=9 {
        for rank in 1..=9 {
            let p = match board[at(file, rank)] {
                Some(p) if p.color == c => p,
                _ => continue,
            };
            for (x, y) in targets(&board, file, rank) {
                let can_promote = p.promoted().is_some()
                    && (last_ranks(c, rank, 3) || last_ranks(c, y, 3));
                let must_promote = match p.piece_type {
                    PieceType::FU | PieceType::KY => last_ranks(c, y, 1),
                    PieceType::KE => last_ranks(c, y, 2),
                    _ => false,
                };
                for promote in [false, true] {
                    if (promote && !can_promote) || (!promote && must_promote) {
                        continue;
                    }
                    let mut next = board;
                    next[at(file, rank)] = None;
                    next[at(x, y)] = Some(if promote { p.promoted().unwrap() } else { p });
                    if !in_check(&next, c) {
                        moves.push(Move::new_normal(
                            sq(file as u8, rank as u8),
                            sq(x as u8, y as u8),
                            promote,
                            p,
                        ));
                    }
                }
            }
        }
    }
    for index in 0..PieceType::NUM_HAND {
        let pt = PieceType::from_index(index).unwrap();
        if pos.hand_num(c, pt) == 0 {
            continue;
        }
        for file in 1..=9 {
            for rank in 1..=9 {
                if board[at(file, rank)].is_some() {
                    continue;
                }
                let blocked = match pt {
                    PieceType::FU => {
                        last_ranks(c, rank, 1)
                            || (1..=9).any(|r| board[at(file, r)] == Some(piece(c, PieceType::FU)))
                    }
                    PieceType::KY => last_ranks(c, rank, 1),
                    PieceType::KE => last_ranks(c, rank, 2),
                    _ => false,
                };
                if blocked {
                    continue;
                }
                let mut next = board;
                next[at(file, rank)] = Some(piece(c, pt));
                if in_check(&next, c) || (pt == PieceType::FU && in_check(&next, c.flip())) {
                    continue;
                }
                moves.push(Move::new_drop(sq(file as u8, rank as u8), piece(c, pt)));
            }
        }
    }
    moves
}

#[test]
fn empty() {
    let table = ZobristTable::build();
    let pos = Position::new(
        &table,
        [None; Square::NUM],
        [[0; PieceType::NUM_HAND]; Color::NUM],
        Color::Black,
        1,
    );
    assert_eq!(0, pos.key());
}

#[test]
fn default() {
    let table = ZobristTable::build();
    let pos = Position::initial(&table);
    assert_eq!(0x68ac_9984_04fd_3cb0, pos.key());
}

#[test]
fn uniqueness() {
    let table = ZobristTable::build();
    let mut hs = HashSet::new();
    let mut pos = Position::initial(&table);
    for i in 0..100 {
        let moves = legal_moves(&pos);
        let choice = moves[(i * 100) % moves.len()];
        assert!(pos.accepts(choice));
        pos.do_move(choice);
        let key = pos.key();
        assert_eq!(key % 2 == 0, i % 2 == 1);
        hs.insert(key);
    }
    assert_eq!(100, hs.len());
}

#[test]
fn joined() {
    // P1-KY-KE-GI-KI-OU-KI-GI-KE-KY
    // P2 * -HI *  *  *  *  * -KA *
    // P3-FU-FU-FU-FU-FU-FU * -FU-FU
    // P4 *  *  *  *  *  * -FU *  *
    // P5 *  *  *  *  *  *  *  *  *
    // P6 *  * +FU *  *  *  * +FU *
    // P7+FU+FU * +FU+FU+FU+FU * +FU
    // P8 *  *  *  *  *  *  * +HI *
    // P9+KY+KE+GI+KI+OU+KI+GI+KE+KY
    // P+00KA
    // P-00KA
    // -
    let table = ZobristTable::build();
    let key0 = {
        let mut pos = Position::initial(&table);
        // +7776FU,-3334FU,+2726FU
        let moves = [
            Move::new_normal(sq(7, 7), sq(7, 6), false, piece(BLACK, PieceType::FU)),
            Move::new_normal(sq(3, 3), sq(3, 4), false, piece(WHITE, PieceType::FU)),
            Move::new_normal(sq(2, 7), sq(2, 6), false, piece(BLACK, PieceType::FU)),
        ];
        play(&mut pos, &moves);
        pos.key()
    };
    let key1 = {
        let mut pos = Position::initial(&table);
        // +2726FU,-3334FU,+7776FU
        let moves = [
            Move::new_normal(sq(2, 7), sq(2, 6), false, piece(BLACK, PieceType::FU)),
            Move::new_normal(sq(7, 7), sq(7, 6), false, piece(BLACK, PieceType::FU)),
            Move::new_normal(sq(3, 3), sq(3, 4), false, piece(WHITE, PieceType::FU)),
        ];
        play(&mut pos, &moves);
        pos.key()
    };
    assert_eq!(key0, key1);
}

#[test]
fn same_board() {
    // P1-KY-KE-GI-KI-OU-KI-GI-KE-KY
    // P2 * -HI *  *  *  *  *  *  *
    // P3-FU-FU-FU-FU-FU-FU * -FU-FU
    // P4 *  *  *  *  *  * -FU *  *
    // P5 *  *  *  *  *  *  *  *  *
    // P6 *  * +FU *  *  *  *  *  *
    // P7+FU+FU * +FU+FU+FU+FU+FU+FU
    // P8 * +KA *  *  *  *  * +HI *
    // P9+KY+KE+GI+KI+OU+KI+GI+KE+KY
    // +
    let table = ZobristTable::build();
    let keys0 = {
        let mut pos = Position::initial(&table);
        // +7776FU,-3334FU,+8822KA,-3122GI,+0088KA,-2231GI
        // => P-00KA
        let moves = [
            Move::new_normal(sq(7, 7), sq(7, 6), false, piece(BLACK, PieceType::FU)),
            Move::new_normal(sq(3, 3), sq(3, 4), false, piece(WHITE, PieceType::FU)),
            Move::new_normal(sq(8, 8), sq(2, 2), false, piece(BLACK, PieceType::KA)),
            Move::new_normal(sq(3, 1), sq(2, 2), false, piece(WHITE, PieceType::GI)),
            Move::new_drop(sq(8, 8), piece(BLACK, PieceType::KA)),
            Move::new_normal(sq(2, 2), sq(3, 1), false, piece(WHITE, PieceType::GI)),
        ];
        play(&mut pos, &moves);
        assert_eq!(1, pos.hand_num(WHITE, PieceType::KA));
        assert_eq!(0, pos.hand_num(BLACK, PieceType::KA));
        pos.keys()
    };
    let keys1 = {
        let mut pos = Position::initial(&table);
        // +7776FU,-3334FU,+8822KA,-3142GI,+2288KA,-4231GI
        // => P+00KA
        let moves = [
            Move::new_normal(sq(7, 7), sq(7, 6), false, piece(BLACK, PieceType::FU)),
            Move::new_normal(sq(3, 3), sq(3, 4), false, piece(WHITE, PieceType::FU)),
            Move::new_normal(sq(8, 8), sq(2, 2), false, piece(BLACK, PieceType::KA)),
            Move::new_normal(sq(3, 1), sq(4, 2), false, piece(WHITE, PieceType::GI)),
            Move::new_normal(sq(2, 2), sq(8, 8), false, piece(BLACK, PieceType::KA)),
            Move::new_normal(sq(4, 2), sq(3, 1), false, piece(WHITE, PieceType::GI)),
        ];
        play(&mut pos, &moves);
        assert_eq!(0, pos.hand_num(WHITE, PieceType::KA));
        assert_eq!(1, pos.hand_num(BLACK, PieceType::KA));
        pos.keys()
    };
    println!("{:x?}", keys0);
    println!("{:x?}", keys1);
    assert!(keys0 != keys1);
    assert!(keys0.0 == keys1.0);
    assert!(keys0.1 != keys1.1);
}

/// The constants in the order in which the table draws them, from the
/// generator itself.
fn drawn_constants() -> Vec<u64> {
    let mut rng = StdRng::seed_from_u64(2022);
    (0..2268 + 266).map(|_| rng.gen::<u64>() & !1).collect()
}

#[test]
fn table_is_deterministic() {
    let first = ZobristTable::build();
    let second = ZobristTable::build();
    for index in 0..Square::NUM {
        let square = Square::from_index(index).unwrap();
        for color in [BLACK, WHITE] {
            for t in 0..PieceType::NUM {
                let p = piece(color, PieceType::from_index(t).unwrap());
                assert_eq!(first.board(square, p).value(), second.board(square, p).value());
            }
        }
    }
    for color in [BLACK, WHITE] {
        for t in 0..PieceType::NUM_HAND {
            let pt = PieceType::from_index(t).unwrap();
            for num in 0..=18u8 {
                assert_eq!(first.hand(color, pt, num).value(), second.hand(color, pt, num).value());
            }
        }
    }
}

#[test]
fn constants_follow_the_seeded_stream() {
    let table = ZobristTable::build();
    let drawn = drawn_constants();
    let mut seen = HashSet::new();
    for index in 0..Square::NUM {
        let square = Square::from_index(index).unwrap();
        for color in [BLACK, WHITE] {
            for t in 0..PieceType::NUM {
                let p = piece(color, PieceType::from_index(t).unwrap());
                let slot = (index * 2 + color.index()) * 14 + t;
                assert_eq!(drawn[slot], table.board(square, p).value());
                seen.insert(table.board(square, p).value());
            }
        }
    }
    for color in [BLACK, WHITE] {
        for t in 0..PieceType::NUM_HAND {
            let pt = PieceType::from_index(t).unwrap();
            for num in 0..=18u8 {
                let slot = 2268 + (color.index() * 7 + t) * 19 + num as usize;
                assert_eq!(drawn[slot], table.hand(color, pt, num).value());
                seen.insert(table.hand(color, pt, num).value());
            }
        }
    }
    assert_eq!(2268 + 266, seen.len());
    assert!(!seen.contains(&1));
}

#[test]
fn first_constants() {
    let table = ZobristTable::build();
    assert_eq!(
        0x8656_4cd8_c46e_9386,
        table.board(sq(1, 1), piece(BLACK, PieceType::FU)).value()
    );
    assert_eq!(
        0xd59c_65ee_99cb_378e,
        table.board(sq(1, 1), piece(BLACK, PieceType::KY)).value()
    );
}

#[test]
fn drawn_values_lose_the_side_bit() {
    assert_eq!(0xffff_ffff_ffff_fffe, constant_of_draw(u64::MAX).value());
    assert_eq!(0, constant_of_draw(1).value());
    assert_eq!(0, constant_of_draw(0).value());
    assert_eq!(2022, constant_of_draw(2023).value());
    assert_eq!(2022, constant_of_draw(2022).value());
}

#[test]
fn constants_keep_the_side_bit_clear() {
    let table = ZobristTable::build();
    for index in 0..Square::NUM {
        let square = Square::from_index(index).unwrap();
        for color in [BLACK, WHITE] {
            for t in 0..PieceType::NUM {
                let p = piece(color, PieceType::from_index(t).unwrap());
                assert_eq!(0, table.board(square, p).value() & 1);
            }
        }
    }
    for color in [BLACK, WHITE] {
        for t in 0..PieceType::NUM_HAND {
            let pt = PieceType::from_index(t).unwrap();
            assert_eq!(0, table.hand(color, pt, 0).value() & 1);
            assert_eq!(0, table.hand(color, pt, 18).value() & 1);
        }
    }
}

#[test]
fn key_algebra() {
    let a = Key::new(0b1100);
    let b = Key::new(0b1010);
    assert_eq!(0b0110, (a ^ b).value());
    assert_eq!(0b1000, (a & b).value());
    assert_eq!(!0b1100u64, (!a).value());
    assert_eq!(a, a ^ b ^ b);
    assert_eq!((a ^ b).value(), (b ^ a).value());
    let mut c = a;
    c ^= b;
    assert_eq!(0b0110, c.value());
    c ^= b;
    assert_eq!(a, c);
    assert_eq!(0, Key::zero().value());
    assert_eq!(1, Key::color().value());
    assert_eq!(0xffff_ffff_ffff_fffe, (Key::new(u64::MAX) & !Key::color()).value());
    assert!(Key::new(5) == Key::new(5));
    assert!(Key::new(5) != Key::new(4));
}

#[test]
fn fingerprint_updates() {
    let table = ZobristTable::build();
    let bfu = piece(BLACK, PieceType::FU);
    let constant = table.board(sq(7, 7), bfu).value();
    let mut f = Fingerprint::new();
    assert_eq!(0, f.full_key().value());
    assert_eq!(0, f.board_key().value());
    f.toggle_piece(&table, sq(7, 7), bfu);
    assert_eq!(constant, f.full_key().value());
    assert_eq!(constant, f.board_key().value());
    f.flip_side();
    assert_eq!(constant ^ 1, f.full_key().value());
    assert_eq!(constant, f.board_key().value());
    f.change_hand(&table, WHITE, PieceType::KA, 0, 1);
    let hand = table.hand(WHITE, PieceType::KA, 0).value() ^ table.hand(WHITE, PieceType::KA, 1).value();
    assert_eq!(constant ^ 1 ^ hand, f.full_key().value());
    assert_eq!(constant, f.board_key().value());
    // the same updates in another order
    let mut g = Fingerprint::new();
    g.change_hand(&table, WHITE, PieceType::KA, 0, 1);
    g.flip_side();
    g.toggle_piece(&table, sq(7, 7), bfu);
    assert_eq!(f.full_key(), g.full_key());
    assert_eq!(f.board_key(), g.board_key());
    // taking everything back
    f.change_hand(&table, WHITE, PieceType::KA, 1, 0);
    f.flip_side();
    f.toggle_piece(&table, sq(7, 7), bfu);
    assert_eq!(0, f.full_key().value());
    assert_eq!(0, f.board_key().value());
}

#[test]
fn hand_counts_at_the_limits() {
    let table = ZobristTable::build();
    let mut f = Fingerprint::new();
    f.change_hand(&table, BLACK, PieceType::FU, 0, 18);
    assert_eq!(
        table.hand(BLACK, PieceType::FU, 0).value() ^ table.hand(BLACK, PieceType::FU, 18).value(),
        f.full_key().value()
    );
    f.change_hand(&table, BLACK, PieceType::FU, 18, 18);
    f.change_hand(&table, BLACK, PieceType::FU, 18, 0);
    assert_eq!(0, f.full_key().value());
    assert_eq!(18, ZobristTable::MAX_HAND_NUM);
}

#[test]
fn position_with_hands_and_white_to_move() {
    let table = ZobristTable::build();
    let mut board = [None; Square::NUM];
    board[sq(5, 9).index()] = Some(piece(BLACK, PieceType::OU));
    board[sq(5, 1).index()] = Some(piece(WHITE, PieceType::OU));
    let mut hands = [[0u8; PieceType::NUM_HAND]; Color::NUM];
    hands[WHITE.index()][PieceType::HI.index()] = 2;
    hands[BLACK.index()][PieceType::FU.index()] = 18;
    let pos = Position::new(&table, board, hands, WHITE, 7);
    let on_board = table.board(sq(5, 9), piece(BLACK, PieceType::OU)).value()
        ^ table.board(sq(5, 1), piece(WHITE, PieceType::OU)).value();
    let in_hand = table.hand(WHITE, PieceType::HI, 0).value()
        ^ table.hand(WHITE, PieceType::HI, 2).value()
        ^ table.hand(BLACK, PieceType::FU, 0).value()
        ^ table.hand(BLACK, PieceType::FU, 18).value();
    assert_eq!((on_board, on_board ^ in_hand ^ 1), pos.keys());
    assert_eq!(on_board ^ in_hand ^ 1, pos.key());
    assert_eq!(2, pos.hand_num(WHITE, PieceType::HI));
    assert_eq!(18, pos.hand_num(BLACK, PieceType::FU));
    assert_eq!(WHITE, pos.side_to_move());
    assert_eq!(7, pos.ply());
}

#[test]
fn initial_position_layout() {
    let table = ZobristTable::build();
    let pos = Position::initial(&table);
    assert_eq!(Some(piece(WHITE, PieceType::KY)), pos.piece_on(sq(1, 1)));
    assert_eq!(Some(piece(WHITE, PieceType::OU)), pos.piece_on(sq(5, 1)));
    assert_eq!(Some(piece(WHITE, PieceType::HI)), pos.piece_on(sq(8, 2)));
    assert_eq!(Some(piece(WHITE, PieceType::KA)), pos.piece_on(sq(2, 2)));
    assert_eq!(Some(piece(WHITE, PieceType::FU)), pos.piece_on(sq(3, 3)));
    assert_eq!(None, pos.piece_on(sq(5, 5)));
    assert_eq!(Some(piece(BLACK, PieceType::FU)), pos.piece_on(sq(7, 7)));
    assert_eq!(Some(piece(BLACK, PieceType::KA)), pos.piece_on(sq(8, 8)));
    assert_eq!(Some(piece(BLACK, PieceType::HI)), pos.piece_on(sq(2, 8)));
    assert_eq!(Some(piece(BLACK, PieceType::KI)), pos.piece_on(sq(4, 9)));
    assert_eq!(Some(piece(BLACK, PieceType::GI)), pos.piece_on(sq(3, 9)));
    assert_eq!(Some(piece(BLACK, PieceType::KE)), pos.piece_on(sq(2, 9)));
    assert_eq!(BLACK, pos.side_to_move());
    assert_eq!(1, pos.ply());
    assert_eq!(40, (0..81).filter(|&i| pos.piece_on(Square::from_index(i).unwrap()).is_some()).count());
    assert_eq!(20, legal_moves(&pos).len() - 10);
}

#[test]
fn incremental_keys_equal_keys_from_scratch() {
    let table = ZobristTable::build();
    let mut pos = Position::initial(&table);
    for i in 0..100 {
        let moves = legal_moves(&pos);
        let choice = moves[(i * 7 + 3) % moves.len()];
        assert!(pos.accepts(choice));
        pos.do_move(choice);
        let mut board = [None; Square::NUM];
        for index in 0..Square::NUM {
            board[index] = pos.piece_on(Square::from_index(index).unwrap());
        }
        let mut hands = [[0u8; PieceType::NUM_HAND]; Color::NUM];
        for color in [BLACK, WHITE] {
            for t in 0..PieceType::NUM_HAND {
                hands[color.index()][t] = pos.hand_num(color, PieceType::from_index(t).unwrap());
            }
        }
        let fresh = Position::new(&table, board, hands, pos.side_to_move(), pos.ply());
        assert_eq!(fresh.keys(), pos.keys());
        assert_eq!(i as u32 + 2, pos.ply());
    }
}

#[test]
fn parity_alternates() {
    let table = ZobristTable::build();
    let mut pos = Position::initial(&table);
    assert_eq!(0, pos.key() & 1);
    play(&mut pos, &[Move::new_normal(sq(7, 7), sq(7, 6), false, piece(BLACK, PieceType::FU))]);
    assert_eq!(1, pos.key() & 1);
    assert_eq!(0, pos.keys().0 & 1);
    play(&mut pos, &[Move::new_normal(sq(3, 3), sq(3, 4), false, piece(WHITE, PieceType::FU))]);
    assert_eq!(0, pos.key() & 1);
}

#[test]
fn capture_promotion_and_drop() {
    let table = ZobristTable::build();
    let mut pos = Position::initial(&table);
    let bka = piece(BLACK, PieceType::KA);
    play(
        &mut pos,
        &[
            Move::new_normal(sq(7, 7), sq(7, 6), false, piece(BLACK, PieceType::FU)),
            Move::new_normal(sq(3, 3), sq(3, 4), false, piece(WHITE, PieceType::FU)),
            Move::new_normal(sq(8, 8), sq(2, 2), true, bka),
        ],
    );
    assert_eq!(Some(piece(BLACK, PieceType::UM)), pos.piece_on(sq(2, 2)));
    assert_eq!(None, pos.piece_on(sq(8, 8)));
    assert_eq!(1, pos.hand_num(BLACK, PieceType::KA));
    play(&mut pos, &[Move::new_normal(sq(3, 1), sq(2, 2), false, piece(WHITE, PieceType::GI))]);
    // the promoted bishop goes to the hand as a bishop
    assert_eq!(1, pos.hand_num(WHITE, PieceType::KA));
    play(&mut pos, &[Move::new_drop(sq(5, 5), bka)]);
    assert_eq!(0, pos.hand_num(BLACK, PieceType::KA));
    assert_eq!(Some(bka), pos.piece_on(sq(5, 5)));
    assert_eq!(WHITE, pos.side_to_move());
    assert_eq!(6, pos.ply());
}

#[test]
fn moves_that_are_not_accepted() {
    let table = ZobristTable::build();
    let pos = Position::initial(&table);
    let bfu = piece(BLACK, PieceType::FU);
    // no such piece on the square
    assert!(!pos.accepts(Move::new_normal(sq(7, 6), sq(7, 5), false, bfu)));
    assert!(!pos.accepts(Move::new_normal(sq(7, 7), sq(7, 6), false, piece(WHITE, PieceType::FU))));
    // a piece does not move to its own square
    assert!(!pos.accepts(Move::new_normal(sq(7, 7), sq(7, 7), false, bfu)));
    // a piece does not take a piece of its own side
    assert!(!pos.accepts(Move::new_normal(sq(8, 8), sq(7, 7), false, piece(BLACK, PieceType::KA))));
    // gold and king do not promote
    assert!(!pos.accepts(Move::new_normal(sq(4, 9), sq(4, 8), true, piece(BLACK, PieceType::KI))));
    assert!(!pos.accepts(Move::new_normal(sq(5, 9), sq(5, 8), true, piece(BLACK, PieceType::OU))));
    // a king is not taken
    assert!(!pos.accepts(Move::new_normal(sq(5, 9), sq(5, 1), false, piece(BLACK, PieceType::OU))));
    // nothing is in hand, a king never is, and an occupied square takes no drop
    assert!(!pos.accepts(Move::new_drop(sq(5, 5), bfu)));
    assert!(!pos.accepts(Move::new_drop(sq(5, 5), piece(BLACK, PieceType::OU))));
    assert!(!pos.accepts(Move::new_drop(sq(7, 7), bfu)));
    // what is accepted
    assert!(pos.accepts(Move::new_normal(sq(7, 7), sq(7, 6), false, bfu)));
    assert!(pos.accepts(Move::new_normal(sq(7, 7), sq(7, 6), true, bfu)));
    // a full hand takes no more
    let mut board = [None; Square::NUM];
    board[sq(5, 5).index()] = Some(bfu);
    board[sq(5, 4).index()] = Some(piece(WHITE, PieceType::TO));
    let mut hands = [[0u8; PieceType::NUM_HAND]; Color::NUM];
    hands[BLACK.index()][PieceType::FU.index()] = 18;
    let full = Position::new(&table, board, hands, BLACK, 1);
    assert!(!full.accepts(Move::new_normal(sq(5, 5), sq(5, 4), false, bfu)));
    hands[BLACK.index()][PieceType::FU.index()] = 17;
    let last = Position::new(&table, board, hands, BLACK, u32::MAX);
    assert!(!last.accepts(Move::new_normal(sq(5, 5), sq(5, 4), false, bfu)));
    let mut room = Position::new(&table, board, hands, BLACK, 1);
    play(&mut room, &[Move::new_normal(sq(5, 5), sq(5, 4), false, bfu)]);
    assert_eq!(18, room.hand_num(BLACK, PieceType::FU));
}

#[test]
fn squares_and_piece_types() {
    assert_eq!(0, sq(1, 1).index());
    assert_eq!(8, sq(1, 9).index());
    assert_eq!(9, sq(2, 1).index());
    assert_eq!(60, sq(7, 7).index());
    assert_eq!(80, sq(9, 9).index());
    assert_eq!((7, 6), (sq(7, 6).file(), sq(7, 6).rank()));
    assert_eq!(Some(sq(9, 9)), Square::from_index(80));
    assert_eq!(None, Square::from_index(81));
    assert_eq!(81, Square::NUM);
    assert_eq!(14, PieceType::NUM);
    assert_eq!(7, PieceType::NUM_HAND);
    assert_eq!(2, Color::NUM);
    let order = [
        PieceType::FU,
        PieceType::KY,
        PieceType::KE,
        PieceType::GI,
        PieceType::KA,
        PieceType::HI,
        PieceType::KI,
        PieceType::OU,
        PieceType::TO,
        PieceType::NY,
        PieceType::NK,
        PieceType::NG,
        PieceType::UM,
        PieceType::RY,
    ];
    for (index, pt) in order.iter().enumerate() {
        assert_eq!(index, pt.index());
        assert_eq!(Some(*pt), PieceType::from_index(index));
        assert_eq!(index < 7, pt.is_hand_piece());
        match pt.promoted() {
            Some(promoted) => assert_eq!(*pt, promoted.demoted()),
            None => assert!(index >= 6),
        }
    }
    assert_eq!(None, PieceType::from_index(14));
    assert_eq!(Some(PieceType::RY), PieceType::HI.promoted());
    assert_eq!(PieceType::KI, PieceType::KI.demoted());
    assert_eq!(PieceType::OU, PieceType::OU.demoted());
    assert_eq!(WHITE, BLACK.flip());
    assert_eq!(BLACK, WHITE.flip());
    assert_eq!((0, 1), (BLACK.index(), WHITE.index()));
    let p = piece(WHITE, PieceType::GI);
    assert_eq!((WHITE, PieceType::GI), (p.color(), p.piece_type()));
    assert_eq!(Some(piece(WHITE, PieceType::NG)), p.promoted());
    assert_eq!(None, piece(BLACK, PieceType::KI).promoted());
}
