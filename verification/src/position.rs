//! A position of the game: the board, the two hands and the side to move,
//! together with its fingerprint, which every move brings up to date.
//!
//! Moves are carried out as given. Whether a move is legal under the rules
//! of the game is not judged here.
use crate::fingerprint::{Fingerprint, FingerprintView, Update};
use crate::key::{lemma_xor_side_bit, lemma_xor_zero, SIDE_BIT};
use crate::pieces::{Color, Piece, PieceType, Square};
use crate::table::{
    board_constant_at, hand_constant_at, hand_index, lemma_board_constant_side_bit,
    lemma_hand_constant_side_bit, ZobristTable,
};
use vstd::prelude::*;

verus! {

/// A move: a piece goes from one square to another, or from its owner's hand
/// to a square.
#[derive(Clone, Copy, Debug, PartialEq, Eq, Structural)]
pub enum Move {
    /// `piece` goes from `from` to `to`, takes what stands there, and
    /// promotes if `is_promotion` is set.
    Normal { from: Square, to: Square, is_promotion: bool, piece: Piece },
    /// `piece` goes from its owner's hand to `to`.
    Drop { to: Square, piece: Piece },
}

impl Move {
    /// The move of `piece` from `from` to `to`.
    pub fn new_normal(from: Square, to: Square, is_promotion: bool, piece: Piece) -> (m: Move)
        ensures
            m == (Move::Normal { from, to, is_promotion, piece }),
    {
        Move::Normal { from, to, is_promotion, piece }
    }

    /// The drop of `piece` on `to`.
    pub fn new_drop(to: Square, piece: Piece) -> (m: Move)
        ensures
            m == (Move::Drop { to, piece }),
    {
        Move::Drop { to, piece }
    }
}

/// What the square with index `sq` contributes to the keys when `cell` is
/// what stands on it.
pub open spec fn piece_term(sq: nat, cell: Option<Piece>) -> u64 {
    match cell {
        Some(p) => board_constant_at(sq, p),
        None => 0,
    }
}

/// What the first `n` squares of `board` contribute to the keys.
pub open spec fn board_fold(board: Seq<Option<Piece>>, n: nat) -> u64
    decreases n,
{
    if n == 0 {
        0
    } else {
        board_fold(board, (n - 1) as nat) ^ piece_term((n - 1) as nat, board[n - 1])
    }
}

/// What `num` pieces of the kind with hand index `kind` contribute to the
/// full key: the count has changed from zero to `num`, so the constants of
/// both counts are in it.
pub open spec fn hand_term(kind: nat, num: nat) -> u64 {
    hand_constant_at(kind, 0) ^ hand_constant_at(kind, num)
}

/// What the first `n` kinds of `hands` contribute to the full key.
pub open spec fn hand_fold(hands: Seq<u8>, n: nat) -> u64
    decreases n,
{
    if n == 0 {
        0
    } else {
        hand_fold(hands, (n - 1) as nat) ^ hand_term((n - 1) as nat, hands[n - 1] as nat)
    }
}

/// What the side to move contributes to the full key: nothing when Black is
/// to move, the side-to-move bit when White is.
pub open spec fn side_term(side: Color) -> u64 {
    match side {
        Color::Black => 0,
        Color::White => SIDE_BIT,
    }
}

/// The piece that stands on `file` and `rank` when a game begins, if any.
pub open spec fn initial_piece_spec(file: nat, rank: nat) -> Option<Piece> {
    if rank == 1 || rank == 9 {
        let color = if rank == 1 {
            Color::White
        } else {
            Color::Black
        };
        let piece_type = if file == 1 || file == 9 {
            PieceType::KY
        } else if file == 2 || file == 8 {
            PieceType::KE
        } else if file == 3 || file == 7 {
            PieceType::GI
        } else if file == 4 || file == 6 {
            PieceType::KI
        } else {
            PieceType::OU
        };
        Some(Piece { color, piece_type })
    } else if rank == 3 {
        Some(Piece { color: Color::White, piece_type: PieceType::FU })
    } else if rank == 7 {
        Some(Piece { color: Color::Black, piece_type: PieceType::FU })
    } else if rank == 2 && file == 8 {
        Some(Piece { color: Color::White, piece_type: PieceType::HI })
    } else if rank == 2 && file == 2 {
        Some(Piece { color: Color::White, piece_type: PieceType::KA })
    } else if rank == 8 && file == 8 {
        Some(Piece { color: Color::Black, piece_type: PieceType::KA })
    } else if rank == 8 && file == 2 {
        Some(Piece { color: Color::Black, piece_type: PieceType::HI })
    } else {
        None
    }
}

/// The state of a position: what stands on each square, by square index; how
/// many pieces of each kind the hands hold, by hand index; who is to move;
/// and the number of the move that comes next.
pub struct PositionView {
    pub board: Seq<Option<Piece>>,
    pub hands: Seq<u8>,
    pub side: Color,
    pub ply: nat,
}

impl PositionView {
    /// A state has 81 squares and 14 kinds of piece in hand, none of them
    /// held more often than the table has constants for.
    pub open spec fn wf(self) -> bool {
        &&& self.board.len() == Square::NUM
        &&& self.hands.len() == 2 * PieceType::NUM_HAND
        &&& forall|k: int|
            0 <= k < self.hands.len() ==> #[trigger] self.hands[k] <= ZobristTable::MAX_HAND_NUM
    }

    /// The state in which a game begins.
    pub open spec fn initial() -> PositionView {
        PositionView {
            board: Seq::new(
                Square::NUM as nat,
                |i: int| initial_piece_spec((i / 9 + 1) as nat, (i % 9 + 1) as nat),
            ),
            hands: Seq::new(2 * PieceType::NUM_HAND as nat, |k: int| 0u8),
            side: Color::Black,
            ply: 1,
        }
    }

    /// How many pieces of type `pt` the hand of `c` holds.
    pub open spec fn hand_num(self, c: Color, pt: PieceType) -> u8 {
        self.hands[hand_index(c, pt) as int]
    }

    /// The board-only key of the state: it depends on the board alone.
    pub open spec fn board_key(self) -> u64 {
        board_fold(self.board, Square::NUM as nat)
    }

    /// What the hands contribute to the full key.
    pub open spec fn hand_key(self) -> u64 {
        hand_fold(self.hands, 2 * PieceType::NUM_HAND as nat)
    }

    /// The full key of the state: it depends on the board, the hands and the
    /// side to move, and on nothing else.
    pub open spec fn full_key(self) -> u64 {
        (self.board_key() ^ self.hand_key()) ^ side_term(self.side)
    }

    /// The fingerprint of the state.
    pub open spec fn fingerprint(self) -> FingerprintView {
        FingerprintView { full: self.full_key(), board: self.board_key() }
    }

    /// Whether `m` can be carried out on this state.
    ///
    /// A piece that moves stands on the square it leaves and goes to another
    /// square; it promotes only if its type can; what it takes belongs to the
    /// other player, is no king, and fits into the mover's hand. A piece that
    /// is dropped goes to an empty square and is in its owner's hand.
    pub open spec fn accepts(self, m: Move) -> bool {
        &&& self.ply < u32::MAX
        &&& match m {
            Move::Normal { from, to, is_promotion, piece } => {
                &&& from.valid()
                &&& to.valid()
                &&& from != to
                &&& self.board[from.index_spec() as int] == Some(piece)
                &&& is_promotion ==> piece.promoted_spec().is_some()
                &&& match self.board[to.index_spec() as int] {
                    Some(taken) => {
                        &&& taken.color != piece.color
                        &&& taken.piece_type != PieceType::OU
                        &&& self.hand_num(piece.color, taken.piece_type.demoted_spec())
                            < ZobristTable::MAX_HAND_NUM
                    },
                    None => true,
                }
            },
            Move::Drop { to, piece } => {
                &&& to.valid()
                &&& self.board[to.index_spec() as int] is None
                &&& piece.piece_type.is_hand_piece_spec()
                &&& self.hand_num(piece.color, piece.piece_type) >= 1
            },
        }
    }

    /// The board after `m` has been carried out: the square that a moving
    /// piece leaves is empty, and the square that the piece goes to holds it,
    /// promoted if the move says so.
    pub open spec fn board_after(self, m: Move) -> Seq<Option<Piece>> {
        match m {
            Move::Normal { from, to, is_promotion, piece } => {
                let placed = if is_promotion {
                    piece.promoted_spec().unwrap()
                } else {
                    piece
                };
                self.board.update(from.index_spec() as int, None).update(
                    to.index_spec() as int,
                    Some(placed),
                )
            },
            Move::Drop { to, piece } => self.board.update(to.index_spec() as int, Some(piece)),
        }
    }

    /// The kind of piece of which `m` changes the number held, by hand
    /// index, and the change: a piece that is taken goes to the mover's hand
    /// in its plain form, and a piece that is dropped leaves its owner's
    /// hand. A move that takes nothing changes no hand.
    pub open spec fn hand_change(self, m: Move) -> Option<(int, int)> {
        match m {
            Move::Normal { from, to, is_promotion, piece } => {
                match self.board[to.index_spec() as int] {
                    Some(taken) => Some(
                        (hand_index(piece.color, taken.piece_type.demoted_spec()) as int, 1int),
                    ),
                    None => None,
                }
            },
            Move::Drop { to, piece } => Some(
                (hand_index(piece.color, piece.piece_type) as int, -1int),
            ),
        }
    }

    /// The hands after `m` has been carried out.
    pub open spec fn hands_after(self, m: Move) -> Seq<u8> {
        match self.hand_change(m) {
            Some((kind, step)) => self.hands.update(kind, (self.hands[kind] + step) as u8),
            None => self.hands,
        }
    }

    /// The state after `m` has been carried out: the board and the hands
    /// have changed as the move says, the other player is to move, and the
    /// move number is one more.
    pub open spec fn after(self, m: Move) -> PositionView {
        PositionView {
            board: self.board_after(m),
            hands: self.hands_after(m),
            side: self.side.flip_spec(),
            ply: self.ply + 1,
        }
    }
}

/// Changing what stands on one square changes the contribution of the board
/// by what the square contributed before and what it contributes now.
pub proof fn lemma_board_fold_update(
    board: Seq<Option<Piece>>,
    i: int,
    cell: Option<Piece>,
    n: nat,
)
    requires
        0 <= i < board.len(),
        n <= board.len(),
    ensures
        board_fold(board.update(i, cell), n) == if i < n {
            (board_fold(board, n) ^ piece_term(i as nat, board[i])) ^ piece_term(i as nat, cell)
        } else {
            board_fold(board, n)
        },
    decreases n,
{
    if n > 0 {
        let m = (n - 1) as nat;
        lemma_board_fold_update(board, i, cell, m);
        let before = board_fold(board, m);
        let was = piece_term(i as nat, board[i]);
        let is = piece_term(i as nat, cell);
        let last = piece_term(m, board[m as int]);
        if i == m {
            assert(before ^ is == ((before ^ was) ^ was) ^ is) by (bit_vector);
        } else if i < m {
            assert(((before ^ was) ^ is) ^ last == ((before ^ last) ^ was) ^ is) by (bit_vector);
        }
    }
}

/// Changing how many pieces of one kind are held changes the contribution of
/// the hands by what the kind contributed before and what it contributes
/// now.
pub proof fn lemma_hand_fold_update(hands: Seq<u8>, k: int, num: u8, n: nat)
    requires
        0 <= k < hands.len(),
        n <= hands.len(),
    ensures
        hand_fold(hands.update(k, num), n) == if k < n {
            (hand_fold(hands, n) ^ hand_term(k as nat, hands[k] as nat)) ^ hand_term(
                k as nat,
                num as nat,
            )
        } else {
            hand_fold(hands, n)
        },
    decreases n,
{
    if n > 0 {
        let m = (n - 1) as nat;
        lemma_hand_fold_update(hands, k, num, m);
        let before = hand_fold(hands, m);
        let was = hand_term(k as nat, hands[k] as nat);
        let is = hand_term(k as nat, num as nat);
        let last = hand_term(m, hands[m as int] as nat);
        if k == m {
            assert(before ^ is == ((before ^ was) ^ was) ^ is) by (bit_vector);
        } else if k < m {
            assert(((before ^ was) ^ is) ^ last == ((before ^ last) ^ was) ^ is) by (bit_vector);
        }
    }
}

/// The contribution of the hands depends only on the counts of the kinds
/// that are counted.
pub proof fn lemma_hand_fold_agrees(a: Seq<u8>, b: Seq<u8>, n: nat)
    requires
        forall|k: int| 0 <= k < n ==> a[k] == b[k],
    ensures
        hand_fold(a, n) == hand_fold(b, n),
    decreases n,
{
    if n > 0 {
        lemma_hand_fold_agrees(a, b, (n - 1) as nat);
    }
}

/// Squares on which nothing stands contribute nothing.
pub proof fn lemma_board_fold_empty(board: Seq<Option<Piece>>, n: nat)
    requires
        forall|i: int| 0 <= i < n ==> board[i] is None,
    ensures
        board_fold(board, n) == 0,
    decreases n,
{
    if n > 0 {
        lemma_board_fold_empty(board, (n - 1) as nat);
        lemma_xor_zero(0);
    }
}

/// Kinds of which no piece is held contribute nothing.
pub proof fn lemma_hand_fold_empty(hands: Seq<u8>, n: nat)
    requires
        forall|k: int| 0 <= k < n ==> hands[k] == 0,
    ensures
        hand_fold(hands, n) == 0,
    decreases n,
{
    if n > 0 {
        lemma_hand_fold_empty(hands, (n - 1) as nat);
        lemma_xor_zero(hand_constant_at((n - 1) as nat, 0));
        lemma_xor_zero(0);
    }
}

/// The board never touches the side-to-move bit.
pub proof fn lemma_board_fold_side_bit(board: Seq<Option<Piece>>, n: nat)
    ensures
        board_fold(board, n) & SIDE_BIT == 0,
    decreases n,
{
    if n == 0 {
        assert(0u64 & 1 == 0) by (bit_vector);
    } else {
        let m = (n - 1) as nat;
        lemma_board_fold_side_bit(board, m);
        match board[m as int] {
            Some(p) => lemma_board_constant_side_bit(m, p),
            None => {
                assert(0u64 & 1 == 0) by (bit_vector);
            },
        }
        lemma_xor_side_bit(board_fold(board, m), piece_term(m, board[m as int]));
        lemma_xor_zero(0);
    }
}

/// The hands never touch the side-to-move bit.
pub proof fn lemma_hand_fold_side_bit(hands: Seq<u8>, n: nat)
    ensures
        hand_fold(hands, n) & SIDE_BIT == 0,
    decreases n,
{
    if n == 0 {
        assert(0u64 & 1 == 0) by (bit_vector);
    } else {
        let m = (n - 1) as nat;
        lemma_hand_fold_side_bit(hands, m);
        lemma_hand_constant_side_bit(m, 0);
        lemma_hand_constant_side_bit(m, hands[m as int] as nat);
        lemma_xor_side_bit(hand_constant_at(m, 0), hand_constant_at(m, hands[m as int] as nat));
        lemma_xor_side_bit(hand_fold(hands, m), hand_term(m, hands[m as int] as nat));
        lemma_xor_zero(0);
    }
}

/// The piece that stands on `file` and `rank` when a game begins, if any.
pub fn initial_piece(file: u8, rank: u8) -> (cell: Option<Piece>)
    ensures
        cell == initial_piece_spec(file as nat, rank as nat),
{
    if rank == 1 || rank == 9 {
        let color = if rank == 1 {
            Color::White
        } else {
            Color::Black
        };
        let piece_type = if file == 1 || file == 9 {
            PieceType::KY
        } else if file == 2 || file == 8 {
            PieceType::KE
        } else if file == 3 || file == 7 {
            PieceType::GI
        } else if file == 4 || file == 6 {
            PieceType::KI
        } else {
            PieceType::OU
        };
        Some(Piece::new(color, piece_type))
    } else if rank == 3 {
        Some(Piece::new(Color::White, PieceType::FU))
    } else if rank == 7 {
        Some(Piece::new(Color::Black, PieceType::FU))
    } else if rank == 2 && file == 8 {
        Some(Piece::new(Color::White, PieceType::HI))
    } else if rank == 2 && file == 2 {
        Some(Piece::new(Color::White, PieceType::KA))
    } else if rank == 8 && file == 8 {
        Some(Piece::new(Color::Black, PieceType::KA))
    } else if rank == 8 && file == 2 {
        Some(Piece::new(Color::Black, PieceType::HI))
    } else {
        None
    }
}

/// A position that keeps its fingerprint up to date.
#[derive(Clone, Copy)]
pub struct Position<'a> {
    table: &'a ZobristTable,
    board: [Option<Piece>; 81],
    hands: [u8; 14],
    side_to_move: Color,
    ply: u32,
    keys: Fingerprint,
}

impl<'a> View for Position<'a> {
    type V = PositionView;

    closed spec fn view(&self) -> PositionView {
        PositionView {
            board: self.board@,
            hands: self.hands@,
            side: self.side_to_move,
            ply: self.ply as nat,
        }
    }
}

impl<'a> Position<'a> {
    /// A position is well formed when its state is and its fingerprint is
    /// the fingerprint of its state.
    pub closed spec fn wf(&self) -> bool {
        &&& self@.wf()
        &&& self.keys@ == self@.fingerprint()
    }

    /// The position with `board` on the squares, by square index, and
    /// `hand_nums` in the hands, by colour and piece type, in which
    /// `side_to_move` makes move number `ply`.
    pub fn new(
        table: &'a ZobristTable,
        board: [Option<Piece>; 81],
        hand_nums: [[u8; 7]; 2],
        side_to_move: Color,
        ply: u32,
    ) -> (pos: Position<'a>)
        requires
            forall|c: int, k: int|
                0 <= c < 2 && 0 <= k < 7 ==> #[trigger] hand_nums@[c]@[k]
                    <= ZobristTable::MAX_HAND_NUM,
        ensures
            pos.wf(),
            pos@.board == board@,
            pos@.hands.len() == 14,
            forall|c: int, k: int|
                0 <= c < 2 && 0 <= k < 7 ==> pos@.hands[c * 7 + k] == #[trigger] hand_nums@[c]@[k],
            pos@.side == side_to_move,
            pos@.ply == ply,
    {
        let mut keys = Fingerprint::new();
        let mut i: usize = 0;
        proof {
            lemma_xor_zero(0);
        }
        while i < 81
            invariant
                i <= 81,
                keys@.full == board_fold(board@, i as nat),
                keys@.board == board_fold(board@, i as nat),
            decreases 81 - i,
        {
            match board[i] {
                Some(piece) => {
                    let sq = Square::from_index(i).unwrap();
                    keys.toggle_piece(table, sq, piece);
                },
                None => {
                    proof {
                        lemma_xor_zero(keys@.full);
                    }
                },
            }
            i = i + 1;
        }
        let mut hands: [u8; 14] = [0u8; 14];
        let mut kind: usize = 0;
        proof {
            lemma_xor_zero(keys@.full);
        }
        while kind < 14
            invariant
                kind <= 14,
                forall|c: int, k: int|
                    0 <= c < 2 && 0 <= k < 7 ==> #[trigger] hand_nums@[c]@[k]
                        <= ZobristTable::MAX_HAND_NUM,
                forall|j: int| 0 <= j < kind ==> hands@[j] == hand_nums@[j / 7]@[j % 7],
                keys@.board == board_fold(board@, 81),
                keys@.full == board_fold(board@, 81) ^ hand_fold(hands@, kind as nat),
            decreases 14 - kind,
        {
            let c = kind / 7;
            let k = kind % 7;
            let color = if c == 0 {
                Color::Black
            } else {
                Color::White
            };
            let piece_type = PieceType::from_index(k).unwrap();
            let num = hand_nums[c][k];
            assert(num == hand_nums@[c as int]@[k as int]);
            let ghost before = hands@;
            keys.change_hand(table, color, piece_type, 0, num);
            hands[kind] = num;
            proof {
                lemma_hand_fold_agrees(before, hands@, kind as nat);
                let b = board_fold(board@, 81);
                let h = hand_fold(hands@, kind as nat);
                let t = hand_term(kind as nat, num as nat);
                assert((b ^ h) ^ t == b ^ (h ^ t)) by (bit_vector);
                lemma_xor_zero(b);
            }
            kind = kind + 1;
        }
        match side_to_move {
            Color::Black => {
                proof {
                    lemma_xor_zero(keys@.full);
                }
            },
            Color::White => {
                keys.flip_side();
            },
        }
        let pos = Position { table, board, hands, side_to_move, ply, keys };
        assert forall|c: int, k: int| 0 <= c < 2 && 0 <= k < 7 implies pos@.hands[c * 7 + k]
            == #[trigger] hand_nums@[c]@[k] by {
            let j = c * 7 + k;
            assert(j / 7 == c && j % 7 == k);
        }
        assert forall|j: int| 0 <= j < pos@.hands.len() implies #[trigger] pos@.hands[j]
            <= ZobristTable::MAX_HAND_NUM by {
            assert(hand_nums@[j / 7]@[j % 7] <= ZobristTable::MAX_HAND_NUM);
        }
        pos
    }

    /// The position in which a game begins.
    pub fn initial(table: &'a ZobristTable) -> (pos: Position<'a>)
        ensures
            pos.wf(),
            pos@ == PositionView::initial(),
    {
        let mut board: [Option<Piece>; 81] = [None; 81];
        let mut i: usize = 0;
        while i < 81
            invariant
                i <= 81,
                forall|j: int|
                    0 <= j < i ==> #[trigger] board@[j] == initial_piece_spec(
                        (j / 9 + 1) as nat,
                        (j % 9 + 1) as nat,
                    ),
            decreases 81 - i,
        {
            let file = (i / 9 + 1) as u8;
            let rank = (i % 9 + 1) as u8;
            board[i] = initial_piece(file, rank);
            i = i + 1;
        }
        let hand_nums: [[u8; 7]; 2] = [[0u8; 7]; 2];
        let pos = Position::new(table, board, hand_nums, Color::Black, 1);
        assert(pos@.board =~= PositionView::initial().board);
        assert forall|j: int| 0 <= j < 14 implies pos@.hands[j] == 0 by {
            let c = j / 7;
            let k = j % 7;
            assert(pos@.hands[c * 7 + k] == hand_nums@[c]@[k]);
        }
        assert(pos@.hands =~= PositionView::initial().hands);
        pos
    }

    /// Who is to move.
    pub fn side_to_move(&self) -> (side: Color)
        ensures
            side == self@.side,
    {
        self.side_to_move
    }

    /// The number of the move that comes next.
    pub fn ply(&self) -> (ply: u32)
        ensures
            ply == self@.ply,
    {
        self.ply
    }

    /// What stands on `sq`.
    pub fn piece_on(&self, sq: Square) -> (cell: Option<Piece>)
        ensures
            cell == self@.board[sq.index_spec() as int],
    {
        self.board[sq.index()]
    }

    /// How many pieces of type `pt` the hand of `c` holds.
    pub fn hand_num(&self, c: Color, pt: PieceType) -> (num: u8)
        requires
            pt.is_hand_piece_spec(),
        ensures
            num == self@.hand_num(c, pt),
    {
        self.hands[c.index() * 7 + pt.index()]
    }

    /// Whether `m` can be carried out on this position.
    pub fn accepts(&self, m: Move) -> (ok: bool)
        requires
            self.wf(),
        ensures
            ok == self@.accepts(m),
    {
        if self.ply == u32::MAX {
            return false;
        }
        match m {
            Move::Normal { from, to, is_promotion, piece } => {
                let f = from.index();
                let t = to.index();
                if f == t {
                    proof {
                        Square::lemma_index_injective(from, to);
                    }
                    return false;
                }
                if self.board[f] != Some(piece) {
                    return false;
                }
                if is_promotion && piece.promoted().is_none() {
                    return false;
                }
                match self.board[t] {
                    Some(taken) => {
                        if taken.color() == piece.color() || taken.piece_type() == PieceType::OU {
                            return false;
                        }
                        let kind = piece.color().index() * 7 + taken.piece_type().demoted().index();
                        self.hands[kind] < 18
                    },
                    None => true,
                }
            },
            Move::Drop { to, piece } => {
                let t = to.index();
                if self.board[t].is_some() || !piece.piece_type().is_hand_piece() {
                    return false;
                }
                let kind = piece.color().index() * 7 + piece.piece_type().index();
                self.hands[kind] >= 1
            },
        }
    }

    /// Carries out `m` and brings the fingerprint up to date.
    ///
    /// The constant of every piece that leaves or enters a square goes into
    /// both keys, the constants of the old and the new count of a hand that
    /// changes go into the full key, and the side-to-move bit of the full
    /// key flips.
    pub fn do_move(&mut self, m: Move)
        requires
            old(self).wf(),
            old(self)@.accepts(m),
        ensures
            final(self).wf(),
            final(self)@ == old(self)@.after(m),
            final(self)@.full_key() & SIDE_BIT != old(self)@.full_key() & SIDE_BIT,
    {
        let table = self.table;
        let ghost start = self@;
        let ghost b0 = start.board_key();
        let ghost h0 = start.hand_key();
        let ghost s0 = side_term(start.side);
        match m {
            Move::Normal { from, to, is_promotion, piece } => {
                let f = from.index();
                let t = to.index();
                let ghost taken_term = piece_term(t as nat, start.board[t as int]);
                let ghost mut was: u64 = 0;
                let ghost mut is: u64 = 0;
                proof {
                    lemma_xor_zero(0);
                    lemma_xor_zero(self.keys@.full);
                    lemma_xor_zero(self.keys@.board);
                    lemma_xor_zero(h0);
                }
                match self.board[t] {
                    Some(taken) => {
                        let piece_type = taken.piece_type().demoted();
                        let kind = piece.color().index() * 7 + piece_type.index();
                        let num = self.hands[kind];
                        self.keys.toggle_piece(table, to, taken);
                        proof {
                            lemma_xor_zero(self.keys@.board);
                        }
                        self.keys.change_hand(table, piece.color(), piece_type, num, num + 1);
                        self.hands[kind] = num + 1;
                        proof {
                            was = hand_term(kind as nat, num as nat);
                            is = hand_term(kind as nat, (num + 1) as nat);
                            lemma_hand_fold_update(start.hands, kind as int, (num + 1) as u8, 14);
                            let c0 = hand_constant_at(kind as nat, 0);
                            let c1 = hand_constant_at(kind as nat, num as nat);
                            let c2 = hand_constant_at(kind as nat, (num + 1) as nat);
                            assert((c0 ^ c1) ^ (c0 ^ c2) == c1 ^ c2) by (bit_vector);
                        }
                    },
                    None => {},
                }
                let placed = if is_promotion {
                    piece.promoted().unwrap()
                } else {
                    piece
                };
                self.keys.toggle_piece(table, from, piece);
                self.keys.toggle_piece(table, to, placed);
                self.board[f] = None;
                self.board[t] = Some(placed);
                proof {
                    lemma_xor_zero(self.keys@.board);
                }
                self.keys.flip_side();
                self.side_to_move = self.side_to_move.flip();
                self.ply = self.ply + 1;
                proof {
                    let left = piece_term(f as nat, Some(piece));
                    let put = piece_term(t as nat, Some(placed));
                    let mid = start.board.update(f as int, None);
                    lemma_board_fold_update(start.board, f as int, None, 81);
                    lemma_board_fold_update(mid, t as int, Some(placed), 81);
                    let b1 = self@.board_key();
                    let h1 = self@.hand_key();
                    let s1 = side_term(self@.side);
                    assert(b1 == (((b0 ^ left) ^ 0) ^ taken_term) ^ put);
                    assert(h1 == (h0 ^ was) ^ is);
                    assert(s1 == s0 ^ 1) by {
                        assert(0u64 ^ 1 == 1 && 1u64 ^ 1 == 0) by (bit_vector);
                    }
                    let delta = was ^ is;
                    assert(self.keys@.board == ((b0 ^ taken_term) ^ left) ^ put);
                    assert(self.keys@.full == ((((((b0 ^ h0) ^ s0) ^ taken_term) ^ delta) ^ left)
                        ^ put) ^ 1);
                    assert(((b0 ^ taken_term) ^ left) ^ put == (((b0 ^ left) ^ 0) ^ taken_term)
                        ^ put) by (bit_vector);
                    assert(((((((b0 ^ h0) ^ s0) ^ taken_term) ^ (was ^ is)) ^ left) ^ put) ^ 1 == ((
                    (((b0 ^ left) ^ 0) ^ taken_term) ^ put) ^ ((h0 ^ was) ^ is)) ^ (s0 ^ 1))
                        by (bit_vector);
                }
            },
            Move::Drop { to, piece } => {
                let t = to.index();
                let kind = piece.color().index() * 7 + piece.piece_type().index();
                let num = self.hands[kind];
                proof {
                    lemma_xor_zero(self.keys@.board);
                }
                self.keys.change_hand(table, piece.color(), piece.piece_type(), num, num - 1);
                self.hands[kind] = num - 1;
                self.keys.toggle_piece(table, to, piece);
                self.board[t] = Some(piece);
                proof {
                    lemma_xor_zero(self.keys@.board);
                }
                self.keys.flip_side();
                self.side_to_move = self.side_to_move.flip();
                self.ply = self.ply + 1;
                proof {
                    let put = piece_term(t as nat, Some(piece));
                    let was = hand_term(kind as nat, num as nat);
                    let is = hand_term(kind as nat, (num - 1) as nat);
                    lemma_board_fold_update(start.board, t as int, Some(piece), 81);
                    lemma_hand_fold_update(start.hands, kind as int, (num - 1) as u8, 14);
                    let c0 = hand_constant_at(kind as nat, 0);
                    let c1 = hand_constant_at(kind as nat, num as nat);
                    let c2 = hand_constant_at(kind as nat, (num - 1) as nat);
                    assert((c0 ^ c1) ^ (c0 ^ c2) == c1 ^ c2) by (bit_vector);
                    let b1 = self@.board_key();
                    let h1 = self@.hand_key();
                    let s1 = side_term(self@.side);
                    assert(b1 == (b0 ^ 0) ^ put);
                    assert(h1 == (h0 ^ was) ^ is);
                    assert(s1 == s0 ^ 1) by {
                        assert(0u64 ^ 1 == 1 && 1u64 ^ 1 == 0) by (bit_vector);
                    }
                    lemma_xor_zero(b0);
                    assert(self.keys@.board == (b0 ^ 0) ^ put);
                    assert(self.keys@.full == ((((b0 ^ h0) ^ s0) ^ (was ^ is)) ^ put) ^ 1);
                    assert(((((b0 ^ h0) ^ s0) ^ (was ^ is)) ^ put) ^ 1 == (((b0 ^ 0) ^ put) ^ ((h0
                        ^ was) ^ is)) ^ (s0 ^ 1)) by (bit_vector);
                }
            },
        }
        proof {
            lemma_key_parity(start);
            lemma_key_parity(self@);
        }
    }

    /// The full key as a number.
    pub fn key(&self) -> (key: u64)
        requires
            self.wf(),
        ensures
            key == self@.full_key(),
    {
        self.keys.full_key().value()
    }

    /// The board-only key and the full key as numbers, in this order.
    pub fn keys(&self) -> (keys: (u64, u64))
        requires
            self.wf(),
        ensures
            keys.0 == self@.board_key(),
            keys.1 == self@.full_key(),
    {
        (self.keys.board_key().value(), self.keys.full_key().value())
    }
}

/// The side-to-move bit of the full key tells who is to move: it is clear
/// when Black is to move and set when White is.
pub proof fn lemma_key_parity(p: PositionView)
    ensures
        p.full_key() & SIDE_BIT == side_term(p.side),
        p.board_key() & SIDE_BIT == 0,
{
    let b = p.board_key();
    let h = p.hand_key();
    let s = side_term(p.side);
    lemma_board_fold_side_bit(p.board, Square::NUM as nat);
    lemma_hand_fold_side_bit(p.hands, 2 * PieceType::NUM_HAND as nat);
    assert(b & 1 == 0 && h & 1 == 0 && (s == 0 || s == 1) ==> ((b ^ h) ^ s) & 1 == s)
        by (bit_vector);
}

/// A position with nothing on the board, nothing in the hands and Black to
/// move has the key zero, and so has its board.
pub proof fn lemma_empty_position(p: PositionView)
    requires
        forall|i: int| 0 <= i < Square::NUM ==> p.board[i] is None,
        forall|k: int| 0 <= k < 2 * PieceType::NUM_HAND ==> p.hands[k] == 0,
        p.side == Color::Black,
    ensures
        p.full_key() == 0,
        p.board_key() == 0,
{
    lemma_board_fold_empty(p.board, Square::NUM as nat);
    lemma_hand_fold_empty(p.hands, 2 * PieceType::NUM_HAND as nat);
    lemma_xor_zero(0);
}

/// Every move changes the side-to-move bit of the full key, and the move
/// after it changes it back.
pub proof fn lemma_parity_alternates(p: PositionView, first: Move, second: Move)
    ensures
        p.after(first).full_key() & SIDE_BIT != p.full_key() & SIDE_BIT,
        p.after(first).after(second).full_key() & SIDE_BIT == p.full_key() & SIDE_BIT,
{
    lemma_key_parity(p);
    lemma_key_parity(p.after(first));
    lemma_key_parity(p.after(first).after(second));
}

/// Positions with the same board, the same hands and the same side to move
/// have the same keys, by whatever moves and in whatever order they were
/// reached.
pub proof fn lemma_same_state_same_keys(p: PositionView, q: PositionView)
    requires
        p.board == q.board,
        p.hands == q.hands,
        p.side == q.side,
    ensures
        p.full_key() == q.full_key(),
        p.board_key() == q.board_key(),
{
}

/// Positions with the same board have the same board-only key, whatever the
/// hands hold and whoever is to move.
pub proof fn lemma_board_key_of_board(p: PositionView, q: PositionView)
    requires
        p.board == q.board,
    ensures
        p.board_key() == q.board_key(),
{
}

/// Positions with the same board and the same side to move have the same
/// full key exactly when their hands contribute the same.
pub proof fn lemma_full_keys_differ_by_hands(p: PositionView, q: PositionView)
    requires
        p.board == q.board,
        p.side == q.side,
    ensures
        p.full_key() == q.full_key() <==> p.hand_key() == q.hand_key(),
        p.full_key() ^ q.full_key() == p.hand_key() ^ q.hand_key(),
{
    let b = p.board_key();
    let s = side_term(p.side);
    let x = p.hand_key();
    let y = q.hand_key();
    assert(((b ^ x) ^ s == (b ^ y) ^ s) <==> x == y) by (bit_vector);
    assert(((b ^ x) ^ s) ^ ((b ^ y) ^ s) == x ^ y) by (bit_vector);
}

/// Whether a move touches a square: the square it leaves or the square it
/// goes to.
pub open spec fn touches(m: Move, sq: Square) -> bool {
    match m {
        Move::Normal { from, to, is_promotion, piece } => sq == from || sq == to,
        Move::Drop { to, piece } => sq == to,
    }
}

/// Whether two moves touch no square in common.
pub open spec fn square_disjoint(a: Move, b: Move) -> bool {
    forall|sq: Square| !(touches(a, sq) && touches(b, sq))
}

/// A move changes the board on the squares it touches and nowhere else.
proof fn lemma_board_after_elsewhere(p: PositionView, m: Move, i: int)
    requires
        p.wf(),
        p.accepts(m),
        0 <= i < Square::NUM,
        forall|sq: Square| touches(m, sq) ==> sq.index_spec() != i,
    ensures
        p.board_after(m).len() == Square::NUM,
        p.board_after(m)[i] == p.board[i],
{
    match m {
        Move::Normal { from, to, is_promotion, piece } => {
            assert(touches(m, from) && touches(m, to));
        },
        Move::Drop { to, piece } => {
            assert(touches(m, to));
        },
    }
}

/// Squares that two square-disjoint moves touch have different indices.
proof fn lemma_disjoint_indices(a: Move, b: Move)
    requires
        square_disjoint(a, b),
    ensures
        forall|x: Square, y: Square|
            touches(a, x) && touches(b, y) ==> x.index_spec() != y.index_spec(),
{
    assert forall|x: Square, y: Square| touches(a, x) && touches(b, y) implies x.index_spec()
        != y.index_spec() by {
        if x.index_spec() == y.index_spec() {
            Square::lemma_index_injective(x, y);
            assert(touches(a, x) && touches(b, x));
        }
    }
}

/// After a move that touches other squares, a move changes the same hand in
/// the same way as before it.
proof fn lemma_hand_change_kept(p: PositionView, a: Move, b: Move)
    requires
        p.wf(),
        p.accepts(a),
        p.accepts(b),
        square_disjoint(a, b),
    ensures
        p.after(b).hand_change(a) == p.hand_change(a),
{
    lemma_disjoint_indices(b, a);
    lemma_disjoint_indices(a, b);
    match a {
        Move::Normal { from, to, is_promotion, piece } => {
            assert(touches(a, to));
            lemma_board_after_elsewhere(p, b, to.index_spec() as int);
        },
        Move::Drop { to, piece } => {},
    }
}

/// Two square-disjoint moves leave the same board in either order.
proof fn lemma_boards_commute(p: PositionView, a: Move, b: Move)
    requires
        p.wf(),
        p.accepts(a),
        p.accepts(b),
        square_disjoint(a, b),
    ensures
        p.after(a).board_after(b) == p.after(b).board_after(a),
{
    lemma_disjoint_indices(a, b);
    match a {
        Move::Normal { from, to, is_promotion, piece } => {
            assert(touches(a, from) && touches(a, to));
        },
        Move::Drop { to, piece } => {
            assert(touches(a, to));
        },
    }
    match b {
        Move::Normal { from, to, is_promotion, piece } => {
            assert(touches(b, from) && touches(b, to));
        },
        Move::Drop { to, piece } => {
            assert(touches(b, to));
        },
    }
    assert(p.after(a).board_after(b) =~= p.after(b).board_after(a));
}

/// The change that an accepted move makes to a hand stays within what the
/// hand can hold.
proof fn lemma_hand_change_in_range(p: PositionView, m: Move)
    requires
        p.wf(),
        p.accepts(m),
    ensures
        p.hand_change(m) matches Some((kind, step)) ==> {
            &&& 0 <= kind < p.hands.len()
            &&& 0 <= p.hands[kind] + step <= ZobristTable::MAX_HAND_NUM
        },
{
    match m {
        Move::Normal { from, to, is_promotion, piece } => {
            match p.board[to.index_spec() as int] {
                Some(taken) => {
                    let pt = taken.piece_type.demoted_spec();
                    assert(pt.is_hand_piece_spec());
                    assert(p.hand_num(piece.color, pt) == p.hands[hand_index(piece.color, pt) as int]);
                },
                None => {},
            }
        },
        Move::Drop { to, piece } => {
            assert(p.hand_num(piece.color, piece.piece_type) == p.hands[hand_index(
                piece.color,
                piece.piece_type,
            ) as int]);
        },
    }
}

/// Two square-disjoint moves leave the same hands in either order.
proof fn lemma_hands_commute(p: PositionView, a: Move, b: Move)
    requires
        p.wf(),
        p.accepts(a),
        p.accepts(b),
        p.after(a).accepts(b),
        p.after(b).accepts(a),
        square_disjoint(a, b),
    ensures
        p.after(a).hands_after(b) == p.after(b).hands_after(a),
{
    lemma_hand_change_kept(p, a, b);
    lemma_hand_change_kept(p, b, a);
    lemma_hand_change_in_range(p, a);
    lemma_hand_change_in_range(p, b);
    let pa = p.after(a);
    let pb = p.after(b);
    assert(pa.hands == p.hands_after(a));
    assert(pb.hands == p.hands_after(b));
    assert(pa.hand_change(b) == p.hand_change(b));
    assert(pb.hand_change(a) == p.hand_change(a));
    lemma_after_wf(p, a);
    lemma_after_wf(p, b);
    lemma_hand_change_in_range(pa, b);
    lemma_hand_change_in_range(pb, a);
    assert(pa.hands_after(b) =~= pb.hands_after(a));
}

/// Two moves that touch no square in common lead to the same position in
/// either order, and so to the same keys.
pub proof fn lemma_disjoint_moves_commute(p: PositionView, a: Move, b: Move)
    requires
        p.wf(),
        p.accepts(a),
        p.accepts(b),
        p.after(a).accepts(b),
        p.after(b).accepts(a),
        square_disjoint(a, b),
    ensures
        p.after(a).after(b) == p.after(b).after(a),
        p.after(a).after(b).full_key() == p.after(b).after(a).full_key(),
        p.after(a).after(b).board_key() == p.after(b).after(a).board_key(),
{
    lemma_boards_commute(p, a, b);
    lemma_hands_commute(p, a, b);
}

/// A move that a well-formed state accepts leads to a well-formed state.
pub proof fn lemma_after_wf(p: PositionView, m: Move)
    requires
        p.wf(),
        p.accepts(m),
    ensures
        p.after(m).wf(),
{
    let q = p.after(m);
    assert forall|k: int| 0 <= k < q.hands.len() implies #[trigger] q.hands[k]
        <= ZobristTable::MAX_HAND_NUM by {
        assert(p.hands[k] <= ZobristTable::MAX_HAND_NUM);
    }
}

/// Whether the moves `x`, `y` and `z` can be carried out one after the
/// other, in this order.
pub open spec fn playable(p: PositionView, x: Move, y: Move, z: Move) -> bool {
    &&& p.accepts(x)
    &&& p.after(x).accepts(y)
    &&& p.after(x).after(y).accepts(z)
}

/// Three moves of which no two touch a square in common, and which can be
/// carried out in every order, lead to the same position in every order,
/// and so to the same keys.
pub proof fn lemma_three_moves_any_order(p: PositionView, a: Move, b: Move, c: Move)
    requires
        p.wf(),
        square_disjoint(a, b),
        square_disjoint(a, c),
        square_disjoint(b, c),
        playable(p, a, b, c),
        playable(p, a, c, b),
        playable(p, b, a, c),
        playable(p, b, c, a),
        playable(p, c, a, b),
        playable(p, c, b, a),
    ensures
        p.after(a).after(c).after(b) == p.after(a).after(b).after(c),
        p.after(b).after(a).after(c) == p.after(a).after(b).after(c),
        p.after(b).after(c).after(a) == p.after(a).after(b).after(c),
        p.after(c).after(a).after(b) == p.after(a).after(b).after(c),
        p.after(c).after(b).after(a) == p.after(a).after(b).after(c),
        p.after(c).after(b).after(a).full_key() == p.after(a).after(b).after(c).full_key(),
{
    lemma_after_wf(p, a);
    lemma_after_wf(p, b);
    lemma_after_wf(p, c);
    lemma_disjoint_moves_commute(p, a, b);
    lemma_disjoint_moves_commute(p, a, c);
    lemma_disjoint_moves_commute(p, b, c);
    lemma_disjoint_moves_commute(p.after(a), b, c);
    lemma_disjoint_moves_commute(p.after(b), a, c);
    lemma_disjoint_moves_commute(p.after(c), a, b);
}

} // verus!
