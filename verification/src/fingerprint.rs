//! The running fingerprint of a position: a full key and a board-only key,
//! and the three ways in which a change of the position changes them.
//!
//! The board-only key takes no part in the side to move: the side-to-move
//! bit goes into the full key alone.
use crate::key::{
    lemma_xor_associative, lemma_xor_self_inverse, lemma_xor_side_bit, lemma_xor_zero, Key,
    SIDE_BIT,
};
use crate::pieces::{Color, Piece, PieceType, Square};
use crate::table::{
    board_constant, hand_constant, hand_index, lemma_board_constant_side_bit,
    lemma_hand_constant_side_bit, ZobristTable,
};
use vstd::prelude::*;

verus! {

/// The two keys of a position as bit patterns.
pub struct FingerprintView {
    /// Accumulates the pieces on the board, the hands and the side to move.
    pub full: u64,
    /// Accumulates the pieces on the board only.
    pub board: u64,
}

/// One change of a position, as far as its fingerprint is concerned.
pub enum Update {
    /// A piece is put on a square or taken from it.
    Piece { sq: Square, piece: Piece },
    /// The number of pieces of one type in one hand changes.
    Hand { color: Color, piece_type: PieceType, old_num: u8, new_num: u8 },
    /// The side to move changes.
    Side,
}

impl Update {
    /// Whether the update names constants that the table holds: a piece type
    /// that a hand can hold, and counts within the largest count.
    pub open spec fn valid(self) -> bool {
        match self {
            Update::Hand { color, piece_type, old_num, new_num } => {
                &&& piece_type.is_hand_piece_spec()
                &&& old_num <= ZobristTable::MAX_HAND_NUM
                &&& new_num <= ZobristTable::MAX_HAND_NUM
            },
            _ => true,
        }
    }

    /// What the update combines into the full key.
    pub open spec fn full_delta(self) -> u64 {
        match self {
            Update::Piece { sq, piece } => board_constant(sq, piece),
            Update::Hand { color, piece_type, old_num, new_num } => hand_constant(
                color,
                piece_type,
                old_num as nat,
            ) ^ hand_constant(color, piece_type, new_num as nat),
            Update::Side => SIDE_BIT,
        }
    }

    /// What the update combines into the board-only key.
    pub open spec fn board_delta(self) -> u64 {
        match self {
            Update::Piece { sq, piece } => board_constant(sq, piece),
            _ => 0,
        }
    }
}

impl FingerprintView {
    /// The fingerprint into which nothing has been combined yet.
    pub open spec fn zero() -> FingerprintView {
        FingerprintView { full: 0, board: 0 }
    }

    /// The fingerprint after an update.
    pub open spec fn apply(self, u: Update) -> FingerprintView {
        FingerprintView { full: self.full ^ u.full_delta(), board: self.board ^ u.board_delta() }
    }

    /// The side-to-move bit of the full key.
    pub open spec fn parity(self) -> u64 {
        self.full & SIDE_BIT
    }
}

/// The running fingerprint of a position.
#[derive(Clone, Copy, Debug)]
pub struct Fingerprint {
    full: Key,
    board: Key,
}

impl View for Fingerprint {
    type V = FingerprintView;

    closed spec fn view(&self) -> FingerprintView {
        FingerprintView { full: self.full@, board: self.board@ }
    }
}

impl Fingerprint {
    /// The fingerprint of the position with an empty board, empty hands and
    /// Black to move.
    pub fn new() -> (f: Fingerprint)
        ensures
            f@ == FingerprintView::zero(),
    {
        Fingerprint { full: Key::zero(), board: Key::zero() }
    }

    /// The full key.
    pub fn full_key(&self) -> (key: Key)
        ensures
            key@ == self@.full,
    {
        self.full
    }

    /// The board-only key.
    pub fn board_key(&self) -> (key: Key)
        ensures
            key@ == self@.board,
    {
        self.board
    }

    /// Accounts for `piece` being put on `sq` or taken from it: its constant
    /// goes into both keys.
    pub fn toggle_piece(&mut self, table: &ZobristTable, sq: Square, piece: Piece)
        ensures
            final(self)@ == old(self)@.apply(Update::Piece { sq, piece }),
    {
        let constant = table.board(sq, piece);
        self.full = self.full ^ constant;
        self.board = self.board ^ constant;
    }

    /// Accounts for the number of pieces of type `piece_type` in the hand of
    /// `color` changing from `old_num` to `new_num`: the constants of both
    /// counts go into the full key.
    pub fn change_hand(
        &mut self,
        table: &ZobristTable,
        color: Color,
        piece_type: PieceType,
        old_num: u8,
        new_num: u8,
    )
        requires
            (Update::Hand { color, piece_type, old_num, new_num }).valid(),
        ensures
            final(self)@ == old(self)@.apply(Update::Hand { color, piece_type, old_num, new_num }),
    {
        let before = table.hand(color, piece_type, old_num);
        let after = table.hand(color, piece_type, new_num);
        proof {
            lemma_xor_associative(self.full@, before@, after@);
            lemma_xor_zero(self.board@);
        }
        self.full = self.full ^ before;
        self.full = self.full ^ after;
    }

    /// Accounts for the side to move changing: the side-to-move bit of the
    /// full key flips.
    pub fn flip_side(&mut self)
        ensures
            final(self)@ == old(self)@.apply(Update::Side),
    {
        proof {
            lemma_xor_zero(self.board@);
        }
        self.full = self.full ^ Key::color();
    }
}

/// Applying the same update twice restores the fingerprint: taking a move
/// back undoes what making it did.
pub proof fn lemma_update_undoes_itself(f: FingerprintView, u: Update)
    ensures
        f.apply(u).apply(u) == f,
{
    lemma_xor_self_inverse(f.full, u.full_delta());
    lemma_xor_self_inverse(f.board, u.board_delta());
}

/// Two updates give the same fingerprint in either order.
pub proof fn lemma_updates_commute(f: FingerprintView, u: Update, v: Update)
    ensures
        f.apply(u).apply(v) == f.apply(v).apply(u),
{
    lemma_xor_swap(f.full, u.full_delta(), v.full_delta());
    lemma_xor_swap(f.board, u.board_delta(), v.board_delta());
}

/// Only a change of the side to move changes the side-to-move bit of the
/// full key, and it always does.
pub proof fn lemma_update_parity(f: FingerprintView, u: Update)
    ensures
        u is Side ==> f.apply(u).parity() != f.parity(),
        !(u is Side) ==> f.apply(u).parity() == f.parity(),
        f.parity() == 0 || f.parity() == 1,
{
    let x = f.full;
    assert(x & 1 == 0 || x & 1 == 1) by (bit_vector);
    assert((x ^ 1) & 1 != x & 1) by (bit_vector);
    match u {
        Update::Piece { sq, piece } => {
            lemma_board_constant_side_bit(sq.index_spec(), piece);
            lemma_constant_keeps_side_bit(x, board_constant(sq, piece));
        },
        Update::Hand { color, piece_type, old_num, new_num } => {
            let a = hand_constant(color, piece_type, old_num as nat);
            let b = hand_constant(color, piece_type, new_num as nat);
            lemma_hand_constant_side_bit(hand_index(color, piece_type), old_num as nat);
            lemma_hand_constant_side_bit(hand_index(color, piece_type), new_num as nat);
            lemma_xor_side_bit(a, b);
            lemma_xor_zero(0);
            lemma_constant_keeps_side_bit(x, a ^ b);
        },
        Update::Side => {},
    }
}

/// Combining `c` and then `d` into `x` gives the same as combining `d` and
/// then `c`.
pub proof fn lemma_xor_swap(x: u64, c: u64, d: u64)
    ensures
        (x ^ c) ^ d == (x ^ d) ^ c,
{
    assert((x ^ c) ^ d == (x ^ d) ^ c) by (bit_vector);
}

/// Combining a value whose side-to-move bit is clear leaves the side-to-move
/// bit as it was.
pub proof fn lemma_constant_keeps_side_bit(x: u64, d: u64)
    requires
        d & SIDE_BIT == 0,
    ensures
        (x ^ d) & SIDE_BIT == x & SIDE_BIT,
{
    assert(d & 1 == 0 ==> (x ^ d) & 1 == x & 1) by (bit_vector);
}

} // verus!
