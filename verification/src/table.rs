//! The table of hash constants: one per piece on a square and one per number
//! of pieces of a type in a hand.
use crate::key::{Key, SIDE_BIT};
use crate::pieces::{Color, Piece, PieceType, Square};
use crate::random::{next_value, seeded_draw, seeded_generator, upcoming};
use core::ops::Not;
use rand::rngs::StdRng;
use vstd::prelude::*;

verus! {

/// The seed every table is drawn from.
pub const SEED: u64 = 2022;

/// How many constants there are for pieces on squares: one per square,
/// colour and piece type.
pub const BOARD_SLOTS: usize = 2268;

/// How many constants there are for hands: one per colour, piece type that
/// can be held, and count from 0 to the largest count.
pub const HAND_SLOTS: usize = 266;

/// A drawn value with the side-to-move bit forced to zero.
pub open spec fn clear_side_bit(x: u64) -> u64 {
    x & !SIDE_BIT
}

/// Where the constant of piece `p` on the square with index `sq` stands
/// among the board constants: squares are counted first, then colours, then
/// piece types.
pub open spec fn board_slot(sq: nat, p: Piece) -> nat {
    (sq * 2 + p.color.index_spec()) * 14 + p.piece_type.index_spec()
}

/// The place of the pieces of type `pt` in the hand of `c` among all the
/// kinds of piece that the two hands can hold: colours are counted first.
pub open spec fn hand_index(c: Color, pt: PieceType) -> nat {
    c.index_spec() * 7 + pt.index_spec()
}

/// Where the constant of `num` pieces of the kind with hand index `kind`
/// stands among the hand constants: kinds are counted first, then counts.
pub open spec fn hand_slot(kind: nat, num: nat) -> nat {
    kind * 19 + num
}

/// The constant of piece `p` standing on the square with index `sq`.
///
/// The board constants are the first draws from the seeded generator, in
/// slot order, each with its side-to-move bit cleared.
pub open spec fn board_constant_at(sq: nat, p: Piece) -> u64 {
    clear_side_bit(seeded_draw(SEED, board_slot(sq, p)))
}

/// The constant of `num` pieces of the kind with hand index `kind`.
///
/// The hand constants are the draws that follow the board constants, in slot
/// order, each with its side-to-move bit cleared.
pub open spec fn hand_constant_at(kind: nat, num: nat) -> u64 {
    clear_side_bit(seeded_draw(SEED, BOARD_SLOTS as nat + hand_slot(kind, num)))
}

/// The constant of piece `p` standing on square `sq`.
pub open spec fn board_constant(sq: Square, p: Piece) -> u64 {
    board_constant_at(sq.index_spec(), p)
}

/// The constant of `num` pieces of type `pt` in the hand of `c`.
pub open spec fn hand_constant(c: Color, pt: PieceType, num: nat) -> u64 {
    hand_constant_at(hand_index(c, pt), num)
}

/// What a table holds: the board constants and the hand constants, each in
/// slot order.
pub struct TableView {
    pub board: Seq<u64>,
    pub hands: Seq<u64>,
}

/// The one table that the seed gives.
pub open spec fn reference_table() -> TableView {
    TableView {
        board: Seq::new(BOARD_SLOTS as nat, |i: int| clear_side_bit(seeded_draw(SEED, i as nat))),
        hands: Seq::new(
            HAND_SLOTS as nat,
            |j: int| clear_side_bit(seeded_draw(SEED, (BOARD_SLOTS + j) as nat)),
        ),
    }
}

/// The table of constants. It is filled once and never changes.
pub struct ZobristTable {
    board: Vec<Key>,
    hands: Vec<Key>,
}

impl View for ZobristTable {
    type V = TableView;

    closed spec fn view(&self) -> TableView {
        TableView { board: patterns(self.board@), hands: patterns(self.hands@) }
    }
}

/// The bit patterns of a sequence of keys.
spec fn patterns(keys: Seq<Key>) -> Seq<u64> {
    Seq::new(keys.len(), |i: int| keys[i]@)
}

/// The constant that a drawn value becomes: the value with its side-to-move
/// bit cleared, so that no constant can change who is to move.
pub fn constant_of_draw(value: u64) -> (key: Key)
    ensures
        key@ == clear_side_bit(value),
        key@ & SIDE_BIT == 0,
{
    proof {
        lemma_cleared(value);
    }
    Key::new(value) & Key::color().not()
}

/// Draws `count` constants from `rng`, in order, clearing the side-to-move
/// bit of each. `drawn` is how many values the generator has handed out since
/// it was seeded.
fn draw_constants(rng: &mut StdRng, count: usize, Ghost(drawn): Ghost<nat>) -> (keys: Vec<Key>)
    requires
        forall|i: nat| #[trigger] upcoming(*old(rng), i) == seeded_draw(SEED, drawn + i),
    ensures
        keys@.len() == count,
        forall|i: int|
            0 <= i < count ==> (#[trigger] keys@[i])@ == clear_side_bit(
                seeded_draw(SEED, drawn + i as nat),
            ),
        forall|i: nat|
            #[trigger] upcoming(*final(rng), i) == seeded_draw(SEED, drawn + count as nat + i),
{
    let mut keys: Vec<Key> = Vec::new();
    let mut n: usize = 0;
    while n < count
        invariant
            n <= count,
            keys@.len() == n,
            forall|i: int|
                0 <= i < n ==> (#[trigger] keys@[i])@ == clear_side_bit(
                    seeded_draw(SEED, drawn + i as nat),
                ),
            forall|i: nat| #[trigger] upcoming(*rng, i) == seeded_draw(SEED, drawn + n as nat + i),
        decreases count - n,
    {
        let ghost before = *rng;
        let value = next_value(rng);
        assert(value == seeded_draw(SEED, drawn + n as nat)) by {
            assert(upcoming(before, 0) == seeded_draw(SEED, drawn + n as nat + 0));
        }
        assert forall|i: nat| #[trigger]
            upcoming(*rng, i) == seeded_draw(SEED, drawn + (n + 1) as nat + i) by {
            assert(upcoming(before, i + 1) == seeded_draw(SEED, drawn + n as nat + (i + 1)));
        }
        keys.push(constant_of_draw(value));
        n = n + 1;
    }
    keys
}

impl ZobristTable {
    /// The largest number of pieces of one type that a hand can hold.
    pub const MAX_HAND_NUM: usize = 18;

    /// A table is well formed when it holds exactly the constants that the
    /// seed gives.
    pub open spec fn wf(&self) -> bool {
        self@ == reference_table()
    }

    #[verifier::type_invariant]
    closed spec fn filled(&self) -> bool {
        self.wf()
    }

    /// Draws the table from the seed: first the board constants, then the
    /// hand constants.
    pub fn build() -> (table: ZobristTable)
        ensures
            table.wf(),
    {
        let mut rng = seeded_generator(SEED);
        let board = draw_constants(&mut rng, BOARD_SLOTS, Ghost(0));
        let hands = draw_constants(&mut rng, HAND_SLOTS, Ghost(BOARD_SLOTS as nat));
        assert(patterns(board@) =~= reference_table().board);
        assert(patterns(hands@) =~= reference_table().hands);
        ZobristTable { board, hands }
    }

    /// The constant of piece `p` standing on square `sq`.
    pub fn board(&self, sq: Square, p: Piece) -> (key: Key)
        ensures
            key@ == board_constant(sq, p),
            key@ & SIDE_BIT == 0,
            key@ != SIDE_BIT,
    {
        proof {
            use_type_invariant(self);
        }
        let slot = (sq.index() * 2 + p.color().index()) * 14 + p.piece_type().index();
        assert(patterns(self.board@).len() == BOARD_SLOTS);
        let key = self.board[slot];
        assert(key@ == patterns(self.board@)[slot as int]);
        proof {
            lemma_board_constant_side_bit(sq.index_spec(), p);
        }
        key
    }

    /// The constant of `num` pieces of type `pt` in the hand of `c`.
    pub fn hand(&self, c: Color, pt: PieceType, num: u8) -> (key: Key)
        requires
            pt.is_hand_piece_spec(),
            num <= ZobristTable::MAX_HAND_NUM,
        ensures
            key@ == hand_constant(c, pt, num as nat),
            key@ & SIDE_BIT == 0,
            key@ != SIDE_BIT,
    {
        proof {
            use_type_invariant(self);
        }
        let slot = (c.index() * 7 + pt.index()) * 19 + num as usize;
        assert(patterns(self.hands@).len() == HAND_SLOTS);
        let key = self.hands[slot];
        assert(key@ == patterns(self.hands@)[slot as int]);
        proof {
            lemma_hand_constant_side_bit(hand_index(c, pt), num as nat);
        }
        key
    }

    /// Two well-formed tables hold the same constants, slot by slot: the
    /// table does not depend on when or where it was built.
    pub proof fn lemma_tables_agree(a: ZobristTable, b: ZobristTable)
        requires
            a.wf(),
            b.wf(),
        ensures
            a@ == b@,
    {
    }
}

/// A value whose side-to-move bit was cleared has that bit clear, and so is
/// not the side-to-move bit itself.
pub proof fn lemma_cleared(x: u64)
    ensures
        clear_side_bit(x) & SIDE_BIT == 0,
        clear_side_bit(x) != SIDE_BIT,
{
    assert((x & !1u64) & 1u64 == 0) by (bit_vector);
    assert(1u64 & 1u64 == 1) by (bit_vector);
}

/// No board constant touches the side-to-move bit.
pub proof fn lemma_board_constant_side_bit(sq: nat, p: Piece)
    ensures
        board_constant_at(sq, p) & SIDE_BIT == 0,
        board_constant_at(sq, p) != SIDE_BIT,
{
    lemma_cleared(seeded_draw(SEED, board_slot(sq, p)));
}

/// No hand constant touches the side-to-move bit.
pub proof fn lemma_hand_constant_side_bit(kind: nat, num: nat)
    ensures
        hand_constant_at(kind, num) & SIDE_BIT == 0,
        hand_constant_at(kind, num) != SIDE_BIT,
{
    lemma_cleared(seeded_draw(SEED, BOARD_SLOTS as nat + hand_slot(kind, num)));
}

} // verus!
