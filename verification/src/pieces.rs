//! The finite domains a fingerprint is indexed by: colours, piece types,
//! pieces and squares.
use vstd::prelude::*;

verus! {

/// The two players. Black moves first.
#[derive(Clone, Copy, Debug, PartialEq, Eq, Structural)]
pub enum Color {
    Black,
    White,
}

impl Color {
    /// How many colours there are.
    pub const NUM: usize = 2;

    pub open spec fn index_spec(self) -> nat {
        match self {
            Color::Black => 0,
            Color::White => 1,
        }
    }

    /// The position of this colour in every table indexed by colour.
    pub fn index(self) -> (i: usize)
        ensures
            i == self.index_spec(),
            i < Color::NUM,
    {
        match self {
            Color::Black => 0,
            Color::White => 1,
        }
    }

    pub open spec fn flip_spec(self) -> Color {
        match self {
            Color::Black => Color::White,
            Color::White => Color::Black,
        }
    }

    /// The other player.
    pub fn flip(self) -> (other: Color)
        ensures
            other == self.flip_spec(),
    {
        match self {
            Color::Black => Color::White,
            Color::White => Color::Black,
        }
    }
}

/// The fourteen kinds of piece: eight plain ones and six promoted ones.
#[derive(Clone, Copy, Debug, PartialEq, Eq, Structural)]
pub enum PieceType {
    FU,
    KY,
    KE,
    GI,
    KA,
    HI,
    KI,
    OU,
    TO,
    NY,
    NK,
    NG,
    UM,
    RY,
}

impl PieceType {
    /// How many piece types there are.
    pub const NUM: usize = 14;

    /// How many piece types can be held in hand.
    pub const NUM_HAND: usize = 7;

    pub open spec fn index_spec(self) -> nat {
        match self {
            PieceType::FU => 0,
            PieceType::KY => 1,
            PieceType::KE => 2,
            PieceType::GI => 3,
            PieceType::KA => 4,
            PieceType::HI => 5,
            PieceType::KI => 6,
            PieceType::OU => 7,
            PieceType::TO => 8,
            PieceType::NY => 9,
            PieceType::NK => 10,
            PieceType::NG => 11,
            PieceType::UM => 12,
            PieceType::RY => 13,
        }
    }

    /// The position of this piece type in every table indexed by piece type.
    pub fn index(self) -> (i: usize)
        ensures
            i == self.index_spec(),
            i < PieceType::NUM,
    {
        match self {
            PieceType::FU => 0,
            PieceType::KY => 1,
            PieceType::KE => 2,
            PieceType::GI => 3,
            PieceType::KA => 4,
            PieceType::HI => 5,
            PieceType::KI => 6,
            PieceType::OU => 7,
            PieceType::TO => 8,
            PieceType::NY => 9,
            PieceType::NK => 10,
            PieceType::NG => 11,
            PieceType::UM => 12,
            PieceType::RY => 13,
        }
    }

    /// The piece type at `index`, if there is one.
    pub fn from_index(index: usize) -> (pt: Option<PieceType>)
        ensures
            index < PieceType::NUM <==> pt.is_some(),
            pt matches Some(t) ==> t.index_spec() == index,
    {
        match index {
            0 => Some(PieceType::FU),
            1 => Some(PieceType::KY),
            2 => Some(PieceType::KE),
            3 => Some(PieceType::GI),
            4 => Some(PieceType::KA),
            5 => Some(PieceType::HI),
            6 => Some(PieceType::KI),
            7 => Some(PieceType::OU),
            8 => Some(PieceType::TO),
            9 => Some(PieceType::NY),
            10 => Some(PieceType::NK),
            11 => Some(PieceType::NG),
            12 => Some(PieceType::UM),
            13 => Some(PieceType::RY),
            _ => None,
        }
    }

    /// Whether a piece of this type can be held in hand: the seven plain
    /// types other than the king.
    pub open spec fn is_hand_piece_spec(self) -> bool {
        self.index_spec() < PieceType::NUM_HAND
    }

    /// Whether a piece of this type can be held in hand.
    pub fn is_hand_piece(self) -> (b: bool)
        ensures
            b == self.is_hand_piece_spec(),
    {
        self.index() < PieceType::NUM_HAND
    }

    /// The type a piece of this type turns into when it promotes, where it
    /// can promote.
    pub open spec fn promoted_spec(self) -> Option<PieceType> {
        match self {
            PieceType::FU => Some(PieceType::TO),
            PieceType::KY => Some(PieceType::NY),
            PieceType::KE => Some(PieceType::NK),
            PieceType::GI => Some(PieceType::NG),
            PieceType::KA => Some(PieceType::UM),
            PieceType::HI => Some(PieceType::RY),
            _ => None,
        }
    }

    /// The promoted form of this piece type, or `None` for gold, king and
    /// the types that are promoted already.
    pub fn promoted(self) -> (p: Option<PieceType>)
        ensures
            p == self.promoted_spec(),
    {
        match self {
            PieceType::FU => Some(PieceType::TO),
            PieceType::KY => Some(PieceType::NY),
            PieceType::KE => Some(PieceType::NK),
            PieceType::GI => Some(PieceType::NG),
            PieceType::KA => Some(PieceType::UM),
            PieceType::HI => Some(PieceType::RY),
            _ => None,
        }
    }

    /// The plain type under this piece type: a promoted type gives the type
    /// it was promoted from, every other type gives itself.
    pub open spec fn demoted_spec(self) -> PieceType {
        match self {
            PieceType::TO => PieceType::FU,
            PieceType::NY => PieceType::KY,
            PieceType::NK => PieceType::KE,
            PieceType::NG => PieceType::GI,
            PieceType::UM => PieceType::KA,
            PieceType::RY => PieceType::HI,
            _ => self,
        }
    }

    /// The type a captured piece of this type has in the captor's hand.
    pub fn demoted(self) -> (p: PieceType)
        ensures
            p == self.demoted_spec(),
            self != PieceType::OU ==> p.is_hand_piece_spec(),
    {
        match self {
            PieceType::TO => PieceType::FU,
            PieceType::NY => PieceType::KY,
            PieceType::NK => PieceType::KE,
            PieceType::NG => PieceType::GI,
            PieceType::UM => PieceType::KA,
            PieceType::RY => PieceType::HI,
            _ => self,
        }
    }
}

/// A piece on the board or in hand: its owner and its type.
#[derive(Clone, Copy, Debug, PartialEq, Eq, Structural)]
pub struct Piece {
    pub color: Color,
    pub piece_type: PieceType,
}

impl Piece {
    pub fn new(color: Color, piece_type: PieceType) -> (p: Piece)
        ensures
            p.color == color,
            p.piece_type == piece_type,
    {
        Piece { color, piece_type }
    }

    /// This piece after it has promoted, where its type can promote.
    pub open spec fn promoted_spec(self) -> Option<Piece> {
        match self.piece_type.promoted_spec() {
            Some(piece_type) => Some(Piece { color: self.color, piece_type }),
            None => None,
        }
    }

    /// This piece after it has promoted, or `None` where its type cannot
    /// promote.
    pub fn promoted(self) -> (p: Option<Piece>)
        ensures
            p == self.promoted_spec(),
    {
        match self.piece_type.promoted() {
            Some(piece_type) => Some(Piece { color: self.color, piece_type }),
            None => None,
        }
    }

    /// The owner.
    pub fn color(self) -> (c: Color)
        ensures
            c == self.color,
    {
        self.color
    }

    /// The type.
    pub fn piece_type(self) -> (pt: PieceType)
        ensures
            pt == self.piece_type,
    {
        self.piece_type
    }
}

/// One of the 81 squares of the board, named by file and rank, both from 1
/// to 9.
#[derive(Clone, Copy, Debug, PartialEq, Eq, Structural)]
pub struct Square(u8);

impl Square {
    /// How many squares there are.
    pub const NUM: usize = 81;

    #[verifier::type_invariant]
    closed spec fn on_board(self) -> bool {
        self.0 < 81
    }

    /// The position of this square in every table indexed by square.
    pub closed spec fn index_spec(self) -> nat {
        self.0 as nat
    }

    /// Whether this is one of the 81 squares. Every square that executable
    /// code holds is.
    pub open spec fn valid(self) -> bool {
        self.index_spec() < Square::NUM
    }

    /// The index of the square on `file` and `rank`: files are counted first.
    pub open spec fn index_of(file: nat, rank: nat) -> nat {
        ((file - 1) * 9 + (rank - 1)) as nat
    }

    /// The square on `file` and `rank`.
    pub fn new(file: u8, rank: u8) -> (sq: Square)
        requires
            1 <= file <= 9,
            1 <= rank <= 9,
        ensures
            sq.index_spec() == Square::index_of(file as nat, rank as nat),
            sq.valid(),
    {
        Square((file - 1) * 9 + (rank - 1))
    }

    /// The square at `index`, if there is one.
    pub fn from_index(index: usize) -> (sq: Option<Square>)
        ensures
            index < Square::NUM <==> sq.is_some(),
            sq matches Some(s) ==> s.index_spec() == index && s.valid(),
    {
        if index < 81 {
            Some(Square(index as u8))
        } else {
            None
        }
    }

    /// The position of this square in every table indexed by square.
    pub fn index(self) -> (i: usize)
        ensures
            i == self.index_spec(),
            self.valid(),
    {
        proof {
            use_type_invariant(&self);
        }
        self.0 as usize
    }

    /// The file, from 1 to 9.
    pub fn file(self) -> (file: u8)
        ensures
            file == self.index_spec() / 9 + 1,
            1 <= file <= 9,
    {
        proof {
            use_type_invariant(&self);
        }
        self.0 / 9 + 1
    }

    /// The rank, from 1 to 9.
    pub fn rank(self) -> (rank: u8)
        ensures
            rank == self.index_spec() % 9 + 1,
            1 <= rank <= 9,
    {
        proof {
            use_type_invariant(&self);
        }
        self.0 % 9 + 1
    }

    /// Squares with the same index are the same square.
    pub proof fn lemma_index_injective(a: Square, b: Square)
        requires
            a.index_spec() == b.index_spec(),
        ensures
            a == b,
    {
    }
}

} // verus!
