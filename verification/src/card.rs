//! The card codec: one playing card (or joker) in one byte.
//!
//! Layout of the encoded byte:
//! - 128 and above (bit 7): the card lies face down;
//! - within the low seven bits, 64 and above (bit 6): a special card,
//!   whose kind is the low six bits (0 black joker, 1 red joker);
//! - otherwise a numeric card: the rank (1 ace .. 13 king) in bits 2-5
//!   and the suit (0 spades, 1 hearts, 2 diamonds, 3 clubs) in bits 0-1.
//!
//! The byte 128 on its own (face-down bit over an all-zero body) is the
//! hidden sentinel sent in place of any face-down card; it is not a
//! valid card encoding itself, so it can never collide with a real card.

use vstd::prelude::*;

verus! {

/// Suit of a numeric card; the codec gives each a two-bit code
/// (0 spades, 1 hearts, 2 diamonds, 3 clubs).
#[derive(Copy, Clone, Debug, PartialEq, Eq, Structural)]
pub enum Suit {
    Spades,
    Hearts,
    Diamonds,
    Clubs,
}

/// Rank of a numeric card; the codec encodes ace as 1 up to king as 13.
#[derive(Copy, Clone, Debug, PartialEq, Eq, PartialOrd, Ord, Structural)]
pub enum Rank {
    Ace,
    Two,
    Three,
    Four,
    Five,
    Six,
    Seven,
    Eight,
    Nine,
    Ten,
    Jack,
    Queen,
    King,
}

/// The two jokers of a standard deck.
#[derive(Copy, Clone, Debug, PartialEq, Eq, Structural)]
pub enum SpecialCard {
    JokerBlack,
    JokerRed,
}

impl Suit {
    /// The two-bit code of this suit in the encoded byte.
    pub open spec fn code(self) -> u8 {
        match self {
            Suit::Spades => 0,
            Suit::Hearts => 1,
            Suit::Diamonds => 2,
            Suit::Clubs => 3,
        }
    }

    pub fn as_code(self) -> (v: u8)
        ensures
            v == self.code(),
    {
        match self {
            Suit::Spades => 0,
            Suit::Hearts => 1,
            Suit::Diamonds => 2,
            Suit::Clubs => 3,
        }
    }

    pub open spec fn spec_from_u8(v: u8) -> Option<Suit> {
        if v == 0 {
            Some(Suit::Spades)
        } else if v == 1 {
            Some(Suit::Hearts)
        } else if v == 2 {
            Some(Suit::Diamonds)
        } else if v == 3 {
            Some(Suit::Clubs)
        } else {
            None
        }
    }

    /// Decodes a suit code; codes above 3 are rejected.
    pub fn from_u8(v: u8) -> (r: Option<Suit>)
        ensures
            r == Self::spec_from_u8(v),
            r matches Some(s) ==> s.code() == v,
    {
        if v == 0 {
            Some(Suit::Spades)
        } else if v == 1 {
            Some(Suit::Hearts)
        } else if v == 2 {
            Some(Suit::Diamonds)
        } else if v == 3 {
            Some(Suit::Clubs)
        } else {
            None
        }
    }
}

impl Rank {
    /// The four-bit code of this rank in the encoded byte (1..=13).
    pub open spec fn code(self) -> u8 {
        match self {
            Rank::Ace => 1,
            Rank::Two => 2,
            Rank::Three => 3,
            Rank::Four => 4,
            Rank::Five => 5,
            Rank::Six => 6,
            Rank::Seven => 7,
            Rank::Eight => 8,
            Rank::Nine => 9,
            Rank::Ten => 10,
            Rank::Jack => 11,
            Rank::Queen => 12,
            Rank::King => 13,
        }
    }

    pub fn as_code(self) -> (v: u8)
        ensures
            v == self.code(),
    {
        match self {
            Rank::Ace => 1,
            Rank::Two => 2,
            Rank::Three => 3,
            Rank::Four => 4,
            Rank::Five => 5,
            Rank::Six => 6,
            Rank::Seven => 7,
            Rank::Eight => 8,
            Rank::Nine => 9,
            Rank::Ten => 10,
            Rank::Jack => 11,
            Rank::Queen => 12,
            Rank::King => 13,
        }
    }

    pub open spec fn spec_from_u8(v: u8) -> Option<Rank> {
        if v == 1 {
            Some(Rank::Ace)
        } else if v == 2 {
            Some(Rank::Two)
        } else if v == 3 {
            Some(Rank::Three)
        } else if v == 4 {
            Some(Rank::Four)
        } else if v == 5 {
            Some(Rank::Five)
        } else if v == 6 {
            Some(Rank::Six)
        } else if v == 7 {
            Some(Rank::Seven)
        } else if v == 8 {
            Some(Rank::Eight)
        } else if v == 9 {
            Some(Rank::Nine)
        } else if v == 10 {
            Some(Rank::Ten)
        } else if v == 11 {
            Some(Rank::Jack)
        } else if v == 12 {
            Some(Rank::Queen)
        } else if v == 13 {
            Some(Rank::King)
        } else {
            None
        }
    }

    /// Decodes a rank code; 0 and codes above 13 are rejected.
    pub fn from_u8(v: u8) -> (r: Option<Rank>)
        ensures
            r == Self::spec_from_u8(v),
            r matches Some(k) ==> k.code() == v,
    {
        if v == 1 {
            Some(Rank::Ace)
        } else if v == 2 {
            Some(Rank::Two)
        } else if v == 3 {
            Some(Rank::Three)
        } else if v == 4 {
            Some(Rank::Four)
        } else if v == 5 {
            Some(Rank::Five)
        } else if v == 6 {
            Some(Rank::Six)
        } else if v == 7 {
            Some(Rank::Seven)
        } else if v == 8 {
            Some(Rank::Eight)
        } else if v == 9 {
            Some(Rank::Nine)
        } else if v == 10 {
            Some(Rank::Ten)
        } else if v == 11 {
            Some(Rank::Jack)
        } else if v == 12 {
            Some(Rank::Queen)
        } else if v == 13 {
            Some(Rank::King)
        } else {
            None
        }
    }
}

impl SpecialCard {
    /// The code of this special card in the low six bits of the byte.
    pub open spec fn code(self) -> u8 {
        match self {
            SpecialCard::JokerBlack => 0,
            SpecialCard::JokerRed => 1,
        }
    }

    pub fn as_code(self) -> (v: u8)
        ensures
            v == self.code(),
    {
        match self {
            SpecialCard::JokerBlack => 0,
            SpecialCard::JokerRed => 1,
        }
    }

    pub open spec fn spec_from_u8(v: u8) -> Option<SpecialCard> {
        if v == 0 {
            Some(SpecialCard::JokerBlack)
        } else if v == 1 {
            Some(SpecialCard::JokerRed)
        } else {
            None
        }
    }

    /// Decodes a special-card code; codes above 1 are rejected.
    pub fn from_u8(v: u8) -> (r: Option<SpecialCard>)
        ensures
            r == Self::spec_from_u8(v),
            r matches Some(k) ==> k.code() == v,
    {
        if v == 0 {
            Some(SpecialCard::JokerBlack)
        } else if v == 1 {
            Some(SpecialCard::JokerRed)
        } else {
            None
        }
    }
}

/// One playing card, stored as its encoded byte (see the module
/// documentation for the layout).
#[derive(Copy, Clone, Debug, PartialEq, Eq, Structural)]
pub struct Card(pub u8);

impl Card {
    /// The low seven bits: the card's body with the face-down bit cleared.
    pub open spec fn base(self) -> int {
        self.0 as int % 128
    }

    pub open spec fn spec_is_face_down(self) -> bool {
        self.0 >= 128
    }

    pub open spec fn spec_is_special(self) -> bool {
        self.base() >= 64
    }

    pub open spec fn spec_is_numerical(self) -> bool {
        self.base() < 64
    }

    /// A byte decodes to a card only when its body is a rank 1..=13 with
    /// a suit 0..=3 (bodies 4..=55) or one of the two jokers (64, 65).
    pub open spec fn valid(self) -> bool {
        (4 <= self.base() <= 55) || (64 <= self.base() <= 65)
    }

    pub open spec fn spec_numerical(rank: Rank, suit: Suit) -> Card {
        Card((rank.code() * 4 + suit.code()) as u8)
    }

    pub open spec fn spec_special(kind: SpecialCard) -> Card {
        Card((64 + kind.code()) as u8)
    }

    /// The fixed sentinel transmitted in place of any face-down card.
    pub open spec fn spec_hidden() -> Card {
        Card(128u8)
    }

    pub open spec fn spec_rank(self) -> Option<Rank> {
        if self.spec_is_numerical() {
            Rank::spec_from_u8((self.base() / 4) as u8)
        } else {
            None
        }
    }

    pub open spec fn spec_suit(self) -> Option<Suit> {
        if self.spec_is_numerical() {
            Suit::spec_from_u8((self.base() % 4) as u8)
        } else {
            None
        }
    }

    pub open spec fn spec_kind(self) -> Option<SpecialCard> {
        if self.spec_is_special() {
            SpecialCard::spec_from_u8((self.base() - 64) as u8)
        } else {
            None
        }
    }

    /// The same card with the face-down bit toggled.
    pub open spec fn spec_flip(self) -> Card {
        if self.0 >= 128 {
            Card((self.0 - 128) as u8)
        } else {
            Card((self.0 + 128) as u8)
        }
    }

    /// This card as it is transmitted: itself when face up, the hidden
    /// sentinel when face down.
    pub open spec fn spec_with_face_down(self, face_down: bool) -> Card {
        if self.spec_is_face_down() == face_down {
            self
        } else {
            self.spec_flip()
        }
    }

    /// Encodes a numeric card, face up.
    pub fn numerical(rank: Rank, suit: Suit) -> (c: Card)
        ensures
            c == Self::spec_numerical(rank, suit),
            c.valid(),
            !c.spec_is_face_down(),
            c.spec_is_numerical(),
            c.spec_rank() == Some(rank),
            c.spec_suit() == Some(suit),
    {
        proof {
            lemma_rank_suit_code(rank, suit);
        }
        Card(rank.as_code() * 4 + suit.as_code())
    }

    /// Encodes a joker, face up.
    pub fn special(kind: SpecialCard) -> (c: Card)
        ensures
            c == Self::spec_special(kind),
            c.valid(),
            !c.spec_is_face_down(),
            c.spec_is_special(),
            c.spec_kind() == Some(kind),
    {
        Card(64 + kind.as_code())
    }

    /// The hidden sentinel; distinct from every valid card encoding.
    pub fn hidden() -> (c: Card)
        ensures
            c == Self::spec_hidden(),
            !c.valid(),
    {
        Card(128)
    }

    /// Decodes a byte, rejecting any pattern outside the valid ranges.
    pub fn from_u8(v: u8) -> (r: Option<Card>)
        ensures
            r matches Some(c) ==> c == Card(v) && c.valid(),
            r is None ==> !Card(v).valid(),
    {
        let body = v % 128;
        if (4 <= body && body <= 55) || body == 64 || body == 65 {
            Some(Card(v))
        } else {
            None
        }
    }

    pub fn is_face_down(&self) -> (r: bool)
        ensures
            r == self.spec_is_face_down(),
    {
        self.0 >= 128
    }

    pub fn is_special(&self) -> (r: bool)
        ensures
            r == self.spec_is_special(),
    {
        self.0 % 128 >= 64
    }

    pub fn is_numerical(&self) -> (r: bool)
        ensures
            r == self.spec_is_numerical(),
    {
        self.0 % 128 < 64
    }

    /// The joker kind, for a card whose body is a valid special encoding.
    pub fn kind(&self) -> (r: Option<SpecialCard>)
        ensures
            r == self.spec_kind(),
    {
        if self.is_special() {
            SpecialCard::from_u8(self.0 % 128 - 64)
        } else {
            None
        }
    }

    /// The rank, for a card whose body is a valid numeric encoding.
    /// The face-down bit does not affect the decoded rank.
    pub fn rank(&self) -> (r: Option<Rank>)
        ensures
            r == self.spec_rank(),
    {
        if self.is_numerical() {
            Rank::from_u8(self.0 % 128 / 4)
        } else {
            None
        }
    }

    /// The suit, for a card whose body is a valid numeric encoding.
    /// The face-down bit does not affect the decoded suit.
    pub fn suit(&self) -> (r: Option<Suit>)
        ensures
            r == self.spec_suit(),
    {
        if self.is_numerical() {
            Suit::from_u8(self.0 % 128 % 4)
        } else {
            None
        }
    }

    /// Toggles the face-down bit in place; the card's body is unchanged.
    pub fn flip(&mut self)
        ensures
            *final(self) == old(self).spec_flip(),
    {
        if self.0 >= 128 {
            self.0 = self.0 - 128;
        } else {
            self.0 = self.0 + 128;
        }
    }
}

/// A rank code 1..=13 paired with a suit code 0..=3 always lands in the
/// numeric body range 4..=55, and splitting the body recovers both codes.
proof fn lemma_rank_suit_code(rank: Rank, suit: Suit)
    ensures
        4 <= rank.code() * 4 + suit.code() <= 55,
        (rank.code() * 4 + suit.code()) / 4 == rank.code(),
        (rank.code() * 4 + suit.code()) % 4 == suit.code(),
{
    let r = rank.code() as int;
    let s = suit.code() as int;
    assert(1 <= r <= 13);
    assert(0 <= s <= 3);
    assert((r * 4 + s) / 4 == r && (r * 4 + s) % 4 == s) by (nonlinear_arith)
        requires
            1 <= r <= 13,
            0 <= s <= 3,
    ;
}

/// The codec round trip: every valid encoding decodes to what was
/// encoded, and flipping a card face down changes neither its decoded
/// rank and suit nor its joker kind — only the protocol hides face-down
/// cards, not the codec.
pub proof fn lemma_card_codec_roundtrip(rank: Rank, suit: Suit, kind: SpecialCard)
    ensures
        Card::spec_numerical(rank, suit).spec_rank() == Some(rank),
        Card::spec_numerical(rank, suit).spec_suit() == Some(suit),
        Card::spec_special(kind).spec_kind() == Some(kind),
        Card::spec_numerical(rank, suit).spec_flip().spec_rank() == Some(rank),
        Card::spec_numerical(rank, suit).spec_flip().spec_suit() == Some(suit),
        Card::spec_special(kind).spec_flip().spec_kind() == Some(kind),
{
    lemma_rank_suit_code(rank, suit);
}

/// Flipping never changes the card's body, so every decoded view of the
/// card survives a flip, and flipping twice restores the original byte.
pub proof fn lemma_flip_preserves_body(c: Card)
    ensures
        c.spec_flip().base() == c.base(),
        c.spec_flip().spec_is_face_down() == !c.spec_is_face_down(),
        c.spec_flip().spec_rank() == c.spec_rank(),
        c.spec_flip().spec_suit() == c.spec_suit(),
        c.spec_flip().spec_kind() == c.spec_kind(),
        c.spec_flip().valid() == c.valid(),
        c.spec_flip().spec_flip() == c,
{
}

} // verus!
