use multiplayer_cards::card::{Card, Rank, SpecialCard, Suit};

fn all_ranks() -> Vec<Rank> {
    vec![
        Rank::Ace,
        Rank::Two,
        Rank::Three,
        Rank::Four,
        Rank::Five,
        Rank::Six,
        Rank::Seven,
        Rank::Eight,
        Rank::Nine,
        Rank::Ten,
        Rank::Jack,
        Rank::Queen,
        Rank::King,
    ]
}

fn all_suits() -> Vec<Suit> {
    vec![Suit::Spades, Suit::Hearts, Suit::Diamonds, Suit::Clubs]
}

#[test]
fn numeric_round_trip_every_rank_and_suit() {
    for rank in all_ranks() {
        for suit in all_suits() {
            let card = Card::numerical(rank, suit);
            assert!(!card.is_face_down());
            assert!(card.is_numerical());
            assert!(!card.is_special());
            assert_eq!(card.rank(), Some(rank));
            assert_eq!(card.suit(), Some(suit));
            assert_eq!(card.kind(), None);
        }
    }
}

#[test]
fn special_round_trip_both_jokers() {
    for kind in [SpecialCard::JokerBlack, SpecialCard::JokerRed] {
        let card = Card::special(kind);
        assert!(!card.is_face_down());
        assert!(card.is_special());
        assert!(!card.is_numerical());
        assert_eq!(card.kind(), Some(kind));
        assert_eq!(card.rank(), None);
        assert_eq!(card.suit(), None);
    }
}

#[test]
fn face_down_codec_still_decodes() {
    // Only the protocol hides a face-down card; the codec still exposes it.
    let mut card = Card::numerical(Rank::Queen, Suit::Hearts);
    card.flip();
    assert!(card.is_face_down());
    assert_eq!(card.rank(), Some(Rank::Queen));
    assert_eq!(card.suit(), Some(Suit::Hearts));
    card.flip();
    assert!(!card.is_face_down());
    assert_eq!(card, Card::numerical(Rank::Queen, Suit::Hearts));

    let mut joker = Card::special(SpecialCard::JokerRed);
    joker.flip();
    assert!(joker.is_face_down());
    assert_eq!(joker.kind(), Some(SpecialCard::JokerRed));
}

#[test]
fn known_encodings() {
    assert_eq!(Card::numerical(Rank::Ace, Suit::Spades).0, 4);
    assert_eq!(Card::numerical(Rank::King, Suit::Clubs).0, 55);
    assert_eq!(Card::special(SpecialCard::JokerBlack).0, 64);
    assert_eq!(Card::special(SpecialCard::JokerRed).0, 65);
    assert_eq!(Card::hidden().0, 128);
}

#[test]
fn decode_rejects_invalid_bytes() {
    // Valid bodies: 4..=55 (numeric) and 64..=65 (jokers), face up or down.
    let mut accepted = 0;
    for value in 0..=255u16 {
        let v = value as u8;
        let body = v % 128;
        let expect_valid = (4..=55).contains(&body) || body == 64 || body == 65;
        match Card::from_u8(v) {
            Some(card) => {
                assert!(expect_valid, "accepted invalid byte {v}");
                assert_eq!(card.0, v);
                accepted += 1;
            }
            None => assert!(!expect_valid, "rejected valid byte {v}"),
        }
    }
    assert_eq!(accepted, 108);
}

#[test]
fn hidden_sentinel_is_no_card() {
    let hidden = Card::hidden();
    assert!(hidden.is_face_down());
    assert_eq!(Card::from_u8(hidden.0), None);
    // The all-zero body has no rank, so the sentinel is no real card;
    // only the suit bits of the body are (vacuously) in range.
    assert_eq!(hidden.rank(), None);
    assert_eq!(hidden.kind(), None);
}
