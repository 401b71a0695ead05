use multiplayer_cards::card::Card;
use multiplayer_cards::deck::{Stack, deck_ok};
use multiplayer_cards::requests::DeckType;

fn sorted_bytes(stacks: &[Stack]) -> Vec<u8> {
    let mut bytes: Vec<u8> = stacks
        .iter()
        .flat_map(|s| s.cards.iter().map(|c| c.0))
        .collect();
    bytes.sort();
    bytes
}

#[test]
fn standard_deck_is_one_shuffled_face_down_stack() {
    let stacks = Stack::from(&DeckType::Standard);
    assert_eq!(stacks.len(), 1);
    let stack = &stacks[0];
    assert_eq!(stack.position, (200, 200));
    assert_eq!(stack.cards.len(), 54);
    for card in &stack.cards {
        assert!(card.is_face_down());
    }
    // 52 numeric cards and both jokers, each with the face-down bit.
    let mut expected: Vec<u8> = (132..=183).collect();
    expected.push(192);
    expected.push(193);
    assert_eq!(sorted_bytes(&stacks), expected);
}

#[test]
fn custom_deck_keeps_cards_verbatim_on_a_grid() {
    let lists = vec![
        vec![Card::from_u8(4).unwrap(), Card::from_u8(55).unwrap()],
        vec![],
        vec![Card::from_u8(64).unwrap()],
        vec![Card::from_u8(140).unwrap()],
        vec![Card::from_u8(5).unwrap()],
    ];
    let stacks = Stack::from(&DeckType::Custom(lists.clone()));
    assert_eq!(stacks.len(), 5);
    let positions: Vec<(i16, i16)> = stacks.iter().map(|s| s.position).collect();
    assert_eq!(
        positions,
        vec![(200, 200), (450, 200), (700, 200), (200, 450), (450, 450)]
    );
    for (stack, list) in stacks.iter().zip(lists.iter()) {
        assert_eq!(&stack.cards, list);
    }
    for i in 0..stacks.len() {
        for j in (i + 1)..stacks.len() {
            assert_ne!(stacks[i].id, stacks[j].id);
            assert_ne!(stacks[i].position, stacks[j].position);
        }
    }
}

#[test]
fn deck_ok_bounds_the_grid() {
    assert!(deck_ok(&DeckType::Standard));
    assert!(deck_ok(&DeckType::Custom(vec![Vec::new(); 393])));
    assert!(!deck_ok(&DeckType::Custom(vec![Vec::new(); 394])));
}

#[test]
fn rebuilding_keeps_cards_and_positions() {
    // Two builds of the same configuration: same card multiset, same
    // positions; only the arrangement may differ.
    let first = Stack::from(&DeckType::Standard);
    let second = Stack::from(&DeckType::Standard);
    assert_eq!(sorted_bytes(&first), sorted_bytes(&second));
    let positions = |s: &[Stack]| {
        let mut p: Vec<(i16, i16)> = s.iter().map(|st| st.position).collect();
        p.sort();
        p
    };
    assert_eq!(positions(&first), positions(&second));
}
