use multiplayer_cards::WebsocketError;
use multiplayer_cards::card::Card;
use multiplayer_cards::game::{Game, Removal};
use multiplayer_cards::deck::Stack;
use multiplayer_cards::player::Player;
use multiplayer_cards::requests::DeckType;

fn custom_game(lists: Vec<Vec<Card>>) -> Game {
    Game::new("alice".to_string(), DeckType::Custom(lists), 7)
}

fn card(v: u8) -> Card {
    Card::from_u8(v).unwrap()
}

fn assert_positions_unique(game: &Game) {
    for i in 0..game.stacks.len() {
        for j in (i + 1)..game.stacks.len() {
            assert_ne!(game.stacks[i].position, game.stacks[j].position);
            assert_ne!(game.stacks[i].id, game.stacks[j].id);
        }
    }
}

#[test]
fn new_game_has_creator_authorized_and_nobody_connected() {
    let game = Game::new("alice".to_string(), DeckType::Standard, 42);
    assert_eq!(game.owner, "alice");
    assert_eq!(game.created_at, 42);
    assert_eq!(game.authorized_players, vec!["alice".to_string()]);
    assert!(game.connected_players.is_empty());
    assert_eq!(game.stacks.len(), 1);
    assert_eq!(game.stacks[0].cards.len(), 54);
}

#[test]
fn take_then_put_face_down_lands_hidden() {
    // A standard 54-card stack: take the top card, then put it back
    // face down on the free position (5, 5).
    let mut game = Game::new("alice".to_string(), DeckType::Standard, 0);
    let mut player = Player::new("alice".to_string(), game.id.clone());
    let stack_id = game.stacks[0].id.clone();

    let st = game.take_card(&mut player, &stack_id).unwrap();
    assert_eq!(player.hand.len(), 1);
    assert_eq!(game.stacks[0].cards.len(), 53);
    assert_eq!(st.remaining_cards, 53);

    let st = game.put_card(&mut player, 0, (5, 5), true).unwrap();
    assert_eq!(player.hand.len(), 0);
    assert_eq!(st.position, (5, 5));
    assert_eq!(st.remaining_cards, 1);
    assert_eq!(st.visible_card, Card::hidden());
    let new_stack = game.stacks.iter().find(|s| s.position == (5, 5)).unwrap();
    assert_eq!(new_stack.cards.len(), 1);
    assert!(new_stack.cards[0].is_face_down());
    assert_positions_unique(&game);
}

#[test]
fn taking_the_last_card_deletes_the_stack() {
    let mut game = custom_game(vec![vec![card(4)], vec![card(5), card(6)]]);
    let mut player = Player::new("alice".to_string(), game.id.clone());
    let lone = game.stacks[0].id.clone();
    let st = game.take_card(&mut player, &lone).unwrap();
    assert_eq!(st.remaining_cards, 0);
    assert_eq!(game.stacks.len(), 1);
    assert!(game.stacks.iter().all(|s| s.id != lone));
    assert_eq!(player.hand, vec![card(4)]);
}

#[test]
fn moving_the_last_card_deletes_the_stack() {
    let mut game = custom_game(vec![vec![card(4)], vec![card(5)]]);
    let lone = game.stacks[0].id.clone();
    let target_pos = game.stacks[1].position;
    let (dest, src) = game.move_card(&lone, target_pos).unwrap();
    assert_eq!(src.remaining_cards, 0);
    assert_eq!(dest.remaining_cards, 2);
    assert_eq!(game.stacks.len(), 1);
    assert!(game.stacks.iter().all(|s| s.id != lone));
    assert_eq!(game.stacks[0].cards, vec![card(5), card(4)]);
    assert_positions_unique(&game);
}

#[test]
fn move_card_to_empty_position_creates_a_stack() {
    let mut game = custom_game(vec![vec![card(4), card(5)]]);
    let source = game.stacks[0].id.clone();
    let (dest, src) = game.move_card(&source, (9, 9)).unwrap();
    assert_eq!(src.remaining_cards, 1);
    assert_eq!(dest.remaining_cards, 1);
    assert_eq!(dest.position, (9, 9));
    assert_eq!(game.stacks.len(), 2);
    assert_positions_unique(&game);
}

#[test]
fn move_stack_onto_occupied_position_merges() {
    let mut game = custom_game(vec![vec![card(4), card(5)], vec![card(6)]]);
    let moving = game.stacks[0].id.clone();
    let occupant = game.stacks[1].id.clone();
    let occupant_pos = game.stacks[1].position;
    let (dest, src) = game.move_stack(&moving, occupant_pos).unwrap();
    // The occupant keeps its identity; the moving stack's cards land on top.
    assert_eq!(dest.stack_id, occupant);
    assert_eq!(dest.remaining_cards, 3);
    let src = src.unwrap();
    assert_eq!(src.stack_id, moving);
    assert_eq!(src.remaining_cards, 0);
    assert_eq!(game.stacks.len(), 1);
    assert!(game.stacks.iter().all(|s| s.id != moving));
    assert_eq!(game.stacks[0].cards, vec![card(6), card(4), card(5)]);
    assert_positions_unique(&game);
}

#[test]
fn move_stack_to_free_position_keeps_identity() {
    let mut game = custom_game(vec![vec![card(4)], vec![card(5)]]);
    let moving = game.stacks[0].id.clone();
    let (dest, src) = game.move_stack(&moving, (3, 3)).unwrap();
    assert!(src.is_none());
    assert_eq!(dest.stack_id, moving);
    assert_eq!(dest.position, (3, 3));
    assert_eq!(game.stacks.len(), 2);
    assert_positions_unique(&game);
}

#[test]
fn flip_card_toggles_only_the_top() {
    let mut game = custom_game(vec![vec![card(4), card(5)]]);
    let sid = game.stacks[0].id.clone();
    let st = game.flip_card(&sid).unwrap();
    assert_eq!(game.stacks[0].cards[0], card(4));
    assert!(game.stacks[0].cards[1].is_face_down());
    assert_eq!(game.stacks[0].cards[1].0, 5 + 128);
    // The flipped top card is face down, so the state hides it.
    assert_eq!(st.visible_card, Card::hidden());
    assert_eq!(st.remaining_cards, 2);
}

#[test]
fn flip_stack_reverses_and_flips_every_card() {
    let mut game = custom_game(vec![vec![card(4), card(5), card(6)]]);
    let sid = game.stacks[0].id.clone();
    let st = game.flip_stack(&sid).unwrap();
    let bytes: Vec<u8> = game.stacks[0].cards.iter().map(|c| c.0).collect();
    assert_eq!(bytes, vec![6 + 128, 5 + 128, 4 + 128]);
    assert_eq!(st.remaining_cards, 3);
    assert_eq!(st.visible_card, Card::hidden());
}

#[test]
fn shuffle_keeps_the_same_cards() {
    let mut game = custom_game(vec![(4..=55).map(card).collect()]);
    let sid = game.stacks[0].id.clone();
    let st = game.shuffle_stack(&sid).unwrap();
    assert_eq!(st.remaining_cards, 52);
    let mut bytes: Vec<u8> = game.stacks[0].cards.iter().map(|c| c.0).collect();
    bytes.sort();
    assert_eq!(bytes, (4..=55).collect::<Vec<u8>>());
}

#[test]
fn stack_errors() {
    let mut game = custom_game(vec![vec![], vec![card(4)]]);
    let mut player = Player::new("alice".to_string(), game.id.clone());
    let empty = game.stacks[0].id.clone();
    assert!(matches!(
        game.take_card(&mut player, &"missing".to_string()),
        Err(WebsocketError::StackNotFound)
    ));
    assert!(matches!(
        game.take_card(&mut player, &empty),
        Err(WebsocketError::EmptyStack)
    ));
    assert!(matches!(
        game.flip_card(&empty),
        Err(WebsocketError::EmptyStack)
    ));
    assert!(matches!(
        game.move_stack(&"missing".to_string(), (1, 1)),
        Err(WebsocketError::StackNotFound)
    ));
    assert!(matches!(
        game.put_card(&mut player, 0, (1, 1), false),
        Err(WebsocketError::CardNotFound)
    ));
}

#[test]
fn put_card_matches_requested_orientation() {
    let mut game = custom_game(vec![]);
    let mut player = Player::new("alice".to_string(), game.id.clone());
    player.hand.push(card(140)); // face down in hand
    player.hand.push(card(5)); // face up in hand
    let st = game.put_card(&mut player, 0, (1, 1), false).unwrap();
    // Requested face up: the face-down card is flipped on the way out.
    assert_eq!(st.visible_card, card(12));
    let st = game.put_card(&mut player, 0, (2, 2), true).unwrap();
    assert_eq!(st.visible_card, Card::hidden());
}

#[test]
fn roster_changes_and_owner_handover() {
    let mut game = Game::new("alice".to_string(), DeckType::Standard, 0);
    game.add_player("alice".to_string(), "conn-a".to_string()).unwrap();
    game.add_authorized_player("bob".to_string());
    game.add_player("bob".to_string(), "conn-b".to_string()).unwrap();
    game.add_authorized_player("carol".to_string());
    game.add_player("carol".to_string(), "conn-c".to_string()).unwrap();
    assert!(matches!(
        game.add_player("bob".to_string(), "conn-b2".to_string()),
        Err(WebsocketError::AlreadyInGame)
    ));
    assert!(matches!(
        game.remove_player(&"dave".to_string()),
        Err(WebsocketError::NotInGame)
    ));

    // The owner leaves: ownership passes to the earliest-joined player
    // still connected, deterministically.
    assert_eq!(game.remove_player(&"alice".to_string()).unwrap(), Removal::Stays);
    assert_eq!(game.owner, "bob");
    assert_eq!(game.remove_player(&"bob".to_string()).unwrap(), Removal::Stays);
    assert_eq!(game.owner, "carol");
    assert_eq!(
        game.remove_player(&"carol".to_string()).unwrap(),
        Removal::GameEmpty
    );
    assert!(game.connected_players.is_empty());
}

#[test]
fn reset_rebuilds_the_same_cards_and_positions() {
    let mut game = Game::new("alice".to_string(), DeckType::Standard, 0);
    let mut player = Player::new("alice".to_string(), game.id.clone());
    let sid = game.stacks[0].id.clone();
    game.take_card(&mut player, &sid).unwrap();
    game.put_card(&mut player, 0, (5, 5), true).unwrap();

    let snapshot = |g: &Game| {
        let mut bytes: Vec<u8> = g
            .stacks
            .iter()
            .flat_map(|s| s.cards.iter().map(|c| c.0))
            .collect();
        bytes.sort();
        let mut positions: Vec<(i16, i16)> = g.stacks.iter().map(|s| s.position).collect();
        positions.sort();
        (bytes, positions)
    };

    game.reset();
    let first = snapshot(&game);
    game.reset();
    let second = snapshot(&game);
    // Two consecutive resets: same card multiset, same positions.
    assert_eq!(first, second);
    assert_eq!(first.1, vec![(200, 200)]);
    assert_eq!(first.0.len(), 54);
    assert_positions_unique(&game);
}

#[test]
fn get_stack_and_pop_from_stack() {
    let mut game = custom_game(vec![vec![card(4), card(5)], vec![card(6)]]);
    let sid = game.stacks[1].id.clone();
    assert_eq!(game.get_stack(&sid).unwrap(), 1);
    assert!(matches!(
        game.get_stack(&"missing".to_string()),
        Err(WebsocketError::StackNotFound)
    ));
    let (popped, st) = game.pop_from_stack(&sid).unwrap();
    assert_eq!(popped, card(6));
    assert_eq!(st.stack_id, sid);
    assert_eq!(st.remaining_cards, 0);
    assert_eq!(st.visible_card, Card::hidden());
    // The emptied stack is gone.
    assert_eq!(game.stacks.len(), 1);
}

#[test]
fn stack_state_hides_face_down_tops() {
    let game = custom_game(vec![vec![card(4), card(5)], vec![card(4), card(133)], vec![]]);
    let st = game.stacks[0].state();
    assert_eq!(st.visible_card, card(5));
    assert_eq!(st.remaining_cards, 2);
    let st = game.stacks[1].state();
    assert_eq!(st.visible_card, Card::hidden());
    let st = game.stacks[2].state();
    assert_eq!(st.visible_card, Card::hidden());
    assert_eq!(st.remaining_cards, 0);
}

#[test]
fn check_wf_spots_malformed_records() {
    let game = custom_game(vec![vec![card(4)], vec![card(5)]]);
    assert!(game.check_wf());

    let mut clash = custom_game(vec![vec![card(4)]]);
    clash.stacks.push(Stack {
        id: "other".to_string(),
        cards: vec![card(5)],
        position: clash.stacks[0].position,
    });
    assert!(!clash.check_wf());

    let mut twice = custom_game(vec![]);
    twice.connected_players.push(("alice".to_string(), "c1".to_string()));
    twice.connected_players.push(("alice".to_string(), "c2".to_string()));
    assert!(!twice.check_wf());
}
