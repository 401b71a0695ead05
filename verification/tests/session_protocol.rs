use multiplayer_cards::WebsocketError;
use multiplayer_cards::card::Card;
use multiplayer_cards::game::Game;
use multiplayer_cards::player::Player;
use multiplayer_cards::requests::{DeckType, GameStateData, WebsocketRequest, WebsocketResponse};
use multiplayer_cards::session::{
    Command, closed_game_commands, handle_connect, handle_disconnect, handle_message,
    needs_player_record,
};

fn connected_game() -> Game {
    let mut game = Game::new("alice".to_string(), DeckType::Standard, 0);
    game.add_player("alice".to_string(), "conn-a".to_string()).unwrap();
    game.add_authorized_player("bob".to_string());
    game.add_player("bob".to_string(), "conn-b".to_string()).unwrap();
    game
}

#[test]
fn ping_pong() {
    let mut game = connected_game();
    let mut player: Option<Player> = None;
    let out = handle_message(
        &mut game,
        &mut player,
        &WebsocketRequest::Ping,
        &"alice".to_string(),
        &"conn-a".to_string(),
    )
    .unwrap();
    assert_eq!(out.commands.len(), 1);
    assert!(matches!(
        &out.commands[0],
        Command::Send { conn_id, response: WebsocketResponse::Pong } if conn_id == "conn-a"
    ));
    assert!(!out.save_game && !out.save_player && !out.game_destroyed);
}

#[test]
fn join_game_broadcasts_and_sends_private_state() {
    let mut game = Game::new("alice".to_string(), DeckType::Standard, 0);
    game.add_authorized_player("bob".to_string());
    let mut player = Some(Player::new("bob".to_string(), game.id.clone()));
    let out = handle_message(
        &mut game,
        &mut player,
        &WebsocketRequest::JoinGame,
        &"bob".to_string(),
        &"conn-b".to_string(),
    )
    .unwrap();
    assert!(out.save_game);
    assert_eq!(game.connected_players.len(), 1);
    assert_eq!(out.commands.len(), 3);
    // The joiner gets the full snapshot: roster, owner, stack summaries.
    match &out.commands[0] {
        Command::Send { conn_id, response: WebsocketResponse::GameState { game_id, data } } => {
            assert_eq!(conn_id, "conn-b");
            assert_eq!(game_id, &game.id);
            assert_eq!(data.owner.as_deref(), Some("alice"));
            assert_eq!(data.players, Some(vec!["bob".to_string()]));
            let stacks = data.stacks.as_ref().unwrap();
            assert_eq!(stacks.len(), 1);
            assert_eq!(stacks[0].remaining_cards, 54);
            assert_eq!(stacks[0].visible_card, Card::hidden());
        }
        other => panic!("unexpected first command: {other:?}"),
    }
    assert!(matches!(&out.commands[1], Command::SendAll { .. }));
    match &out.commands[2] {
        Command::Send { conn_id, response: WebsocketResponse::PlayerState { hand, .. } } => {
            assert_eq!(conn_id, "conn-b");
            assert!(hand.is_empty());
        }
        other => panic!("unexpected third command: {other:?}"),
    }
}

#[test]
fn join_twice_is_rejected() {
    let mut game = connected_game();
    let mut player = Some(Player::new("bob".to_string(), game.id.clone()));
    let err = handle_message(
        &mut game,
        &mut player,
        &WebsocketRequest::JoinGame,
        &"bob".to_string(),
        &"conn-b".to_string(),
    )
    .unwrap_err();
    assert!(matches!(err, WebsocketError::AlreadyInGame));
}

#[test]
fn actions_require_a_live_connection() {
    let mut game = connected_game();
    let mut player: Option<Player> = None;
    let err = handle_message(
        &mut game,
        &mut player,
        &WebsocketRequest::TakeCard { stack: "anything".to_string() },
        &"mallory".to_string(),
        &"conn-m".to_string(),
    )
    .unwrap_err();
    assert!(matches!(err, WebsocketError::NotInGame));
}

#[test]
fn reset_is_owner_only() {
    let mut game = connected_game();
    let mut player: Option<Player> = None;
    let err = handle_message(
        &mut game,
        &mut player,
        &WebsocketRequest::Reset,
        &"bob".to_string(),
        &"conn-b".to_string(),
    )
    .unwrap_err();
    assert!(matches!(err, WebsocketError::NoPermission));
}

#[test]
fn take_card_sends_hand_only_to_the_acting_connection() {
    let mut game = connected_game();
    let stack_id = game.stacks[0].id.clone();
    let mut player = Some(Player::new("bob".to_string(), game.id.clone()));
    let out = handle_message(
        &mut game,
        &mut player,
        &WebsocketRequest::TakeCard { stack: stack_id },
        &"bob".to_string(),
        &"conn-b".to_string(),
    )
    .unwrap();
    assert!(out.save_game && out.save_player);
    assert_eq!(player.as_ref().unwrap().hand.len(), 1);
    assert_eq!(out.commands.len(), 2);
    // The broadcast goes to every connection but carries no hand; the
    // hand goes to the acting connection alone.
    for command in &out.commands {
        match command {
            Command::SendAll { conn_ids, response } => {
                assert_eq!(conn_ids, &vec!["conn-a".to_string(), "conn-b".to_string()]);
                assert!(!matches!(response, WebsocketResponse::PlayerState { .. }));
            }
            Command::Send { conn_id, response } => {
                if let WebsocketResponse::PlayerState { hand, .. } = response {
                    assert_eq!(conn_id, "conn-b");
                    assert_eq!(hand.len(), 1);
                }
            }
            other => panic!("unexpected command: {other:?}"),
        }
    }
}

#[test]
fn reset_clears_connected_hands_and_deletes_absent_players() {
    let mut game = connected_game();
    game.add_authorized_player("carol".to_string()); // authorized, never connected
    let mut player: Option<Player> = None;
    let out = handle_message(
        &mut game,
        &mut player,
        &WebsocketRequest::Reset,
        &"alice".to_string(),
        &"conn-a".to_string(),
    )
    .unwrap();
    assert!(out.save_game);
    // alice and bob are connected: an emptied private state plus a
    // stored-hand wipe each; carol is absent: her record is deleted.
    let n = out.commands.len();
    assert_eq!(n, 6);
    assert!(matches!(
        &out.commands[0],
        Command::Send { conn_id, response: WebsocketResponse::PlayerState { hand, .. } }
            if conn_id == "conn-a" && hand.is_empty()
    ));
    assert!(matches!(
        &out.commands[1],
        Command::ClearHand { player_id } if player_id == "alice"
    ));
    assert!(matches!(
        &out.commands[2],
        Command::Send { conn_id, response: WebsocketResponse::PlayerState { hand, .. } }
            if conn_id == "conn-b" && hand.is_empty()
    ));
    assert!(matches!(
        &out.commands[3],
        Command::ClearHand { player_id } if player_id == "bob"
    ));
    assert!(matches!(
        &out.commands[4],
        Command::DeletePlayer { player_id } if player_id == "carol"
    ));
    match &out.commands[5] {
        Command::SendAll { conn_ids, response: WebsocketResponse::GameState { data, .. } } => {
            assert_eq!(conn_ids.len(), 2);
            let stacks = data.stacks.as_ref().unwrap();
            assert_eq!(stacks.len(), 1);
            assert_eq!(stacks[0].remaining_cards, 54);
        }
        other => panic!("unexpected last command: {other:?}"),
    }
}

#[test]
fn owner_disconnect_hands_over_and_broadcasts() {
    let mut game = connected_game();
    game.add_authorized_player("carol".to_string());
    game.add_player("carol".to_string(), "conn-c".to_string()).unwrap();
    let mut opt = Some(game);
    let out = handle_disconnect(&mut opt, &"alice".to_string(), &"conn-a".to_string());
    let game = opt.unwrap();
    assert!(!out.game_destroyed && out.save_game);
    assert_eq!(game.owner, "bob");
    assert_eq!(game.connected_players.len(), 2);
    assert!(matches!(
        &out.commands[0],
        Command::DeleteConnection { player_id, expected_conn_id }
            if player_id == "alice" && expected_conn_id == "conn-a"
    ));
    match &out.commands[1] {
        Command::SendAll { conn_ids, response: WebsocketResponse::GameState { data, .. } } => {
            assert_eq!(conn_ids, &vec!["conn-b".to_string(), "conn-c".to_string()]);
            assert_eq!(data.owner.as_deref(), Some("bob"));
        }
        other => panic!("unexpected command: {other:?}"),
    }
}

#[test]
fn last_disconnect_destroys_the_game() {
    let mut game = Game::new("alice".to_string(), DeckType::Standard, 0);
    game.add_player("alice".to_string(), "conn-a".to_string()).unwrap();
    game.add_authorized_player("bob".to_string());
    let game_id = game.id.clone();
    let mut opt = Some(game);
    let out = handle_disconnect(&mut opt, &"alice".to_string(), &"conn-a".to_string());
    assert!(out.game_destroyed && !out.save_game);
    // The registry entry goes, then the game record, then every
    // authorized player's record.
    assert!(matches!(&out.commands[0], Command::DeleteConnection { .. }));
    assert!(matches!(
        &out.commands[1],
        Command::DeleteGame { game_id: g } if g == &game_id
    ));
    let deleted: Vec<&str> = out
        .commands
        .iter()
        .filter_map(|c| match c {
            Command::DeletePlayer { player_id } => Some(player_id.as_str()),
            _ => None,
        })
        .collect();
    assert_eq!(deleted, vec!["alice", "bob"]);
}

#[test]
fn message_for_a_dead_game_closes_the_session() {
    // Once the game record is gone, any further action on its id gets a
    // close notice and the connection shut.
    let cmds = closed_game_commands(&"conn-z".to_string());
    assert!(matches!(
        &cmds[0],
        Command::Send { conn_id, response: WebsocketResponse::CloseGame } if conn_id == "conn-z"
    ));
    assert!(matches!(
        &cmds[1],
        Command::Evict { conn_id } if conn_id == "conn-z"
    ));
}

#[test]
fn leave_game_succeeds_and_evicts() {
    let mut game = connected_game();
    let mut player: Option<Player> = None;
    let out = handle_message(
        &mut game,
        &mut player,
        &WebsocketRequest::LeaveGame,
        &"bob".to_string(),
        &"conn-b".to_string(),
    )
    .unwrap();
    assert!(out.save_game && !out.game_destroyed);
    assert_eq!(game.connected_players.len(), 1);
    assert_eq!(out.commands.len(), 3);
    assert!(matches!(&out.commands[0], Command::SendAll { .. }));
    assert!(matches!(
        &out.commands[1],
        Command::Send { conn_id, response: WebsocketResponse::Success } if conn_id == "conn-b"
    ));
    assert!(matches!(
        &out.commands[2],
        Command::Evict { conn_id } if conn_id == "conn-b"
    ));
}

#[test]
fn connect_evicts_stale_connections_and_rejects_dead_games() {
    let r = handle_connect(
        true,
        Some("old-conn".to_string()),
        &"alice".to_string(),
        &"conn-a".to_string(),
    );
    assert!(r.accepted);
    assert!(matches!(
        &r.commands[0],
        Command::Evict { conn_id } if conn_id == "old-conn"
    ));
    assert!(matches!(
        &r.commands[1],
        Command::PutConnection { player_id, conn_id }
            if player_id == "alice" && conn_id == "conn-a"
    ));

    let r = handle_connect(false, None, &"alice".to_string(), &"conn-a".to_string());
    assert!(!r.accepted);
    assert!(r.commands.is_empty());
}

#[test]
fn player_record_is_needed_exactly_for_join_take_put() {
    assert!(needs_player_record(&WebsocketRequest::JoinGame));
    assert!(needs_player_record(&WebsocketRequest::TakeCard { stack: String::new() }));
    assert!(needs_player_record(&WebsocketRequest::PutCard {
        hand_index: 0,
        position: (0, 0),
        face_down: false
    }));
    assert!(!needs_player_record(&WebsocketRequest::Ping));
    assert!(!needs_player_record(&WebsocketRequest::Reset));
    assert!(!needs_player_record(&WebsocketRequest::LeaveGame));
}

#[test]
fn error_replies_carry_tag_and_message() {
    let err = WebsocketError::NonExistentGame("g-1".to_string());
    assert_eq!(err.error_tag(), "non-existent-game");
    assert_eq!(err.message(), "the game `g-1` does not exist");
    match WebsocketResponse::from_error(&WebsocketError::NotInGame) {
        WebsocketResponse::Error { error, message } => {
            assert_eq!(error, "not-in-game");
            assert_eq!(message, "you are not currently in a game");
        }
        other => panic!("unexpected response: {other:?}"),
    }
}

#[test]
fn take_card_without_a_record_is_player_not_found() {
    let mut game = connected_game();
    let stack_id = game.stacks[0].id.clone();
    let mut player: Option<Player> = None;
    let err = handle_message(
        &mut game,
        &mut player,
        &WebsocketRequest::TakeCard { stack: stack_id },
        &"bob".to_string(),
        &"conn-b".to_string(),
    )
    .unwrap_err();
    assert!(matches!(err, WebsocketError::PlayerNotFound));
}

#[test]
fn full_round_through_the_handler() {
    // The take-then-put scenario, driven through the protocol handler.
    let mut game = connected_game();
    let stack_id = game.stacks[0].id.clone();
    let mut player = Some(Player::new("bob".to_string(), game.id.clone()));
    handle_message(
        &mut game,
        &mut player,
        &WebsocketRequest::TakeCard { stack: stack_id },
        &"bob".to_string(),
        &"conn-b".to_string(),
    )
    .unwrap();
    let out = handle_message(
        &mut game,
        &mut player,
        &WebsocketRequest::PutCard { hand_index: 0, position: (5, 5), face_down: true },
        &"bob".to_string(),
        &"conn-b".to_string(),
    )
    .unwrap();
    assert!(player.as_ref().unwrap().hand.is_empty());
    let put_stack = game.stacks.iter().find(|s| s.position == (5, 5)).unwrap();
    assert_eq!(put_stack.cards.len(), 1);
    // The private hand goes first, then the broadcast with the delta;
    // the broadcast shows the hidden sentinel for the face-down card.
    match &out.commands[1] {
        Command::SendAll { response: WebsocketResponse::GameState { data, .. }, .. } => {
            let stacks = data.stacks.as_ref().unwrap();
            assert_eq!(stacks.len(), 1);
            assert_eq!(stacks[0].position, (5, 5));
            assert_eq!(stacks[0].remaining_cards, 1);
            assert_eq!(stacks[0].visible_card, Card::hidden());
        }
        other => panic!("unexpected command: {other:?}"),
    }
}

#[test]
fn every_error_kind_has_a_tag_and_text() {
    let cases = [
        (
            WebsocketError::NonExistentGame("g".to_string()),
            "non-existent-game",
            "the game `g` does not exist",
        ),
        (WebsocketError::NotInGame, "not-in-game", "you are not currently in a game"),
        (
            WebsocketError::AlreadyInGame,
            "already-in-game",
            "you cannot do this whilst already in game",
        ),
        (
            WebsocketError::NoPermission,
            "no-permission",
            "only the game owner can perform this action",
        ),
        (WebsocketError::StackNotFound, "stack-not-found", "the stack does not exist"),
        (WebsocketError::EmptyStack, "empty-stack", "attempted operation on empty stack"),
        (
            WebsocketError::CardNotFound,
            "card-not-found",
            "attempted operation on card in player's hand which doesn't exist",
        ),
        (WebsocketError::PlayerNotFound, "player-not-found", "the player does not exist"),
        (
            WebsocketError::InvalidRequest("bad payload".to_string()),
            "invalid-request",
            "bad payload",
        ),
        (
            WebsocketError::ServiceError("store down".to_string()),
            "service-error",
            "Internal server error: store down",
        ),
    ];
    for (err, tag, message) in cases {
        assert_eq!(err.error_tag(), tag);
        assert_eq!(err.message(), message);
    }
}

#[test]
fn state_wrappers() {
    let player = Player::new("alice".to_string(), "g-1".to_string());
    match player.state() {
        WebsocketResponse::PlayerState { game_id, hand } => {
            assert_eq!(game_id, "g-1");
            assert!(hand.is_empty());
        }
        other => panic!("unexpected state: {other:?}"),
    }
    let data = GameStateData::default();
    match data.with(&"g-2".to_string()) {
        WebsocketResponse::GameState { game_id, data } => {
            assert_eq!(game_id, "g-2");
            assert!(data.cause_action.is_none());
            assert!(data.stacks.is_none());
        }
        other => panic!("unexpected state: {other:?}"),
    }
}

#[test]
fn move_card_broadcast_carries_destination_then_source() {
    let mut game = connected_game();
    let source = game.stacks[0].id.clone();
    let mut player: Option<Player> = None;
    let out = handle_message(
        &mut game,
        &mut player,
        &WebsocketRequest::MoveCard { stack: source.clone(), position: (8, 8) },
        &"alice".to_string(),
        &"conn-a".to_string(),
    )
    .unwrap();
    assert_eq!(out.commands.len(), 1);
    match &out.commands[0] {
        Command::SendAll { response: WebsocketResponse::GameState { data, .. }, .. } => {
            let stacks = data.stacks.as_ref().unwrap();
            assert_eq!(stacks.len(), 2);
            assert_eq!(stacks[0].position, (8, 8));
            assert_eq!(stacks[0].remaining_cards, 1);
            assert_eq!(stacks[1].stack_id, source);
            assert_eq!(stacks[1].remaining_cards, 53);
        }
        other => panic!("unexpected command: {other:?}"),
    }
}
