//! The per-identity player record: which game the player belongs to and
//! the hand of cards they hold. The record persists independently of any
//! live connection, so a reconnecting player recovers their hand.

use vstd::prelude::*;
use crate::GameId;
use crate::card::Card;
use crate::deck::copy_cards;
use crate::requests::WebsocketResponse;

verus! {

/// Identifier of a player, independent of any connection.
pub type PlayerId = String;

/// The persisted state of one player.
#[derive(Debug)]
pub struct Player {
    pub player_id: PlayerId,
    pub game_id: GameId,
    /// The cards this player holds, never visible to any other player.
    /// Treated as an unordered bag: removal may reorder the rest, so an
    /// index into it is only meaningful within a single request.
    pub hand: Vec<Card>,
}

impl Player {
    /// A fresh record for a player joining `game_id`, with an empty hand.
    pub fn new(player_id: PlayerId, game_id: GameId) -> (p: Player)
        ensures
            p.player_id == player_id,
            p.game_id == game_id,
            p.hand@ == Seq::<Card>::empty(),
    {
        Player { player_id, game_id, hand: Vec::new() }
    }

    /// The private state message pushed to this player's own connection —
    /// the only message that ever carries a hand.
    pub fn state(&self) -> (r: WebsocketResponse)
        ensures
            r matches WebsocketResponse::PlayerState { game_id, hand }
                && game_id@ == self.game_id@ && hand@ == self.hand@,
    {
        WebsocketResponse::PlayerState {
            game_id: self.game_id.clone(),
            hand: copy_cards(&self.hand),
        }
    }
}

} // verus!
