//! The message shapes of the session protocol: inbound actions, outbound
//! replies and broadcasts, and the http-side request/response bodies.
//! Serialization to and from the wire is the outer layer's concern; the
//! engine works on these plain values.

use vstd::prelude::*;
use crate::card::Card;
use crate::deck::{Position, StackId, StackState};
use crate::player::PlayerId;
use crate::{GameId, WebsocketError};

verus! {

/// The deck configuration a game is created with and rebuilt from on
/// every reset.
#[derive(Debug)]
pub enum DeckType {
    /// One face-down, freshly shuffled 54-card stack: the 52 rank/suit
    /// combinations plus the two jokers.
    Standard,
    /// Caller-supplied stacks of cards, taken verbatim; each is laid out
    /// on a grid so no two start at the same position.
    Custom(Vec<Vec<Card>>),
}

/// The action name echoed in a broadcast as the cause of a state change.
#[derive(Copy, Clone, Debug, PartialEq, Eq, Structural)]
pub enum ActionKind {
    JoinGame,
    TakeCard,
    PutCard,
    FlipCard,
    FlipStack,
    MoveCard,
    MoveStack,
    Shuffle,
    Reset,
    LeaveGame,
    Ping,
}

/// One inbound action message, already parsed from the wire.
#[derive(Debug)]
pub enum WebsocketRequest {
    JoinGame,
    TakeCard { stack: StackId },
    PutCard { hand_index: usize, position: Position, face_down: bool },
    FlipCard { stack: StackId },
    FlipStack { stack: StackId },
    MoveCard { stack: StackId, position: Position },
    MoveStack { stack: StackId, position: Position },
    Shuffle { stack: StackId },
    Reset,
    LeaveGame,
    Ping,
}

/// The partial game-state delta carried by a `game-state` broadcast.
/// An absent field means "unchanged". There is no field for any hand:
/// a broadcast can never carry hand contents.
#[derive(Debug)]
pub struct GameStateData {
    pub cause_action: Option<ActionKind>,
    pub cause_player: Option<PlayerId>,
    pub owner: Option<PlayerId>,
    pub players: Option<Vec<PlayerId>>,
    pub stacks: Option<Vec<StackState>>,
}

impl Default for GameStateData {
    /// The empty delta: every field absent.
    fn default() -> (d: GameStateData)
        ensures
            d.cause_action is None,
            d.cause_player is None,
            d.owner is None,
            d.players is None,
            d.stacks is None,
    {
        GameStateData {
            cause_action: None,
            cause_player: None,
            owner: None,
            players: None,
            stacks: None,
        }
    }
}

/// One outbound reply or broadcast payload.
#[derive(Debug)]
pub enum WebsocketResponse {
    GameState { game_id: GameId, data: GameStateData },
    PlayerState { game_id: GameId, hand: Vec<Card> },
    Error { error: String, message: String },
    CloseGame,
    Success,
    NoResponse,
    Pong,
}

impl GameStateData {
    /// Wraps this delta as the `game-state` message of `game_id`.
    pub fn with(self, game_id: &GameId) -> (r: WebsocketResponse)
        ensures
            r matches WebsocketResponse::GameState { game_id: g, data }
                && g@ == game_id@ && data == self,
    {
        WebsocketResponse::GameState { game_id: game_id.clone(), data: self }
    }
}

impl WebsocketResponse {
    /// The error reply sent to the acting connection for a failed request.
    pub fn from_error(e: &WebsocketError) -> (r: WebsocketResponse)
        ensures
            r matches WebsocketResponse::Error { error, message }
                && error@ == e.spec_error_tag() && message@ == e.spec_message(),
    {
        WebsocketResponse::Error { error: e.error_tag(), message: e.message() }
    }
}

/// Body of the http request that creates a game.
#[derive(Debug)]
pub struct CreateGameRequest {
    pub name: String,
    pub deck_type: DeckType,
}

/// Body of the http request that authorizes a player for a game.
#[derive(Debug)]
pub struct JoinGameRequest {
    pub game_id: GameId,
}

/// Body of the http reply to a create or join: the game and a scoped
/// credential for the socket connection.
#[derive(Debug)]
pub struct JoinGameResponse {
    pub game_id: String,
    pub token: String,
}

} // verus!
