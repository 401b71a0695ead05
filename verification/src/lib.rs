//! State engine for a shared virtual card table.
//!
//! The library owns the game/stack/card state machine and the
//! broadcast protocol around it: a compact one-byte card encoding,
//! the deck builder, the game engine that applies each mutation and
//! computes who must be told what, and the session protocol handler
//! that interprets inbound actions against the current state.
//!
//! Persistence (a key-value record store) and delivery (a push
//! channel to live connections) are external collaborators: every
//! engine decision is returned as plain data (new records, commands
//! to send or evict), and an unverified outer layer performs the I/O.

use vstd::prelude::*;
use vstd::string::StringExecFns;

pub mod auth;
pub mod card;
pub mod deck;
pub mod external;
pub mod game;
pub mod player;
pub mod requests;
pub mod session;
pub mod utils;

verus! {

/// Identifier of a game record in the store.
pub type GameId = String;

/// Request-scoped failures surfaced to the acting connection.
///
/// None of these is fatal: the session layer converts each into an
/// error reply for the caller. `ServiceError` wraps a failure of an
/// external collaborator (store or push channel) and carries only a
/// generic message.
#[derive(Debug)]
pub enum WebsocketError {
    NonExistentGame(GameId),
    NotInGame,
    AlreadyInGame,
    NoPermission,
    StackNotFound,
    EmptyStack,
    CardNotFound,
    PlayerNotFound,
    InvalidRequest(String),
    ServiceError(String),
}

impl WebsocketError {
    /// The kebab-case tag identifying the error kind on the wire.
    pub fn error_tag(&self) -> (r: String)
        ensures
            r@ == self.spec_error_tag(),
    {
        match self {
            WebsocketError::NonExistentGame(_) => "non-existent-game".to_owned(),
            WebsocketError::NotInGame => "not-in-game".to_owned(),
            WebsocketError::AlreadyInGame => "already-in-game".to_owned(),
            WebsocketError::NoPermission => "no-permission".to_owned(),
            WebsocketError::StackNotFound => "stack-not-found".to_owned(),
            WebsocketError::EmptyStack => "empty-stack".to_owned(),
            WebsocketError::CardNotFound => "card-not-found".to_owned(),
            WebsocketError::PlayerNotFound => "player-not-found".to_owned(),
            WebsocketError::InvalidRequest(_) => "invalid-request".to_owned(),
            WebsocketError::ServiceError(_) => "service-error".to_owned(),
        }
    }

    /// The human-readable text accompanying the error on the wire.
    /// `ServiceError` carries only a generic prefix and the message the
    /// outer layer chose to expose, never store internals.
    pub fn message(&self) -> (r: String)
        ensures
            r@ == self.spec_message(),
    {
        match self {
            WebsocketError::NonExistentGame(id) => {
                let mut s = "the game `".to_owned();
                s.append(id.as_str());
                s.append("` does not exist");
                s
            },
            WebsocketError::NotInGame => "you are not currently in a game".to_owned(),
            WebsocketError::AlreadyInGame => "you cannot do this whilst already in game".to_owned(),
            WebsocketError::NoPermission => "only the game owner can perform this action".to_owned(),
            WebsocketError::StackNotFound => "the stack does not exist".to_owned(),
            WebsocketError::EmptyStack => "attempted operation on empty stack".to_owned(),
            WebsocketError::CardNotFound => {
                "attempted operation on card in player's hand which doesn't exist".to_owned()
            },
            WebsocketError::PlayerNotFound => "the player does not exist".to_owned(),
            WebsocketError::InvalidRequest(m) => m.clone(),
            WebsocketError::ServiceError(m) => {
                let mut s = "Internal server error: ".to_owned();
                s.append(m.as_str());
                s
            },
        }
    }

    pub open spec fn spec_message(&self) -> Seq<char> {
        match self {
            WebsocketError::NonExistentGame(id) => "the game `"@ + id@ + "` does not exist"@,
            WebsocketError::NotInGame => "you are not currently in a game"@,
            WebsocketError::AlreadyInGame => "you cannot do this whilst already in game"@,
            WebsocketError::NoPermission => "only the game owner can perform this action"@,
            WebsocketError::StackNotFound => "the stack does not exist"@,
            WebsocketError::EmptyStack => "attempted operation on empty stack"@,
            WebsocketError::CardNotFound => "attempted operation on card in player's hand which doesn't exist"@,
            WebsocketError::PlayerNotFound => "the player does not exist"@,
            WebsocketError::InvalidRequest(m) => m@,
            WebsocketError::ServiceError(m) => "Internal server error: "@ + m@,
        }
    }

    pub open spec fn spec_error_tag(&self) -> Seq<char> {
        match self {
            WebsocketError::NonExistentGame(_) => "non-existent-game"@,
            WebsocketError::NotInGame => "not-in-game"@,
            WebsocketError::AlreadyInGame => "already-in-game"@,
            WebsocketError::NoPermission => "no-permission"@,
            WebsocketError::StackNotFound => "stack-not-found"@,
            WebsocketError::EmptyStack => "empty-stack"@,
            WebsocketError::CardNotFound => "card-not-found"@,
            WebsocketError::PlayerNotFound => "player-not-found"@,
            WebsocketError::InvalidRequest(_) => "invalid-request"@,
            WebsocketError::ServiceError(_) => "service-error"@,
        }
    }
}

} // verus!
