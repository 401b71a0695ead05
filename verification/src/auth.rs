//! The data shapes of the credential flow. Issuing and verifying the
//! credentials themselves is an external collaborator's job; the engine
//! only defines what the claims and replies look like.

use vstd::prelude::*;
use crate::GameId;

verus! {

/// Seconds an http access credential stays valid.
pub const TOKEN_EXPIRY: u64 = 60 * 60;

/// Seconds a socket credential stays valid. Expiry matters little, as a
/// player can always request a fresh credential by joining again; it
/// only serves reconnects after a dropped connection.
pub const WEBSOCKET_TOKEN_EXPIRY: u64 = 60 * 60 * 24;

/// The audience claim of an http credential.
pub fn http_audience() -> (r: &'static str)
    ensures
        r@ == "cards"@,
{
    "cards"
}

/// The audience claim of a socket credential.
pub fn websocket_audience() -> (r: &'static str)
    ensures
        r@ == "websocket"@,
{
    "websocket"
}

/// The claims carried by a signed credential: the subject, its expiry,
/// the audience, and — for a socket credential — the one game it grants
/// access to.
#[derive(Debug)]
pub struct Claims {
    pub sub: String,
    pub exp: usize,
    pub aud: String,
    pub game_id: Option<GameId>,
}

/// The identity context the authorizer attaches to every transport
/// event after verifying a credential.
#[derive(Debug)]
pub struct AuthorizationContext {
    pub uuid: String,
    pub expires: usize,
    pub game_id: Option<GameId>,
}

/// The http reply handing out a fresh pair of credentials.
#[derive(Debug)]
pub struct AuthResponse {
    pub access_token: String,
    pub expires_in: u64,
    pub refresh_token: String,
}

} // verus!
