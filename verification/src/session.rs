//! The session protocol handler: interprets one transport event
//! (connect, disconnect, or an action message) against the current
//! state, enforces authorization, drives the game engine, and decides
//! what must be persisted, sent, or evicted.
//!
//! All I/O is returned as data: a list of [`Command`]s for the outer
//! layer to execute against the record store and the push channel, plus
//! flags saying which of the records handed in must be persisted.

use vstd::prelude::*;
use crate::WebsocketError;
use crate::card::Card;
use crate::deck::StackState;
use crate::game::{ConnId, Game, Removal, is_state_of, stack_idx, stack_idx_at, has_stack, has_stack_at, card_popped, card_placed};
use crate::player::{Player, PlayerId};
use crate::requests::{ActionKind, GameStateData, WebsocketRequest, WebsocketResponse};
use crate::deck::spec_visible_card;

verus! {

/// One store or push-channel effect the outer layer must execute, in
/// list order.
#[derive(Debug)]
pub enum Command {
    /// Delete the game record.
    DeleteGame { game_id: crate::GameId },
    /// Overwrite the player's stored record with an emptied hand.
    ClearHand { player_id: PlayerId },
    /// Delete the player's stored record.
    DeletePlayer { player_id: PlayerId },
    /// Register this connection for the player in the connection registry.
    PutConnection { player_id: PlayerId, conn_id: ConnId },
    /// Delete the player's registry entry, but only while it still holds
    /// `expected_conn_id` (a compare-and-delete, so a late disconnect
    /// cannot erase a newer live connection).
    DeleteConnection { player_id: PlayerId, expected_conn_id: ConnId },
    /// Send one payload to one connection.
    Send { conn_id: ConnId, response: WebsocketResponse },
    /// Send one payload to each of these connections.
    SendAll { conn_ids: Vec<ConnId>, response: WebsocketResponse },
    /// Force-close a connection.
    Evict { conn_id: ConnId },
}

/// What the handler decided, besides the commands: which of the records
/// it was handed must be written back.
#[derive(Debug)]
pub struct HandleOutcome {
    pub commands: Vec<Command>,
    /// Persist the game record as mutated.
    pub save_game: bool,
    /// Persist the player record as mutated.
    pub save_player: bool,
    /// The game was destroyed: its record is deleted by the commands and
    /// must not be written back.
    pub game_destroyed: bool,
}

/// Hand privacy for one command: a `player-state` payload never travels
/// in a batch send, and a single send of one either addresses `conn`
/// (the acting player's own connection) carrying exactly `hand` (that
/// player's own hand), or shows an empty hand (a reset wipe), which
/// reveals nothing.
pub open spec fn hand_private_in(c: Command, conn: Seq<char>, hand: Seq<Card>) -> bool {
    match c {
        Command::Send { conn_id, response } => match response {
            WebsocketResponse::PlayerState { game_id: _, hand: h } => (conn_id@ == conn && h@
                == hand) || h@.len() == 0,
            _ => true,
        },
        Command::SendAll { conn_ids: _, response } => !(response is PlayerState),
        _ => true,
    }
}

/// Hand privacy over a whole command list.
pub open spec fn hands_private(cmds: Seq<Command>, conn: Seq<char>, hand: Seq<Card>) -> bool {
    forall|k: int| 0 <= k < cmds.len() ==> hand_private_in(#[trigger] cmds[k], conn, hand)
}

/// The hand inside an optional player record; empty when there is none.
pub open spec fn opt_hand(p: Option<Player>) -> Seq<Card> {
    match p {
        Some(p) => p.hand@,
        None => Seq::empty(),
    }
}

/// `conn_ids` are exactly the live connections of `g`, in roster order.
pub open spec fn conns_of(g: Game, conn_ids: Seq<ConnId>) -> bool {
    &&& conn_ids.len() == g.connected_players@.len()
    &&& forall|i: int|
        0 <= i < conn_ids.len() ==> (#[trigger] conn_ids[i])@ == g.connected_players@[i].1@
}

/// `c` broadcasts `game-state` for `g` to all of `g`'s live connections,
/// caused by `cause` (attributed to `cause_player` when given), and its
/// delta carries nothing but what the remaining clauses state.
pub open spec fn is_game_state_broadcast(c: Command, g: Game, cause: ActionKind) -> bool {
    &&& c matches Command::SendAll { conn_ids, response }
    &&& conns_of(g, conn_ids@)
    &&& response matches WebsocketResponse::GameState { game_id, data }
    &&& game_id@ == g.id@
    &&& data.cause_action == Some(cause)
}

/// The `game-state` delta inside a broadcast command; only meaningful
/// under `is_game_state_broadcast`.
pub open spec fn broadcast_data(c: Command) -> GameStateData
    recommends
        c is SendAll,
{
    c->SendAll_response->GameState_data
}

fn connected_conns(game: &Game) -> (v: Vec<ConnId>)
    ensures
        conns_of(*game, v@),
{
    let mut v: Vec<ConnId> = Vec::new();
    let mut k: usize = 0;
    while k < game.connected_players.len()
        invariant
            k <= game.connected_players@.len(),
            v@.len() == k,
            forall|i: int| 0 <= i < k ==> (#[trigger] v@[i])@ == game.connected_players@[i].1@,
        decreases game.connected_players@.len() - k,
    {
        v.push(game.connected_players[k].1.clone());
        k = k + 1;
    }
    v
}

fn connected_ids(game: &Game) -> (v: Vec<PlayerId>)
    ensures
        v@.len() == game.connected_players@.len(),
        forall|i: int| 0 <= i < v@.len() ==> (#[trigger] v@[i])@ == game.connected_players@[i].0@,
{
    let mut v: Vec<PlayerId> = Vec::new();
    let mut k: usize = 0;
    while k < game.connected_players.len()
        invariant
            k <= game.connected_players@.len(),
            v@.len() == k,
            forall|i: int| 0 <= i < k ==> (#[trigger] v@[i])@ == game.connected_players@[i].0@,
        decreases game.connected_players@.len() - k,
    {
        v.push(game.connected_players[k].0.clone());
        k = k + 1;
    }
    v
}

fn all_stack_states(game: &Game) -> (v: Vec<StackState>)
    ensures
        v@.len() == game.stacks@.len(),
        forall|i: int| 0 <= i < v@.len() ==> is_state_of(#[trigger] v@[i], game.stacks@[i]),
{
    let mut v: Vec<StackState> = Vec::new();
    let mut k: usize = 0;
    while k < game.stacks.len()
        invariant
            k <= game.stacks@.len(),
            v@.len() == k,
            forall|i: int| 0 <= i < k ==> is_state_of(#[trigger] v@[i], game.stacks@[i]),
        decreases game.stacks@.len() - k,
    {
        v.push(game.stacks[k].state());
        k = k + 1;
    }
    v
}

impl Game {
    /// The teardown plan, terminal for this game: delete the game
    /// record, delete every authorized player's record, notify every
    /// still-connected player that the game closed, and evict their
    /// connections.
    pub fn destroy(&self) -> (cmds: Vec<Command>)
        ensures
            cmds@.len() == 2 + self.authorized_players@.len() + self.connected_players@.len(),
            (cmds@[0] matches Command::DeleteGame { game_id } && game_id@ == self.id@),
            forall|i: int|
                0 <= i < self.authorized_players@.len() ==> (#[trigger] cmds@[1 + i] matches
                Command::DeletePlayer { player_id } && player_id@
                    == self.authorized_players@[i]@),
            (cmds@[1 + self.authorized_players@.len() as int] matches Command::SendAll {
                conn_ids,
                response,
            } && conns_of(*self, conn_ids@) && response is CloseGame),
            forall|j: int|
                0 <= j < self.connected_players@.len() ==> (#[trigger] cmds@[2
                    + self.authorized_players@.len() + j] matches Command::Evict { conn_id }
                    && conn_id@ == self.connected_players@[j].1@),
            forall|k: int|
                0 <= k < cmds@.len() ==> hand_private_in(#[trigger] cmds@[k], Seq::empty(), Seq::empty()),
    {
        let mut cmds: Vec<Command> = Vec::new();
        cmds.push(Command::DeleteGame { game_id: self.id.clone() });
        let mut k: usize = 0;
        while k < self.authorized_players.len()
            invariant
                k <= self.authorized_players@.len(),
                cmds@.len() == 1 + k,
                (cmds@[0] matches Command::DeleteGame { game_id } && game_id@ == self.id@),
                forall|i: int|
                    0 <= i < k ==> (#[trigger] cmds@[1 + i] matches Command::DeletePlayer {
                        player_id,
                    } && player_id@ == self.authorized_players@[i]@),
                forall|i: int|
                    0 <= i < cmds@.len() ==> hand_private_in(
                        #[trigger] cmds@[i],
                        Seq::empty(),
                        Seq::empty(),
                    ),
            decreases self.authorized_players@.len() - k,
        {
            cmds.push(Command::DeletePlayer { player_id: self.authorized_players[k].clone() });
            k = k + 1;
        }
        let na = self.authorized_players.len();
        cmds.push(Command::SendAll {
            conn_ids: connected_conns(self),
            response: WebsocketResponse::CloseGame,
        });
        let mut j: usize = 0;
        while j < self.connected_players.len()
            invariant
                j <= self.connected_players@.len(),
                na == self.authorized_players@.len(),
                cmds@.len() == 2 + na + j,
                (cmds@[0] matches Command::DeleteGame { game_id } && game_id@ == self.id@),
                forall|i: int|
                    0 <= i < na ==> (#[trigger] cmds@[1 + i] matches Command::DeletePlayer {
                        player_id,
                    } && player_id@ == self.authorized_players@[i]@),
                (cmds@[1 + na as int] matches Command::SendAll { conn_ids, response } && conns_of(
                    *self,
                    conn_ids@,
                ) && response is CloseGame),
                forall|i: int|
                    0 <= i < j ==> (#[trigger] cmds@[2 + na + i] matches Command::Evict { conn_id }
                        && conn_id@ == self.connected_players@[i].1@),
                forall|i: int|
                    0 <= i < cmds@.len() ==> hand_private_in(
                        #[trigger] cmds@[i],
                        Seq::empty(),
                        Seq::empty(),
                    ),
            decreases self.connected_players@.len() - j,
        {
            cmds.push(Command::Evict { conn_id: self.connected_players[j].1.clone() });
            j = j + 1;
        }
        cmds
    }
}

/// The per-player store and send work a reset issues, walking the
/// authorized players from the front: a connected player is sent their
/// emptied private state and has their stored hand cleared; a player
/// with no live connection has their record deleted outright (they lose
/// any held cards).
pub open spec fn reset_commands_for(cmds: Seq<Command>, auth: Seq<PlayerId>, g: Game) -> bool
    decreases auth.len(),
{
    if auth.len() == 0 {
        cmds.len() == 0
    } else {
        let pid = auth[0];
        if g.spec_is_connected(pid@) {
            &&& cmds.len() >= 2
            &&& (cmds[0] matches Command::Send { conn_id, response } && conn_id@
                == g.connected_players@[g.player_idx(pid@)].1@ && (response matches
                WebsocketResponse::PlayerState { game_id, hand } && game_id@ == g.id@
                && hand@.len() == 0))
            &&& (cmds[1] matches Command::ClearHand { player_id } && player_id@ == pid@)
            &&& reset_commands_for(cmds.skip(2), auth.drop_first(), g)
        } else {
            &&& cmds.len() >= 1
            &&& (cmds[0] matches Command::DeletePlayer { player_id } && player_id@ == pid@)
            &&& reset_commands_for(cmds.skip(1), auth.drop_first(), g)
        }
    }
}

/// Reset's per-player commands expose no hand: the only `player-state`
/// payloads among them are emptied ones.
proof fn lemma_reset_commands_private(
    cmds: Seq<Command>,
    auth: Seq<PlayerId>,
    g: Game,
    conn: Seq<char>,
    hand: Seq<Card>,
)
    requires
        reset_commands_for(cmds, auth, g),
    ensures
        hands_private(cmds, conn, hand),
    decreases auth.len(),
{
    if auth.len() == 0 {
    } else {
        let n: int = if g.spec_is_connected(auth[0]@) {
            2
        } else {
            1
        };
        lemma_reset_commands_private(cmds.skip(n), auth.drop_first(), g, conn, hand);
        assert forall|k: int| 0 <= k < cmds.len() implies hand_private_in(
            #[trigger] cmds[k],
            conn,
            hand,
        ) by {
            if k >= n {
                assert(cmds.skip(n)[k - n] == cmds[k]);
                assert(hand_private_in(cmds.skip(n)[k - n], conn, hand));
            }
        }
    }
}

fn reset_player_commands(game: &Game, from: usize) -> (cmds: Vec<Command>)
    requires
        game.wf(),
        from <= game.authorized_players@.len(),
    ensures
        reset_commands_for(cmds@, game.authorized_players@.skip(from as int), *game),
    decreases game.authorized_players@.len() - from@,
{
    let mut cmds: Vec<Command> = Vec::new();
    if from >= game.authorized_players.len() {
        return cmds;
    }
    let pid = &game.authorized_players[from];
    match crate::game::find_connected(&game.connected_players, pid) {
        Some(ci) => {
            proof {
                crate::game::lemma_player_idx_unique(*game, pid@, ci as int);
            }
            cmds.push(
                Command::Send {
                    conn_id: game.connected_players[ci].1.clone(),
                    response: WebsocketResponse::PlayerState {
                        game_id: game.id.clone(),
                        hand: Vec::new(),
                    },
                },
            );
            cmds.push(Command::ClearHand { player_id: pid.clone() });
        },
        None => {
            cmds.push(Command::DeletePlayer { player_id: pid.clone() });
        },
    }
    let ghost block = cmds@;
    let mut rest = reset_player_commands(game, from + 1);
    let ghost rest_view = rest@;
    cmds.append(&mut rest);
    proof {
        let a = game.authorized_players@.skip(from as int);
        assert(a[0] == game.authorized_players@[from as int]);
        assert(a.drop_first() =~= game.authorized_players@.skip(from as int + 1));
        assert(cmds@ == block + rest_view);
        if game.spec_is_connected(a[0]@) {
            assert(cmds@.skip(2) =~= rest_view);
        } else {
            assert(cmds@.skip(1) =~= rest_view);
        }
    }
    cmds
}

/// The outcome of a `connect` transport event.
#[derive(Debug)]
pub struct ConnectOutcome {
    pub commands: Vec<Command>,
    /// False when the target game no longer exists: the connection is to
    /// be rejected and nothing registered.
    pub accepted: bool,
}

/// Handles a `connect` event: evicts any stale connection this identity
/// still holds, rejects the connect when the target game no longer
/// exists, and otherwise registers the new connection in the registry.
pub fn handle_connect(
    game_exists: bool,
    prior_conn: Option<ConnId>,
    player_id: &PlayerId,
    conn_id: &ConnId,
) -> (r: ConnectOutcome)
    ensures
        r.accepted == game_exists,
        prior_conn matches Some(old_conn) ==> r.commands@.len() >= 1 && (r.commands@[0] matches
            Command::Evict { conn_id: c } && c@ == old_conn@),
        game_exists ==> {
            &&& (r.commands@.last() matches Command::PutConnection { player_id: p, conn_id: c }
                && p@ == player_id@ && c@ == conn_id@)
            &&& r.commands@.len() == 1 + (if prior_conn is Some { 1int } else { 0 })
        },
        !game_exists ==> r.commands@.len() == (if prior_conn is Some { 1int } else { 0 }),
        forall|k: int|
            0 <= k < r.commands@.len() ==> hand_private_in(
                #[trigger] r.commands@[k],
                conn_id@,
                Seq::empty(),
            ),
{
    let mut commands: Vec<Command> = Vec::new();
    match prior_conn {
        Some(old_conn) => {
            commands.push(Command::Evict { conn_id: old_conn });
        },
        None => {},
    }
    if !game_exists {
        return ConnectOutcome { commands, accepted: false };
    }
    commands.push(Command::PutConnection {
        player_id: player_id.clone(),
        conn_id: conn_id.clone(),
    });
    ConnectOutcome { commands, accepted: true }
}

/// Handles a `disconnect` event: removes the registry entry (but only
/// while it still names this connection), and, when the identity was a
/// participant of a live game, removes it from the game — destroying
/// the game when it was the last connected player, or broadcasting the
/// new roster (and possibly a new owner) to those remaining. An
/// identity that was not a participant leaves the game untouched.
pub fn handle_disconnect(game: &mut Option<Game>, player_id: &PlayerId, conn_id: &ConnId) -> (r:
    HandleOutcome)
    requires
        *old(game) matches Some(g) ==> g.wf(),
    ensures
        *final(game) matches Some(g) ==> g.wf(),
        r.save_player == false,
        r.commands@.len() >= 1,
        (r.commands@[0] matches Command::DeleteConnection { player_id: p, expected_conn_id: c }
            && p@ == player_id@ && c@ == conn_id@),
        *old(game) is None ==> {
            &&& *final(game) == *old(game)
            &&& r.commands@.len() == 1
            &&& !r.save_game
            &&& !r.game_destroyed
        },
        *old(game) matches Some(g) ==> !g.spec_is_connected(player_id@) ==> {
            &&& *final(game) == *old(game)
            &&& r.commands@.len() == 1
            &&& !r.save_game
            &&& !r.game_destroyed
        },
        *old(game) matches Some(g) ==> g.spec_is_connected(player_id@) ==> (*final(game) matches
            Some(g2) && {
            &&& g2.connected_players@ == g.connected_players@.remove(g.player_idx(player_id@))
            &&& g2.stacks == g.stacks
            &&& g2.authorized_players == g.authorized_players
            &&& g2.id == g.id
            &&& (g.connected_players@.len() == 1 ==> {
                &&& r.game_destroyed
                &&& !r.save_game
                &&& r.commands@.len() == 3 + g2.authorized_players@.len()
                    + g2.connected_players@.len()
                &&& (r.commands@[1] matches Command::DeleteGame { game_id } && game_id@ == g.id@)
            })
            &&& (g.connected_players@.len() > 1 ==> {
                &&& !r.game_destroyed
                &&& r.save_game
                &&& (g.owner@ == player_id@ ==> g2.owner == g2.connected_players@[0].0)
                &&& (g.owner@ != player_id@ ==> g2.owner == g.owner)
                &&& r.commands@.len() == 2
                &&& is_game_state_broadcast(r.commands@[1], g2, ActionKind::LeaveGame)
                &&& (broadcast_data(r.commands@[1]).cause_player matches Some(p) && p@
                    == player_id@)
                &&& (broadcast_data(r.commands@[1]).owner matches Some(o) && o@ == g2.owner@)
                &&& broadcast_data(r.commands@[1]).stacks is None
                &&& broadcast_data(r.commands@[1]).players is None
            })
        }),
        forall|k: int|
            0 <= k < r.commands@.len() ==> hand_private_in(
                #[trigger] r.commands@[k],
                conn_id@,
                Seq::empty(),
            ),
{
    let mut commands: Vec<Command> = Vec::new();
    commands.push(Command::DeleteConnection {
        player_id: player_id.clone(),
        expected_conn_id: conn_id.clone(),
    });
    match game {
        Some(g) => {
            match g.remove_player(player_id) {
                Ok(Removal::GameEmpty) => {
                    let mut teardown = g.destroy();
                    commands.append(&mut teardown);
                    HandleOutcome {
                        commands,
                        save_game: false,
                        save_player: false,
                        game_destroyed: true,
                    }
                },
                Ok(Removal::Stays) => {
                    let mut data = GameStateData::default();
                    data.cause_action = Some(ActionKind::LeaveGame);
                    data.cause_player = Some(player_id.clone());
                    data.owner = Some(g.owner.clone());
                    let response = data.with(&g.id);
                    commands.push(Command::SendAll {
                        conn_ids: connected_conns(g),
                        response,
                    });
                    HandleOutcome {
                        commands,
                        save_game: true,
                        save_player: false,
                        game_destroyed: false,
                    }
                },
                Err(_) => {
                    HandleOutcome {
                        commands,
                        save_game: false,
                        save_player: false,
                        game_destroyed: false,
                    }
                },
            }
        },
        None => {
            HandleOutcome { commands, save_game: false, save_player: false, game_destroyed: false }
        },
    }
}

/// Whether handling this action needs the player's stored record to be
/// loaded (or, for a join, created) first.
pub open spec fn spec_needs_player_record(request: WebsocketRequest) -> bool {
    ||| request is JoinGame
    ||| request is TakeCard
    ||| request is PutCard
}

/// Whether handling this action needs the player's stored record.
pub fn needs_player_record(request: &WebsocketRequest) -> (r: bool)
    ensures
        r == spec_needs_player_record(*request),
{
    match request {
        WebsocketRequest::JoinGame => true,
        WebsocketRequest::TakeCard { .. } => true,
        WebsocketRequest::PutCard { .. } => true,
        _ => false,
    }
}

/// What to do for a message whose game no longer exists: tell the stale
/// client the game closed and force its connection shut.
pub fn closed_game_commands(conn_id: &ConnId) -> (cmds: Vec<Command>)
    ensures
        cmds@.len() == 2,
        (cmds@[0] matches Command::Send { conn_id: c, response } && c@ == conn_id@ && response
            is CloseGame),
        (cmds@[1] matches Command::Evict { conn_id: c } && c@ == conn_id@),
        hands_private(cmds@, conn_id@, Seq::empty()),
{
    let mut cmds: Vec<Command> = Vec::new();
    cmds.push(Command::Send { conn_id: conn_id.clone(), response: WebsocketResponse::CloseGame });
    cmds.push(Command::Evict { conn_id: conn_id.clone() });
    cmds
}

/// Interprets one inbound action against the current game, enforcing
/// the protocol's authorization rules, and returns the commands to
/// execute. An `Err` leaves both records exactly as they were, and is
/// turned into an error reply for the acting connection by the caller.
///
/// Authorization: `join-game` fails with `AlreadyInGame` for a player
/// already connected; every other action but `ping` requires a live
/// entry (`NotInGame`); `reset` is for the owner alone (`NoPermission`).
/// Every `player-state` sent carries the acting player's own hand to
/// the acting connection only, except the emptied hands of a reset.
pub fn handle_message(
    game: &mut Game,
    player: &mut Option<Player>,
    request: &WebsocketRequest,
    player_id: &PlayerId,
    conn_id: &ConnId,
) -> (r: Result<HandleOutcome, WebsocketError>)
    requires
        old(game).wf(),
    ensures
        final(game).wf(),
        r is Err ==> *final(game) == *old(game) && *final(player) == *old(player),
        r matches Ok(out) ==> hands_private(out.commands@, conn_id@, opt_hand(*final(player))),
        r matches Ok(out) ==> !out.game_destroyed ==> final(game).id == old(game).id,
        *request is Ping ==> (r matches Ok(out) && {
            &&& *final(game) == *old(game)
            &&& *final(player) == *old(player)
            &&& !out.save_game && !out.save_player && !out.game_destroyed
            &&& out.commands@.len() == 1
            &&& (out.commands@[0] matches Command::Send { conn_id: c, response } && c@ == conn_id@
                && response is Pong)
        }),
        *request is JoinGame ==> {
            &&& old(game).spec_is_connected(player_id@) ==> (r matches Err(WebsocketError::AlreadyInGame))
            &&& !old(game).spec_is_connected(player_id@) && *old(player) is None ==> (r matches Err(WebsocketError::PlayerNotFound))
            &&& !old(game).spec_is_connected(player_id@) ==> (*old(player) matches Some(p) ==> (r
                matches Ok(out) && {
                &&& final(game).connected_players@ == old(game).connected_players@.push(
                    (*player_id, *conn_id),
                )
                &&& final(game).stacks == old(game).stacks
                &&& final(game).owner == old(game).owner
                &&& final(game).authorized_players == old(game).authorized_players
                &&& *final(player) == *old(player)
                &&& out.save_game && !out.save_player && !out.game_destroyed
                &&& out.commands@.len() == 3
                &&& (out.commands@[0] matches Command::Send { conn_id: c, response } && c@
                    == conn_id@ && (response matches WebsocketResponse::GameState {
                    game_id,
                    data,
                } && game_id@ == old(game).id@ && data.cause_action == Some(ActionKind::Ping)
                    && data.cause_player is None && (data.owner matches Some(o) && o@ == final(game).owner@) && (data.players matches Some(ps) && ps@.len() == final(game).connected_players@.len() && forall|i: int|
                    0 <= i < ps@.len() ==> (#[trigger] ps@[i])@ == final(game).connected_players@[i].0@) && (data.stacks matches Some(sts) && sts@.len()
                    == final(game).stacks@.len() && forall|i: int|
                    0 <= i < sts@.len() ==> is_state_of(
                        #[trigger] sts@[i],
                        final(game).stacks@[i],
                    ))))
                &&& is_game_state_broadcast(out.commands@[1], *final(game), ActionKind::JoinGame)
                &&& (broadcast_data(out.commands@[1]).cause_player matches Some(cp) && cp@
                    == player_id@)
                &&& broadcast_data(out.commands@[1]).owner is None
                &&& (broadcast_data(out.commands@[1]).players matches Some(ps) && ps@.len()
                    == final(game).connected_players@.len() && forall|i: int|
                    0 <= i < ps@.len() ==> (#[trigger] ps@[i])@
                        == final(game).connected_players@[i].0@)
                &&& broadcast_data(out.commands@[1]).stacks is None
                &&& (out.commands@[2] matches Command::Send { conn_id: c, response } && c@
                    == conn_id@ && (response matches WebsocketResponse::PlayerState {
                    game_id,
                    hand,
                } && game_id@ == p.game_id@ && hand@ == p.hand@))
            }))
        },
        !(*request is Ping) && !(*request is JoinGame) && !old(game).spec_is_connected(player_id@)
            ==> (r matches Err(WebsocketError::NotInGame)),
        *request is LeaveGame && old(game).spec_is_connected(player_id@) ==> (r matches Ok(out) && {
            let i = old(game).player_idx(player_id@);
            &&& *final(player) == *old(player)
            &&& final(game).connected_players@ == old(game).connected_players@.remove(i)
            &&& final(game).stacks == old(game).stacks
            &&& final(game).authorized_players == old(game).authorized_players
            &&& !out.save_player
            &&& (old(game).connected_players@.len() == 1 ==> {
                &&& out.game_destroyed && !out.save_game
                &&& out.commands@.len() == 4 + final(game).authorized_players@.len()
                &&& (out.commands@[0] matches Command::DeleteGame { game_id } && game_id@ == old(game).id@)
                &&& forall|i2: int|
                    0 <= i2 < final(game).authorized_players@.len() ==> (#[trigger] out.commands@[1
                        + i2] matches Command::DeletePlayer { player_id: pd } && pd@ == final(game).authorized_players@[i2]@)
                &&& (out.commands@[out.commands@.len() - 2] matches Command::Send {
                    conn_id: c,
                    response,
                } && c@ == conn_id@ && response is Success)
                &&& (out.commands@[out.commands@.len() - 1] matches Command::Evict { conn_id: c }
                    && c@ == conn_id@)
            })
            &&& (old(game).connected_players@.len() > 1 ==> {
                &&& !out.game_destroyed && out.save_game
                &&& (old(game).owner@ == player_id@ ==> final(game).owner == final(game).connected_players@[0].0)
                &&& (old(game).owner@ != player_id@ ==> final(game).owner == old(game).owner)
                &&& out.commands@.len() == 3
                &&& is_game_state_broadcast(out.commands@[0], *final(game), ActionKind::LeaveGame)
                &&& (broadcast_data(out.commands@[0]).cause_player matches Some(cp) && cp@
                    == player_id@)
                &&& (broadcast_data(out.commands@[0]).owner matches Some(o) && o@ == final(game).owner@)
                &&& broadcast_data(out.commands@[0]).stacks is None
                &&& (out.commands@[1] matches Command::Send { conn_id: c, response } && c@
                    == conn_id@ && response is Success)
                &&& (out.commands@[2] matches Command::Evict { conn_id: c } && c@ == conn_id@)
            })
        }),
        *request matches WebsocketRequest::TakeCard { stack } ==> old(game).spec_is_connected(
            player_id@,
        ) ==> {
            &&& *old(player) is None ==> (r matches Err(WebsocketError::PlayerNotFound))
            &&& *old(player) is Some ==> {
                &&& !has_stack(old(game).stacks@, stack@) ==> (r matches Err(WebsocketError::StackNotFound))
                &&& has_stack(old(game).stacks@, stack@) && old(game).stacks@[stack_idx(
                    old(game).stacks@,
                    stack@,
                )].cards@.len() == 0 ==> (r matches Err(WebsocketError::EmptyStack))
                &&& has_stack(old(game).stacks@, stack@) && old(game).stacks@[stack_idx(
                    old(game).stacks@,
                    stack@,
                )].cards@.len() > 0 ==> (r matches Ok(out) && {
                    let i = stack_idx(old(game).stacks@, stack@);
                    let src = old(game).stacks@[i];
                    &&& card_popped(old(game).stacks@, final(game).stacks@, stack@)
                    &&& (src.cards@.len() == 1 ==> !has_stack(final(game).stacks@, stack@))
                    &&& final(game).same_roster_as(*old(game))
                    &&& (*final(player) matches Some(p2) && (*old(player) matches Some(p1)
                        && p2.hand@ == p1.hand@.push(src.cards@.last()) && p2.player_id
                        == p1.player_id && p2.game_id == p1.game_id))
                    &&& out.save_game && out.save_player && !out.game_destroyed
                    &&& out.commands@.len() == 2
                    &&& is_game_state_broadcast(
                        out.commands@[0],
                        *final(game),
                        ActionKind::TakeCard,
                    )
                    &&& (broadcast_data(out.commands@[0]).cause_player matches Some(cp) && cp@
                        == player_id@)
                    &&& (broadcast_data(out.commands@[0]).stacks matches Some(sts) && sts@.len()
                        == 1 && sts@[0].stack_id@ == stack@ && sts@[0].remaining_cards
                        == src.cards@.len() - 1 && sts@[0].visible_card == spec_visible_card(
                        src.cards@.drop_last(),
                    ))
                    &&& (out.commands@[1] matches Command::Send { conn_id: c, response } && c@
                        == conn_id@ && (response matches WebsocketResponse::PlayerState {
                        game_id,
                        hand,
                    } && hand@ == opt_hand(*final(player))))
                })
            }
        },
        *request matches WebsocketRequest::PutCard { hand_index, position, face_down } ==> old(game).spec_is_connected(player_id@) ==> {
            &&& *old(player) is None ==> (r matches Err(WebsocketError::PlayerNotFound))
            &&& *old(player) matches Some(p1) ==> {
                &&& hand_index >= p1.hand@.len() ==> (r matches Err(WebsocketError::CardNotFound))
                &&& hand_index < p1.hand@.len() ==> (r matches Ok(out) && {
                    let c = p1.hand@[hand_index as int].spec_with_face_down(face_down);
                    &&& card_placed(old(game).stacks@, final(game).stacks@, c, position)
                    &&& final(game).same_roster_as(*old(game))
                    &&& (*final(player) matches Some(p2) && p2.hand@ == p1.hand@.update(
                        hand_index as int,
                        p1.hand@.last(),
                    ).drop_last() && p2.player_id == p1.player_id && p2.game_id == p1.game_id)
                    &&& out.save_game && out.save_player && !out.game_destroyed
                    &&& out.commands@.len() == 2
                    &&& (out.commands@[0] matches Command::Send { conn_id: cn, response } && cn@
                        == conn_id@ && (response matches WebsocketResponse::PlayerState {
                        game_id,
                        hand,
                    } && hand@ == opt_hand(*final(player))))
                    &&& is_game_state_broadcast(out.commands@[1], *final(game), ActionKind::PutCard)
                    &&& (broadcast_data(out.commands@[1]).cause_player matches Some(cp) && cp@
                        == player_id@)
                    &&& (broadcast_data(out.commands@[1]).stacks matches Some(sts) && sts@.len()
                        == 1 && is_state_of(
                        sts@[0],
                        final(game).stacks@[stack_idx_at(final(game).stacks@, position)],
                    ))
                })
            }
        },
        *request matches WebsocketRequest::FlipCard { stack } ==> old(game).spec_is_connected(
            player_id@,
        ) ==> {
            &&& *final(player) == *old(player)
            &&& !has_stack(old(game).stacks@, stack@) ==> (r matches Err(WebsocketError::StackNotFound))
            &&& has_stack(old(game).stacks@, stack@) && old(game).stacks@[stack_idx(
                old(game).stacks@,
                stack@,
            )].cards@.len() == 0 ==> (r matches Err(WebsocketError::EmptyStack))
            &&& has_stack(old(game).stacks@, stack@) && old(game).stacks@[stack_idx(
                old(game).stacks@,
                stack@,
            )].cards@.len() > 0 ==> (r matches Ok(out) && {
                let i = stack_idx(old(game).stacks@, stack@);
                let src = old(game).stacks@[i];
                &&& final(game).same_roster_as(*old(game))
                &&& final(game).stacks@.len() == old(game).stacks@.len()
                &&& final(game).stacks@[i].cards@ == src.cards@.update(
                    src.cards@.len() - 1,
                    src.cards@.last().spec_flip(),
                )
                &&& forall|k: int|
                    0 <= k < old(game).stacks@.len() && k != i ==> final(game).stacks@[k] == old(game).stacks@[k]
                &&& out.save_game && !out.save_player && !out.game_destroyed
                &&& out.commands@.len() == 1
                &&& is_game_state_broadcast(out.commands@[0], *final(game), ActionKind::FlipCard)
                &&& broadcast_data(out.commands@[0]).cause_player is None
                &&& (broadcast_data(out.commands@[0]).stacks matches Some(sts) && sts@.len() == 1
                    && is_state_of(sts@[0], final(game).stacks@[i]))
            })
        },
        *request matches WebsocketRequest::FlipStack { stack } ==> old(game).spec_is_connected(
            player_id@,
        ) ==> {
            &&& *final(player) == *old(player)
            &&& !has_stack(old(game).stacks@, stack@) ==> (r matches Err(WebsocketError::StackNotFound))
            &&& has_stack(old(game).stacks@, stack@) ==> (r matches Ok(out) && {
                let i = stack_idx(old(game).stacks@, stack@);
                let src = old(game).stacks@[i];
                let n = src.cards@.len() as int;
                &&& final(game).same_roster_as(*old(game))
                &&& final(game).stacks@.len() == old(game).stacks@.len()
                &&& final(game).stacks@[i].cards@.len() == n
                &&& forall|k: int|
                    0 <= k < n ==> final(game).stacks@[i].cards@[k] == src.cards@[n - 1
                        - k].spec_flip()
                &&& forall|k: int|
                    0 <= k < old(game).stacks@.len() && k != i ==> final(game).stacks@[k] == old(game).stacks@[k]
                &&& out.save_game && !out.save_player && !out.game_destroyed
                &&& out.commands@.len() == 1
                &&& is_game_state_broadcast(out.commands@[0], *final(game), ActionKind::FlipStack)
                &&& (broadcast_data(out.commands@[0]).stacks matches Some(sts) && sts@.len() == 1
                    && is_state_of(sts@[0], final(game).stacks@[i]))
            })
        },
        *request matches WebsocketRequest::Shuffle { stack } ==> old(game).spec_is_connected(
            player_id@,
        ) ==> {
            &&& *final(player) == *old(player)
            &&& !has_stack(old(game).stacks@, stack@) ==> (r matches Err(WebsocketError::StackNotFound))
            &&& has_stack(old(game).stacks@, stack@) ==> (r matches Ok(out) && {
                let i = stack_idx(old(game).stacks@, stack@);
                let src = old(game).stacks@[i];
                &&& final(game).same_roster_as(*old(game))
                &&& final(game).stacks@.len() == old(game).stacks@.len()
                &&& final(game).stacks@[i].cards@.to_multiset() == src.cards@.to_multiset()
                &&& final(game).stacks@[i].id == src.id
                &&& final(game).stacks@[i].position == src.position
                &&& forall|k: int|
                    0 <= k < old(game).stacks@.len() && k != i ==> final(game).stacks@[k] == old(game).stacks@[k]
                &&& out.save_game && !out.save_player && !out.game_destroyed
                &&& out.commands@.len() == 1
                &&& is_game_state_broadcast(out.commands@[0], *final(game), ActionKind::Shuffle)
                &&& (broadcast_data(out.commands@[0]).stacks matches Some(sts) && sts@.len() == 1
                    && is_state_of(sts@[0], final(game).stacks@[i]))
            })
        },
        *request matches WebsocketRequest::MoveStack { stack, position } ==> old(game).spec_is_connected(player_id@) ==> {
            &&& *final(player) == *old(player)
            &&& !has_stack(old(game).stacks@, stack@) ==> (r matches Err(WebsocketError::StackNotFound))
            &&& has_stack(old(game).stacks@, stack@) ==> (r matches Ok(out) && {
                let m = stack_idx(old(game).stacks@, stack@);
                let moving = old(game).stacks@[m];
                let rest = old(game).stacks@.remove(m);
                &&& final(game).same_roster_as(*old(game))
                &&& out.save_game && !out.save_player && !out.game_destroyed
                &&& out.commands@.len() == 1
                &&& is_game_state_broadcast(out.commands@[0], *final(game), ActionKind::MoveStack)
                &&& (has_stack_at(rest, position) ==> {
                    let d = stack_idx_at(rest, position);
                    &&& final(game).stacks@.len() == rest.len()
                    &&& final(game).stacks@[d].cards@ == rest[d].cards@ + moving.cards@
                    &&& final(game).stacks@[d].id == rest[d].id
                    &&& !has_stack(final(game).stacks@, stack@)
                    &&& (broadcast_data(out.commands@[0]).stacks matches Some(sts) && sts@.len()
                        == 2 && is_state_of(sts@[0], final(game).stacks@[d]) && sts@[1].stack_id@
                        == stack@ && sts@[1].remaining_cards == 0)
                })
                &&& (!has_stack_at(rest, position) ==> {
                    let n = rest.len() as int;
                    &&& final(game).stacks@.len() == old(game).stacks@.len()
                    &&& final(game).stacks@[n].id == moving.id
                    &&& final(game).stacks@[n].position == position
                    &&& final(game).stacks@[n].cards@ == moving.cards@
                    &&& (broadcast_data(out.commands@[0]).stacks matches Some(sts) && sts@.len()
                        == 1 && is_state_of(sts@[0], final(game).stacks@[n]))
                })
            })
        },
        *request matches WebsocketRequest::MoveCard { stack, position } ==> old(game).spec_is_connected(player_id@) ==> {
            &&& *final(player) == *old(player)
            &&& !has_stack(old(game).stacks@, stack@) ==> (r matches Err(WebsocketError::StackNotFound))
            &&& has_stack(old(game).stacks@, stack@) && old(game).stacks@[stack_idx(
                old(game).stacks@,
                stack@,
            )].cards@.len() == 0 ==> (r matches Err(WebsocketError::EmptyStack))
            &&& has_stack(old(game).stacks@, stack@) && old(game).stacks@[stack_idx(
                old(game).stacks@,
                stack@,
            )].cards@.len() > 0 ==> (r matches Ok(out) && {
                let i = stack_idx(old(game).stacks@, stack@);
                let src = old(game).stacks@[i];
                let c = src.cards@.last();
                &&& final(game).same_roster_as(*old(game))
                &&& exists|mid: Seq<crate::deck::Stack>|
                    #[trigger] card_popped(old(game).stacks@, mid, stack@) && card_placed(
                        mid,
                        final(game).stacks@,
                        c,
                        position,
                    )
                &&& (src.cards@.len() == 1 ==> !has_stack(final(game).stacks@, stack@))
                &&& has_stack_at(final(game).stacks@, position)
                &&& out.save_game && !out.save_player && !out.game_destroyed
                &&& out.commands@.len() == 1
                &&& is_game_state_broadcast(out.commands@[0], *final(game), ActionKind::MoveStack)
                &&& (broadcast_data(out.commands@[0]).stacks matches Some(sts) && sts@.len() == 2
                    && is_state_of(
                    sts@[0],
                    final(game).stacks@[stack_idx_at(final(game).stacks@, position)],
                ) && sts@[1].stack_id@ == stack@ && sts@[1].remaining_cards == src.cards@.len() - 1)
            })
        },
        *request is Reset ==> old(game).spec_is_connected(player_id@) ==> {
            &&& old(game).owner@ != player_id@ ==> (r matches Err(WebsocketError::NoPermission))
            &&& old(game).owner@ == player_id@ ==> (r matches Ok(out) && {
                &&& *final(player) == *old(player)
                &&& crate::deck::built_from(&old(game).deck_type, final(game).stacks@)
                &&& final(game).connected_players == old(game).connected_players
                &&& final(game).authorized_players == old(game).authorized_players
                &&& final(game).owner == old(game).owner
                &&& final(game).deck_type == old(game).deck_type
                &&& out.save_game && !out.save_player && !out.game_destroyed
                &&& out.commands@.len() >= 1
                &&& reset_commands_for(
                    out.commands@.take(out.commands@.len() - 1),
                    old(game).authorized_players@,
                    *old(game),
                )
                &&& is_game_state_broadcast(out.commands@.last(), *final(game), ActionKind::Reset)
                &&& broadcast_data(out.commands@.last()).cause_player is None
                &&& (broadcast_data(out.commands@.last()).stacks matches Some(sts) && sts@.len()
                    == final(game).stacks@.len() && forall|i: int|
                    0 <= i < sts@.len() ==> is_state_of(
                        #[trigger] sts@[i],
                        final(game).stacks@[i],
                    ))
            })
        },
{
    match request {
        WebsocketRequest::Ping => {
            let mut commands: Vec<Command> = Vec::new();
            commands.push(
                Command::Send { conn_id: conn_id.clone(), response: WebsocketResponse::Pong },
            );
            Ok(HandleOutcome { commands, save_game: false, save_player: false, game_destroyed: false })
        },
        WebsocketRequest::JoinGame => {
            if game.is_connected(player_id) {
                return Err(WebsocketError::AlreadyInGame);
            }
            let taken = player.take();
            let p = match taken {
                Some(p) => p,
                None => {
                    return Err(WebsocketError::PlayerNotFound);
                },
            };
            match game.add_player(player_id.clone(), conn_id.clone()) {
                Ok(()) => {},
                Err(_) => {
                    proof {
                        assert(false);
                    }
                    *player = Some(p);
                    return Err(WebsocketError::AlreadyInGame);
                },
            }
            let mut snapshot = GameStateData::default();
            snapshot.cause_action = Some(ActionKind::Ping);
            snapshot.owner = Some(game.owner.clone());
            snapshot.players = Some(connected_ids(game));
            snapshot.stacks = Some(all_stack_states(game));
            let snapshot_msg = snapshot.with(&game.id);
            let mut joined = GameStateData::default();
            joined.cause_action = Some(ActionKind::JoinGame);
            joined.cause_player = Some(player_id.clone());
            joined.players = Some(connected_ids(game));
            let joined_msg = joined.with(&game.id);
            let state_msg = p.state();
            *player = Some(p);
            let mut commands: Vec<Command> = Vec::new();
            commands.push(Command::Send { conn_id: conn_id.clone(), response: snapshot_msg });
            commands.push(
                Command::SendAll { conn_ids: connected_conns(game), response: joined_msg },
            );
            commands.push(Command::Send { conn_id: conn_id.clone(), response: state_msg });
            Ok(HandleOutcome { commands, save_game: true, save_player: false, game_destroyed: false })
        },
        _ => {
            if !game.is_connected(player_id) {
                return Err(WebsocketError::NotInGame);
            }
            match request {
                WebsocketRequest::LeaveGame => {
                    let removal = match game.remove_player(player_id) {
                        Ok(rm) => rm,
                        Err(_) => {
                            proof {
                                assert(false);
                            }
                            return Err(WebsocketError::NotInGame);
                        },
                    };
                    match removal {
                        Removal::GameEmpty => {
                            let mut commands = game.destroy();
                            commands.push(
                                Command::Send {
                                    conn_id: conn_id.clone(),
                                    response: WebsocketResponse::Success,
                                },
                            );
                            commands.push(Command::Evict { conn_id: conn_id.clone() });
                            Ok(HandleOutcome {
                                commands,
                                save_game: false,
                                save_player: false,
                                game_destroyed: true,
                            })
                        },
                        Removal::Stays => {
                            let mut data = GameStateData::default();
                            data.cause_action = Some(ActionKind::LeaveGame);
                            data.cause_player = Some(player_id.clone());
                            data.owner = Some(game.owner.clone());
                            let response = data.with(&game.id);
                            let mut commands: Vec<Command> = Vec::new();
                            commands.push(
                                Command::SendAll { conn_ids: connected_conns(game), response },
                            );
                            commands.push(
                                Command::Send {
                                    conn_id: conn_id.clone(),
                                    response: WebsocketResponse::Success,
                                },
                            );
                            commands.push(Command::Evict { conn_id: conn_id.clone() });
                            Ok(HandleOutcome {
                                commands,
                                save_game: true,
                                save_player: false,
                                game_destroyed: false,
                            })
                        },
                    }
                },
                WebsocketRequest::TakeCard { stack } => {
                    let taken = player.take();
                    let mut p = match taken {
                        Some(p) => p,
                        None => {
                            return Err(WebsocketError::PlayerNotFound);
                        },
                    };
                    let st = match game.take_card(&mut p, stack) {
                        Ok(st) => st,
                        Err(e) => {
                            *player = Some(p);
                            return Err(e);
                        },
                    };
                    let mut data = GameStateData::default();
                    data.cause_action = Some(ActionKind::TakeCard);
                    data.cause_player = Some(player_id.clone());
                    let mut sts: Vec<StackState> = Vec::new();
                    sts.push(st);
                    data.stacks = Some(sts);
                    let response = data.with(&game.id);
                    let state_msg = p.state();
                    *player = Some(p);
                    let mut commands: Vec<Command> = Vec::new();
                    commands.push(
                        Command::SendAll { conn_ids: connected_conns(game), response },
                    );
                    commands.push(
                        Command::Send { conn_id: conn_id.clone(), response: state_msg },
                    );
                    Ok(HandleOutcome {
                        commands,
                        save_game: true,
                        save_player: true,
                        game_destroyed: false,
                    })
                },
                WebsocketRequest::PutCard { hand_index, position, face_down } => {
                    let taken = player.take();
                    let mut p = match taken {
                        Some(p) => p,
                        None => {
                            return Err(WebsocketError::PlayerNotFound);
                        },
                    };
                    let st = match game.put_card(&mut p, *hand_index, *position, *face_down) {
                        Ok(st) => st,
                        Err(e) => {
                            *player = Some(p);
                            return Err(e);
                        },
                    };
                    let state_msg = p.state();
                    *player = Some(p);
                    let mut data = GameStateData::default();
                    data.cause_action = Some(ActionKind::PutCard);
                    data.cause_player = Some(player_id.clone());
                    let mut sts: Vec<StackState> = Vec::new();
                    sts.push(st);
                    data.stacks = Some(sts);
                    let response = data.with(&game.id);
                    let mut commands: Vec<Command> = Vec::new();
                    commands.push(
                        Command::Send { conn_id: conn_id.clone(), response: state_msg },
                    );
                    commands.push(
                        Command::SendAll { conn_ids: connected_conns(game), response },
                    );
                    Ok(HandleOutcome {
                        commands,
                        save_game: true,
                        save_player: true,
                        game_destroyed: false,
                    })
                },
                WebsocketRequest::FlipCard { stack } => {
                    let st = match game.flip_card(stack) {
                        Ok(st) => st,
                        Err(e) => {
                            return Err(e);
                        },
                    };
                    let mut data = GameStateData::default();
                    data.cause_action = Some(ActionKind::FlipCard);
                    let mut sts: Vec<StackState> = Vec::new();
                    sts.push(st);
                    data.stacks = Some(sts);
                    let response = data.with(&game.id);
                    let mut commands: Vec<Command> = Vec::new();
                    commands.push(
                        Command::SendAll { conn_ids: connected_conns(game), response },
                    );
                    Ok(HandleOutcome {
                        commands,
                        save_game: true,
                        save_player: false,
                        game_destroyed: false,
                    })
                },
                WebsocketRequest::FlipStack { stack } => {
                    let st = match game.flip_stack(stack) {
                        Ok(st) => st,
                        Err(e) => {
                            return Err(e);
                        },
                    };
                    let mut data = GameStateData::default();
                    data.cause_action = Some(ActionKind::FlipStack);
                    let mut sts: Vec<StackState> = Vec::new();
                    sts.push(st);
                    data.stacks = Some(sts);
                    let response = data.with(&game.id);
                    let mut commands: Vec<Command> = Vec::new();
                    commands.push(
                        Command::SendAll { conn_ids: connected_conns(game), response },
                    );
                    Ok(HandleOutcome {
                        commands,
                        save_game: true,
                        save_player: false,
                        game_destroyed: false,
                    })
                },
                WebsocketRequest::Shuffle { stack } => {
                    let st = match game.shuffle_stack(stack) {
                        Ok(st) => st,
                        Err(e) => {
                            return Err(e);
                        },
                    };
                    let mut data = GameStateData::default();
                    data.cause_action = Some(ActionKind::Shuffle);
                    let mut sts: Vec<StackState> = Vec::new();
                    sts.push(st);
                    data.stacks = Some(sts);
                    let response = data.with(&game.id);
                    let mut commands: Vec<Command> = Vec::new();
                    commands.push(
                        Command::SendAll { conn_ids: connected_conns(game), response },
                    );
                    Ok(HandleOutcome {
                        commands,
                        save_game: true,
                        save_player: false,
                        game_destroyed: false,
                    })
                },
                WebsocketRequest::MoveStack { stack, position } => {
                    let pair = match game.move_stack(stack, *position) {
                        Ok(p) => p,
                        Err(e) => {
                            return Err(e);
                        },
                    };
                    let (dest_state, src_opt) = pair;
                    let mut sts: Vec<StackState> = Vec::new();
                    sts.push(dest_state);
                    match src_opt {
                        Some(src_state) => {
                            sts.push(src_state);
                        },
                        None => {},
                    }
                    let mut data = GameStateData::default();
                    data.cause_action = Some(ActionKind::MoveStack);
                    data.stacks = Some(sts);
                    let response = data.with(&game.id);
                    let mut commands: Vec<Command> = Vec::new();
                    commands.push(
                        Command::SendAll { conn_ids: connected_conns(game), response },
                    );
                    Ok(HandleOutcome {
                        commands,
                        save_game: true,
                        save_player: false,
                        game_destroyed: false,
                    })
                },
                WebsocketRequest::MoveCard { stack, position } => {
                    let pair = match game.move_card(stack, *position) {
                        Ok(p) => p,
                        Err(e) => {
                            return Err(e);
                        },
                    };
                    let (dest_state, src_state) = pair;
                    let mut sts: Vec<StackState> = Vec::new();
                    sts.push(dest_state);
                    sts.push(src_state);
                    let mut data = GameStateData::default();
                    data.cause_action = Some(ActionKind::MoveStack);
                    data.stacks = Some(sts);
                    let response = data.with(&game.id);
                    let mut commands: Vec<Command> = Vec::new();
                    commands.push(
                        Command::SendAll { conn_ids: connected_conns(game), response },
                    );
                    Ok(HandleOutcome {
                        commands,
                        save_game: true,
                        save_player: false,
                        game_destroyed: false,
                    })
                },
                WebsocketRequest::Reset => {
                    if !(game.owner == *player_id) {
                        return Err(WebsocketError::NoPermission);
                    }
                    let mut commands = reset_player_commands(game, 0);
                    let ghost player_cmds = commands@;
                    game.reset();
                    let mut data = GameStateData::default();
                    data.cause_action = Some(ActionKind::Reset);
                    data.stacks = Some(all_stack_states(game));
                    let response = data.with(&game.id);
                    commands.push(
                        Command::SendAll { conn_ids: connected_conns(game), response },
                    );
                    proof {
                        assert(commands@.take(commands@.len() - 1) =~= player_cmds);
                        assert(old(game).authorized_players@.skip(0) =~= old(game).authorized_players@);
                        lemma_reset_commands_private(
                            player_cmds,
                            old(game).authorized_players@,
                            *old(game),
                            conn_id@,
                            opt_hand(*player),
                        );
                        assert forall|k: int| 0 <= k < commands@.len() implies hand_private_in(
                            #[trigger] commands@[k],
                            conn_id@,
                            opt_hand(*player),
                        ) by {
                            if k < commands@.len() - 1 {
                                assert(commands@[k] == player_cmds[k]);
                            }
                        }
                    }
                    Ok(HandleOutcome {
                        commands,
                        save_game: true,
                        save_player: false,
                        game_destroyed: false,
                    })
                },
                WebsocketRequest::Ping | WebsocketRequest::JoinGame => {
                    proof {
                        assert(false);
                    }
                    Err(WebsocketError::NotInGame)
                },
            }
        },
    }
}

} // verus!
