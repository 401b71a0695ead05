//! The game engine: the shared document one game is, and the mutation
//! logic over it. Every operation here is a pure state transition on the
//! in-memory record; persistence and delivery of the results are the
//! session layer's commands, executed outside.
//!
//! Invariants kept by every operation (`wf`): no two stacks share an
//! identifier, no two stacks share a board position, and no player has
//! more than one live connection entry.

use vstd::prelude::*;
use crate::WebsocketError;
use crate::GameId;
use crate::card::Card;
use crate::deck::{
    Position, Stack, StackId, StackState, built_from, spec_deck_ok, spec_visible_card,
    lemma_grid_position_injective,
};
use crate::external::{new_uuid_string, shuffle_cards};
use crate::player::{Player, PlayerId};
use crate::requests::DeckType;

verus! {

/// Identifier of one live connection on the push channel.
pub type ConnId = String;

/// The shared record of one game.
#[derive(Debug)]
pub struct Game {
    pub id: GameId,
    pub created_at: u64,
    /// The connected player allowed to perform game-wide actions;
    /// reassigned deterministically when they disconnect.
    pub owner: PlayerId,
    /// Every player ever authorized to join; grows monotonically and
    /// names whose records to delete on teardown.
    pub authorized_players: Vec<PlayerId>,
    /// The configuration the stacks are rebuilt from on reset.
    pub deck_type: DeckType,
    /// Player identity to live connection id; at most one entry per
    /// player, in join order (earliest first).
    pub connected_players: Vec<(PlayerId, ConnId)>,
    pub stacks: Vec<Stack>,
}

/// What a removal of a connected player leaves behind.
#[derive(Copy, Clone, Debug, PartialEq, Eq, Structural)]
pub enum Removal {
    /// The connected set became empty: the game must be destroyed.
    GameEmpty,
    /// Other players remain connected; the game record stays.
    Stays,
}

pub open spec fn has_stack(stacks: Seq<Stack>, sid: Seq<char>) -> bool {
    exists|i: int| 0 <= i < stacks.len() && (#[trigger] stacks[i]).id@ == sid
}

pub open spec fn stack_idx(stacks: Seq<Stack>, sid: Seq<char>) -> int {
    choose|i: int| 0 <= i < stacks.len() && (#[trigger] stacks[i]).id@ == sid
}

pub open spec fn has_stack_at(stacks: Seq<Stack>, pos: Position) -> bool {
    exists|i: int| 0 <= i < stacks.len() && (#[trigger] stacks[i]).position == pos
}

pub open spec fn stack_idx_at(stacks: Seq<Stack>, pos: Position) -> int {
    choose|i: int| 0 <= i < stacks.len() && (#[trigger] stacks[i]).position == pos
}

/// No two stacks carry the same identifier.
pub open spec fn distinct_stack_ids(stacks: Seq<Stack>) -> bool {
    forall|i: int, j: int|
        0 <= i < j < stacks.len() ==> (#[trigger] stacks[i]).id@ != (#[trigger] stacks[j]).id@
}

/// No two stacks occupy the same board position.
pub open spec fn distinct_stack_positions(stacks: Seq<Stack>) -> bool {
    forall|i: int, j: int|
        0 <= i < j < stacks.len() ==> (#[trigger] stacks[i]).position
            != (#[trigger] stacks[j]).position
}

/// No player identity appears twice in the connected list.
pub open spec fn distinct_player_ids(players: Seq<(PlayerId, ConnId)>) -> bool {
    forall|i: int, j: int|
        0 <= i < j < players.len() ==> (#[trigger] players[i]).0@ != (#[trigger] players[j]).0@
}

/// `st` is exactly the client-visible state of the stack `s`.
pub open spec fn is_state_of(st: StackState, s: Stack) -> bool {
    &&& st.stack_id@ == s.id@
    &&& st.position == s.position
    &&& st.remaining_cards == s.cards@.len()
    &&& st.visible_card == spec_visible_card(s.cards@)
}

/// `stacks2` is `stacks1` with the top card taken off the stack `sid`:
/// the stack loses its last card, and disappears entirely when that was
/// its only card.
pub open spec fn card_popped(stacks1: Seq<Stack>, stacks2: Seq<Stack>, sid: Seq<char>) -> bool {
    let i = stack_idx(stacks1, sid);
    let src = stacks1[i];
    if src.cards@.len() == 1 {
        stacks2 == stacks1.remove(i)
    } else {
        &&& stacks2.len() == stacks1.len()
        &&& forall|k: int| 0 <= k < stacks1.len() && k != i ==> stacks2[k] == stacks1[k]
        &&& stacks2[i].id == src.id
        &&& stacks2[i].position == src.position
        &&& stacks2[i].cards@ == src.cards@.drop_last()
    }
}

/// `stacks2` is `stacks1` with the card `c` laid on top of the position
/// `pos`: onto the occupying stack when one exists, else onto a new
/// one-card stack under an identifier no stack of `stacks1` carries.
pub open spec fn card_placed(stacks1: Seq<Stack>, stacks2: Seq<Stack>, c: Card, pos: Position) -> bool {
    if has_stack_at(stacks1, pos) {
        let d = stack_idx_at(stacks1, pos);
        &&& stacks2.len() == stacks1.len()
        &&& forall|k: int| 0 <= k < stacks1.len() && k != d ==> stacks2[k] == stacks1[k]
        &&& stacks2[d].id == stacks1[d].id
        &&& stacks2[d].position == pos
        &&& stacks2[d].cards@ == stacks1[d].cards@.push(c)
    } else {
        &&& stacks2.len() == stacks1.len() + 1
        &&& forall|k: int| 0 <= k < stacks1.len() ==> stacks2[k] == stacks1[k]
        &&& stacks2[stacks1.len() as int].position == pos
        &&& stacks2[stacks1.len() as int].cards@ == seq![c]
        &&& !has_stack(stacks1, stacks2[stacks1.len() as int].id@)
    }
}

/// Under distinct identifiers, `stack_idx` names exactly the index any
/// search found.
pub proof fn lemma_stack_idx_unique(stacks: Seq<Stack>, sid: Seq<char>, i: int)
    requires
        distinct_stack_ids(stacks),
        0 <= i < stacks.len(),
        stacks[i].id@ == sid,
    ensures
        has_stack(stacks, sid),
        stack_idx(stacks, sid) == i,
{
    assert(has_stack(stacks, sid));
    let j = stack_idx(stacks, sid);
    if i < j {
        assert(stacks[i].id@ != stacks[j].id@);
    } else if j < i {
        assert(stacks[j].id@ != stacks[i].id@);
    }
}

/// Under distinct positions, `stack_idx_at` names exactly the index any
/// search found.
pub proof fn lemma_stack_idx_at_unique(stacks: Seq<Stack>, pos: Position, i: int)
    requires
        distinct_stack_positions(stacks),
        0 <= i < stacks.len(),
        stacks[i].position == pos,
    ensures
        has_stack_at(stacks, pos),
        stack_idx_at(stacks, pos) == i,
{
    assert(has_stack_at(stacks, pos));
    let j = stack_idx_at(stacks, pos);
    if i < j {
        assert(stacks[i].position != stacks[j].position);
    } else if j < i {
        assert(stacks[j].position != stacks[i].position);
    }
}

/// Removing one stack keeps identifiers and positions distinct.
pub proof fn lemma_distinct_remove(stacks: Seq<Stack>, i: int)
    requires
        distinct_stack_ids(stacks),
        distinct_stack_positions(stacks),
        0 <= i < stacks.len(),
    ensures
        distinct_stack_ids(stacks.remove(i)),
        distinct_stack_positions(stacks.remove(i)),
{
    let r = stacks.remove(i);
    assert forall|a: int, b: int| 0 <= a < b < r.len() implies (#[trigger] r[a]).id@
        != (#[trigger] r[b]).id@ && r[a].position != r[b].position by {
        let a0 = if a < i { a } else { a + 1 };
        let b0 = if b < i { b } else { b + 1 };
        assert(r[a] == stacks[a0]);
        assert(r[b] == stacks[b0]);
        assert(stacks[a0].id@ != stacks[b0].id@);
        assert(stacks[a0].position != stacks[b0].position);
    }
}

impl Game {
    pub open spec fn spec_is_connected(self, pid: Seq<char>) -> bool {
        exists|i: int|
            0 <= i < self.connected_players@.len() && (#[trigger] self.connected_players@[i]).0@
                == pid
    }

    pub open spec fn player_idx(self, pid: Seq<char>) -> int {
        choose|i: int|
            0 <= i < self.connected_players@.len() && (#[trigger] self.connected_players@[i]).0@
                == pid
    }

    /// The well-formedness every operation preserves.
    pub open spec fn wf(self) -> bool {
        &&& distinct_stack_ids(self.stacks@)
        &&& distinct_stack_positions(self.stacks@)
        &&& distinct_player_ids(self.connected_players@)
        &&& spec_deck_ok(&self.deck_type)
    }

    /// The fields no stack operation touches.
    pub open spec fn same_roster_as(self, other: Game) -> bool {
        &&& self.id == other.id
        &&& self.created_at == other.created_at
        &&& self.owner == other.owner
        &&& self.authorized_players == other.authorized_players
        &&& self.deck_type == other.deck_type
        &&& self.connected_players == other.connected_players
    }
}

/// A freshly built deck is well formed: the builder hands out distinct
/// identifiers, and the grid gives distinct positions.
pub proof fn lemma_built_from_wf(dt: &DeckType, stacks: Seq<Stack>)
    requires
        spec_deck_ok(dt),
        built_from(dt, stacks),
    ensures
        distinct_stack_ids(stacks),
        distinct_stack_positions(stacks),
{
    assert forall|i: int, j: int| 0 <= i < j < stacks.len() implies (#[trigger] stacks[i]).position
        != (#[trigger] stacks[j]).position by {
        lemma_grid_position_injective(i, j);
    }
}

fn find_stack(stacks: &Vec<Stack>, stack_id: &StackId) -> (r: Option<usize>)
    ensures
        r matches Some(i) ==> i < stacks@.len() && stacks@[i as int].id@ == stack_id@,
        r is None ==> !has_stack(stacks@, stack_id@),
{
    let mut k: usize = 0;
    while k < stacks.len()
        invariant
            k <= stacks.len(),
            forall|m: int| 0 <= m < k ==> (#[trigger] stacks@[m]).id@ != stack_id@,
        decreases stacks.len() - k,
    {
        if stacks[k].id == *stack_id {
            return Some(k);
        }
        k = k + 1;
    }
    None
}

fn find_stack_at(stacks: &Vec<Stack>, position: Position) -> (r: Option<usize>)
    ensures
        r matches Some(i) ==> i < stacks@.len() && stacks@[i as int].position == position,
        r is None ==> !has_stack_at(stacks@, position),
{
    let mut k: usize = 0;
    while k < stacks.len()
        invariant
            k <= stacks.len(),
            forall|m: int| 0 <= m < k ==> (#[trigger] stacks@[m]).position != position,
        decreases stacks.len() - k,
    {
        if stacks[k].position.0 == position.0 && stacks[k].position.1 == position.1 {
            return Some(k);
        }
        k = k + 1;
    }
    None
}

pub(crate) fn find_connected(players: &Vec<(PlayerId, ConnId)>, player_id: &PlayerId) -> (r: Option<usize>)
    ensures
        r matches Some(i) ==> i < players@.len() && players@[i as int].0@ == player_id@,
        r is None ==> !exists|i: int|
            0 <= i < players@.len() && (#[trigger] players@[i]).0@ == player_id@,
{
    let mut k: usize = 0;
    while k < players.len()
        invariant
            k <= players.len(),
            forall|m: int| 0 <= m < k ==> (#[trigger] players@[m]).0@ != player_id@,
        decreases players.len() - k,
    {
        if players[k].0 == *player_id {
            return Some(k);
        }
        k = k + 1;
    }
    None
}

fn distinct_stacks_check(stacks: &Vec<Stack>) -> (r: bool)
    ensures
        r == (distinct_stack_ids(stacks@) && distinct_stack_positions(stacks@)),
{
    let mut i: usize = 0;
    while i < stacks.len()
        invariant
            i <= stacks@.len(),
            forall|a: int, b: int|
                0 <= a < b < stacks@.len() && a < i ==> (#[trigger] stacks@[a]).id@
                    != (#[trigger] stacks@[b]).id@ && stacks@[a].position != stacks@[b].position,
        decreases stacks@.len() - i,
    {
        let mut j: usize = i + 1;
        while j < stacks.len()
            invariant
                i < stacks@.len(),
                i + 1 <= j <= stacks@.len(),
                forall|b: int|
                    i < b < j ==> (#[trigger] stacks@[b]).id@ != stacks@[i as int].id@
                        && stacks@[b].position != stacks@[i as int].position,
            decreases stacks@.len() - j,
        {
            if stacks[i].id == stacks[j].id {
                return false;
            }
            if stacks[i].position.0 == stacks[j].position.0 && stacks[i].position.1
                == stacks[j].position.1 {
                return false;
            }
            j = j + 1;
        }
        i = i + 1;
    }
    true
}

fn distinct_players_check(players: &Vec<(PlayerId, ConnId)>) -> (r: bool)
    ensures
        r == distinct_player_ids(players@),
{
    let mut i: usize = 0;
    while i < players.len()
        invariant
            i <= players@.len(),
            forall|a: int, b: int|
                0 <= a < b < players@.len() && a < i ==> (#[trigger] players@[a]).0@
                    != (#[trigger] players@[b]).0@,
        decreases players@.len() - i,
    {
        let mut j: usize = i + 1;
        while j < players.len()
            invariant
                i < players@.len(),
                i + 1 <= j <= players@.len(),
                forall|b: int| i < b < j ==> (#[trigger] players@[b]).0@ != players@[i as int].0@,
            decreases players@.len() - j,
        {
            if players[i].0 == players[j].0 {
                return false;
            }
            j = j + 1;
        }
        i = i + 1;
    }
    true
}

impl Game {
    /// Whether this record is well formed. A record loaded from the
    /// store is checked with this before any operation relies on `wf`.
    pub fn check_wf(&self) -> (r: bool)
        ensures
            r == self.wf(),
    {
        distinct_stacks_check(&self.stacks) && distinct_players_check(&self.connected_players)
            && crate::deck::deck_ok(&self.deck_type)
    }
}

impl Game {
    /// A new game for `owner`, with the stacks the configuration builds
    /// and nobody connected yet. The creation timestamp is the caller's;
    /// the identifier is freshly drawn.
    pub fn new(owner: PlayerId, deck_type: DeckType, created_at: u64) -> (g: Game)
        requires
            spec_deck_ok(&deck_type),
        ensures
            g.wf(),
            g.owner == owner,
            g.created_at == created_at,
            g.authorized_players@.len() == 1 && g.authorized_players@[0] == owner,
            g.connected_players@.len() == 0,
            g.deck_type == deck_type,
            built_from(&g.deck_type, g.stacks@),
    {
        let stacks = Stack::from(&deck_type);
        proof {
            lemma_built_from_wf(&deck_type, stacks@);
        }
        let id = new_uuid_string();
        let mut authorized_players: Vec<PlayerId> = Vec::new();
        authorized_players.push(owner.clone());
        Game {
            id,
            created_at,
            owner,
            authorized_players,
            deck_type,
            connected_players: Vec::new(),
            stacks,
        }
    }

    /// Whether this player currently holds a live connection entry.
    pub fn is_connected(&self, player_id: &PlayerId) -> (r: bool)
        ensures
            r == self.spec_is_connected(player_id@),
    {
        find_connected(&self.connected_players, player_id).is_some()
    }

    /// Records a live connection for `player_id`. Fails with
    /// `AlreadyInGame`, changing nothing, when the player already has one.
    pub fn add_player(&mut self, player_id: PlayerId, conn_id: ConnId) -> (r: Result<
        (),
        WebsocketError,
    >)
        requires
            old(self).wf(),
        ensures
            final(self).wf(),
            old(self).spec_is_connected(player_id@) ==> {
                &&& r matches Err(WebsocketError::AlreadyInGame)
                &&& *final(self) == *old(self)
            },
            !old(self).spec_is_connected(player_id@) ==> {
                &&& r matches Ok(())
                &&& final(self).connected_players@
                    == old(self).connected_players@.push((player_id, conn_id))
                &&& final(self).id == old(self).id
                &&& final(self).created_at == old(self).created_at
                &&& final(self).owner == old(self).owner
                &&& final(self).authorized_players == old(self).authorized_players
                &&& final(self).deck_type == old(self).deck_type
                &&& final(self).stacks == old(self).stacks
            },
    {
        if self.is_connected(&player_id) {
            return Err(WebsocketError::AlreadyInGame);
        }
        self.connected_players.push((player_id, conn_id));
        proof {
            let ps = self.connected_players@;
            assert forall|i: int, j: int| 0 <= i < j < ps.len() implies (#[trigger] ps[i]).0@
                != (#[trigger] ps[j]).0@ by {
                if j == ps.len() - 1 {
                    assert(old(self).spec_is_connected(ps[j].0@) == false);
                    assert(old(self).connected_players@[i] == ps[i]);
                }
            }
        }
        Ok(())
    }

    /// Authorizes one more player to join; nothing else changes.
    pub fn add_authorized_player(&mut self, player_id: PlayerId)
        requires
            old(self).wf(),
        ensures
            final(self).wf(),
            final(self).authorized_players@ == old(self).authorized_players@.push(player_id),
            final(self).id == old(self).id,
            final(self).created_at == old(self).created_at,
            final(self).owner == old(self).owner,
            final(self).deck_type == old(self).deck_type,
            final(self).connected_players == old(self).connected_players,
            final(self).stacks == old(self).stacks,
    {
        self.authorized_players.push(player_id);
    }

    /// Drops the live connection entry of `player_id` (the player record
    /// itself survives for a reconnect). Fails with `NotInGame` when no
    /// entry exists. When the last entry goes, reports `GameEmpty` so the
    /// caller destroys the game; otherwise, if the leaver owned the game,
    /// ownership passes deterministically to the earliest-joined player
    /// still connected.
    pub fn remove_player(&mut self, player_id: &PlayerId) -> (r: Result<Removal, WebsocketError>)
        requires
            old(self).wf(),
        ensures
            final(self).wf(),
            !old(self).spec_is_connected(player_id@) ==> {
                &&& r matches Err(WebsocketError::NotInGame)
                &&& *final(self) == *old(self)
            },
            old(self).spec_is_connected(player_id@) ==> {
                let i = old(self).player_idx(player_id@);
                &&& final(self).connected_players@ == old(self).connected_players@.remove(i)
                &&& (r matches Ok(Removal::GameEmpty) <==> old(self).connected_players@.len() == 1)
                &&& (old(self).connected_players@.len() > 1 ==> r matches Ok(Removal::Stays))
                &&& (old(self).connected_players@.len() == 1 ==> final(self).owner == old(
                    self,
                ).owner)
                &&& (old(self).owner@ == player_id@ && old(self).connected_players@.len() > 1
                    ==> final(self).owner == final(self).connected_players@[0].0)
                &&& (old(self).owner@ != player_id@ ==> final(self).owner == old(self).owner)
                &&& final(self).id == old(self).id
                &&& final(self).created_at == old(self).created_at
                &&& final(self).authorized_players == old(self).authorized_players
                &&& final(self).deck_type == old(self).deck_type
                &&& final(self).stacks == old(self).stacks
            },
    {
        let found = find_connected(&self.connected_players, player_id);
        let i = match found {
            Some(i) => i,
            None => {
                return Err(WebsocketError::NotInGame);
            },
        };
        proof {
            lemma_player_idx_unique(*self, player_id@, i as int);
            lemma_distinct_players_remove(self.connected_players@, i as int);
        }
        self.connected_players.remove(i);
        if self.connected_players.len() == 0 {
            return Ok(Removal::GameEmpty);
        }
        if self.owner == *player_id {
            self.owner = self.connected_players[0].0.clone();
        }
        Ok(Removal::Stays)
    }
}

impl Game {
    /// The index of the stack carrying this identifier, or `StackNotFound`.
    pub fn get_stack(&self, stack_id: &StackId) -> (r: Result<usize, WebsocketError>)
        requires
            self.wf(),
        ensures
            r matches Ok(i) ==> {
                &&& has_stack(self.stacks@, stack_id@)
                &&& i == stack_idx(self.stacks@, stack_id@)
                &&& i < self.stacks@.len()
                &&& self.stacks@[i as int].id@ == stack_id@
            },
            r matches Err(e) ==> e is StackNotFound && !has_stack(self.stacks@, stack_id@),
            r is Ok <==> has_stack(self.stacks@, stack_id@),
    {
        match find_stack(&self.stacks, stack_id) {
            Some(i) => {
                proof {
                    lemma_stack_idx_unique(self.stacks@, stack_id@, i as int);
                }
                Ok(i)
            },
            None => Err(WebsocketError::StackNotFound),
        }
    }

    /// Takes the top card off the stack `stack_id` and reports the
    /// stack's remaining state. A stack whose last card was taken is
    /// deleted from the game on the spot.
    pub fn pop_from_stack(&mut self, stack_id: &StackId) -> (r: Result<
        (Card, StackState),
        WebsocketError,
    >)
        requires
            old(self).wf(),
        ensures
            final(self).wf(),
            final(self).same_roster_as(*old(self)),
            !has_stack(old(self).stacks@, stack_id@) ==> {
                &&& r matches Err(WebsocketError::StackNotFound)
                &&& *final(self) == *old(self)
            },
            has_stack(old(self).stacks@, stack_id@) && old(self).stacks@[stack_idx(
                old(self).stacks@,
                stack_id@,
            )].cards@.len() == 0 ==> {
                &&& r matches Err(WebsocketError::EmptyStack)
                &&& *final(self) == *old(self)
            },
            has_stack(old(self).stacks@, stack_id@) && old(self).stacks@[stack_idx(
                old(self).stacks@,
                stack_id@,
            )].cards@.len() > 0 ==> (r matches Ok(p) && {
                let i = stack_idx(old(self).stacks@, stack_id@);
                let src = old(self).stacks@[i];
                &&& p.0 == src.cards@.last()
                &&& p.1.stack_id@ == stack_id@
                &&& p.1.position == src.position
                &&& p.1.remaining_cards == src.cards@.len() - 1
                &&& p.1.visible_card == spec_visible_card(src.cards@.drop_last())
                &&& card_popped(old(self).stacks@, final(self).stacks@, stack_id@)
                &&& (src.cards@.len() == 1 ==> !has_stack(final(self).stacks@, stack_id@))
            }),
    {
        let i = match find_stack(&self.stacks, stack_id) {
            Some(i) => i,
            None => {
                return Err(WebsocketError::StackNotFound);
            },
        };
        proof {
            lemma_stack_idx_unique(self.stacks@, stack_id@, i as int);
        }
        if self.stacks[i].cards.len() == 0 {
            return Err(WebsocketError::EmptyStack);
        }
        let mut st = self.stacks.remove(i);
        let card = match st.cards.pop() {
            Some(c) => c,
            None => {
                proof {
                    assert(false);
                }
                return Err(WebsocketError::EmptyStack);
            },
        };
        let state = st.state();
        proof {
            lemma_distinct_remove(old(self).stacks@, i as int);
        }
        if st.cards.len() > 0 {
            self.stacks.insert(i, st);
            proof {
                let o = old(self).stacks@;
                let f = self.stacks@;
                o.remove_ensures(i as int);
                o.remove(i as int).insert_ensures(i as int, f[i as int]);
                assert forall|k: int| 0 <= k < o.len() && k != i implies f[k] == o[k] by {
                    if k < i {
                        assert(f[k] == o.remove(i as int)[k]);
                    } else {
                        assert(f[k] == o.remove(i as int)[k - 1]);
                    }
                }
                assert forall|a: int, b: int| 0 <= a < b < f.len() implies (#[trigger] f[a]).id@
                    != (#[trigger] f[b]).id@ && f[a].position != f[b].position by {
                    assert(f[a].id@ == o[a].id@ && f[a].position == o[a].position);
                    assert(f[b].id@ == o[b].id@ && f[b].position == o[b].position);
                }
            }
        } else {
            proof {
                let o = old(self).stacks@;
                let f = self.stacks@;
                assert forall|k: int| 0 <= k < f.len() implies (#[trigger] f[k]).id@ != stack_id@ by {
                    let k0 = if k < i { k } else { k + 1 };
                    assert(f[k] == o[k0]);
                    if k0 < i {
                        assert(o[k0].id@ != o[i as int].id@);
                    } else {
                        assert(o[i as int].id@ != o[k0].id@);
                    }
                }
            }
        }
        Ok((card, state))
    }

    /// The index of the stack at `position`; when none exists and
    /// `create_if_none` holds, a new empty stack is created there under a
    /// fresh identifier and its index returned.
    pub fn stack_at_position(&mut self, position: Position, create_if_none: bool) -> (r: Option<
        usize,
    >)
        requires
            old(self).wf(),
        ensures
            final(self).wf(),
            final(self).same_roster_as(*old(self)),
            has_stack_at(old(self).stacks@, position) ==> {
                &&& (r matches Some(i) && i == stack_idx_at(old(self).stacks@, position))
                &&& *final(self) == *old(self)
            },
            !has_stack_at(old(self).stacks@, position) && !create_if_none ==> {
                &&& r is None
                &&& *final(self) == *old(self)
            },
            !has_stack_at(old(self).stacks@, position) && create_if_none ==> {
                let n = old(self).stacks@.len() as int;
                &&& (r matches Some(i) && i == n)
                &&& final(self).stacks@.len() == n + 1
                &&& forall|k: int| 0 <= k < n ==> final(self).stacks@[k] == old(self).stacks@[k]
                &&& final(self).stacks@[n].position == position
                &&& final(self).stacks@[n].cards@ == Seq::<Card>::empty()
                &&& !has_stack(old(self).stacks@, final(self).stacks@[n].id@)
            },
    {
        self.stack_at_position_avoiding(position, create_if_none, None)
    }

    /// As `stack_at_position`, but any identifier created is additionally
    /// guaranteed to differ from `avoid`.
    fn stack_at_position_avoiding(
        &mut self,
        position: Position,
        create_if_none: bool,
        avoid: Option<&StackId>,
    ) -> (r: Option<usize>)
        requires
            old(self).wf(),
        ensures
            final(self).wf(),
            final(self).same_roster_as(*old(self)),
            has_stack_at(old(self).stacks@, position) ==> {
                &&& (r matches Some(i) && i == stack_idx_at(old(self).stacks@, position))
                &&& *final(self) == *old(self)
            },
            !has_stack_at(old(self).stacks@, position) && !create_if_none ==> {
                &&& r is None
                &&& *final(self) == *old(self)
            },
            !has_stack_at(old(self).stacks@, position) && create_if_none ==> {
                let n = old(self).stacks@.len() as int;
                &&& (r matches Some(i) && i == n)
                &&& final(self).stacks@.len() == n + 1
                &&& forall|k: int| 0 <= k < n ==> final(self).stacks@[k] == old(self).stacks@[k]
                &&& final(self).stacks@[n].position == position
                &&& final(self).stacks@[n].cards@ == Seq::<Card>::empty()
                &&& !has_stack(old(self).stacks@, final(self).stacks@[n].id@)
                &&& (avoid matches Some(a) ==> final(self).stacks@[n].id@ != a@)
            },
    {
        match find_stack_at(&self.stacks, position) {
            Some(i) => {
                proof {
                    lemma_stack_idx_at_unique(self.stacks@, position, i as int);
                }
                Some(i)
            },
            None => {
                if !create_if_none {
                    return None;
                }
                let id = crate::deck::fresh_stack_id(&self.stacks, avoid);
                let n = self.stacks.len();
                self.stacks.push(Stack { id, cards: Vec::new(), position });
                proof {
                    let f = self.stacks@;
                    let o = old(self).stacks@;
                    assert forall|a: int, b: int| 0 <= a < b < f.len() implies (#[trigger] f[a]).id@
                        != (#[trigger] f[b]).id@ && f[a].position != f[b].position by {
                        if b < o.len() {
                            assert(f[a] == o[a] && f[b] == o[b]);
                        } else {
                            assert(f[a] == o[a]);
                            assert(!has_stack_at(o, position));
                        }
                    }
                }
                Some(n)
            },
        }
    }
}

impl Game {
    /// Toggles the face-down bit of the top card of `stack_id` only.
    pub fn flip_card(&mut self, stack_id: &StackId) -> (r: Result<StackState, WebsocketError>)
        requires
            old(self).wf(),
        ensures
            final(self).wf(),
            final(self).same_roster_as(*old(self)),
            !has_stack(old(self).stacks@, stack_id@) ==> {
                &&& r matches Err(WebsocketError::StackNotFound)
                &&& *final(self) == *old(self)
            },
            has_stack(old(self).stacks@, stack_id@) && old(self).stacks@[stack_idx(
                old(self).stacks@,
                stack_id@,
            )].cards@.len() == 0 ==> {
                &&& r matches Err(WebsocketError::EmptyStack)
                &&& *final(self) == *old(self)
            },
            has_stack(old(self).stacks@, stack_id@) && old(self).stacks@[stack_idx(
                old(self).stacks@,
                stack_id@,
            )].cards@.len() > 0 ==> (r matches Ok(st) && {
                let i = stack_idx(old(self).stacks@, stack_id@);
                let src = old(self).stacks@[i];
                let n = src.cards@.len() as int;
                &&& final(self).stacks@.len() == old(self).stacks@.len()
                &&& forall|k: int|
                    0 <= k < old(self).stacks@.len() && k != i ==> final(self).stacks@[k] == old(
                        self,
                    ).stacks@[k]
                &&& final(self).stacks@[i].id == src.id
                &&& final(self).stacks@[i].position == src.position
                &&& final(self).stacks@[i].cards@ == src.cards@.update(
                    n - 1,
                    src.cards@.last().spec_flip(),
                )
                &&& is_state_of(st, final(self).stacks@[i])
            }),
    {
        let i = match find_stack(&self.stacks, stack_id) {
            Some(i) => i,
            None => {
                return Err(WebsocketError::StackNotFound);
            },
        };
        proof {
            lemma_stack_idx_unique(self.stacks@, stack_id@, i as int);
        }
        if self.stacks[i].cards.len() == 0 {
            return Err(WebsocketError::EmptyStack);
        }
        let mut st = self.stacks.remove(i);
        match st.cards.pop() {
            Some(mut c) => {
                c.flip();
                st.cards.push(c);
            },
            None => {
                proof {
                    assert(false);
                }
                return Err(WebsocketError::EmptyStack);
            },
        };
        let state = st.state();
        self.stacks.insert(i, st);
        proof {
            let o = old(self).stacks@;
            let f = self.stacks@;
            let src = o[i as int];
            o.remove_ensures(i as int);
            o.remove(i as int).insert_ensures(i as int, f[i as int]);
            assert forall|k: int| 0 <= k < o.len() && k != i implies f[k] == o[k] by {
                if k < i {
                    assert(f[k] == o.remove(i as int)[k]);
                } else {
                    assert(f[k] == o.remove(i as int)[k - 1]);
                }
            }
            assert(f[i as int].cards@ =~= src.cards@.update(
                src.cards@.len() - 1,
                src.cards@.last().spec_flip(),
            ));
            assert forall|a: int, b: int| 0 <= a < b < f.len() implies (#[trigger] f[a]).id@
                != (#[trigger] f[b]).id@ && f[a].position != f[b].position by {
                assert(f[a].id@ == o[a].id@ && f[a].position == o[a].position);
                assert(f[b].id@ == o[b].id@ && f[b].position == o[b].position);
            }
        }
        Ok(state)
    }

    /// Turns the whole pile over: reverses the order of the cards and
    /// toggles every card's face-down bit, exposing what was the bottom.
    pub fn flip_stack(&mut self, stack_id: &StackId) -> (r: Result<StackState, WebsocketError>)
        requires
            old(self).wf(),
        ensures
            final(self).wf(),
            final(self).same_roster_as(*old(self)),
            !has_stack(old(self).stacks@, stack_id@) ==> {
                &&& r matches Err(WebsocketError::StackNotFound)
                &&& *final(self) == *old(self)
            },
            has_stack(old(self).stacks@, stack_id@) ==> (r matches Ok(st) && {
                let i = stack_idx(old(self).stacks@, stack_id@);
                let src = old(self).stacks@[i];
                let n = src.cards@.len() as int;
                &&& final(self).stacks@.len() == old(self).stacks@.len()
                &&& forall|k: int|
                    0 <= k < old(self).stacks@.len() && k != i ==> final(self).stacks@[k] == old(
                        self,
                    ).stacks@[k]
                &&& final(self).stacks@[i].id == src.id
                &&& final(self).stacks@[i].position == src.position
                &&& final(self).stacks@[i].cards@.len() == n
                &&& forall|k: int|
                    0 <= k < n ==> final(self).stacks@[i].cards@[k] == src.cards@[n - 1
                        - k].spec_flip()
                &&& is_state_of(st, final(self).stacks@[i])
            }),
    {
        let i = match find_stack(&self.stacks, stack_id) {
            Some(i) => i,
            None => {
                return Err(WebsocketError::StackNotFound);
            },
        };
        proof {
            lemma_stack_idx_unique(self.stacks@, stack_id@, i as int);
        }
        let mut st = self.stacks.remove(i);
        let n = st.cards.len();
        let mut flipped: Vec<Card> = Vec::new();
        let mut k: usize = 0;
        while k < n
            invariant
                k <= n,
                n == st.cards@.len(),
                flipped@.len() == k,
                forall|m: int|
                    0 <= m < k ==> flipped@[m] == st.cards@[n - 1 - m].spec_flip(),
            decreases n - k,
        {
            let mut c = st.cards[n - 1 - k];
            c.flip();
            flipped.push(c);
            k = k + 1;
        }
        st.cards = flipped;
        let state = st.state();
        self.stacks.insert(i, st);
        proof {
            let o = old(self).stacks@;
            let f = self.stacks@;
            o.remove_ensures(i as int);
            o.remove(i as int).insert_ensures(i as int, f[i as int]);
            assert forall|k2: int| 0 <= k2 < o.len() && k2 != i implies f[k2] == o[k2] by {
                if k2 < i {
                    assert(f[k2] == o.remove(i as int)[k2]);
                } else {
                    assert(f[k2] == o.remove(i as int)[k2 - 1]);
                }
            }
            assert forall|a: int, b: int| 0 <= a < b < f.len() implies (#[trigger] f[a]).id@
                != (#[trigger] f[b]).id@ && f[a].position != f[b].position by {
                assert(f[a].id@ == o[a].id@ && f[a].position == o[a].position);
                assert(f[b].id@ == o[b].id@ && f[b].position == o[b].position);
            }
        }
        Ok(state)
    }

    /// Rearranges the cards of `stack_id` in a uniformly random order.
    pub fn shuffle_stack(&mut self, stack_id: &StackId) -> (r: Result<StackState, WebsocketError>)
        requires
            old(self).wf(),
        ensures
            final(self).wf(),
            final(self).same_roster_as(*old(self)),
            !has_stack(old(self).stacks@, stack_id@) ==> {
                &&& r matches Err(WebsocketError::StackNotFound)
                &&& *final(self) == *old(self)
            },
            has_stack(old(self).stacks@, stack_id@) ==> (r matches Ok(st) && {
                let i = stack_idx(old(self).stacks@, stack_id@);
                let src = old(self).stacks@[i];
                &&& final(self).stacks@.len() == old(self).stacks@.len()
                &&& forall|k: int|
                    0 <= k < old(self).stacks@.len() && k != i ==> final(self).stacks@[k] == old(
                        self,
                    ).stacks@[k]
                &&& final(self).stacks@[i].id == src.id
                &&& final(self).stacks@[i].position == src.position
                &&& final(self).stacks@[i].cards@.to_multiset() == src.cards@.to_multiset()
                &&& final(self).stacks@[i].cards@.len() == src.cards@.len()
                &&& is_state_of(st, final(self).stacks@[i])
            }),
    {
        let i = match find_stack(&self.stacks, stack_id) {
            Some(i) => i,
            None => {
                return Err(WebsocketError::StackNotFound);
            },
        };
        proof {
            lemma_stack_idx_unique(self.stacks@, stack_id@, i as int);
        }
        let mut st = self.stacks.remove(i);
        shuffle_cards(&mut st.cards);
        let state = st.state();
        self.stacks.insert(i, st);
        proof {
            let o = old(self).stacks@;
            let f = self.stacks@;
            o.remove_ensures(i as int);
            o.remove(i as int).insert_ensures(i as int, f[i as int]);
            assert forall|k: int| 0 <= k < o.len() && k != i implies f[k] == o[k] by {
                if k < i {
                    assert(f[k] == o.remove(i as int)[k]);
                } else {
                    assert(f[k] == o.remove(i as int)[k - 1]);
                }
            }
            assert forall|a: int, b: int| 0 <= a < b < f.len() implies (#[trigger] f[a]).id@
                != (#[trigger] f[b]).id@ && f[a].position != f[b].position by {
                assert(f[a].id@ == o[a].id@ && f[a].position == o[a].position);
                assert(f[b].id@ == o[b].id@ && f[b].position == o[b].position);
            }
        }
        Ok(state)
    }

    /// Relocates the stack `stack_id`. A move onto a free position keeps
    /// the stack's identity; a move onto an occupied one merges the
    /// moving stack's cards on top of the occupant — the occupant keeps
    /// its identity and the moving stack ceases to exist. Returns the
    /// destination state and, after a merge, the emptied source state.
    pub fn move_stack(&mut self, stack_id: &StackId, position: Position) -> (r: Result<
        (StackState, Option<StackState>),
        WebsocketError,
    >)
        requires
            old(self).wf(),
        ensures
            final(self).wf(),
            final(self).same_roster_as(*old(self)),
            !has_stack(old(self).stacks@, stack_id@) ==> {
                &&& r matches Err(WebsocketError::StackNotFound)
                &&& *final(self) == *old(self)
            },
            has_stack(old(self).stacks@, stack_id@) ==> (r matches Ok(p) && {
                let m = stack_idx(old(self).stacks@, stack_id@);
                let moving = old(self).stacks@[m];
                let rest = old(self).stacks@.remove(m);
                if has_stack_at(rest, position) {
                    let d = stack_idx_at(rest, position);
                    &&& final(self).stacks@.len() == rest.len()
                    &&& forall|k: int|
                        0 <= k < rest.len() && k != d ==> final(self).stacks@[k] == rest[k]
                    &&& final(self).stacks@[d].id == rest[d].id
                    &&& final(self).stacks@[d].position == rest[d].position
                    &&& final(self).stacks@[d].cards@ == rest[d].cards@ + moving.cards@
                    &&& !has_stack(final(self).stacks@, stack_id@)
                    &&& is_state_of(p.0, final(self).stacks@[d])
                    &&& (p.1 matches Some(srcst) && srcst.stack_id@ == stack_id@
                        && srcst.position == moving.position && srcst.remaining_cards == 0
                        && srcst.visible_card == Card::spec_hidden())
                } else {
                    let n = rest.len() as int;
                    &&& final(self).stacks@.len() == old(self).stacks@.len()
                    &&& forall|k: int| 0 <= k < n ==> final(self).stacks@[k] == rest[k]
                    &&& final(self).stacks@[n].id == moving.id
                    &&& final(self).stacks@[n].position == position
                    &&& final(self).stacks@[n].cards@ == moving.cards@
                    &&& is_state_of(p.0, final(self).stacks@[n])
                    &&& p.1 is None
                }
            }),
    {
        let m = match find_stack(&self.stacks, stack_id) {
            Some(m) => m,
            None => {
                return Err(WebsocketError::StackNotFound);
            },
        };
        proof {
            lemma_stack_idx_unique(self.stacks@, stack_id@, m as int);
            lemma_distinct_remove(self.stacks@, m as int);
        }
        let mut moving = self.stacks.remove(m);
        let ghost rest = self.stacks@;
        match find_stack_at(&self.stacks, position) {
            Some(d) => {
                proof {
                    lemma_stack_idx_at_unique(rest, position, d as int);
                }
                let mut tgt = self.stacks.remove(d);
                tgt.cards.append(&mut moving.cards);
                let src_state = moving.state();
                let dest_state = tgt.state();
                self.stacks.insert(d, tgt);
                proof {
                    let f = self.stacks@;
                    rest.remove_ensures(d as int);
                    rest.remove(d as int).insert_ensures(d as int, f[d as int]);
                    assert forall|k: int| 0 <= k < rest.len() && k != d implies f[k] == rest[k] by {
                        if k < d {
                            assert(f[k] == rest.remove(d as int)[k]);
                        } else {
                            assert(f[k] == rest.remove(d as int)[k - 1]);
                        }
                    }
                    assert forall|a: int, b: int| 0 <= a < b < f.len() implies (#[trigger] f[a]).id@
                        != (#[trigger] f[b]).id@ && f[a].position != f[b].position by {
                        assert(f[a].id@ == rest[a].id@ && f[a].position == rest[a].position);
                        assert(f[b].id@ == rest[b].id@ && f[b].position == rest[b].position);
                    }
                    let o = old(self).stacks@;
                    assert forall|k: int| 0 <= k < f.len() implies (#[trigger] f[k]).id@
                        != stack_id@ by {
                        let k0 = if k < m { k } else { k + 1 };
                        assert(rest[k] == o[k0]);
                        assert(f[k].id@ == rest[k].id@);
                        if k0 < m {
                            assert(o[k0].id@ != o[m as int].id@);
                        } else {
                            assert(o[m as int].id@ != o[k0].id@);
                        }
                    }
                }
                Ok((dest_state, Some(src_state)))
            },
            None => {
                moving.position = position;
                let dest_state = moving.state();
                self.stacks.push(moving);
                proof {
                    let f = self.stacks@;
                    assert forall|a: int, b: int| 0 <= a < b < f.len() implies (#[trigger] f[a]).id@
                        != (#[trigger] f[b]).id@ && f[a].position != f[b].position by {
                        if b < rest.len() {
                            assert(f[a] == rest[a] && f[b] == rest[b]);
                        } else {
                            assert(f[a] == rest[a]);
                            assert(!has_stack_at(rest, position));
                            let o = old(self).stacks@;
                            let a0 = if a < m { a } else { a + 1 };
                            assert(rest[a] == o[a0]);
                            if a0 < m {
                                assert(o[a0].id@ != o[m as int].id@);
                            } else {
                                assert(o[m as int].id@ != o[a0].id@);
                            }
                        }
                    }
                }
                Ok((dest_state, None))
            },
        }
    }

    /// Moves the top card of `stack_id` onto the position `position`
    /// without any hand involvement: onto the occupying stack, or onto a
    /// freshly created one. A source stack emptied by the move is
    /// deleted. Returns the destination state and the source state.
    pub fn move_card(&mut self, stack_id: &StackId, position: Position) -> (r: Result<
        (StackState, StackState),
        WebsocketError,
    >)
        requires
            old(self).wf(),
        ensures
            final(self).wf(),
            final(self).same_roster_as(*old(self)),
            !has_stack(old(self).stacks@, stack_id@) ==> {
                &&& r matches Err(WebsocketError::StackNotFound)
                &&& *final(self) == *old(self)
            },
            has_stack(old(self).stacks@, stack_id@) && old(self).stacks@[stack_idx(
                old(self).stacks@,
                stack_id@,
            )].cards@.len() == 0 ==> {
                &&& r matches Err(WebsocketError::EmptyStack)
                &&& *final(self) == *old(self)
            },
            has_stack(old(self).stacks@, stack_id@) && old(self).stacks@[stack_idx(
                old(self).stacks@,
                stack_id@,
            )].cards@.len() > 0 ==> (r matches Ok(p) && {
                let i = stack_idx(old(self).stacks@, stack_id@);
                let src = old(self).stacks@[i];
                let c = src.cards@.last();
                &&& p.1.stack_id@ == stack_id@
                &&& p.1.position == src.position
                &&& p.1.remaining_cards == src.cards@.len() - 1
                &&& p.1.visible_card == spec_visible_card(src.cards@.drop_last())
                &&& exists|mid: Seq<Stack>|
                    #[trigger] card_popped(old(self).stacks@, mid, stack_id@) && card_placed(
                        mid,
                        final(self).stacks@,
                        c,
                        position,
                    )
                &&& (src.cards@.len() == 1 ==> !has_stack(final(self).stacks@, stack_id@))
                &&& has_stack_at(final(self).stacks@, position)
                &&& is_state_of(
                    p.0,
                    final(self).stacks@[stack_idx_at(final(self).stacks@, position)],
                )
                &&& final(self).stacks@[stack_idx_at(final(self).stacks@, position)].cards@.last()
                    == c
            }),
    {
        let popped = match self.pop_from_stack(stack_id) {
            Ok(p) => p,
            Err(e) => {
                return Err(e);
            },
        };
        let (card, src_state) = popped;
        let ghost mid = self.stacks@;
        let d = match self.stack_at_position_avoiding(position, true, Some(stack_id)) {
            Some(d) => d,
            None => {
                proof {
                    assert(false);
                }
                return Err(WebsocketError::StackNotFound);
            },
        };
        let ghost after_create = self.stacks@;
        let mut tgt = self.stacks.remove(d);
        tgt.cards.push(card);
        let dest_state = tgt.state();
        self.stacks.insert(d, tgt);
        proof {
            let f = self.stacks@;
            if has_stack_at(mid, position) {
                assert(after_create == mid);
                mid.remove_ensures(d as int);
                mid.remove(d as int).insert_ensures(d as int, f[d as int]);
                assert forall|k: int| 0 <= k < mid.len() && k != d implies f[k] == mid[k] by {
                    if k < d {
                        assert(f[k] == mid.remove(d as int)[k]);
                    } else {
                        assert(f[k] == mid.remove(d as int)[k - 1]);
                    }
                }
                assert forall|a: int, b: int| 0 <= a < b < f.len() implies (#[trigger] f[a]).id@
                    != (#[trigger] f[b]).id@ && f[a].position != f[b].position by {
                    assert(f[a].id@ == mid[a].id@ && f[a].position == mid[a].position);
                    assert(f[b].id@ == mid[b].id@ && f[b].position == mid[b].position);
                }
                assert(card_placed(mid, f, card, position));
            } else {
                let n = mid.len() as int;
                after_create.remove_ensures(n);
                assert(after_create.remove(n) =~= mid);
                let base = after_create.remove(n);
                base.insert_ensures(n, f[n]);
                assert forall|k: int| 0 <= k < n implies f[k] == mid[k] by {
                    assert(f[k] == base[k]);
                }
                assert(f[n].cards@ =~= seq![card]);
                assert(card_placed(mid, f, card, position));
                assert forall|a: int, b: int| 0 <= a < b < f.len() implies (#[trigger] f[a]).id@
                    != (#[trigger] f[b]).id@ && f[a].position != f[b].position by {
                    if b < n {
                        assert(f[a] == mid[a] && f[b] == mid[b]);
                    } else {
                        assert(f[a] == mid[a]);
                        assert(!has_stack_at(mid, position));
                        assert(!has_stack(mid, f[b].id@));
                    }
                }
            }
            assert(card_popped(old(self).stacks@, mid, stack_id@));
            let i = stack_idx(old(self).stacks@, stack_id@);
            if old(self).stacks@[i].cards@.len() == 1 {
                lemma_removed_id_absent(old(self).stacks@, i);
                assert forall|k: int| 0 <= k < f.len() implies (#[trigger] f[k]).id@
                    != stack_id@ by {
                    if has_stack_at(mid, position) {
                        assert(f[k].id@ == mid[k].id@);
                    } else {
                        if k < mid.len() {
                            assert(f[k] == mid[k]);
                        }
                    }
                }
            }
            lemma_stack_idx_at_unique(f, position, d as int);
        }
        Ok((dest_state, src_state))
    }
}

impl Game {
    /// Pops the top card of `stack_id` into the player's hand. The stack
    /// delta is returned for broadcast; the updated hand goes privately
    /// to the acting player alone.
    pub fn take_card(&mut self, player: &mut Player, stack_id: &StackId) -> (r: Result<
        StackState,
        WebsocketError,
    >)
        requires
            old(self).wf(),
        ensures
            final(self).wf(),
            final(self).same_roster_as(*old(self)),
            final(player).player_id == old(player).player_id,
            final(player).game_id == old(player).game_id,
            !has_stack(old(self).stacks@, stack_id@) ==> {
                &&& r matches Err(WebsocketError::StackNotFound)
                &&& *final(self) == *old(self)
                &&& *final(player) == *old(player)
            },
            has_stack(old(self).stacks@, stack_id@) && old(self).stacks@[stack_idx(
                old(self).stacks@,
                stack_id@,
            )].cards@.len() == 0 ==> {
                &&& r matches Err(WebsocketError::EmptyStack)
                &&& *final(self) == *old(self)
                &&& *final(player) == *old(player)
            },
            has_stack(old(self).stacks@, stack_id@) && old(self).stacks@[stack_idx(
                old(self).stacks@,
                stack_id@,
            )].cards@.len() > 0 ==> (r matches Ok(st) && {
                let i = stack_idx(old(self).stacks@, stack_id@);
                let src = old(self).stacks@[i];
                &&& final(player).hand@ == old(player).hand@.push(src.cards@.last())
                &&& card_popped(old(self).stacks@, final(self).stacks@, stack_id@)
                &&& st.stack_id@ == stack_id@
                &&& st.position == src.position
                &&& st.remaining_cards == src.cards@.len() - 1
                &&& st.visible_card == spec_visible_card(src.cards@.drop_last())
                &&& (src.cards@.len() == 1 ==> !has_stack(final(self).stacks@, stack_id@))
            }),
    {
        match self.pop_from_stack(stack_id) {
            Ok((card, st)) => {
                player.hand.push(card);
                proof {
                    let i = stack_idx(old(self).stacks@, stack_id@);
                    if old(self).stacks@[i].cards@.len() == 1 {
                        lemma_removed_id_absent(old(self).stacks@, i);
                    }
                }
                Ok(st)
            },
            Err(e) => Err(e),
        }
    }

    /// Removes the card at `hand_index` from the player's hand (a swap
    /// removal: the hand's order is not preserved, so indices do not
    /// survive across requests), orients it as requested and lays it on
    /// top of the position: onto the occupying stack, or a fresh one.
    /// Fails with `CardNotFound` when the index is out of range.
    pub fn put_card(
        &mut self,
        player: &mut Player,
        hand_index: usize,
        position: Position,
        face_down: bool,
    ) -> (r: Result<StackState, WebsocketError>)
        requires
            old(self).wf(),
        ensures
            final(self).wf(),
            final(self).same_roster_as(*old(self)),
            final(player).player_id == old(player).player_id,
            final(player).game_id == old(player).game_id,
            hand_index >= old(player).hand@.len() ==> {
                &&& r matches Err(WebsocketError::CardNotFound)
                &&& *final(self) == *old(self)
                &&& *final(player) == *old(player)
            },
            hand_index < old(player).hand@.len() ==> (r matches Ok(st) && {
                let c = old(player).hand@[hand_index as int].spec_with_face_down(face_down);
                &&& final(player).hand@ == old(player).hand@.update(
                    hand_index as int,
                    old(player).hand@.last(),
                ).drop_last()
                &&& card_placed(old(self).stacks@, final(self).stacks@, c, position)
                &&& has_stack_at(final(self).stacks@, position)
                &&& is_state_of(
                    st,
                    final(self).stacks@[stack_idx_at(final(self).stacks@, position)],
                )
                &&& final(self).stacks@[stack_idx_at(final(self).stacks@, position)].cards@.last()
                    == c
            }),
    {
        if hand_index >= player.hand.len() {
            return Err(WebsocketError::CardNotFound);
        }
        let mut card = player.hand.swap_remove(hand_index);
        if face_down != card.is_face_down() {
            card.flip();
        }
        let ghost o = self.stacks@;
        let d = match self.stack_at_position_avoiding(position, true, None) {
            Some(d) => d,
            None => {
                proof {
                    assert(false);
                }
                return Err(WebsocketError::CardNotFound);
            },
        };
        let ghost after_create = self.stacks@;
        let mut tgt = self.stacks.remove(d);
        tgt.cards.push(card);
        let dest_state = tgt.state();
        self.stacks.insert(d, tgt);
        proof {
            let f = self.stacks@;
            if has_stack_at(o, position) {
                assert(after_create == o);
                o.remove_ensures(d as int);
                o.remove(d as int).insert_ensures(d as int, f[d as int]);
                assert forall|k: int| 0 <= k < o.len() && k != d implies f[k] == o[k] by {
                    if k < d {
                        assert(f[k] == o.remove(d as int)[k]);
                    } else {
                        assert(f[k] == o.remove(d as int)[k - 1]);
                    }
                }
                assert forall|a: int, b: int| 0 <= a < b < f.len() implies (#[trigger] f[a]).id@
                    != (#[trigger] f[b]).id@ && f[a].position != f[b].position by {
                    assert(f[a].id@ == o[a].id@ && f[a].position == o[a].position);
                    assert(f[b].id@ == o[b].id@ && f[b].position == o[b].position);
                }
                assert(card_placed(o, f, card, position));
            } else {
                let n = o.len() as int;
                after_create.remove_ensures(n);
                assert(after_create.remove(n) =~= o);
                let base = after_create.remove(n);
                base.insert_ensures(n, f[n]);
                assert forall|k: int| 0 <= k < n implies f[k] == o[k] by {
                    assert(f[k] == base[k]);
                }
                assert(f[n].cards@ =~= seq![card]);
                assert(card_placed(o, f, card, position));
                assert forall|a: int, b: int| 0 <= a < b < f.len() implies (#[trigger] f[a]).id@
                    != (#[trigger] f[b]).id@ && f[a].position != f[b].position by {
                    if b < n {
                        assert(f[a] == o[a] && f[b] == o[b]);
                    } else {
                        assert(f[a] == o[a]);
                        assert(!has_stack_at(o, position));
                        assert(!has_stack(o, f[b].id@));
                    }
                }
            }
            lemma_stack_idx_at_unique(f, position, d as int);
        }
        Ok(dest_state)
    }

    /// Rebuilds every stack afresh from the game's original deck
    /// configuration (standard decks get a fresh shuffle). The roster,
    /// ownership and configuration are untouched; what reset means for
    /// each player's record is the session layer's decision.
    pub fn reset(&mut self)
        requires
            old(self).wf(),
        ensures
            final(self).wf(),
            built_from(&old(self).deck_type, final(self).stacks@),
            final(self).id == old(self).id,
            final(self).created_at == old(self).created_at,
            final(self).owner == old(self).owner,
            final(self).authorized_players == old(self).authorized_players,
            final(self).deck_type == old(self).deck_type,
            final(self).connected_players == old(self).connected_players,
    {
        let new_stacks = Stack::from(&self.deck_type);
        proof {
            lemma_built_from_wf(&self.deck_type, new_stacks@);
        }
        self.stacks = new_stacks;
    }
}

/// Removing the stack at `i` removes its identifier from the list
/// entirely, the identifiers being distinct.
pub proof fn lemma_removed_id_absent(stacks: Seq<Stack>, i: int)
    requires
        distinct_stack_ids(stacks),
        0 <= i < stacks.len(),
    ensures
        !has_stack(stacks.remove(i), stacks[i].id@),
        forall|k: int|
            0 <= k < stacks.remove(i).len() ==> (#[trigger] stacks.remove(i)[k]).id@
                != stacks[i].id@,
{
    let r = stacks.remove(i);
    assert forall|k: int| 0 <= k < r.len() implies (#[trigger] r[k]).id@ != stacks[i].id@ by {
        let k0 = if k < i { k } else { k + 1 };
        assert(r[k] == stacks[k0]);
        if k0 < i {
            assert(stacks[k0].id@ != stacks[i].id@);
        } else {
            assert(stacks[i].id@ != stacks[k0].id@);
        }
    }
}

/// Under distinct identities, `player_idx` names exactly the index any
/// search found.
pub proof fn lemma_player_idx_unique(g: Game, pid: Seq<char>, i: int)
    requires
        distinct_player_ids(g.connected_players@),
        0 <= i < g.connected_players@.len(),
        g.connected_players@[i].0@ == pid,
    ensures
        g.spec_is_connected(pid),
        g.player_idx(pid) == i,
{
    assert(g.spec_is_connected(pid));
    let j = g.player_idx(pid);
    if i < j {
        assert(g.connected_players@[i].0@ != g.connected_players@[j].0@);
    } else if j < i {
        assert(g.connected_players@[j].0@ != g.connected_players@[i].0@);
    }
}

/// Removing one connection entry keeps the identities distinct.
pub proof fn lemma_distinct_players_remove(players: Seq<(PlayerId, ConnId)>, i: int)
    requires
        distinct_player_ids(players),
        0 <= i < players.len(),
    ensures
        distinct_player_ids(players.remove(i)),
{
    let r = players.remove(i);
    assert forall|a: int, b: int| 0 <= a < b < r.len() implies (#[trigger] r[a]).0@
        != (#[trigger] r[b]).0@ by {
        let a0 = if a < i { a } else { a + 1 };
        let b0 = if b < i { b } else { b + 1 };
        assert(r[a] == players[a0]);
        assert(r[b] == players[b0]);
        assert(players[a0].0@ != players[b0].0@);
    }
}

} // verus!
