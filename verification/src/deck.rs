//! Stacks of cards on the table and the deck builder that lays out the
//! initial stacks for a chosen configuration.

use vstd::prelude::*;
use vstd::multiset::Multiset;
use vstd::string::StringExecFns;
use crate::card::Card;
use crate::external::{new_uuid_string, shuffle_cards};
use crate::requests::DeckType;

verus! {

/// Identifier of a stack within a game.
pub type StackId = String;

/// Integer 2D board position of a stack.
pub type Position = (i16, i16);

/// An ordered pile of cards at a board position. Cards are appended at
/// the bottom of the vector and removed from its end, so the last
/// element is the top of the pile.
#[derive(Debug)]
pub struct Stack {
    pub id: StackId,
    pub cards: Vec<Card>,
    pub position: Position,
}

/// The view of one stack that clients receive: identity, position, the
/// top card (hidden when face down) and the count — never the full pile.
#[derive(Debug)]
pub struct StackState {
    pub stack_id: StackId,
    pub position: Position,
    pub visible_card: Card,
    pub remaining_cards: usize,
}

/// The card a client is shown for a pile: the top card when it lies face
/// up, the hidden sentinel otherwise (also for an empty pile).
pub open spec fn spec_visible_card(cards: Seq<Card>) -> Card {
    if cards.len() > 0 && !cards.last().spec_is_face_down() {
        cards.last()
    } else {
        Card::spec_hidden()
    }
}

/// An element-for-element copy of a vector of cards.
pub(crate) fn copy_cards(src: &Vec<Card>) -> (r: Vec<Card>)
    ensures
        r@ == src@,
{
    let mut r: Vec<Card> = Vec::new();
    let mut k: usize = 0;
    while k < src.len()
        invariant
            k <= src.len(),
            r@ == src@.take(k as int),
        decreases src.len() - k,
    {
        r.push(src[k]);
        proof {
            assert(src@.take(k + 1) == src@.take(k as int).push(src@[k as int]));
        }
        k = k + 1;
    }
    proof {
        assert(src@.take(src@.len() as int) == src@);
    }
    r
}

impl Stack {
    /// The client-visible state of this stack. A face-down top card is
    /// replaced by the hidden sentinel for every recipient.
    pub fn state(&self) -> (st: StackState)
        ensures
            st.stack_id@ == self.id@,
            st.position == self.position,
            st.remaining_cards == self.cards.len(),
            st.visible_card == spec_visible_card(self.cards@),
    {
        let top_card = if self.cards.len() > 0 {
            let c = self.cards[self.cards.len() - 1];
            if !c.is_face_down() {
                c
            } else {
                Card::hidden()
            }
        } else {
            Card::hidden()
        };
        StackState {
            stack_id: self.id.clone(),
            position: self.position,
            visible_card: top_card,
            remaining_cards: self.cards.len(),
        }
    }
}

/// The 54 cards of the standard configuration, face down, before the
/// shuffle: the 52 numeric bodies 4..=55 and the two jokers 64 and 65,
/// each with the face-down bit (128) set.
pub open spec fn standard_deck() -> Seq<Card> {
    Seq::new(54, |i: int| if i < 52 { Card((132 + i) as u8) } else { Card((140 + i) as u8) })
}

/// Every card of the standard deck is a valid encoding and lies face down.
pub proof fn lemma_standard_deck_cards()
    ensures
        forall|i: int| 0 <= i < 54 ==> (#[trigger] standard_deck()[i]).valid(),
        forall|i: int| 0 <= i < 54 ==> (#[trigger] standard_deck()[i]).spec_is_face_down(),
{
    assert forall|i: int| 0 <= i < 54 implies (#[trigger] standard_deck()[i]).valid()
        && standard_deck()[i].spec_is_face_down() by {
        if i < 52 {
            assert(standard_deck()[i] == Card((132 + i) as u8));
        } else {
            assert(standard_deck()[i] == Card((140 + i) as u8));
        }
    }
}

/// The default position a stack of the deck builder gets: index `i` is
/// laid out on a three-column grid so no two stacks start overlapping.
pub open spec fn spec_grid_position(i: int) -> Position {
    ((200 + 250 * (i % 3)) as i16, (200 + 250 * (i / 3)) as i16)
}

/// Distinct builder indices land on distinct grid positions.
pub proof fn lemma_grid_position_injective(i: int, j: int)
    requires
        0 <= i <= 392,
        0 <= j <= 392,
        i != j,
    ensures
        spec_grid_position(i) != spec_grid_position(j),
{
    assert(0 <= i % 3 < 3 && 0 <= j % 3 < 3);
    assert(0 <= i / 3 <= 130 && 0 <= j / 3 <= 130) by (nonlinear_arith)
        requires
            0 <= i <= 392,
            0 <= j <= 392,
    ;
    if i % 3 == j % 3 && i / 3 == j / 3 {
        assert(i == j) by (nonlinear_arith)
            requires
                i % 3 == j % 3,
                i / 3 == j / 3,
                0 <= i,
                0 <= j,
        ;
    } else if i % 3 != j % 3 {
        assert(200 + 250 * (i % 3) != 200 + 250 * (j % 3));
    } else {
        assert(250 * (i / 3) != 250 * (j / 3)) by (nonlinear_arith)
            requires
                i / 3 != j / 3,
        ;
    }
}

fn grid_position(i: usize) -> (p: Position)
    requires
        i <= 392,
    ensures
        p == spec_grid_position(i as int),
{
    proof {
        assert(i as int / 3 <= 130) by (nonlinear_arith)
            requires
                0 <= i <= 392,
        ;
    }
    (200 + 250 * ((i % 3) as i16), 200 + 250 * ((i / 3) as i16))
}

/// Whether some stack in the list already carries this identifier.
fn stacks_contain_id(stacks: &Vec<Stack>, id: &String) -> (r: bool)
    ensures
        r == exists|k: int| 0 <= k < stacks@.len() && (#[trigger] stacks@[k]).id@ == id@,
{
    let mut k: usize = 0;
    while k < stacks.len()
        invariant
            k <= stacks.len(),
            forall|m: int| 0 <= m < k ==> (#[trigger] stacks@[m]).id@ != id@,
        decreases stacks.len() - k,
    {
        if stacks[k].id == *id {
            return true;
        }
        k = k + 1;
    }
    false
}

/// An identifier that no stack in the list carries and that differs from
/// `avoid`: a fresh random identifier normally, and — should that ever
/// collide — a deterministic fallback strictly longer than every
/// identifier to be avoided.
pub(crate) fn fresh_stack_id(stacks: &Vec<Stack>, avoid: Option<&StackId>) -> (id: StackId)
    ensures
        forall|k: int| 0 <= k < stacks@.len() ==> (#[trigger] stacks@[k]).id@ != id@,
        avoid matches Some(a) ==> id@ != a@,
{
    let cand = new_uuid_string();
    let clashes_avoid = match avoid {
        Some(a) => cand == *a,
        None => false,
    };
    if !clashes_avoid && !stacks_contain_id(stacks, &cand) {
        return cand;
    }
    let mut id = String::from_str("x");
    proof {
        reveal_strlit("x");
    }
    let mut k: usize = 0;
    while k < stacks.len()
        invariant
            k <= stacks.len(),
            id@.len() >= 1,
            forall|m: int| 0 <= m < k ==> (#[trigger] stacks@[m]).id@.len() < id@.len(),
        decreases stacks.len() - k,
    {
        id.append(stacks[k].id.as_str());
        k = k + 1;
    }
    match avoid {
        Some(a) => {
            id.append(a.as_str());
        },
        None => {},
    }
    id
}

/// What the deck builder guarantees of the stacks it returns for a
/// configuration: the stack count, the grid layout, pairwise-distinct
/// identifiers, and the cards — exactly the standard 54 as a multiset
/// (the order is shuffled), or the caller's lists verbatim.
pub open spec fn built_from(dt: &DeckType, stacks: Seq<Stack>) -> bool {
    &&& stacks.len() == deck_stack_count(dt)
    &&& forall|i: int|
        0 <= i < stacks.len() ==> (#[trigger] stacks[i]).position == spec_grid_position(i)
    &&& forall|i: int, j: int|
        0 <= i < j < stacks.len() ==> stacks[i].id@ != stacks[j].id@
    &&& match dt {
        DeckType::Standard => stacks[0].cards@.to_multiset() == standard_deck().to_multiset()
            && stacks[0].cards@.len() == 54,
        DeckType::Custom(lists) => forall|i: int|
            0 <= i < stacks.len() ==> (#[trigger] stacks[i]).cards@ == lists@[i]@,
    }
}

/// How many stacks a configuration builds.
pub open spec fn deck_stack_count(dt: &DeckType) -> int {
    match dt {
        DeckType::Standard => 1,
        DeckType::Custom(lists) => lists@.len() as int,
    }
}

/// A configuration the builder can lay out: the grid is limited by the
/// 16-bit position type to 393 stacks.
pub open spec fn spec_deck_ok(dt: &DeckType) -> bool {
    match dt {
        DeckType::Standard => true,
        DeckType::Custom(lists) => lists@.len() <= 393,
    }
}

/// Whether the builder can lay this configuration out (the grid is
/// limited by the 16-bit position type).
pub fn deck_ok(dt: &DeckType) -> (r: bool)
    ensures
        r == spec_deck_ok(dt),
{
    match dt {
        DeckType::Standard => true,
        DeckType::Custom(lists) => lists.len() <= 393,
    }
}

fn build_standard_cards() -> (cards: Vec<Card>)
    ensures
        cards@ == standard_deck(),
{
    let mut cards: Vec<Card> = Vec::new();
    let mut b: u8 = 132;
    while b <= 183
        invariant
            132 <= b <= 184,
            cards@.len() == b - 132,
            forall|i: int| 0 <= i < cards@.len() ==> cards@[i] == Card((132 + i) as u8),
        decreases 184 - b,
    {
        cards.push(Card(b));
        b = b + 1;
    }
    cards.push(Card(192));
    cards.push(Card(193));
    proof {
        assert(cards@ =~= standard_deck());
    }
    cards
}

/// Every card on the table: the multiset union of all stacks' cards.
pub open spec fn all_cards(stacks: Seq<Stack>) -> Multiset<Card>
    decreases stacks.len(),
{
    if stacks.len() == 0 {
        Multiset::empty()
    } else {
        stacks.first().cards@.to_multiset().add(all_cards(stacks.drop_first()))
    }
}

/// The set of board positions the stacks occupy.
pub open spec fn positions_of(stacks: Seq<Stack>) -> Set<Position> {
    Set::new(
        |p: Position|
            exists|i: int| 0 <= i < stacks.len() && (#[trigger] stacks[i]).position == p,
    )
}

/// Stacks whose card contents agree stack by stack (as multisets) hold
/// the same cards overall.
proof fn lemma_all_cards_pointwise(s1: Seq<Stack>, s2: Seq<Stack>)
    requires
        s1.len() == s2.len(),
        forall|i: int|
            0 <= i < s1.len() ==> (#[trigger] s1[i]).cards@.to_multiset()
                == (#[trigger] s2[i]).cards@.to_multiset(),
    ensures
        all_cards(s1) == all_cards(s2),
    decreases s1.len(),
{
    if s1.len() > 0 {
        assert forall|i: int|
            0 <= i < s1.drop_first().len() implies (#[trigger] s1.drop_first()[i]).cards@
            .to_multiset() == (#[trigger] s2.drop_first()[i]).cards@.to_multiset() by {
            assert(s1.drop_first()[i] == s1[i + 1]);
            assert(s2.drop_first()[i] == s2[i + 1]);
        }
        lemma_all_cards_pointwise(s1.drop_first(), s2.drop_first());
        assert(s1.first().cards@.to_multiset() == s2.first().cards@.to_multiset());
    }
}

/// Rebuilding a configuration is reproducible in everything but the
/// shuffle: any two stack lists built from the same configuration — for
/// instance the states after two consecutive resets with nothing in
/// between — hold the same cards as a multiset and occupy the same set
/// of positions, though the arrangement within a stack may differ.
pub proof fn lemma_reset_reproducible(dt: &DeckType, s1: Seq<Stack>, s2: Seq<Stack>)
    requires
        built_from(dt, s1),
        built_from(dt, s2),
    ensures
        all_cards(s1) == all_cards(s2),
        positions_of(s1) == positions_of(s2),
{
    assert forall|i: int| 0 <= i < s1.len() implies (#[trigger] s1[i]).cards@.to_multiset()
        == (#[trigger] s2[i]).cards@.to_multiset() by {
        match dt {
            DeckType::Standard => {
                assert(i == 0);
            },
            DeckType::Custom(lists) => {
                assert(s1[i].cards@ == lists@[i]@);
                assert(s2[i].cards@ == lists@[i]@);
            },
        }
    }
    lemma_all_cards_pointwise(s1, s2);
    assert forall|p: Position| positions_of(s1).contains(p) implies positions_of(s2).contains(
        p,
    ) by {
        let i = choose|i: int| 0 <= i < s1.len() && (#[trigger] s1[i]).position == p;
        assert(s2[i].position == spec_grid_position(i));
    }
    assert forall|p: Position| positions_of(s2).contains(p) implies positions_of(s1).contains(
        p,
    ) by {
        let i = choose|i: int| 0 <= i < s2.len() && (#[trigger] s2[i]).position == p;
        assert(s1[i].position == spec_grid_position(i));
    }
    assert(positions_of(s1) =~= positions_of(s2));
}

impl Stack {
    /// Builds the initial stacks for a configuration: the standard deck
    /// as one face-down shuffled 54-card stack, or the caller's card
    /// lists verbatim, each laid out on the default grid under a fresh
    /// identifier.
    pub fn from(deck_type: &DeckType) -> (stacks: Vec<Stack>)
        requires
            spec_deck_ok(deck_type),
        ensures
            built_from(deck_type, stacks@),
    {
        match deck_type {
            DeckType::Standard => {
                let mut cards = build_standard_cards();
                shuffle_cards(&mut cards);
                let id = new_uuid_string();
                let mut stacks: Vec<Stack> = Vec::new();
                stacks.push(Stack { id, cards, position: grid_position(0) });
                proof {
                    assert(standard_deck().len() == 54);
                    vstd::seq_lib::lemma_multiset_commutative::<Card>(Seq::empty(), Seq::empty());
                    assert(stacks@[0].cards@.len() == stacks@[0].cards@.to_multiset().len())
                        by {
                        stacks@[0].cards@.to_multiset_ensures();
                    }
                    assert(standard_deck().len() == standard_deck().to_multiset().len()) by {
                        standard_deck().to_multiset_ensures();
                    }
                }
                stacks
            },
            DeckType::Custom(lists) => {
                let mut stacks: Vec<Stack> = Vec::new();
                let mut i: usize = 0;
                while i < lists.len()
                    invariant
                        i <= lists.len(),
                        lists.len() <= 393,
                        stacks@.len() == i,
                        forall|k: int|
                            0 <= k < i ==> (#[trigger] stacks@[k]).position
                                == spec_grid_position(k),
                        forall|k: int, m: int|
                            0 <= k < m < i ==> stacks@[k].id@ != stacks@[m].id@,
                        forall|k: int|
                            0 <= k < i ==> (#[trigger] stacks@[k]).cards@ == lists@[k]@,
                    decreases lists.len() - i,
                {
                    let id = fresh_stack_id(&stacks, None);
                    let cards = copy_cards(&lists[i]);
                    let position = grid_position(i);
                    stacks.push(Stack { id, cards, position });
                    i = i + 1;
                }
                stacks
            },
        }
    }
}

} // verus!
