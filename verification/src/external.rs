//! The trusted boundary to the outside crates the engine leans on:
//! the random shuffle and the fresh-identifier source. Each wrapper
//! states only what holds of every outcome of the call.

use vstd::prelude::*;
use rand::seq::SliceRandom;
use crate::card::Card;

verus! {

/// Relies on rand's `SliceRandom::shuffle` (a Fisher-Yates shuffle run in
/// place with the generator from `rand::rng`): it rearranges the elements
/// of the slice and does nothing else, so the cards afterwards are exactly
/// the cards before, in some order. Which order comes out is random, so
/// nothing is assumed about it.
#[verifier::external_body]
pub(crate) fn shuffle_cards(cards: &mut Vec<Card>)
    ensures
        final(cards)@.to_multiset() == old(cards)@.to_multiset(),
        final(cards)@.len() == old(cards)@.len(),
{
    cards.as_mut_slice().shuffle(&mut rand::rng());
}

/// Relies on uuid's `Uuid::new_v4` and its `Display` rendering: a freshly
/// drawn random identifier, printed in the 36-character hyphenated form.
/// Nothing more is assumed of the value — in particular not that it
/// differs from any identifier drawn earlier.
#[verifier::external_body]
pub(crate) fn new_uuid_string() -> (r: String)
    ensures
        r@.len() == 36,
{
    uuid::Uuid::new_v4().to_string()
}

} // verus!
