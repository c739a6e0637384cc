//! Piles of cards, held in a fixed-capacity `arrayvec::ArrayVec`.
use vstd::prelude::*;
use arrayvec::ArrayVec;
use crate::card_ptr::CardPtr;
use crate::primitives::MAX_PILE_LEN;

verus! {

#[verifier::external_type_specification]
#[verifier::external_body]
#[verifier::reject_recursive_types(T)]
pub struct ExArrayVec<T, const CAP: usize>(ArrayVec<T, CAP>);

/// A pile: the cards from top (index 0) to bottom.
pub type Pile = ArrayVec<CardPtr, MAX_PILE_LEN>;

/// The cards that a pile holds, from top to bottom.
pub uninterp spec fn pile_cards(p: Pile) -> Seq<CardPtr>;

/// `ArrayVec::new`: an empty pile.
#[verifier::external_body]
pub(crate) fn pile_new() -> (r: Pile)
    ensures
        pile_cards(r) == Seq::<CardPtr>::empty(),
{
    ArrayVec::new()
}

/// `ArrayVec::len`: the number of cards, which never exceeds the capacity.
#[verifier::external_body]
pub(crate) fn pile_len(p: &Pile) -> (r: usize)
    ensures
        r == pile_cards(*p).len(),
        r <= MAX_PILE_LEN,
{
    p.len()
}

/// Indexing an `ArrayVec`: the card at position `i`.
#[verifier::external_body]
pub(crate) fn pile_get(p: &Pile, i: usize) -> (r: CardPtr)
    requires
        i < pile_cards(*p).len(),
    ensures
        r == pile_cards(*p)[i as int],
{
    p[i]
}

/// `ArrayVec::push`: adds a card at the bottom; it panics on a full pile.
#[verifier::external_body]
pub(crate) fn pile_push(p: &mut Pile, c: CardPtr)
    requires
        pile_cards(*old(p)).len() < MAX_PILE_LEN,
    ensures
        pile_cards(*final(p)) == pile_cards(*old(p)).push(c),
{
    p.push(c)
}

/// Assigning through `IndexMut`: replaces the card at position `i`.
#[verifier::external_body]
pub(crate) fn pile_set(p: &mut Pile, i: usize, c: CardPtr)
    requires
        i < pile_cards(*old(p)).len(),
    ensures
        pile_cards(*final(p)) == pile_cards(*old(p)).update(i as int, c),
{
    p[i] = c;
}

/// `<[T]>::rotate_left(1)` through the pile's slice: the top card goes to
/// the bottom.
#[verifier::external_body]
pub(crate) fn pile_rotate_left_one(p: &mut Pile)
    requires
        pile_cards(*old(p)).len() >= 1,
    ensures
        pile_cards(*final(p)) == pile_cards(*old(p)).subrange(1, pile_cards(*old(p)).len() as int).push(
            pile_cards(*old(p))[0],
        ),
{
    p.rotate_left(1)
}

/// `ArrayVec::try_from(&[T])`: a pile holding the cards of the slice in
/// order; it fails only when the slice is longer than the capacity, which
/// `requires` rules out.
#[verifier::external_body]
pub(crate) fn pile_from_slice(cards: &[CardPtr]) -> (r: Pile)
    requires
        cards@.len() <= MAX_PILE_LEN,
    ensures
        pile_cards(r) == cards@,
{
    cards.try_into().unwrap()
}

/// `<[T]>::reverse` through the pile's slice: the cards in the opposite
/// order.
#[verifier::external_body]
pub(crate) fn pile_reverse(p: &mut Pile)
    ensures
        pile_cards(*final(p)) == pile_cards(*old(p)).reverse(),
{
    p.reverse()
}

/// `ArrayVec::clone`: a pile with the same cards.
#[verifier::external_body]
pub(crate) fn pile_clone(p: &Pile) -> (r: Pile)
    ensures
        pile_cards(r) == pile_cards(*p),
{
    p.clone()
}

} // verus!
