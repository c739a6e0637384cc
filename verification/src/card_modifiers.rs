//! Changes to a single card: turning it, and exhausting it.
use vstd::prelude::*;
use crate::card_defs::CardDefs;
use crate::card_ptr::CardPtr;
use crate::pile_utils::{all_keys, flip_key, rotate_key, spec_flip_key, spec_rotate_key};
use crate::primitives::{FaceKey, Health, SelfAction};

verus! {

/// The face that a self action turns a card to.
pub open spec fn spec_self_action_key(self_action: SelfAction, key: FaceKey) -> FaceKey {
    match self_action {
        SelfAction::Rotate => spec_rotate_key(key),
        SelfAction::Flip => spec_flip_key(key),
    }
}

/// Rotates or flips the card.
pub fn perform_card_self_action(self_action: SelfAction, active_card: &mut CardPtr)
    ensures
        final(active_card).card_id == old(active_card).card_id,
        final(active_card).key == spec_self_action_key(self_action, old(active_card).key),
{
    match self_action {
        SelfAction::Rotate => {
            active_card.key = rotate_key(active_card.key);
        },
        SelfAction::Flip => {
            active_card.key = flip_key(active_card.key);
        },
    }
}

/// Doing the same self action twice leaves the card as it was.
pub proof fn lemma_self_action_twice(self_action: SelfAction, key: FaceKey)
    ensures
        spec_self_action_key(self_action, spec_self_action_key(self_action, key)) == key,
{
}

/// The first face of the card, in key order, that has no health.
pub open spec fn first_exhausted_key(cards: CardDefs, id: int) -> FaceKey {
    let faces = cards.card(id).faces;
    if faces.a.health == Health::Empty {
        FaceKey::A
    } else if faces.b.health == Health::Empty {
        FaceKey::B
    } else if faces.c.health == Health::Empty {
        FaceKey::C
    } else {
        FaceKey::D
    }
}

/// Exhausts the card by turning it to its first exhausted face; an
/// exhausted card stays as it is.
pub fn mut_exhaust_card_without_giving_options(cards: &CardDefs, card: &mut CardPtr)
    requires
        cards.wf(),
        cards.has_card(old(card).card_id as int),
    ensures
        final(card).card_id == old(card).card_id,
        cards.face(*old(card)).health == Health::Empty ==> *final(card) == *old(card),
        cards.face(*old(card)).health != Health::Empty ==> final(card).key == first_exhausted_key(
            *cards,
            old(card).card_id as int,
        ),
        cards.face(*final(card)).health == Health::Empty,
{
    if card.get_active_face(cards).health == Health::Empty {
        return;
    }
    let card_def = card.get_card_def(cards);
    proof {
        assert(cards.cards@[card.card_id as int].is_some());
    }
    if card_def.faces.a.health == Health::Empty {
        card.key = FaceKey::A;
    } else if card_def.faces.b.health == Health::Empty {
        card.key = FaceKey::B;
    } else if card_def.faces.c.health == Health::Empty {
        card.key = FaceKey::C;
    } else {
        card.key = FaceKey::D;
    }
}

} // verus!
