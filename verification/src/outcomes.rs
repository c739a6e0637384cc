//! Pieces of a turn's outcomes: the ways a card can be hurt, and the cards
//! that a revive can reach.
use vstd::prelude::*;
use crate::card_defs::CardDefs;
use crate::card_ptr::CardPtr;
use crate::game_state::EngineGameState;
use crate::pile::{pile_cards, pile_get, pile_len, pile_set, Pile};
use crate::pile_utils::{find_hurt_faces, pile_valid, spec_hurt_faces};
use crate::primitives::{Allegiance, Event, FaceKey, Health, HitType};

verus! {

/// The positions from `start` on, below `n`, of the exhausted cards that
/// show a face of the allegiance, in order.
pub open spec fn revive_targets_upto(cards: CardDefs, p: Seq<CardPtr>, a: Allegiance, start: int, n: int) -> Seq<usize>
    decreases n - start,
{
    if n <= start {
        Seq::empty()
    } else {
        let prev = revive_targets_upto(cards, p, a, start, n - 1);
        if cards.face(p[n - 1]).allegiance == a && cards.face(p[n - 1]).health == Health::Empty {
            prev.push((n - 1) as usize)
        } else {
            prev
        }
    }
}

/// The positions from `starting_idx` on of the exhausted cards that show a
/// face of the allegiance, in order.
pub fn find_all_revive_targets(cards: &CardDefs, pile: &Pile, allegiance: Allegiance, starting_idx: usize) -> (r: Vec<
    usize,
>)
    requires
        pile_valid(*cards, pile_cards(*pile)),
    ensures
        r@ == revive_targets_upto(
            *cards,
            pile_cards(*pile),
            allegiance,
            starting_idx as int,
            pile_cards(*pile).len() as int,
        ),
{
    let ghost p = pile_cards(*pile);
    let n = pile_len(pile);
    let mut result: Vec<usize> = Vec::new();
    let mut i: usize = starting_idx;
    if i > n {
        return result;
    }
    while i < n
        invariant
            p == pile_cards(*pile),
            pile_valid(*cards, p),
            n == p.len(),
            starting_idx <= i <= n,
            result@ == revive_targets_upto(*cards, p, allegiance, starting_idx as int, i as int),
        decreases n - i,
    {
        let card = pile_get(pile, i);
        assert(cards.has_card(p[i as int].card_id as int));
        let face = card.get_active_face(cards);
        if face.allegiance == allegiance && face.health == Health::Empty {
            result.push(i);
        }
        i += 1;
    }
    result
}

/// The state after the card at `target_idx` was turned to `key` by a hit.
pub open spec fn hurt_pile(p: Seq<CardPtr>, target_idx: int, key: FaceKey) -> Seq<CardPtr> {
    p.update(target_idx, CardPtr { card_id: p[target_idx].card_id, key })
}

/// Every way the card at `target_idx` can take one damage: for each face
/// one step of health lower, a copy of the state with the card turned to it
/// and the damage logged, in key order.
pub fn hurt_card_get_all_outcomes<T: EngineGameState>(
    cards: &CardDefs,
    state: &T,
    target_idx: usize,
    hit_type: HitType,
) -> (r: Vec<T>)
    requires
        pile_valid(*cards, state.pile_view()),
        target_idx < state.pile_view().len(),
    ensures
        r@.len() == spec_hurt_faces(*cards, state.pile_view()[target_idx as int]).len(),
        forall|j: int|
            0 <= j < r@.len() ==> {
                let key = spec_hurt_faces(*cards, state.pile_view()[target_idx as int])[j];
                &&& (#[trigger] r@[j]).pile_view() == hurt_pile(state.pile_view(), target_idx as int, key)
                &&& r@[j].event_view() == if T::logs_events() {
                    state.event_view().push(
                        Event::Damage(target_idx, state.pile_view()[target_idx as int], hit_type, key),
                    )
                } else {
                    state.event_view()
                }
                &&& r@[j].pile_log() == if T::logs_piles() {
                    state.pile_log().push(hurt_pile(state.pile_view(), target_idx as int, key))
                } else {
                    state.pile_log()
                }
            },
{
    let target_card = pile_get(state.get_pile(), target_idx);
    assert(cards.has_card(state.pile_view()[target_idx as int].card_id as int));
    let keys = find_hurt_faces(cards, &target_card);
    let mut results: Vec<T> = Vec::new();
    let mut j: usize = 0;
    while j < keys.len()
        invariant
            j <= keys@.len(),
            keys@ == spec_hurt_faces(*cards, state.pile_view()[target_idx as int]),
            target_card == state.pile_view()[target_idx as int],
            target_idx < state.pile_view().len(),
            results@.len() == j,
            forall|k: int|
                0 <= k < j ==> {
                    let key = keys@[k];
                    &&& (#[trigger] results@[k]).pile_view() == hurt_pile(state.pile_view(), target_idx as int, key)
                    &&& results@[k].event_view() == if T::logs_events() {
                        state.event_view().push(Event::Damage(target_idx, target_card, hit_type, key))
                    } else {
                        state.event_view()
                    }
                    &&& results@[k].pile_log() == if T::logs_piles() {
                        state.pile_log().push(hurt_pile(state.pile_view(), target_idx as int, key))
                    } else {
                        state.pile_log()
                    }
                },
        decreases keys@.len() - j,
    {
        let key = keys[j];
        let mut new_state = state.clone_state();
        {
            let pile = new_state.get_pile_mut();
            pile_set(pile, target_idx, CardPtr { card_id: target_card.card_id, key });
        }
        let with_event = new_state.append_event(Event::Damage(target_idx, target_card, hit_type, key));
        results.push(with_event);
        j += 1;
    }
    results
}

} // verus!
