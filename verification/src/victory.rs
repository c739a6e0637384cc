//! Goals of an exhaustive search: win the game, keep a card alive until it
//! reaches the top, or exhaust a card; and how a pile stands against each.
use vstd::prelude::*;
use crate::card_defs::CardDefs;
use crate::pile::{pile_cards, pile_get, pile_len, pile_reverse, Pile};
use crate::pile_utils::{is_game_winner, pile_valid, spec_standard_winner};
use crate::primitives::{CardId, Health, WinType};

verus! {

/// Where a pile stands against a search goal.
#[derive(Copy, Clone, Debug, PartialEq, Eq, Structural)]
pub enum VictoryConditionResult {
    Win,
    Loss,
    Continue,
}

/// A goal of the exhaustive search.
#[derive(Copy, Clone, Debug, PartialEq, Eq, Structural)]
pub enum VictoryCondition {
    /// Win the game.
    Win,
    /// Bring the card to the top of the pile without it being exhausted.
    SurviveUntilTop(CardId),
    /// Exhaust the card.
    ExhaustCard(CardId),
}

/// The goal that the search options ask for: `win` first, then a card to
/// keep alive until the top, then a card to exhaust.
pub open spec fn spec_condition_from_options(
    win: bool,
    survive_until_top: Option<CardId>,
    exhaust: Option<CardId>,
) -> VictoryCondition {
    if win {
        VictoryCondition::Win
    } else if survive_until_top is Some {
        VictoryCondition::SurviveUntilTop(survive_until_top->0)
    } else {
        VictoryCondition::ExhaustCard(exhaust->0)
    }
}

/// The goal that the search options ask for; at least one must be given.
pub fn resolve_condition_checker(win: bool, survive_until_top: Option<CardId>, exhaust: Option<CardId>) -> (r:
    VictoryCondition)
    requires
        win || survive_until_top is Some || exhaust is Some,
    ensures
        r == spec_condition_from_options(win, survive_until_top, exhaust),
{
    if win {
        VictoryCondition::Win
    } else if let Some(card_id) = survive_until_top {
        VictoryCondition::SurviveUntilTop(card_id)
    } else {
        match exhaust {
            Some(card_id) => VictoryCondition::ExhaustCard(card_id),
            None => VictoryCondition::Win,
        }
    }
}

/// The card at `i` is the first with this id.
pub open spec fn first_with_id(p: Seq<crate::card_ptr::CardPtr>, id: CardId, i: int) -> bool {
    &&& 0 <= i < p.len()
    &&& p[i].card_id == id
    &&& forall|j: int| 0 <= j < i ==> #[trigger] p[j].card_id != id
}

/// The first card with this id is exhausted.
pub open spec fn first_with_id_exhausted(cards: CardDefs, p: Seq<crate::card_ptr::CardPtr>, id: CardId) -> bool {
    exists|i: int| #[trigger] first_with_id(p, id, i) && cards.face(p[i]).health == Health::Empty
}

/// Some card with this id is exhausted.
pub open spec fn some_with_id_exhausted(cards: CardDefs, p: Seq<crate::card_ptr::CardPtr>, id: CardId) -> bool {
    exists|i: int| 0 <= i < p.len() && #[trigger] p[i].card_id == id && cards.face(p[i]).health == Health::Empty
}

/// Where a pile stands against a goal.
pub open spec fn spec_condition_result(
    cond: VictoryCondition,
    cards: CardDefs,
    p: Seq<crate::card_ptr::CardPtr>,
) -> VictoryConditionResult {
    let winner = spec_standard_winner(cards, p);
    match cond {
        VictoryCondition::Win => match winner {
            WinType::Win => VictoryConditionResult::Win,
            WinType::Lose => VictoryConditionResult::Loss,
            WinType::Unresolved => VictoryConditionResult::Continue,
        },
        VictoryCondition::SurviveUntilTop(id) => if first_with_id_exhausted(cards, p, id) {
            VictoryConditionResult::Loss
        } else if p[0].card_id == id {
            VictoryConditionResult::Win
        } else if winner == WinType::Lose {
            VictoryConditionResult::Loss
        } else {
            VictoryConditionResult::Continue
        },
        VictoryCondition::ExhaustCard(id) => if some_with_id_exhausted(cards, p, id) {
            VictoryConditionResult::Win
        } else if winner == WinType::Lose {
            VictoryConditionResult::Loss
        } else {
            VictoryConditionResult::Continue
        },
    }
}

/// The position of the first card with this id, if any.
fn first_index_with_id(pile: &Pile, id: CardId) -> (r: Option<usize>)
    ensures
        r is Some ==> first_with_id(pile_cards(*pile), id, r->0 as int),
        r is None ==> forall|j: int| 0 <= j < pile_cards(*pile).len() ==> #[trigger] pile_cards(*pile)[j].card_id != id,
{
    let ghost p = pile_cards(*pile);
    let n = pile_len(pile);
    let mut i: usize = 0;
    while i < n
        invariant
            p == pile_cards(*pile),
            n == p.len(),
            i <= n,
            forall|j: int| 0 <= j < i ==> #[trigger] p[j].card_id != id,
        decreases n - i,
    {
        if pile_get(pile, i).card_id == id {
            return Some(i);
        }
        i += 1;
    }
    None
}

/// Whether some card with this id is exhausted.
fn any_with_id_exhausted(cards: &CardDefs, pile: &Pile, id: CardId) -> (r: bool)
    requires
        pile_valid(*cards, pile_cards(*pile)),
    ensures
        r == some_with_id_exhausted(*cards, pile_cards(*pile), id),
{
    let ghost p = pile_cards(*pile);
    let n = pile_len(pile);
    let mut i: usize = 0;
    while i < n
        invariant
            p == pile_cards(*pile),
            pile_valid(*cards, p),
            n == p.len(),
            i <= n,
            forall|j: int|
                0 <= j < i && #[trigger] p[j].card_id == id ==> cards.face(p[j]).health != Health::Empty,
        decreases n - i,
    {
        let card = pile_get(pile, i);
        if card.card_id == id {
            assert(cards.has_card(p[i as int].card_id as int));
            if card.get_active_face(cards).health == Health::Empty {
                assert(p[i as int].card_id == id && cards.face(p[i as int]).health == Health::Empty);
                return true;
            }
        }
        i += 1;
    }
    false
}

impl VictoryCondition {
    /// Where a pile stands against this goal. A card that must survive
    /// until the top loses as soon as its first copy is exhausted, and wins
    /// once it is on top, which needs a card on top; the other goals lose
    /// when the heroes lose, and answer for an empty pile too.
    pub fn condition_result(&self, cards: &CardDefs, pile: &Pile) -> (r: VictoryConditionResult)
        requires
            cards.wf(),
            pile_valid(*cards, pile_cards(*pile)),
            *self is SurviveUntilTop ==> pile_cards(*pile).len() > 0,
        ensures
            r == spec_condition_result(*self, *cards, pile_cards(*pile)),
    {
        let ghost p = pile_cards(*pile);
        let winner = is_game_winner(cards, pile);
        match *self {
            VictoryCondition::Win => match winner {
                WinType::Win => VictoryConditionResult::Win,
                WinType::Lose => VictoryConditionResult::Loss,
                WinType::Unresolved => VictoryConditionResult::Continue,
            },
            VictoryCondition::SurviveUntilTop(id) => {
                match first_index_with_id(pile, id) {
                    Some(i) => {
                        let card = pile_get(pile, i);
                        assert(cards.has_card(p[i as int].card_id as int));
                        if card.get_active_face(cards).health == Health::Empty {
                            assert(first_with_id(p, id, i as int) && cards.face(p[i as int]).health == Health::Empty);
                            return VictoryConditionResult::Loss;
                        }
                        proof {
                            if first_with_id_exhausted(*cards, p, id) {
                                let k = choose|k: int|
                                    #[trigger] first_with_id(p, id, k) && cards.face(p[k]).health == Health::Empty;
                                if k < i {
                                    assert(p[k].card_id != id);
                                } else if k > i {
                                    assert(p[i as int].card_id != id);
                                }
                            }
                        }
                    },
                    None => {
                        proof {
                            if first_with_id_exhausted(*cards, p, id) {
                                let k = choose|k: int|
                                    #[trigger] first_with_id(p, id, k) && cards.face(p[k]).health == Health::Empty;
                                assert(p[k].card_id != id);
                            }
                        }
                    },
                }
                if pile_get(pile, 0).card_id == id {
                    return VictoryConditionResult::Win;
                }
                match winner {
                    WinType::Lose => VictoryConditionResult::Loss,
                    _ => VictoryConditionResult::Continue,
                }
            },
            VictoryCondition::ExhaustCard(id) => {
                if any_with_id_exhausted(cards, pile, id) {
                    return VictoryConditionResult::Win;
                }
                match winner {
                    WinType::Lose => VictoryConditionResult::Loss,
                    _ => VictoryConditionResult::Continue,
                }
            },
        }
    }
}


/// The pile that a search starts from: the pile as given, or, for puzzles
/// written from right to left, reversed.
pub fn search_start_pile(pile: Pile, rev: bool) -> (r: Pile)
    ensures
        pile_cards(r) == if rev {
            pile_cards(pile).reverse()
        } else {
            pile_cards(pile)
        },
{
    let mut pile = pile;
    if rev {
        pile_reverse(&mut pile);
    }
    pile
}

} // verus!
