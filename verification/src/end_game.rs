//! When a game is over, under the two rules that the solver knows.
use vstd::prelude::*;
use crate::card_defs::CardDefs;
use crate::card_ptr::CardPtr;
use crate::pile::{pile_cards, pile_get, pile_len, Pile};
use crate::pile_utils::{pile_valid, spec_standard_winner};
use crate::primitives::{heros, spec_heros, spec_is_hero, Allegiance, Class, Health, WinType};

verus! {

#[derive(Copy, Clone, Debug, PartialEq, Eq, Hash, Structural)]
pub enum GameEndCheckType {
    Standard,
    PerHeroClass,
}

/// Whether the game is over, by the standard rule or the per-class rule.
pub fn is_game_winner(cards: &CardDefs, pile: &Pile, game_winner_check_type: GameEndCheckType) -> (r: WinType)
    requires
        cards.wf(),
        pile_valid(*cards, pile_cards(*pile)),
    ensures
        r == match game_winner_check_type {
            GameEndCheckType::Standard => spec_standard_winner(*cards, pile_cards(*pile)),
            GameEndCheckType::PerHeroClass => spec_per_class_winner(*cards, pile_cards(*pile)),
        },
{
    match game_winner_check_type {
        GameEndCheckType::Standard => standard_check_is_game_winner(cards, pile),
        GameEndCheckType::PerHeroClass => per_class_game_resolution(cards, pile),
    }
}

/// The standard rule: see `spec_standard_winner`.
pub fn standard_check_is_game_winner(cards: &CardDefs, pile: &Pile) -> (r: WinType)
    requires
        cards.wf(),
        pile_valid(*cards, pile_cards(*pile)),
    ensures
        r == spec_standard_winner(*cards, pile_cards(*pile)),
{
    crate::pile_utils::is_game_winner(cards, pile)
}

/// The card at `i` is an alive baddie of a class that is not a hero class.
pub open spec fn alive_baddie_card(cards: CardDefs, p: Seq<CardPtr>, i: int) -> bool {
    &&& !spec_is_hero(cards.card(p[i].card_id as int).class)
    &&& cards.face(p[i]).allegiance == Allegiance::Baddie
    &&& cards.face(p[i]).health != Health::Empty
}

/// The card at `i` belongs to class `c`.
pub open spec fn card_of_class(cards: CardDefs, p: Seq<CardPtr>, i: int, c: Class) -> bool {
    cards.card(p[i].card_id as int).class == c
}

/// The card at `i` belongs to class `c` and is an alive hero.
pub open spec fn alive_hero_of_class(cards: CardDefs, p: Seq<CardPtr>, i: int, c: Class) -> bool {
    &&& card_of_class(cards, p, i, c)
    &&& cards.face(p[i]).allegiance == Allegiance::Hero
    &&& cards.face(p[i]).health != Health::Empty
}

/// The hero class `c` is in the pile and none of its cards is an alive hero.
pub open spec fn class_defeated(cards: CardDefs, p: Seq<CardPtr>, c: Class) -> bool {
    &&& exists|i: int| 0 <= i < p.len() && #[trigger] card_of_class(cards, p, i, c)
    &&& !exists|i: int| 0 <= i < p.len() && #[trigger] alive_hero_of_class(cards, p, i, c)
}

/// The per-class rule: the heroes win once no baddie card is alive; they
/// lose once every card of some hero class in the pile is exhausted or has
/// turned; otherwise the game goes on.
pub open spec fn spec_per_class_winner(cards: CardDefs, p: Seq<CardPtr>) -> WinType {
    if !exists|i: int| 0 <= i < p.len() && #[trigger] alive_baddie_card(cards, p, i) {
        WinType::Win
    } else if exists|k: int| 0 <= k < spec_heros().len() && #[trigger] class_defeated(cards, p, spec_heros()[k]) {
        WinType::Lose
    } else {
        WinType::Unresolved
    }
}

/// Whether some card of class `class` is in the pile, and whether one of
/// them is an alive hero.
fn class_status(cards: &CardDefs, pile: &Pile, class: Class) -> (r: (bool, bool))
    requires
        cards.wf(),
        pile_valid(*cards, pile_cards(*pile)),
    ensures
        r.0 == exists|i: int| 0 <= i < pile_cards(*pile).len() && #[trigger] card_of_class(*cards, pile_cards(*pile), i, class),
        r.1 == exists|i: int| 0 <= i < pile_cards(*pile).len() && #[trigger] alive_hero_of_class(*cards, pile_cards(*pile), i, class),
{
    let ghost p = pile_cards(*pile);
    let n = pile_len(pile);
    let mut seen = false;
    let mut alive = false;
    let mut i: usize = 0;
    while i < n
        invariant
            p == pile_cards(*pile),
            pile_valid(*cards, p),
            n == p.len(),
            i <= n,
            seen == exists|j: int| 0 <= j < i && #[trigger] card_of_class(*cards, p, j, class),
            alive == exists|j: int| 0 <= j < i && #[trigger] alive_hero_of_class(*cards, p, j, class),
        decreases n - i,
    {
        let card = pile_get(pile, i);
        assert(cards.has_card(p[i as int].card_id as int));
        let def = card.get_card_def(cards);
        let face = card.get_active_face(cards);
        if def.class == class {
            seen = true;
            assert(card_of_class(*cards, p, i as int, class));
            if face.allegiance == Allegiance::Hero && face.health != Health::Empty {
                alive = true;
                assert(alive_hero_of_class(*cards, p, i as int, class));
            }
        }
        i += 1;
    }
    (seen, alive)
}

/// The per-class rule: see `spec_per_class_winner`.
pub fn per_class_game_resolution(cards: &CardDefs, pile: &Pile) -> (r: WinType)
    requires
        cards.wf(),
        pile_valid(*cards, pile_cards(*pile)),
    ensures
        r == spec_per_class_winner(*cards, pile_cards(*pile)),
{
    let ghost p = pile_cards(*pile);
    let n = pile_len(pile);
    let mut player_wins = true;
    let mut i: usize = 0;
    while i < n
        invariant
            p == pile_cards(*pile),
            pile_valid(*cards, p),
            n == p.len(),
            i <= n,
            player_wins == !exists|j: int| 0 <= j < i && #[trigger] alive_baddie_card(*cards, p, j),
        decreases n - i,
    {
        let card = pile_get(pile, i);
        assert(cards.has_card(p[i as int].card_id as int));
        let active_class = card.get_card_def(cards).class;
        let active_face = card.get_active_face(cards);
        if !active_class.is_hero() {
            if active_face.allegiance == Allegiance::Baddie && active_face.health != Health::Empty {
                player_wins = false;
                assert(alive_baddie_card(*cards, p, i as int));
            }
        }
        i += 1;
    }
    if player_wins {
        return WinType::Win;
    }
    let hero_list = heros();
    let mut k: usize = 0;
    while k < hero_list.len()
        invariant
            p == pile_cards(*pile),
            pile_valid(*cards, p),
            cards.wf(),
            hero_list@ == spec_heros(),
            k <= hero_list@.len(),
            exists|j: int| 0 <= j < p.len() && #[trigger] alive_baddie_card(*cards, p, j),
            forall|m: int| 0 <= m < k ==> !#[trigger] class_defeated(*cards, p, spec_heros()[m]),
        decreases hero_list@.len() - k,
    {
        let (seen, alive) = class_status(cards, pile, hero_list[k]);
        if seen && !alive {
            assert(class_defeated(*cards, p, spec_heros()[k as int]));
            assert(exists|m: int| 0 <= m < spec_heros().len() && #[trigger] class_defeated(*cards, p, spec_heros()[m]));
            assert(exists|j: int| 0 <= j < p.len() && #[trigger] alive_baddie_card(*cards, p, j));
            return WinType::Lose;
        }
        k += 1;
    }
    WinType::Unresolved
}

} // verus!
