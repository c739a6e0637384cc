use handy_core::card_defs::CardDefs;
use handy_core::game_state::{EngineGameState, GameStateNoEventLog, GameStateWithEventLog, GameStateWithPileTrackedEventLog};
use handy_core::outcomes::{find_all_revive_targets, hurt_card_get_all_outcomes};
use handy_core::pile_parse::string_to_pile;
use handy_core::primitives::{Allegiance, Event, FaceKey, HitType};

#[test]
fn revive_targets_are_exhausted_cards_of_the_side() {
    let cards = CardDefs::new();
    let pile = string_to_pile(&cards, "1A 2C 3C 4A");
    assert_eq!(find_all_revive_targets(&cards, &pile, Allegiance::Hero, 0), vec![1, 2]);
    assert_eq!(find_all_revive_targets(&cards, &pile, Allegiance::Hero, 2), vec![2]);
    assert_eq!(find_all_revive_targets(&cards, &pile, Allegiance::Hero, 9), Vec::<usize>::new());
    assert_eq!(find_all_revive_targets(&cards, &pile, Allegiance::Baddie, 0), Vec::<usize>::new());
}

#[test]
fn hurting_a_full_card_turns_it_to_its_half_face() {
    let cards = CardDefs::new();
    let state = GameStateWithEventLog::new(string_to_pile(&cards, "2A 1A"));
    let outcomes = hurt_card_get_all_outcomes(&cards, &state, 1, HitType::Hit);
    assert_eq!(outcomes.len(), 1);
    assert_eq!(outcomes[0].pile, string_to_pile(&cards, "2A 1D"));
    let before = string_to_pile(&cards, "1A")[0];
    assert_eq!(outcomes[0].events, vec![Event::Damage(1, before, HitType::Hit, FaceKey::D)]);
}

#[test]
fn hurting_a_half_card_exhausts_it() {
    let cards = CardDefs::new();
    let state = GameStateNoEventLog::new(string_to_pile(&cards, "1D 2A"));
    let outcomes = hurt_card_get_all_outcomes(&cards, &state, 0, HitType::Arrow);
    assert_eq!(outcomes.len(), 1);
    assert_eq!(outcomes[0].pile, string_to_pile(&cards, "1C 2A"));
}

#[test]
fn an_exhausted_card_cannot_be_hurt() {
    let cards = CardDefs::new();
    let state = GameStateNoEventLog::new(string_to_pile(&cards, "1C 2A"));
    assert!(hurt_card_get_all_outcomes(&cards, &state, 0, HitType::Hit).is_empty());
}

#[test]
fn tracked_hurt_outcomes_log_the_hurt_pile() {
    let cards = CardDefs::new();
    let state = GameStateWithPileTrackedEventLog::new(string_to_pile(&cards, "2A 1A"));
    let outcomes = hurt_card_get_all_outcomes(&cards, &state, 1, HitType::Hit);
    assert_eq!(outcomes.len(), 1);
    assert_eq!(outcomes[0].events.len(), 1);
    assert_eq!(outcomes[0].events[0].0, string_to_pile(&cards, "2A 1D"));
}
