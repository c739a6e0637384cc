use handy_core::card_defs::CardDefs;
use handy_core::pile_parse::string_to_pile;
use handy_core::victory::{resolve_condition_checker, VictoryCondition, VictoryConditionResult};

#[test]
fn condition_from_options() {
    assert_eq!(resolve_condition_checker(true, Some(3), None), VictoryCondition::Win);
    assert_eq!(resolve_condition_checker(false, Some(3), Some(4)), VictoryCondition::SurviveUntilTop(3));
    assert_eq!(resolve_condition_checker(false, None, Some(4)), VictoryCondition::ExhaustCard(4));
}

#[test]
fn win_condition_follows_game_result() {
    let cards = CardDefs::new();
    let lost = string_to_pile(&cards, "6D 3C 2C 5D 8C 1C 4D 7C 9C");
    let won = string_to_pile(&cards, "6C 3C 2C 5D 8C 1C 4D 7C 9C");
    let open = string_to_pile(&cards, "1A 6A");
    assert_eq!(VictoryCondition::Win.condition_result(&cards, &lost), VictoryConditionResult::Loss);
    assert_eq!(VictoryCondition::Win.condition_result(&cards, &won), VictoryConditionResult::Win);
    assert_eq!(VictoryCondition::Win.condition_result(&cards, &open), VictoryConditionResult::Continue);
}

#[test]
fn survive_until_top() {
    let cards = CardDefs::new();
    let on_top = string_to_pile(&cards, "1A 6A");
    assert_eq!(VictoryCondition::SurviveUntilTop(1).condition_result(&cards, &on_top), VictoryConditionResult::Win);
    let below = string_to_pile(&cards, "6A 1A");
    assert_eq!(VictoryCondition::SurviveUntilTop(1).condition_result(&cards, &below), VictoryConditionResult::Continue);
    let exhausted = string_to_pile(&cards, "6A 1C");
    assert_eq!(VictoryCondition::SurviveUntilTop(1).condition_result(&cards, &exhausted), VictoryConditionResult::Loss);
    let exhausted_on_top = string_to_pile(&cards, "1C 6A");
    assert_eq!(VictoryCondition::SurviveUntilTop(1).condition_result(&cards, &exhausted_on_top), VictoryConditionResult::Loss);
    // A won game is no win for this goal.
    let won = string_to_pile(&cards, "6C 1A");
    assert_eq!(VictoryCondition::Win.condition_result(&cards, &won), VictoryConditionResult::Win);
    assert_eq!(VictoryCondition::SurviveUntilTop(1).condition_result(&cards, &won), VictoryConditionResult::Continue);
}

#[test]
fn exhaust_card() {
    let cards = CardDefs::new();
    let exhausted = string_to_pile(&cards, "1A 6C");
    assert_eq!(VictoryCondition::ExhaustCard(6).condition_result(&cards, &exhausted), VictoryConditionResult::Win);
    let alive = string_to_pile(&cards, "1A 6A");
    assert_eq!(VictoryCondition::ExhaustCard(6).condition_result(&cards, &alive), VictoryConditionResult::Continue);
    let lost = string_to_pile(&cards, "6D 3C 2C 5D 8C 1C 4D 7C 9C");
    assert_eq!(VictoryCondition::ExhaustCard(6).condition_result(&cards, &lost), VictoryConditionResult::Loss);
}

#[test]
fn reversed_search_start() {
    let cards = CardDefs::new();
    let pile = string_to_pile(&cards, "5C > 6D > 2B > 9B");
    let rev = handy_core::victory::search_start_pile(pile.clone(), true);
    assert_eq!(rev, string_to_pile(&cards, "9B 2B 6D 5C"));
    assert_eq!(handy_core::victory::search_start_pile(pile.clone(), false), pile);
}

#[test]
fn empty_pile_goals() {
    let cards = CardDefs::new();
    let empty = string_to_pile(&cards, "");
    assert_eq!(VictoryCondition::Win.condition_result(&cards, &empty), VictoryConditionResult::Win);
    assert_eq!(VictoryCondition::ExhaustCard(6).condition_result(&cards, &empty), VictoryConditionResult::Continue);
}
