use handy_core::card_defs::CardDefs;
use handy_core::engine::is_pile_ruled;
use handy_core::pile_parse::string_to_pile;
use handy_core::primitives::Event;
use handy_core::search::{print_steps_between_piles, solve};
use handy_core::victory::{search_start_pile, VictoryCondition, VictoryConditionResult};

#[test]
fn base_game_piles_are_covered_by_the_rules() {
    let cards = CardDefs::new();
    assert!(is_pile_ruled(&cards, &string_to_pile(&cards, "1 2 3 4 5 6 7 8 9")));
    assert!(is_pile_ruled(&cards, &string_to_pile(&cards, "5C 6D 2B 9B")));
}

#[test]
fn readme_puzzle_one_survives_until_top() {
    let cards = CardDefs::new();
    let pile = search_start_pile(string_to_pile(&cards, "5C > 6D > 2B > 9B"), true);
    assert!(is_pile_ruled(&cards, &pile));
    let solutions = solve(&cards, &pile, VictoryCondition::SurviveUntilTop(5), None);
    assert!(!solutions.is_empty());
    for path in &solutions {
        assert_eq!(path[path.len() - 1], pile);
        assert_eq!(path[0][0].card_id, 5);
        assert_eq!(
            VictoryCondition::SurviveUntilTop(5).condition_result(&cards, &path[0]),
            VictoryConditionResult::Win
        );
    }
}

#[test]
fn readme_puzzle_two_exhausts_in_three_turns() {
    let cards = CardDefs::new();
    let pile = search_start_pile(string_to_pile(&cards, "15A > 18A > 5A > 2B > 4A"), true);
    let solutions = solve(&cards, &pile, VictoryCondition::ExhaustCard(15), Some(3));
    assert!(!solutions.is_empty());
    for path in &solutions {
        assert_eq!(path.len(), 4);
        assert_eq!(path[3], pile);
    }
}

#[test]
fn a_set_number_of_turns_with_no_solution_gives_none() {
    let cards = CardDefs::new();
    let pile = string_to_pile(&cards, "1A 2A 3A 6A 7A");
    assert!(solve(&cards, &pile, VictoryCondition::Win, Some(1)).is_empty());
}

#[test]
fn steps_between_piles_of_a_solution_end_by_bottoming_the_card() {
    let cards = CardDefs::new();
    let pile = search_start_pile(string_to_pile(&cards, "15A > 18A > 5A > 2B > 4A"), true);
    let solutions = solve(&cards, &pile, VictoryCondition::ExhaustCard(15), Some(3));
    let path = &solutions[0];
    let events = print_steps_between_piles(&cards, &path[3], &path[2]).unwrap();
    assert!(!events.is_empty());
    assert_eq!(events[events.len() - 1], Event::BottomCard);
}

#[test]
fn steps_between_unrelated_piles_are_none() {
    let cards = CardDefs::new();
    let parent = string_to_pile(&cards, "1A 2A 3A 6A 7A");
    let child = string_to_pile(&cards, "1A 2A 3A");
    assert!(print_steps_between_piles(&cards, &parent, &child).is_none());
}
