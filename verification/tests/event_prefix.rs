use handy_core::card_defs::CardDefs;
use handy_core::event_prefix::{
    does_event_prefix_fit_sequence_for_state, find_next_event_matching_prefix_and_with_final_state,
    find_next_events_matching_prefix, get_next_available_events_past_prefix_allowing_skips, prefix_result_to_pile,
    should_skip_event_in_prefix_match, PrefixResult,
};
use handy_core::game_state::{bottom_top_card, EngineGameState, GameStateWithPileTrackedEventLog};
use handy_core::pile::Pile;
use handy_core::pile_parse::string_to_pile;
use handy_core::primitives::{Action, ClawSpaceType, Event, HitType, Range, SkipActionReason, Target, WrappedAction};

fn logged(start: &Pile, events: &[Event]) -> GameStateWithPileTrackedEventLog {
    let mut state = GameStateWithPileTrackedEventLog::new(start.clone());
    for e in events {
        state.mut_append_event(*e);
    }
    state
}

#[test]
fn skipped_events() {
    let cards = CardDefs::new();
    let c = string_to_pile(&cards, "1A")[0];
    let hit = WrappedAction::new(Action::Hit(Range::Int(4)), Target::Any);
    let claw = WrappedAction::new(Action::SpacedClaws(ClawSpaceType::Odd), Target::Enemy);
    assert!(should_skip_event_in_prefix_match(&Event::StartAction(c, hit)));
    assert!(!should_skip_event_in_prefix_match(&Event::StartAction(c, claw)));
    assert!(!should_skip_event_in_prefix_match(&Event::BottomCard));
}

#[test]
fn prefix_matching_steps_over_action_starts() {
    let cards = CardDefs::new();
    let pile = string_to_pile(&cards, "4A 6A 5A");
    let top = pile[0];
    let hit = WrappedAction::new(Action::Hit(Range::Int(4)), Target::Any);
    let events = [
        Event::PickRow(0, 0, top),
        Event::StartAction(top, hit),
        Event::AttackCard(1, pile[1], HitType::Hit),
        Event::BottomCard,
    ];
    let state = logged(&pile, &events);
    let prefix = vec![Event::PickRow(0, 0, top)];
    assert!(does_event_prefix_fit_sequence_for_state(&prefix, &state));
    assert!(!does_event_prefix_fit_sequence_for_state(&vec![Event::BottomCard], &state));

    let (pile_at, following) = get_next_available_events_past_prefix_allowing_skips(&prefix, &state).unwrap();
    assert_eq!(following, vec![Event::StartAction(top, hit), Event::AttackCard(1, pile[1], HitType::Hit)]);
    assert_eq!(pile_at, pile);

    let skip = vec![Event::PickRow(0, 0, top), Event::SkipAction(top, hit, SkipActionReason::Choice)];
    assert!(get_next_available_events_past_prefix_allowing_skips(&skip, &state).is_none());
}

#[test]
fn next_events_are_listed_once() {
    let cards = CardDefs::new();
    let pile = string_to_pile(&cards, "4A 6A 5A");
    let top = pile[0];
    let a = logged(&pile, &[Event::PickRow(0, 0, top), Event::BottomCard]);
    let b = logged(&pile, &[Event::PickRow(0, 0, top), Event::BottomCard]);
    let c = logged(&pile, &[Event::PickRow(1, 0, top)]);
    let d = logged(&pile, &[Event::PickRow(0, 0, top)]);
    let results = find_next_events_matching_prefix(&vec![a, b, c, d], &vec![Event::PickRow(0, 0, top)]);
    assert_eq!(results.len(), 2);
    match &results[0] {
        PrefixResult::Event(e, p) => {
            assert_eq!(*e, Event::BottomCard);
            assert_eq!(*p, pile);
        }
        PrefixResult::Pile(_) => panic!("expected an event"),
    }
    assert!(matches!(results[1], PrefixResult::Pile(_)));
    assert_eq!(prefix_result_to_pile(&results[1]), pile);
}

#[test]
fn shortest_log_to_final_pile_wins() {
    let cards = CardDefs::new();
    let pile = string_to_pile(&cards, "4A 6A 5A");
    let top = pile[0];
    let mut long = logged(&pile, &[Event::PickRow(0, 0, top), Event::Death, Event::Death]);
    bottom_top_card(&mut long);
    let mut short = logged(&pile, &[Event::PickRow(0, 0, top)]);
    bottom_top_card(&mut short);
    let final_pile = short.pile.clone();
    let best = find_next_event_matching_prefix_and_with_final_state(
        &vec![long, short],
        &vec![Event::PickRow(0, 0, top)],
        &final_pile,
    );
    assert_eq!(best, Some(Event::BottomCard));
    let none = find_next_event_matching_prefix_and_with_final_state(&vec![], &vec![], &final_pile);
    assert_eq!(none, None);
}

#[test]
fn final_piles_after_skipping_the_turn_is_the_pile_bottomed() {
    let cards = handy_core::card_defs::CardDefs::new();
    let pile = handy_core::pile_parse::string_to_pile(&cards, "1 2 3 4 5 6 7 8 9");
    let all = handy_core::event_prefix::find_final_piles_matching_prefix(&cards, &pile, &vec![]);
    assert!(!all.is_empty());
    let skip = vec![handy_core::primitives::Event::SkipTurn(pile[0])];
    let skipped = handy_core::event_prefix::find_final_piles_matching_prefix(&cards, &pile, &skip);
    let bottomed = handy_core::pile_parse::string_to_pile(&cards, "2 3 4 5 6 7 8 9 1");
    assert_eq!(skipped, vec![bottomed]);
}
