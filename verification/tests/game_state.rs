use handy_core::card_defs::CardDefs;
use handy_core::game_state::{
    bottom_top_card, collapse_states, perform_mandatory_action, pile_eq, EngineGameState, GameStateNoEventLog, GameStateWithEventLog,
    GameStateWithPileTrackedEventLog,
};
use handy_core::pile_parse::string_to_pile;
use handy_core::primitives::{Event, SelfAction};

#[test]
fn bottoming_moves_top_card_and_logs() {
    let cards = CardDefs::new();
    let mut state = GameStateWithEventLog::new(string_to_pile(&cards, "1A 2B 3C"));
    bottom_top_card(&mut state);
    assert_eq!(state.pile, string_to_pile(&cards, "2B 3C 1A"));
    assert_eq!(state.events, vec![Event::BottomCard]);
}

#[test]
fn bottoming_every_card_restores_the_pile() {
    let cards = CardDefs::new();
    let start = string_to_pile(&cards, "4A 6A 5A 3A 9A 8A 1A 7A 2A");
    let mut state = GameStateNoEventLog::new(start.clone());
    for _ in 0..start.len() {
        bottom_top_card(&mut state);
    }
    assert_eq!(state.pile, start);
}

#[test]
fn mandatory_action_turns_the_card() {
    let cards = CardDefs::new();
    let mut state = GameStateWithEventLog::new(string_to_pile(&cards, "1A 2B 3C"));
    perform_mandatory_action(&mut state, SelfAction::Rotate, 1);
    assert_eq!(state.pile, string_to_pile(&cards, "1A 2A 3C"));
    perform_mandatory_action(&mut state, SelfAction::Flip, 2);
    assert_eq!(state.pile, string_to_pile(&cards, "1A 2A 3A"));
    assert_eq!(state.events.len(), 2);
    assert_eq!(state.events[0], Event::Mandatory(state.pile[1], SelfAction::Rotate));
}

#[test]
fn tracked_log_keeps_piles() {
    let cards = CardDefs::new();
    let mut state = GameStateWithPileTrackedEventLog::new(string_to_pile(&cards, "1A 2B"));
    bottom_top_card(&mut state);
    assert_eq!(state.events.len(), 1);
    assert_eq!(state.events[0].0, string_to_pile(&cards, "2B 1A"));
}

#[test]
fn combine_keeps_second_pile_and_all_events() {
    let cards = CardDefs::new();
    let first = GameStateWithEventLog::new(string_to_pile(&cards, "1A")).append_event(Event::Death);
    let second = GameStateWithEventLog::new(string_to_pile(&cards, "2A")).append_event(Event::BottomCard);
    let both = GameStateWithEventLog::combine(first, second);
    assert_eq!(both.pile, string_to_pile(&cards, "2A"));
    assert_eq!(both.events, vec![Event::Death, Event::BottomCard]);
    let quiet = GameStateNoEventLog::new(string_to_pile(&cards, "1A")).append_event(Event::Death);
    assert_eq!(quiet.pile, string_to_pile(&cards, "1A"));
}

#[test]
fn dedupe_drops_repeated_piles_from_ten_states() {
    let cards = CardDefs::new();
    let few: Vec<GameStateNoEventLog> =
        (0..3).map(|_| GameStateNoEventLog::new(string_to_pile(&cards, "1A 2A"))).collect();
    assert_eq!(GameStateNoEventLog::dedupe(few).len(), 3);

    let mut many: Vec<GameStateNoEventLog> = Vec::new();
    for i in 0..12 {
        let text = if i % 2 == 0 { "1A 2A" } else { "2A 1A" };
        many.push(GameStateNoEventLog::new(string_to_pile(&cards, text)));
    }
    let kept = GameStateNoEventLog::dedupe(many);
    assert_eq!(kept.len(), 2);
    assert!(pile_eq(&kept[0].pile, &string_to_pile(&cards, "1A 2A")));
    assert!(pile_eq(&kept[1].pile, &string_to_pile(&cards, "2A 1A")));
}

#[test]
fn collapsing_keeps_the_first_state_of_each_pile() {
    let cards = CardDefs::new();
    let states = vec![
        GameStateWithEventLog::new(string_to_pile(&cards, "1A 2A")).append_event(Event::Death),
        GameStateWithEventLog::new(string_to_pile(&cards, "2A 1A")),
        GameStateWithEventLog::new(string_to_pile(&cards, "1A 2A")).append_event(Event::BottomCard),
        GameStateWithEventLog::new(string_to_pile(&cards, "1B 2A")),
        GameStateWithEventLog::new(string_to_pile(&cards, "2A 1A")).append_event(Event::Death),
    ];
    let kept = collapse_states(states);
    assert_eq!(kept.len(), 3);
    assert_eq!(kept[0].pile, string_to_pile(&cards, "1A 2A"));
    assert_eq!(kept[0].events, vec![Event::Death]);
    assert_eq!(kept[1].pile, string_to_pile(&cards, "2A 1A"));
    assert!(kept[1].events.is_empty());
    assert_eq!(kept[2].pile, string_to_pile(&cards, "1B 2A"));
    assert!(collapse_states(Vec::<GameStateNoEventLog>::new()).is_empty());
}
