use handy_core::card_defs::CardDefs;
use handy_core::engine::{
    attack_all_in_range, attack_card_get_all_outcomes, move_card_by_up_to_amount, resolve_enemy_action,
    resolve_enemy_row, resolve_enemy_turn, resolve_player_action, resolve_player_row, resolve_top_card,
    swarm_me_recursive, TURN_DEPTH,
};
use handy_core::game_state::{EngineGameState, GameStateWithEventLog};
use handy_core::pile::Pile;
use handy_core::pile_utils::is_game_winner;
use handy_core::pile_parse::{string_to_card_ptr, string_to_pile};
use handy_core::primitives::{Action, Allegiance, Event, HitType, MoveType, Range, Target, WinType, WrappedAction};
use std::collections::HashSet;
use std::fmt::Debug;


type State = GameStateWithEventLog;

#[allow(dead_code)]
fn pprint<U>(thing: &Vec<U>)
where
    U: Debug,
{
    for s in thing {
        println!("{:?}", s)
    }
}

fn states_to_pile_set(game_states: &Vec<State>) -> HashSet<Pile> {
    let mut result: HashSet<Pile> = HashSet::new();

    for state in game_states {
        result.insert(state.get_pile().clone());
    }

    result
}

fn assert_actual_vs_expected_piles(actual_results: &Vec<State>, expected_strings: Vec<&str>) {
    let cards = CardDefs::new();
    let actual_piles: HashSet<Pile> = states_to_pile_set(&actual_results);
    let expected_piles: HashSet<Pile> =
        HashSet::from_iter(expected_strings.iter().map(|x| string_to_pile(&cards, x)));

    assert_eq!(actual_piles, expected_piles)
}

#[test]
fn test_bug1() {
    let cards = CardDefs::new();
    // The bug was that 9D was listed as always blocking
    let pile = string_to_pile(&cards, "2A 9D");

    let new_states = resolve_player_action(&cards, 
        &GameStateWithEventLog::new(pile),
        &WrappedAction {
            action: Action::Hit(Range::Int(1)),
            target: Target::Any,
        },
        0,
        &Vec::new(), TURN_DEPTH
    );

    assert_actual_vs_expected_piles(
        &new_states,
        vec![
            "2 9D", // Skip
            "2 9C", // Hit
        ],
    );
}

#[test]
fn test_bug2() {
    let cards = CardDefs::new();
    // 2A is not rotating after perfoming its row0 attack
    let pile = string_to_pile(&cards, "2A 9D");
    let new_states =
        resolve_player_row(&cards, &State::new(pile.clone()), &pile[0].get_active_face(&cards).rows[0], 0, TURN_DEPTH);
    assert_actual_vs_expected_piles(
        &new_states,
        vec![
            "2B 9D", // Skip
            "2B 9C", // Hit
        ],
    )
}

#[test]
fn test_bug3() {
    let cards = CardDefs::new();
    // Enemies pulling doesn't seem to work
    let pile = string_to_pile(&cards, "6A 1 2 3 4 5");
    let test_for_range = |range: Range, expected_str: &str| {
        let new_states = resolve_enemy_action(&cards, 
            &State::new(pile.clone()),
            Allegiance::Baddie,
            &WrappedAction {
                action: Action::Pull(range),
                target: Target::Enemy,
            },
            0, TURN_DEPTH
        );
        assert_actual_vs_expected_piles(&new_states, vec![expected_str]);
    };

    test_for_range(Range::Inf, "6A 5 1 2 3 4");
    test_for_range(Range::Int(5), "6A 5 1 2 3 4");
    test_for_range(Range::Int(4), "6A 4 1 2 3 5");
    test_for_range(Range::Int(3), "6A 3 1 2 4 5");
    test_for_range(Range::Int(2), "6A 2 1 3 4 5");
    test_for_range(Range::Int(10), "6A 5 1 2 3 4");

    {
        // Pull 1
        let result = resolve_enemy_action(&cards, 
            &State::new(pile),
            Allegiance::Baddie,
            &WrappedAction {
                action: Action::Pull(Range::Int(1)),
                target: Target::Enemy,
            },
            0, TURN_DEPTH
        );
        assert_eq!(result.len(), 0);
    }
}

#[test]
fn test_bug4() {
    let cards = CardDefs::new();
    // Not showing pull action
    let pile = string_to_pile(&cards, "6A 1 2 3 4A");
    let row = &pile[0].get_active_face(&cards).rows[0];
    let new_states =
        resolve_enemy_row(&cards, &State::new(pile.clone()), Allegiance::Baddie, row, 0, false, TURN_DEPTH);

    assert_eq!(new_states.len(), 2);

    for state in new_states {
        assert!(state
            .events
            .contains(&Event::Pull(4, string_to_card_ptr(&cards, "4A"))));
    }
}
#[test]
fn test_bug5() {
    let cards = CardDefs::new();
    // Not showing pull action
    let pile = string_to_pile(&cards, "p2A, o9C, p4B, p3B, p1A, o8B, o7C, p5D, o6B");
    let new_states = resolve_player_action(&cards, 
        &State::new(pile),
        &WrappedAction {
            action: Action::Delay(Range::Int(2)),
            target: Target::Any,
        },
        0,
        &Vec::new(), TURN_DEPTH
    );

    assert_actual_vs_expected_piles(
        &new_states,
        vec![
            "2A 9C 4B 3B 1A 8B 7C 5D 6B", // Skip
            "2A 9C 3B 4B 1A 8B 7C 5D 6B", // Delay(2, p4B, 1)
            "2A 9C 3B 1A 4B 8B 7C 5D 6B", // Delay(2, p4B, 2)
            "2A 9C 4B 1A 3B 8B 7C 5D 6B", // Delay(3, p3B, 1)
            "2A 9C 4B 1A 8B 3B 7C 5D 6B", // Delay(3, p3B, 2)
            "2A 9C 4B 3B 8B 1A 7C 5D 6B", // Delay(4, p1A, 1)
            "2A 9C 4B 3B 8B 7C 1A 5D 6B", // Delay(4, p1A, 2)
            "2A 9C 4B 3B 1A 8B 5D 7C 6B", // Delay(6, o7C, 1)
            "2A 9C 4B 3B 1A 8B 5D 6B 7C", // Delay(6, o7C, 2)
            "2A 9C 4B 3B 1A 8B 7C 6B 5D", // Delay(7, p5D, 1)
        ],
    );
}

#[test]
fn test_bug6() {
    let cards = CardDefs::new();
    // Don't remember what was wrong here
    let pile = string_to_pile(&cards, "9A 6A 3A 7A 8A 1A 4A 5A 2A");
    let new_states = resolve_top_card(&cards, &State::new(pile));

    assert_actual_vs_expected_piles(&new_states, vec!["6A 7A 8A 1A 4A 5A 2A 3A 9B"]);
}

#[test]
fn test_bug7() {
    let cards = CardDefs::new();
    // When an enemy can't make an action, their other actions are ignored
    let pile = string_to_pile(&cards, "9A 7A 8A 6B 4A 5A 2A 1D 3B");
    let new_states = resolve_top_card(&cards, &State::new(pile.clone()));

    assert_actual_vs_expected_piles(&new_states, vec!["7A 8A 6B 4A 5A 2A 1D 3B 9A"]);
    assert_eq!(
        new_states[0].events,
        vec![Event::SkipTurn(pile[0]), Event::BottomCard]
    )
}

#[test]
fn test_bug8() {
    let cards = CardDefs::new();
    // Didn't allow moving 0 health unit through traps, since the attack would fizzle
    let pile = string_to_pile(&cards, "10C 18C 14C");
    let new_states = resolve_player_action(&cards, 
        &State::new(pile),
        &WrappedAction {
            action: Action::Delay(Range::Int(1)),
            target: Target::Any,
        },
        0,
        &Vec::new(), TURN_DEPTH
    );

    assert_actual_vs_expected_piles(
        &new_states,
        vec![
            "10C 18C 14C", // Skip
            "10C 14C 18C", // Move
        ],
    );
}

#[test]
fn test_bug9() {
    let cards = CardDefs::new();
    // Block and attack both send 4 to D? Block should send it to B. UI bug only
    let pile = string_to_pile(&cards, "5A 4A 8A");
    let new_states = resolve_player_action(&cards, 
        &State::new(pile),
        &WrappedAction {
            action: Action::Hit(Range::Int(1)),
            target: Target::Any,
        },
        0,
        &Vec::new(), TURN_DEPTH
    );

    assert_actual_vs_expected_piles(
        &new_states,
        vec![
            "5A 4A 8A", // Skip
            "5A 4B 8A", // Block
            "5A 4C 8A", // Hit
        ],
    );
}

#[test]
fn test_bug10() {
    let cards = CardDefs::new();
    {
        // 6A pulls first, and player has a choice to dodge or not dodge
        // Bug was that when the player dodged, 6As attack would fizzle, and
        // the engine would count that as a failed row, thus not allowing it
        // Fixed by accounting for skipped actions per-state, instead of checking if any
        // actions fizzled
        let state = State::new(string_to_pile(&cards, "6A 11D 14A"));
        let new_states = resolve_enemy_row(&cards, 
            &state,
            Allegiance::Baddie,
            &state.pile[0].get_active_face(&cards).rows[0],
            0,
            false, TURN_DEPTH
        );

        assert_actual_vs_expected_piles(
            &new_states,
            vec![
                "6B, 11D, 14B", // Dodge the pull
                "6B, 14B, 11D", // Dodge the attack
                "6B, 14C, 11D", // Get hit
            ],
        );
    }
}

#[test]
fn test_bug11() {
    let cards = CardDefs::new();
    {
        // Werewolf was able to pull & push heavy monsters
        let state = State::new(string_to_pile(&cards, "32C 9A 30A 8A 7A"));
        let new_states = resolve_enemy_row(&cards, 
            &state,
            Allegiance::Werewolf,
            &state.pile[0].get_active_face(&cards).rows[0],
            0,
            false, TURN_DEPTH
        );

        assert_actual_vs_expected_piles(
            &new_states,
            vec![
                "32D 8C 9D 30A 7A", // Dodge the pull
            ],
        );
    }
}

#[test]
fn test_partial_row_fizzle() {
    let cards = CardDefs::new();
    // Just another case of bug10
    let state = State::new(string_to_pile(&cards, "33C 1D"));
    let new_states = resolve_enemy_row(&cards, 
        &state,
        Allegiance::Baddie,
        &state.pile[0].get_active_face(&cards).rows[2],
        0,
        false, TURN_DEPTH
    );

    assert_actual_vs_expected_piles(
        &new_states,
        vec![
            "33D 1C", // 1 Gets hit 1 time
        ],
    );
}

#[test]
fn logic_test_game_over() {
    let cards = CardDefs::new();
    {
        let pile = string_to_pile(&cards, "6D 3C 2C 5D 8C 1C 4D 7C 9C");
        assert_eq!(is_game_winner(&cards, &pile), WinType::Lose);
    }

    {
        let pile = string_to_pile(&cards, "6C 3C 2C 5D 8C 1C 4D 7C 9C");
        assert_eq!(is_game_winner(&cards, &pile), WinType::Win);
    }
}

#[test]
fn test_player_hit_basic() {
    let cards = CardDefs::new();
    let pile = string_to_pile(&cards, "4C 1A 8A 9A");
    let new_states = resolve_player_action(&cards, 
        &State::new(pile),
        &WrappedAction {
            action: Action::Hit(Range::Inf),
            target: Target::Any,
        },
        0,
        &vec![], TURN_DEPTH
    );

    assert_actual_vs_expected_piles(
        &new_states,
        vec![
            "4C 1A 8A 9A", // Skip
            "4C 1D 8A 9A", // Hit 1
            "4C 1A 8D 9A", // Hit 8
            "4C 1A 8A 9D", // Hit 9
        ],
    );
}

#[test]
fn test_player_hit_enemy_blocker() {
    let cards = CardDefs::new();
    {
        let pile = string_to_pile(&cards, "4C 1A 8A 6B 9A");
        let new_states = resolve_player_action(&cards, 
            &State::new(pile),
            &WrappedAction {
                action: Action::Hit(Range::Inf),
                target: Target::Any,
            },
            0,
            &vec![], TURN_DEPTH
        );

        assert_actual_vs_expected_piles(
            &new_states,
            vec![
                "4C 1A 8A 6B 9A", // Skip
                "4C 1D 8A 6B 9A", // Hit 1
                "4C 1A 8A 6A 9A", // 6 Blocks
            ],
        );
    }
}

#[test]
fn test_player_hit_enemy_many_blockers() {
    let cards = CardDefs::new();
    {
        let pile = string_to_pile(&cards, "4C 6B 9B 8A");
        let new_states = resolve_player_action(&cards, 
            &State::new(pile),
            &WrappedAction {
                action: Action::Hit(Range::Inf),
                target: Target::Any,
            },
            0,
            &vec![], TURN_DEPTH
        );

        assert_actual_vs_expected_piles(
            &new_states,
            vec![
                "4C 6B 9B 8A", // Skip
                "4C 6B 9A 8A", // 9 Blocks
                               // Can only hit furthest back blocker
            ],
        );
    }
}

#[test]
fn test_player_hit_player_blocker() {
    let cards = CardDefs::new();
    {
        let pile = string_to_pile(&cards, "4C 1A 2B 8A 6B");
        let new_states = resolve_player_action(&cards, 
            &State::new(pile),
            &WrappedAction {
                action: Action::Hit(Range::Inf),
                target: Target::Any,
            },
            0,
            &vec![], TURN_DEPTH
        );

        assert_actual_vs_expected_piles(
            &new_states,
            vec![
                "4C 1A 2B 8A 6B", // Skip
                "4C 1D 2B 8A 6B", // Hit 1
                "4C 1A 2A 8A 6B", // 2 Blocks
                "4C 1A 2D 8A 6B", // Hit 2
                "4C 1A 2B 8A 6A", // 6 Blocks
            ],
        );
    }
}

#[test]
fn test_werewolf_hits() {
    let cards = CardDefs::new();
    {
        let pile = string_to_pile(&cards, "8A 29C 28A");
        let new_states = resolve_enemy_action(&cards, 
            &State::new(pile),
            Allegiance::Baddie,
            &WrappedAction {
                action: Action::Hit(Range::Inf),
                target: Target::Enemy,
            },
            0, TURN_DEPTH
        );

        // Werewolf blocks the hit
        assert_actual_vs_expected_piles(&new_states, vec!["8A 29D 28A"])
    }

    {
        let pile = string_to_pile(&cards, "8A 28A 29C");
        let new_states = resolve_enemy_action(&cards, 
            &State::new(pile),
            Allegiance::Baddie,
            &WrappedAction {
                action: Action::Hit(Range::Inf),
                target: Target::Enemy,
            },
            0, TURN_DEPTH
        );

        // Werewolf doesn't block for the hero card
        assert_actual_vs_expected_piles(&new_states, vec!["8A 28D 29C", "8A 28C 29C"])
    }

    {
        // Furthest back werewolf blocks for the other
        let pile = string_to_pile(&cards, "8A 28C 29C 30A");
        let new_states = resolve_enemy_action(&cards, 
            &State::new(pile),
            Allegiance::Baddie,
            &WrappedAction {
                action: Action::Hit(Range::Inf),
                target: Target::Enemy,
            },
            0, TURN_DEPTH
        );

        // Furthest back werewolf should block
        assert_actual_vs_expected_piles(&new_states, vec!["8A 28C 29D 30A"])
    }

    {
        // Furthest back werewolf blocks for the other, for hero attacks too
        let pile = string_to_pile(&cards, "1A 28C 29C 30A");
        let new_states = resolve_enemy_action(&cards, 
            &State::new(pile),
            Allegiance::Hero,
            &WrappedAction {
                action: Action::Hit(Range::Inf),
                target: Target::Enemy,
            },
            0, TURN_DEPTH
        );

        // Furthest back werewolf should block
        assert_actual_vs_expected_piles(&new_states, vec!["1A 28C 29D 30A"])
    }
}

#[test]
fn test_werewolf_spider() {
    let cards = CardDefs::new();
    let starting_pile = string_to_pile(&cards, "28C 26A");
    let new_states = resolve_enemy_turn(&cards, &State::new(starting_pile), Allegiance::Werewolf, 0, TURN_DEPTH);
    // Werewolf can't perform the attack
    let futures = states_to_pile_set(&new_states);
    let expected_futures = HashSet::from([string_to_pile(&cards, "28C 26A")]);
    assert_eq!(futures, expected_futures);
}

#[test]
fn test_swarm_inspire() {
    let cards = CardDefs::new();
    let starting_pile = string_to_pile(&cards, "30A 24A 27B 29A");
    let new_states = resolve_player_action(&cards, 
        &GameStateWithEventLog::new(starting_pile),
        &WrappedAction {
            action: Action::Inspire,
            target: Target::Enemy,
        },
        0,
        &Vec::new(), TURN_DEPTH
    );

    // When player inspires 24, 27 should swarm
    let futures = states_to_pile_set(&new_states);
    let expected_futures = HashSet::from([
        string_to_pile(&cards, "30A 24A 27B 29A"), // Skip, or inspire 27B
        string_to_pile(&cards, "30A 24A 27B 29B"), // Werewolf doens't block so 24A doesn't
        // activate
        string_to_pile(&cards, "30A 24B 27B 29B"), // Werewolf blocks so 24 activates and
                                           // rotates
    ]);
    assert_eq!(futures, expected_futures);
}

#[test]
fn test_attacks() {
    let cards = CardDefs::new();
    {
        // Basic healthy -> hurt
        let outcomes =
            attack_card_get_all_outcomes(&cards, &State::new(string_to_pile(&cards, "1A")), 0, HitType::Hit, TURN_DEPTH);
        assert_actual_vs_expected_piles(&outcomes, vec!["1D"]);
    }

    {
        // hurt -> exhausted
        let outcomes =
            attack_card_get_all_outcomes(&cards, &State::new(string_to_pile(&cards, "1D")), 0, HitType::Hit, TURN_DEPTH);
        assert_actual_vs_expected_piles(&outcomes, vec!["1C"]);
    }

    {
        // exhausted -> no options
        let outcomes =
            attack_card_get_all_outcomes(&cards, &State::new(string_to_pile(&cards, "1C")), 0, HitType::Hit, TURN_DEPTH);
        assert_actual_vs_expected_piles(&outcomes, vec![]);
    }

    {
        // can shield or not
        let outcomes =
            attack_card_get_all_outcomes(&cards, &State::new(string_to_pile(&cards, "5A")), 0, HitType::Hit, TURN_DEPTH);
        assert_actual_vs_expected_piles(&outcomes, vec!["5B", "5C"]);
    }

    {
        // If reaction is forced, we can only block
        let outcomes =
            attack_card_get_all_outcomes(&cards, &State::new(string_to_pile(&cards, "7B")), 0, HitType::Hit, TURN_DEPTH);
        assert_actual_vs_expected_piles(&outcomes, vec!["7A"]);
    }

    {
        // Can be hurt 2 ways
        let outcomes =
            attack_card_get_all_outcomes(&cards, &State::new(string_to_pile(&cards, "33B")), 0, HitType::Hit, TURN_DEPTH);
        assert_actual_vs_expected_piles(&outcomes, vec!["33C", "33D"]);
    }

    {
        // Can be hurt 2 ways. Even with forced reactions
        let outcomes =
            attack_card_get_all_outcomes(&cards, &State::new(string_to_pile(&cards, "45A")), 0, HitType::Hit, TURN_DEPTH);
        assert_actual_vs_expected_piles(&outcomes, vec!["45C", "45D"]);
    }

    {
        // The exhausted card has a reaction trigger, apply it.
        let outcomes =
            attack_card_get_all_outcomes(&cards, &State::new(string_to_pile(&cards, "33C")), 0, HitType::Hit, TURN_DEPTH);
        assert_actual_vs_expected_piles(&outcomes, vec!["33D"]);
    }
}

#[test]
fn test_beastmaster_gets_attacked() {
    let cards = CardDefs::new();
    {
        // beastmaster can pull in an assist to block
        let outcomes =
            attack_card_get_all_outcomes(&cards, &State::new(string_to_pile(&cards, "37A 40A")), 0, HitType::Hit, TURN_DEPTH);
        assert_actual_vs_expected_piles(
            &outcomes,
            vec![
                "37C 40A", // Get Hit
                "37B 40B", // React assist to block
            ],
        );
    }

    {
        // pull in assist dodge too
        let outcomes =
            attack_card_get_all_outcomes(&cards, &State::new(string_to_pile(&cards, "37A 41A")), 0, HitType::Hit, TURN_DEPTH);
        assert_actual_vs_expected_piles(
            &outcomes,
            vec![
                "37C 41A", // Get Hit
                "37B 41B", // React assist to dodge
            ],
        );
    }
}

#[test]
fn test_beastmaster_block_for_ally() {
    let cards = CardDefs::new();
    {
        let pile = string_to_pile(&cards, "6A 38B 37A 40A");
        // Can assist block on behalf of ally
        let outcomes = resolve_enemy_action(&cards, 
            &State::new(pile),
            Allegiance::Baddie,
            &WrappedAction {
                action: Action::Hit(Range::Inf),
                target: Target::Enemy,
            },
            0, TURN_DEPTH
        );
        assert_actual_vs_expected_piles(
            &outcomes,
            vec![
                "6A 38C 37A 40A", // Get Hit
                "6A 38B 37B 40B", // blocked by 37, assisted by 41
            ],
        );
    }

    {
        // Dodge doesn't work
        let outcomes = resolve_enemy_action(&cards, 
            &State::new(string_to_pile(&cards, "6A 38B 37A 41A")),
            Allegiance::Baddie,
            &WrappedAction {
                action: Action::Hit(Range::Inf),
                target: Target::Enemy,
            },
            0, TURN_DEPTH
        );
        assert_actual_vs_expected_piles(
            &outcomes,
            vec![
                "6A 38C 37A 41A", // Get Hit
            ],
        );
    }
}

#[test]
fn test_enemy_push() {
    let cards = CardDefs::new();
    let tester = |start: &str, range: Range, target: Target, expected: &str| {
        let pile = string_to_pile(&cards, start);
        let expected_pile = string_to_pile(&cards, expected);

        let result_states = resolve_enemy_action(&cards, 
            &State::new(pile),
            Allegiance::Baddie,
            &WrappedAction {
                action: Action::Push(range),
                target,
            },
            0, TURN_DEPTH
        );

        if start == expected {
            // Expect no change
            assert_eq!(result_states.len(), 0);
        } else {
            assert_eq!(result_states.len(), 1);
            let end_pile = &result_states[0].pile;
            assert_eq!(end_pile, &expected_pile);
        }
    };

    tester("7 8 9 1 2 3", Range::Inf, Target::Enemy, "7 8 9 2 3 1");
    tester("7 8 9 1 2 3", Range::Int(10), Target::Enemy, "7 8 9 2 3 1");
    tester("7 8 9 1 2 3", Range::Int(3), Target::Enemy, "7 8 9 2 3 1");
    tester("7 8 9 1 2 3", Range::Int(2), Target::Enemy, "7 8 9 1 2 3");

    tester("7 8 9 1 2 3", Range::Inf, Target::Ally, "7 9 1 2 3 8");
    tester("7 8 9 1 2 3", Range::Inf, Target::Any, "7 9 1 2 3 8");
}

#[test]
fn test_enemy_heal() {
    let cards = CardDefs::new();
    let pile = string_to_pile(&cards, "9D 6D 3D 7A 8D");

    let new_states_1 = resolve_enemy_action(&cards, 
        &State::new(pile.clone()),
        Allegiance::Baddie,
        &WrappedAction {
            action: Action::Heal,
            target: Target::Ally,
        },
        0, TURN_DEPTH
    );

    {
        let futures = states_to_pile_set(&new_states_1);
        let expected_futures = HashSet::from([string_to_pile(&cards, "9D 6A 3D 7A 8D")]);

        assert_eq!(futures, expected_futures);
    }

    let new_states_2 = resolve_enemy_action(&cards, 
        &State::new(new_states_1[0].pile.clone()),
        Allegiance::Baddie,
        &WrappedAction {
            action: Action::Heal,
            target: Target::Ally,
        },
        0, TURN_DEPTH
    );

    {
        let futures = states_to_pile_set(&new_states_2);
        let expected_futures = HashSet::from([string_to_pile(&cards, "9D 6A 3D 7A 8A")]);

        assert_eq!(futures, expected_futures);
    }
}

#[test]
fn test_player_heal() {
    let cards = CardDefs::new();
    {
        let new_states = resolve_player_action(&cards, 
            &State::new(string_to_pile(&cards, "8D 6D 3D 1D 2C")),
            &WrappedAction {
                action: Action::Heal,
                target: Target::Ally,
            },
            0,
            &Vec::new(), TURN_DEPTH
        );

        assert_actual_vs_expected_piles(
            &new_states,
            vec!["8D 6D 3D 1D 2C", "8D 6D 3A 1D 2C", "8D 6D 3D 1A 2C"],
        );
    }

    {
        let new_states = resolve_player_action(&cards, 
            &State::new(string_to_pile(&cards, "8D 6D 3D 1D 2C")),
            &WrappedAction {
                action: Action::Heal,
                target: Target::Any,
            },
            0,
            &Vec::new(), TURN_DEPTH
        );

        let futures = states_to_pile_set(&new_states);
        let expected_futures = HashSet::from([
            string_to_pile(&cards, "8D 6D 3D 1D 2C"), // Skip
            string_to_pile(&cards, "8D 6D 3A 1D 2C"), // Heal 3
            string_to_pile(&cards, "8D 6D 3D 1A 2C"), // Heal 1
            string_to_pile(&cards, "8D 6A 3D 1D 2C"), // Heal 6
                                              // 2 is dead, can't be healed
                                              // 8 is active, can't be healed
        ]);
        assert_eq!(futures, expected_futures);
    }
}

#[test]
fn test_move_card_by_up_to_amount() {
    let cards = CardDefs::new();
    let starting_pile = string_to_pile(&cards, "1 7 2 6 5 4 8 9 3");
    {
        let new_states =
            move_card_by_up_to_amount(&cards, &State::new(starting_pile), 3, 2, MoveType::Quicken, TURN_DEPTH);
        assert_actual_vs_expected_piles(
            &new_states,
            vec!["1 7 6 2 5 4 8 9 3", "1 6 7 2 5 4 8 9 3"],
        );
    }
}

#[test]
fn test_quicken_delay() {
    let cards = CardDefs::new();
    let starting_pile = string_to_pile(&cards, "1 7 2 6 5 4 8 9 3");

    {
        let new_states = resolve_player_action(&cards, 
            &State::new(starting_pile.clone()),
            &WrappedAction {
                action: Action::Quicken(Range::Int(2)),
                target: Target::Any,
            },
            2,
            &Vec::new(), TURN_DEPTH
        );

        let futures = states_to_pile_set(&new_states);
        let expected_futures = HashSet::from([
            string_to_pile(&cards, "1 7 2 6 8 5 4 9 3"),
            string_to_pile(&cards, "1 7 2 6 4 5 8 9 3"),
            string_to_pile(&cards, "1 7 2 4 6 5 8 9 3"),
            string_to_pile(&cards, "1 7 2 6 5 9 4 8 3"),
            string_to_pile(&cards, "1 7 2 6 5 4 3 8 9"),
            string_to_pile(&cards, "1 7 2 6 5 8 4 9 3"),
            string_to_pile(&cards, "1 7 2 5 6 4 8 9 3"),
            string_to_pile(&cards, "1 7 2 6 5 4 9 8 3"),
            string_to_pile(&cards, "1 7 2 6 5 4 8 9 3"),
            string_to_pile(&cards, "1 7 2 6 5 4 8 3 9"),
        ]);
        assert_eq!(futures, expected_futures);
    }

    {
        let new_states = resolve_player_action(&cards, 
            &State::new(starting_pile.clone()),
            &WrappedAction {
                action: Action::Quicken(Range::Int(2)),
                target: Target::Ally,
            },
            2,
            &Vec::new(), TURN_DEPTH
        );

        let futures = states_to_pile_set(&new_states);
        let expected_futures = HashSet::from([
            string_to_pile(&cards, "1 7 2 6 4 5 8 9 3"),
            string_to_pile(&cards, "1 7 2 4 6 5 8 9 3"),
            string_to_pile(&cards, "1 7 2 6 5 4 3 8 9"),
            string_to_pile(&cards, "1 7 2 5 6 4 8 9 3"),
            string_to_pile(&cards, "1 7 2 6 5 4 8 9 3"),
            string_to_pile(&cards, "1 7 2 6 5 4 8 3 9"),
        ]);

        assert_eq!(futures, expected_futures);
    }

    {
        let new_states = resolve_player_action(&cards, 
            &State::new(starting_pile.clone()),
            &WrappedAction {
                action: Action::Quicken(Range::Int(2)),
                target: Target::Enemy,
            },
            2,
            &Vec::new(), TURN_DEPTH
        );

        let futures = states_to_pile_set(&new_states);
        let expected_futures = HashSet::from([
            string_to_pile(&cards, "1 7 2 6 8 5 4 9 3"),
            string_to_pile(&cards, "1 7 2 6 5 9 4 8 3"),
            string_to_pile(&cards, "1 7 2 6 5 8 4 9 3"),
            string_to_pile(&cards, "1 7 2 6 5 4 9 8 3"),
            string_to_pile(&cards, "1 7 2 6 5 4 8 9 3"),
        ]);

        assert_eq!(futures, expected_futures);
    }

    {
        let new_states = resolve_player_action(&cards, 
            &State::new(starting_pile.clone()),
            &WrappedAction {
                action: Action::Quicken(Range::Int(2)),
                target: Target::Any,
            },
            2,
            &Vec::new(), TURN_DEPTH
        );

        let futures = states_to_pile_set(&new_states);
        let expected_futures = HashSet::from([
            string_to_pile(&cards, "1 7 2 6 5 8 4 9 3"),
            string_to_pile(&cards, "1 7 2 6 5 4 9 8 3"),
            string_to_pile(&cards, "1 7 2 6 5 9 4 8 3"),
            string_to_pile(&cards, "1 7 2 6 5 4 3 8 9"),
            string_to_pile(&cards, "1 7 2 6 8 5 4 9 3"),
            string_to_pile(&cards, "1 7 2 5 6 4 8 9 3"),
            string_to_pile(&cards, "1 7 2 6 5 4 8 3 9"),
            string_to_pile(&cards, "1 7 2 4 6 5 8 9 3"),
            string_to_pile(&cards, "1 7 2 6 4 5 8 9 3"),
            string_to_pile(&cards, "1 7 2 6 5 4 8 9 3"),
        ]);
        assert_eq!(futures, expected_futures);
    }
}

#[test]
fn test_quicken_trap() {
    let cards = CardDefs::new();
    // 10C and 14C have traps. Only enemy is at the end
    let starting_pile = string_to_pile(&cards, "11A 10C 14C 6B");

    let new_states = resolve_player_action(&cards, 
        &State::new(starting_pile),
        &WrappedAction {
            action: Action::Quicken(Range::Int(3)),
            target: Target::Enemy,
        },
        0,
        &Vec::new(), TURN_DEPTH
    );

    let futures = states_to_pile_set(&new_states);
    let expected_futures = HashSet::from([
        string_to_pile(&cards, "11A 10C 14C 6B"), // Skip
        string_to_pile(&cards, "11A 10C 6A 14C"), // Move over first trap
        string_to_pile(&cards, "11A 6D 10C 14C"), // Move over second trap
    ]);
    assert_eq!(futures, expected_futures);
}

#[test]
fn test_quicken_trap_with_allies() {
    let cards = CardDefs::new();
    // No friendly fire
    let starting_pile = string_to_pile(&cards, "11A 10C 14C");

    let new_states = resolve_player_action(&cards, 
        &State::new(starting_pile),
        &WrappedAction {
            action: Action::Quicken(Range::Int(3)),
            target: Target::Ally,
        },
        0,
        &Vec::new(), TURN_DEPTH
    );

    let futures = states_to_pile_set(&new_states);
    let expected_futures = HashSet::from([
        string_to_pile(&cards, "11A 10C 14C"), // Skip
        string_to_pile(&cards, "11A 14C 10C"), // Move
    ]);
    assert_eq!(futures, expected_futures);
}

#[test]
fn test_delay_trap() {
    let cards = CardDefs::new();
    let starting_pile = string_to_pile(&cards, "11A 6B 10C 14C");

    let new_states = resolve_player_action(&cards, 
        &State::new(starting_pile),
        &WrappedAction {
            action: Action::Delay(Range::Int(3)),
            target: Target::Enemy,
        },
        0,
        &Vec::new(), TURN_DEPTH
    );

    let futures = states_to_pile_set(&new_states);
    let expected_futures = HashSet::from([
        string_to_pile(&cards, "11A 6B 10C 14C "), // Skip
        string_to_pile(&cards, "11A 10C 6A 14C"),  // Move over first trap
        string_to_pile(&cards, "11A 10C 14C 6D"),  // Move over second trap
    ]);
    assert_eq!(futures, expected_futures);
}

#[test]
fn test_quicken_trap_into_weight() {
    let cards = CardDefs::new();
    // 6D is heavy, so we won't move it over the second trap once it takes damage
    let starting_pile = string_to_pile(&cards, "11A 10C 14C 6A");

    let new_states = resolve_player_action(&cards, 
        &State::new(starting_pile),
        &WrappedAction {
            action: Action::Quicken(Range::Int(2)),
            target: Target::Enemy,
        },
        0,
        &Vec::new(), TURN_DEPTH
    );

    let futures = states_to_pile_set(&new_states);
    let expected_futures = HashSet::from([
        string_to_pile(&cards, "11A 10C 14C 6A"), // Skip
        string_to_pile(&cards, "11A 10C 6D 14C"), // Move over first trap
                                          // We won't move over the second trap,
    ]);
    assert_eq!(futures, expected_futures);
}

#[test]
fn test_standard_ally_pull() {
    let cards = CardDefs::new();
    {
        let new_states = resolve_enemy_action(&cards, 
            &State::new(string_to_pile(&cards, "26A 12A 13B 27B")),
            Allegiance::Baddie,
            &WrappedAction {
                action: Action::Pull(Range::Inf),
                target: Target::Ally,
            },
            0, TURN_DEPTH
        );

        assert_actual_vs_expected_piles(
            &new_states,
            vec![
                "26A 27B 12A 13B", // 27 pulled over no traps
            ],
        );
    }
}

#[test]
fn test_ally_pull_over_trap() {
    let cards = CardDefs::new();
    {
        let new_states = resolve_enemy_action(&cards, 
            &State::new(string_to_pile(&cards, "26A 12A 13A 27B")),
            Allegiance::Baddie,
            &WrappedAction {
                action: Action::Pull(Range::Inf),
                target: Target::Ally,
            },
            0, TURN_DEPTH
        );

        assert_actual_vs_expected_piles(
            &new_states,
            vec![
                "26A 27A 12A 13A", // 27 pulled and takes damage over 13
            ],
        );
    }
}

#[test]
fn test_ally_pull_over_multi_traps() {
    let cards = CardDefs::new();
    {
        let new_states = resolve_enemy_action(&cards, 
            &State::new(string_to_pile(&cards, "26A 10A 12B 13A 27B")),
            Allegiance::Baddie,
            &WrappedAction {
                action: Action::Pull(Range::Inf),
                target: Target::Ally,
            },
            0, TURN_DEPTH
        );

        assert_actual_vs_expected_piles(
            &new_states,
            vec![
                "26A 27C 10A 12B 13A", // 27 pulled and takes 3 damage
            ],
        );
    }
}

#[test]
fn test_ally_pull_exhausted_over_trap() {
    let cards = CardDefs::new();
    {
        let new_states = resolve_enemy_action(&cards, 
            &State::new(string_to_pile(&cards, "26A 12A 13A 27C")),
            Allegiance::Baddie,
            &WrappedAction {
                action: Action::Pull(Range::Inf),
                target: Target::Ally,
            },
            0, TURN_DEPTH
        );

        assert_actual_vs_expected_piles(
            &new_states,
            vec![
                "26A 27C 12A 13A", // 27 pulled but cant take damage
            ],
        );
    }
}

#[test]
fn test_pull_with_options_over_trap() {
    let cards = CardDefs::new();
    {
        let new_states = resolve_enemy_action(&cards, 
            &State::new(string_to_pile(&cards, "36C 10A 35B")),
            Allegiance::Baddie,
            &WrappedAction {
                action: Action::Pull(Range::Inf),
                target: Target::Ally,
            },
            0, TURN_DEPTH
        );

        assert_actual_vs_expected_piles(
            &new_states,
            vec![
                "36C 35C 10A", // Hurt 35 to C
                "36C 35D 10A", // Hurt 35 to D
            ],
        );
    }
}

#[test]
fn test_pull_hero_over_trap() {
    let cards = CardDefs::new();
    {
        let new_states = resolve_enemy_action(&cards, 
            &State::new(string_to_pile(&cards, "8D 10A 12B")),
            Allegiance::Baddie,
            &WrappedAction {
                action: Action::Pull(Range::Inf),
                target: Target::Enemy,
            },
            0, TURN_DEPTH
        );

        assert_actual_vs_expected_piles(&new_states, vec!["8D 12B 10A"]);
    }
}

#[test]
fn test_pull_dodge() {
    let cards = CardDefs::new();
    let starting_pile = string_to_pile(&cards, "6 8 12");

    let new_states = resolve_enemy_action(&cards, 
        &State::new(starting_pile),
        Allegiance::Baddie,
        &WrappedAction {
            action: Action::Pull(Range::Inf),
            target: Target::Enemy,
        },
        0, TURN_DEPTH
    );

    let futures = states_to_pile_set(&new_states);
    let expected_futures = HashSet::from([
        string_to_pile(&cards, "6 12A 8"), // Skip
        string_to_pile(&cards, "6 8 12B"), // Dodge
    ]);
    assert_eq!(futures, expected_futures);
}

#[test]
fn test_pull_exhausted_hero() {
    let cards = CardDefs::new();
    {
        // Regular case: hero is pulled when healthy
        let starting_pile = string_to_pile(&cards, "6 7 1 2");
        let new_states = resolve_enemy_action(&cards, 
            &State::new(starting_pile),
            Allegiance::Baddie,
            &WrappedAction {
                action: Action::Pull(Range::Inf),
                target: Target::Enemy,
            },
            0, TURN_DEPTH
        );

        let futures = states_to_pile_set(&new_states);
        let expected_futures = HashSet::from([
            string_to_pile(&cards, "6 2 7 1"), // Dodge
        ]);
        assert_eq!(futures, expected_futures);
    }

    {
        // Shouldn't target 2 when it's exhausted
        let starting_pile = string_to_pile(&cards, "6 7 1 2C");
        let new_states = resolve_enemy_action(&cards, 
            &State::new(starting_pile),
            Allegiance::Baddie,
            &WrappedAction {
                action: Action::Pull(Range::Inf),
                target: Target::Enemy,
            },
            0, TURN_DEPTH
        );

        let futures = states_to_pile_set(&new_states);
        let expected_futures = HashSet::from([
            string_to_pile(&cards, "6 1 7 2C"), // Dodge
        ]);
        assert_eq!(futures, expected_futures);
    }
}

#[test]
fn test_pull_beastmaster() {
    let cards = CardDefs::new();
    {
        // Regular case: hero is pulled when healthy
        let new_states = resolve_enemy_action(&cards, 
            &State::new(string_to_pile(&cards, "6A 41A 37A")),
            Allegiance::Baddie,
            &WrappedAction {
                action: Action::Pull(Range::Inf),
                target: Target::Enemy,
            },
            0, TURN_DEPTH
        );

        assert_actual_vs_expected_piles(
            &new_states,
            vec![
                "6A 37A 41A", // Get pulled
                "6A 41B 37B", // Dodge Assist
            ],
        );
    }
}

#[test]
fn test_inspired_pull() {
    let cards = CardDefs::new();
    {
        let new_states = resolve_enemy_action(&cards, 
            &State::new(string_to_pile(&cards, "1A 26A 12A 13B 27B")),
            Allegiance::Baddie,
            &WrappedAction {
                action: Action::Pull(Range::Inf),
                target: Target::Ally,
            },
            1, TURN_DEPTH
        );

        assert_actual_vs_expected_piles(&new_states, vec!["1A 26A 27B 12A 13B"]);
    }
}

#[test]
fn test_standard_ally_push() {
    let cards = CardDefs::new();
    {
        let new_states = resolve_enemy_action(&cards, 
            &State::new(string_to_pile(&cards, "26B 27B 11A 14A")),
            Allegiance::Baddie,
            &WrappedAction {
                action: Action::Push(Range::Inf),
                target: Target::Ally,
            },
            0, TURN_DEPTH
        );

        assert_actual_vs_expected_piles(&new_states, vec!["26B 11A 14A 27B"]);
    }
}

#[test]
fn test_ally_push_over_trap() {
    let cards = CardDefs::new();
    {
        let new_states = resolve_enemy_action(&cards, 
            &State::new(string_to_pile(&cards, "26B 27B 10A 13A")),
            Allegiance::Baddie,
            &WrappedAction {
                action: Action::Push(Range::Inf),
                target: Target::Ally,
            },
            0, TURN_DEPTH
        );

        assert_actual_vs_expected_piles(&new_states, vec!["26B 10A 13A 27D"]);
    }
}

#[test]
fn test_push_dodge() {
    let cards = CardDefs::new();
    let starting_pile = string_to_pile(&cards, "6 12 8");

    let new_states = resolve_enemy_action(&cards, 
        &State::new(starting_pile),
        Allegiance::Baddie,
        &WrappedAction {
            action: Action::Push(Range::Inf),
            target: Target::Enemy,
        },
        0, TURN_DEPTH
    );

    let futures = states_to_pile_set(&new_states);
    let expected_futures = HashSet::from([
        string_to_pile(&cards, "6 12B 8"), // Skip
        string_to_pile(&cards, "6 8 12A"), // Dodge
    ]);
    assert_eq!(futures, expected_futures);
}

#[test]
fn test_delay_trap_into_weight() {
    let cards = CardDefs::new();
    let starting_pile = string_to_pile(&cards, "11A 6A 10C 14C");

    let new_states = resolve_player_action(&cards, 
        &State::new(starting_pile),
        &WrappedAction {
            action: Action::Delay(Range::Int(2)),
            target: Target::Enemy,
        },
        0,
        &Vec::new(), TURN_DEPTH
    );

    let futures = states_to_pile_set(&new_states);
    let expected_futures = HashSet::from([
        string_to_pile(&cards, "11A 6A 10C 14C "), // Skip
        string_to_pile(&cards, "11A 10C 6D 14C"),  // Move over first trap
    ]);
    assert_eq!(futures, expected_futures);
}

#[test]
fn test_swarm() {
    let cards = CardDefs::new();
    let starting_pile = string_to_pile(&cards, "27B 26B 25A 1A");

    let new_states = swarm_me_recursive(&cards, &State::new(starting_pile), Allegiance::Baddie, 1, TURN_DEPTH);

    let futures = states_to_pile_set(&new_states);
    let expected_futures = HashSet::from([
        string_to_pile(&cards, "27B 26B 25B 1D "), // 25B rotates, 26B hits 1A
    ]);
    assert_eq!(futures, expected_futures);
}

#[test]
fn test_swarm_no_impact() {
    let cards = CardDefs::new();
    // 24C swarm is to heal, but it has no targets
    // 27A should attack 1A anyway
    let starting_pile = string_to_pile(&cards, "26A 24C 27A 1A");
    let new_states = swarm_me_recursive(&cards, &State::new(starting_pile), Allegiance::Baddie, 1, TURN_DEPTH);

    let futures = states_to_pile_set(&new_states);
    let expected_futures = HashSet::from([string_to_pile(&cards, "26A 24C 27A 1D")]);
    assert_eq!(futures, expected_futures);
}

#[test]
fn test_death() {
    let cards = CardDefs::new();
    let starting_pile = string_to_pile(&cards, "1 7 2 6 4 5");
    let new_states = resolve_enemy_action(&cards, 
        &State::new(starting_pile),
        Allegiance::Baddie,
        &WrappedAction {
            action: Action::Death,
            target: Target::Enemy,
        },
        0, TURN_DEPTH
    );
    let futures = states_to_pile_set(&new_states);
    let expected_futures = HashSet::from([string_to_pile(&cards, "1C 7 2C 6 4D 5D")]);
    assert_eq!(futures, expected_futures);
}

#[test]
fn test_void_1() {
    let cards = CardDefs::new();
    let starting_pile = string_to_pile(&cards, "36 1 2 3");
    let new_states = resolve_enemy_action(&cards, 
        &State::new(starting_pile),
        Allegiance::Baddie,
        &WrappedAction {
            action: Action::Void,
            target: Target::Enemy,
        },
        0, TURN_DEPTH
    );
    let futures = states_to_pile_set(&new_states);
    let expected_futures = HashSet::from([string_to_pile(&cards, "36 1C 2 3")]);
    assert_eq!(futures, expected_futures);
}

#[test]
fn test_void_2() {
    let cards = CardDefs::new();
    // We should skip over 1C because it's already dead
    let starting_pile = string_to_pile(&cards, "36 1C 2 3");
    let new_states = resolve_enemy_action(&cards, 
        &State::new(starting_pile),
        Allegiance::Baddie,
        &WrappedAction {
            action: Action::Void,
            target: Target::Enemy,
        },
        0, TURN_DEPTH
    );
    let futures = states_to_pile_set(&new_states);
    let expected_futures = HashSet::from([string_to_pile(&cards, "36 1C 2C 3")]);
    assert_eq!(futures, expected_futures);
}

#[test]
fn test_claws_inf() {
    let cards = CardDefs::new();
    let starting_pile = string_to_pile(&cards, "33D 35A 1B 3A 2A");
    let new_states = resolve_enemy_action(&cards, 
        &State::new(starting_pile),
        Allegiance::Baddie,
        &WrappedAction {
            action: Action::Claws(Range::Inf),
            target: Target::Enemy,
        },
        0, TURN_DEPTH
    );
    let futures = states_to_pile_set(&new_states);
    let expected_futures = HashSet::from([
        string_to_pile(&cards, "33D 35A 1A 3D 2D"), // Block
        string_to_pile(&cards, "33D 35A 1D 3D 2D"), // Hit
    ]);
    assert_eq!(futures, expected_futures);
}

#[test]
fn test_claws_range() {
    let cards = CardDefs::new();
    let starting_pile = string_to_pile(&cards, "33D 3A 2A 1A");
    let new_states = resolve_enemy_action(&cards, 
        &State::new(starting_pile),
        Allegiance::Baddie,
        &WrappedAction {
            action: Action::Claws(Range::Int(2)),
            target: Target::Enemy,
        },
        0, TURN_DEPTH
    );
    let futures = states_to_pile_set(&new_states);
    let expected_futures = HashSet::from([string_to_pile(&cards, "33D 3D 2D 1A")]);
    assert_eq!(futures, expected_futures);
}

#[test]
fn test_attack_all_in_range() {
    let cards = CardDefs::new();
    {
        // Basic ex:
        let pile = string_to_pile(&cards, "4 1 2 3 5");
        let new_states = attack_all_in_range(&cards, 
            &State::new(pile),
            Allegiance::Baddie,
            1,
            4,
            Target::Any,
            HitType::Hit, TURN_DEPTH
        );
        assert_actual_vs_expected_piles(&new_states, vec!["4A 1D 2D 3D 5A"]);
    }

    {
        // Even when someone doesn't get hit in middle
        let pile = string_to_pile(&cards, "4 1 2C 3 5");
        let new_states = attack_all_in_range(&cards, 
            &State::new(pile),
            Allegiance::Baddie,
            1,
            4,
            Target::Any,
            HitType::Hit, TURN_DEPTH
        );
        assert_actual_vs_expected_piles(&new_states, vec!["4A 1D 2C 3D 5A"]);
    }

    {
        // When no one gets hit, there should be no results
        let pile = string_to_pile(&cards, "4 1C 2C");
        let new_states = attack_all_in_range(&cards, 
            &State::new(pile),
            Allegiance::Baddie,
            1,
            3,
            Target::Any,
            HitType::Hit, TURN_DEPTH
        );
        assert_actual_vs_expected_piles(&new_states, vec![]);
    }
}

#[test]
fn test_ablaze() {
    let cards = CardDefs::new();
    let pile = string_to_pile(&cards, "20A 23A 6A 7A 19A 22A");
    let new_states =
        resolve_player_row(&cards, &State::new(pile.clone()), &pile[0].get_active_face(&cards).rows[0], 0, TURN_DEPTH);

    assert_actual_vs_expected_piles(
        &new_states,
        vec![
            "20A 23B 6D 7D 19B 22A", // ablaze 23, 19 and hit
            "20A 23B 6A 7A 19B 22A", // ablaze 23, 19 and skip
            //
            "20A 23B 6D 7D 19B 22B", // ablaze 23, 22 and hit
            "20A 23B 6A 7A 19A 22B", // ablaze 23, 22 and skip
            //
            "20A 23A 6A 7A 19B 22B", // ablaze 19, 22
        ],
    );
}

#[test]
fn test_fireball() {
    let cards = CardDefs::new();
    {
        let pile = string_to_pile(&cards, "21A 19D 6A 23A 9A");
        let new_states =
            resolve_player_row(&cards, &State::new(pile.clone()), &pile[0].get_active_face(&cards).rows[0], 0, TURN_DEPTH);

        assert_actual_vs_expected_piles(
            &new_states,
            vec![
                "21B 19C 6A 23B 9A", // Pay but don't attack
                "21B 19C 6D 23B 9A", // Attack with 19
                "21B 19C 6D 23B 9D", // Attack with 23
            ],
        );
    }

    {
        // Check bounds
        let pile = string_to_pile(&cards, "21A 19D 6A 9A 23A");
        let new_states =
            resolve_player_row(&cards, &State::new(pile.clone()), &pile[0].get_active_face(&cards).rows[0], 0, TURN_DEPTH);

        assert_actual_vs_expected_piles(
            &new_states,
            vec![
                "21B 19C 6A 9A 23B ", // Pay but don't attack
                "21B 19C 6D 9A 23B ", // Attack with 19
                "21B 19C 6A 9D 23B ", // Attack with 23
            ],
        );
    }
}

#[test]
fn test_teleport_ally() {
    let cards = CardDefs::new();
    let pile = string_to_pile(&cards, "21 23 6 19 20 9");

    let new_states = resolve_player_action(&cards, 
        &State::new(pile),
        &WrappedAction {
            action: Action::Teleport,
            target: Target::Ally,
        },
        0,
        &Vec::new(), TURN_DEPTH
    );

    assert_actual_vs_expected_piles(
        &new_states,
        vec![
            "21 23 6 20 19 9",
            "21 23 6 19 20 9",
            "21 19 6 23 20 9",
            "21 20 6 19 23 9",
        ],
    );
}

#[test]
fn test_teleport_enemy() {
    let cards = CardDefs::new();
    let pile = string_to_pile(&cards, "21 23 6 19 20 9");

    let new_states = resolve_player_action(&cards, 
        &State::new(pile),
        &WrappedAction {
            action: Action::Teleport,
            target: Target::Enemy,
        },
        0,
        &Vec::new(), TURN_DEPTH
    );

    assert_actual_vs_expected_piles(&new_states, vec!["21 23 6 19 20 9", "21 23 9 19 20 6"]);
}

#[test]
fn test_teleport_any() {
    let cards = CardDefs::new();
    let pile = string_to_pile(&cards, "21 23 6 19 20 9");

    let new_states = resolve_player_action(&cards, 
        &State::new(pile),
        &WrappedAction {
            action: Action::Teleport,
            target: Target::Any,
        },
        0,
        &Vec::new(), TURN_DEPTH
    );

    assert_actual_vs_expected_piles(
        &new_states,
        vec![
            "21 23 6 19 20 9",
            "21 6 23 19 20 9",
            "21 9 6 19 20 23",
            "21 23 19 6 20 9",
            "21 23 20 19 6 9",
            "21 23 6 9 20 19",
            "21 23 6 19 9 20",
        ],
    );
}

#[test]
fn test_verdant_hit() {
    let cards = CardDefs::new();
    let new_states =
        attack_card_get_all_outcomes(&cards, &State::new(string_to_pile(&cards, "43D 1 4 2 5 3")), 0, HitType::Hit, TURN_DEPTH);

    assert_actual_vs_expected_piles(&new_states, vec!["43B 1D 4 2D 5 3D"]);
}

#[test]
fn test_manouver() {
    let cards = CardDefs::new();
    let pile = string_to_pile(&cards, "11B 13A 10D 12D");

    let new_states = resolve_player_action(&cards, 
        &State::new(pile),
        &WrappedAction {
            action: Action::Maneuver,
            target: Target::Ally,
        },
        0,
        &Vec::new(), TURN_DEPTH
    );

    assert_actual_vs_expected_piles(
        &new_states,
        vec![
            "11B 13A 10D 12D", // Skip
            "11B 13B 10D 12D", // Rotate 13
            "11B 13A 10C 12D", // Rotate 10, which damages it
                               // 12 cannot rotate, which would result in a heal
        ],
    );
}

#[test]
fn a_turn_keeps_the_cards_and_goes_on_from_the_log() {
    let cards = CardDefs::new();
    let pile = string_to_pile(&cards, "1 2 3 4 5 6 7 8 9");
    let mut sorted_ids: Vec<u8> = pile.iter().map(|c| c.card_id).collect();
    sorted_ids.sort();
    let start = GameStateWithEventLog { pile: pile.clone(), events: vec![Event::Death] };
    let outcomes = resolve_top_card(&cards, &start);
    assert!(!outcomes.is_empty());
    for outcome in &outcomes {
        let mut ids: Vec<u8> = outcome.pile.iter().map(|c| c.card_id).collect();
        ids.sort();
        assert_eq!(ids, sorted_ids);
        assert_eq!(outcome.events[0], Event::Death);
        assert_eq!(outcome.events[outcome.events.len() - 1], Event::BottomCard);
    }
}

#[test]
fn a_hero_on_top_can_skip_its_turn_last() {
    let cards = CardDefs::new();
    let pile = string_to_pile(&cards, "1 2 3 4 5 6 7 8 9");
    let outcomes = resolve_top_card(&cards, &GameStateWithEventLog::new(pile.clone()));
    let last = &outcomes[outcomes.len() - 1];
    assert_eq!(last.pile, string_to_pile(&cards, "2 3 4 5 6 7 8 9 1"));
    assert_eq!(last.events, vec![Event::SkipTurn(pile[0]), Event::BottomCard]);
}
