use handy_core::card_defs::CardDefs;
use handy_core::card_index::{face_to_idx, make_card_map};
use handy_core::matchups::{
    extra_levels, find_any_in_list, find_least_used_matchup, get_all_matchups_from_pile, get_classes_from_pile,
    get_relevant_cards_for_class, get_relevant_cards_for_matchup, get_training_matchups_from_args, is_hero_class,
    matchup_to_jsonl_str, matchup_to_str, matchup_to_yaml_str, model_path_for_matchup, parse_dot_separated_matchup,
    per_level_keep_states, state_eval_to_score, swap_model_path_for_matchup, training_path_for_matchup,
    try_get_matchup_from_classes, try_get_matchup_from_pile, StateEval,
};
use handy_core::pile_parse::string_to_pile;
use handy_core::primitives::{Class, FaceKey};

#[test]
fn matchup_strings_and_paths() {
    let m = (Class::Warrior, Class::Ogre);
    assert_eq!(matchup_to_str(m), "Warrior.Ogre");
    assert_eq!(matchup_to_yaml_str(m), "Warrior.Ogre.yaml");
    assert_eq!(matchup_to_jsonl_str(m), "Warrior.Ogre.jsonl");
    assert_eq!(model_path_for_matchup(m), "./data/models/Warrior.Ogre.yaml");
    assert_eq!(swap_model_path_for_matchup(m), "./data/models/swap.Warrior.Ogre.yaml");
    assert_eq!(training_path_for_matchup(m), "./data/training_data/Warrior.Ogre.jsonl");
}

#[test]
fn parse_matchups() {
    assert_eq!(parse_dot_separated_matchup("warrior.ogre"), Ok((Class::Warrior, Class::Ogre)));
    assert_eq!(parse_dot_separated_matchup("beastmaster.flora"), Ok((Class::Beastmaster, Class::Flora)));
    assert_eq!(
        parse_dot_separated_matchup("warrior"),
        Err("invalid KEY=value: no `.` found in `warrior`".to_string())
    );
    assert_eq!(parse_dot_separated_matchup("ogre.warrior"), Err("First class must be a hero".to_string()));
    assert_eq!(parse_dot_separated_matchup("warrior.pyro"), Err("Second class must be an enemy".to_string()));
    assert!(parse_dot_separated_matchup("warrior.nobody").is_err());
}

#[test]
fn hero_classes() {
    assert!(is_hero_class(Class::Warrior));
    assert!(is_hero_class(Class::Beastmaster));
    assert!(!is_hero_class(Class::Ogre));
    assert!(!is_hero_class(Class::Dummy));
}

#[test]
fn matchup_from_classes() {
    assert_eq!(find_any_in_list(&[Class::Ogre, Class::Pyro], &[Class::Pyro]), Some(Class::Pyro));
    assert_eq!(find_any_in_list(&[Class::Ogre], &[Class::Pyro]), None);
    assert_eq!(
        try_get_matchup_from_classes(&vec![Class::Ogre, Class::Huntress]),
        Some((Class::Huntress, Class::Ogre))
    );
    assert_eq!(try_get_matchup_from_classes(&vec![Class::Ogre, Class::Vampire]), None);
}

#[test]
fn matchups_of_a_pile() {
    let cards = CardDefs::new();
    let pile = string_to_pile(&cards, "6D 3C 2C 5D 8C 1C 4D 7C 9C");
    assert_eq!(get_classes_from_pile(&cards, &pile), vec![Class::Ogre, Class::Warrior]);
    assert_eq!(try_get_matchup_from_pile(&cards, &pile), Some((Class::Warrior, Class::Ogre)));
    assert_eq!(get_all_matchups_from_pile(&cards, &pile), vec![(Class::Warrior, Class::Ogre)]);
}

#[test]
fn least_used_matchup_is_first_smallest() {
    let ms = [(Class::Warrior, Class::Ogre), (Class::Pyro, Class::Ogre), (Class::Cursed, Class::Ogre)];
    assert_eq!(find_least_used_matchup(&ms, &[30, 10, 10]), (Class::Pyro, Class::Ogre));
    assert_eq!(find_least_used_matchup(&ms, &[0, 10, 0]), (Class::Warrior, Class::Ogre));
}

#[test]
fn training_matchups() {
    let given = get_training_matchups_from_args(false, &vec![], &vec![(Class::Warrior, Class::Ogre)]);
    assert_eq!(given, vec![(Class::Warrior, Class::Ogre)]);

    let for_class = get_training_matchups_from_args(false, &vec![Class::Ogre], &vec![]);
    assert_eq!(for_class.len(), 5);
    assert!(for_class.iter().all(|m| m.1 == Class::Ogre && is_hero_class(m.0)));

    let all = get_training_matchups_from_args(true, &vec![Class::Ogre], &vec![(Class::Warrior, Class::Ogre)]);
    assert_eq!(all.len(), 25);
}

#[test]
fn search_settings() {
    assert_eq!(state_eval_to_score(StateEval::Win(7)), 7);
    assert_eq!(state_eval_to_score(StateEval::Loss), 100);
    assert_eq!(per_level_keep_states(Class::Warrior, Class::Ogre), 400000);
    assert_eq!(per_level_keep_states(Class::Beastmaster, Class::Ogre), 133333);
    assert_eq!(per_level_keep_states(Class::Beastmaster, Class::Vampire), 66666);
    assert_eq!(per_level_keep_states(Class::Warrior, Class::Vampire), 200000);
    assert_eq!(per_level_keep_states(Class::Beastmaster, Class::Flora), 80000);
    assert_eq!(extra_levels(Class::Beastmaster, Class::Flora), 0);
    assert_eq!(extra_levels(Class::Beastmaster, Class::Ogre), 1);
    assert_eq!(extra_levels(Class::Warrior, Class::Ogre), 2);
}

#[test]
fn relevant_cards() {
    let cards = CardDefs::new();
    assert_eq!(get_relevant_cards_for_class(&cards, Class::Warrior), vec![1, 2, 3, 4, 5]);
    assert_eq!(get_relevant_cards_for_class(&cards, Class::Ogre), vec![6, 7, 8, 9]);
    assert_eq!(get_relevant_cards_for_matchup(&cards, (Class::Warrior, Class::Ogre)), vec![1, 2, 3, 4, 5, 6, 7, 8, 9]);
}

#[test]
fn card_map_orders_ids() {
    let cards = CardDefs::new();
    let map = make_card_map(&cards, Class::Ogre, Class::Warrior);
    assert_eq!(map.len(), 9);
    for id in 1u8..=9 {
        assert_eq!(map[&id], (id - 1) as usize);
    }
    assert_eq!(face_to_idx(FaceKey::A), 0);
    assert_eq!(face_to_idx(FaceKey::D), 3);
}

#[test]
fn every_hero_baddie_matchup_reads_back() {
    let heros = [
        ("warrior", Class::Warrior),
        ("huntress", Class::Huntress),
        ("pyro", Class::Pyro),
        ("cursed", Class::Cursed),
        ("beastmaster", Class::Beastmaster),
    ];
    let baddies = [
        ("ogre", Class::Ogre),
        ("vampire", Class::Vampire),
        ("spider", Class::Spider),
        ("demon", Class::Demon),
        ("flora", Class::Flora),
    ];
    for (h, hc) in heros {
        for (b, bc) in baddies {
            assert_eq!(parse_dot_separated_matchup(&format!("{h}.{b}")), Ok((hc, bc)));
        }
    }
}

#[test]
fn solver_plays_only_the_base_classes() {
    assert!(!is_hero_class(Class::Assassin));
    assert!(!is_hero_class(Class::Monk));
    assert_eq!(try_get_matchup_from_classes(&vec![Class::Assassin, Class::Ogre]), None);
    assert_eq!(try_get_matchup_from_classes(&vec![Class::Warrior, Class::Wall]), None);
    assert_eq!(
        try_get_matchup_from_classes(&vec![Class::Ogre, Class::Warrior]),
        Some((Class::Warrior, Class::Ogre))
    );
    assert_eq!(parse_dot_separated_matchup("assassin.ogre"), Err(String::from("First class must be a hero")));
    assert_eq!(parse_dot_separated_matchup("warrior.ogre"), Ok((Class::Warrior, Class::Ogre)));
    let all = get_training_matchups_from_args(true, &vec![], &vec![]);
    assert_eq!(all.len(), 25);
    assert!(!all.contains(&(Class::Assassin, Class::Wall)));
}

#[test]
fn dot_separated_matchup_with_an_unknown_class_names_the_error() {
    assert_eq!(parse_dot_separated_matchup("warrior.nobody"), Err("Matching variant not found".to_string()));
    assert_eq!(parse_dot_separated_matchup("nobody.ogre"), Err("Matching variant not found".to_string()));
}
