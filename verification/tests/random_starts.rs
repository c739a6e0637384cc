use handy_core::card_defs::CardDefs;
use handy_core::primitives::{Class, FaceKey, Health};
use handy_core::pile_utils::is_game_winner;
use handy_core::primitives::{Allegiance, WinType};
use handy_core::random_starts::{
    exhausted_faces, face_for_number, get_fully_random_pile, get_random_exhausted_face, get_random_face,
    get_random_won_pile, get_scenario_starts, get_start_from_classes, random_pile_kind, randomize_hero_sides_once,
    randomize_sides, start_from_shuffled, RandomPileKind, ScenarioSelection,
};
use rand_pcg::Pcg64;
use rand_seeder::Seeder;

fn seeded(seed: &str) -> Pcg64 {
    Seeder::from(seed.to_string()).make_rng()
}

#[test]
fn start_holds_each_class_card_once() {
    let cards = CardDefs::new();
    for seed in ["a", "b", "c", "d"] {
        let mut rng = seeded(seed);
        let pile = get_start_from_classes(&cards, Class::Huntress, Class::Vampire, &mut rng);
        let mut ids: Vec<u8> = pile.iter().map(|c| c.card_id).collect();
        assert!(pile.iter().all(|c| c.key == FaceKey::A));
        ids.sort();
        let mut expected = cards
            .get_cards_for_class(Class::Huntress)
            .iter()
            .chain(cards.get_cards_for_class(Class::Vampire).iter())
            .map(|c| c.id)
            .collect::<Vec<u8>>();
        expected.sort();
        assert_eq!(ids, expected);
    }
}

#[test]
fn same_seed_same_start() {
    let cards = CardDefs::new();
    let a = get_start_from_classes(&cards, Class::Pyro, Class::Spider, &mut seeded("xyz"));
    let b = get_start_from_classes(&cards, Class::Pyro, Class::Spider, &mut seeded("xyz"));
    assert_eq!(a, b);
}

#[test]
fn back_start_cards_go_to_the_bottom() {
    let cards = CardDefs::new();
    let wall_ids: Vec<u8> = cards.get_cards_for_class(Class::Wall).iter().map(|c| c.id).collect();
    let back_ids: Vec<u8> =
        cards.get_cards_for_class(Class::Wall).iter().filter(|c| c.is_back_start).map(|c| c.id).collect();
    assert!(!back_ids.is_empty());
    let mut shuffled: Vec<u8> = back_ids.clone();
    shuffled.extend(cards.get_cards_for_class(Class::Warrior).iter().map(|c| c.id));
    shuffled.extend(wall_ids.iter().filter(|id| !back_ids.contains(id)));
    let n = shuffled.len();
    let pile = start_from_shuffled(&cards, shuffled);
    assert_eq!(pile.len(), n);
    let last = pile[n - 1].card_id;
    assert!(back_ids.contains(&last));
    for start in 0..n {
        if back_ids.contains(&pile[start].card_id) {
            assert!(pile.iter().skip(start).all(|c| back_ids.contains(&c.card_id)));
            break;
        }
    }
}

#[test]
fn arranging_swaps_a_back_card_with_the_bottom_card() {
    let cards = CardDefs::new();
    let back_id = cards.get_cards_for_class(Class::Wall).iter().find(|c| c.is_back_start).unwrap().id;
    let pile = start_from_shuffled(&cards, vec![back_id, 1, 2, 3]);
    let ids: Vec<u8> = pile.iter().map(|c| c.card_id).collect();
    assert_eq!(ids, vec![3, 1, 2, back_id]);
}

#[test]
fn random_faces() {
    assert_eq!(face_for_number(0), FaceKey::A);
    assert_eq!(face_for_number(3), FaceKey::D);
    let mut rng = seeded("faces");
    let mut seen = [false; 4];
    for _ in 0..200 {
        let f = get_random_face(&mut rng);
        let i = match f {
            FaceKey::A => 0,
            FaceKey::B => 1,
            FaceKey::C => 2,
            FaceKey::D => 3,
        };
        seen[i] = true;
    }
    assert_eq!(seen, [true; 4]);
}

#[test]
fn random_exhausted_faces() {
    let cards = CardDefs::new();
    let def = cards.get_card(1);
    assert_eq!(exhausted_faces(def), vec![FaceKey::C]);
    let mut rng = seeded("exhaust");
    for _ in 0..20 {
        let f = get_random_exhausted_face(&mut rng, def);
        assert_eq!(def.faces.get(f).health, Health::Empty);
    }
}

#[test]
fn scenario_starts() {
    let cards = CardDefs::new();
    let mut rng = seeded("scenario");
    let pile = get_scenario_starts(&cards, ScenarioSelection::ScenarioOne(Class::Warrior), &mut rng);
    assert_eq!(pile.len(), 11);
    assert_eq!(pile[10].card_id, 102);
    assert!(pile.iter().any(|c| c.card_id == 101 && c.key == FaceKey::C));

    let pile2 = get_scenario_starts(&cards, ScenarioSelection::ScenarioTwo(Class::Warrior), &mut rng);
    assert_eq!(pile2.len(), 5 + cards.get_cards_for_class(Class::Vampire).len() + 1);
    assert!(pile2.iter().any(|c| c.card_id == 111 && c.key == FaceKey::A));
}

#[test]
fn random_pile_kinds_follow_percentages() {
    assert_eq!(random_pile_kind(5, 10, 20), RandomPileKind::NoWinner);
    assert_eq!(random_pile_kind(10, 10, 20), RandomPileKind::RandomHeroSides);
    assert_eq!(random_pile_kind(29, 10, 20), RandomPileKind::RandomHeroSides);
    assert_eq!(random_pile_kind(30, 10, 20), RandomPileKind::Standard);
    assert_eq!(random_pile_kind(0, 0, 0), RandomPileKind::Standard);
}

#[test]
fn won_piles_have_no_live_baddie() {
    let cards = CardDefs::new();
    for seed in ["w1", "w2", "w3"] {
        let pile = get_random_won_pile(&cards, Class::Warrior, Class::Ogre, &mut seeded(seed));
        assert_eq!(is_game_winner(&cards, &pile), WinType::Win);
        assert_eq!(pile.len(), 9);
    }
}

#[test]
fn randomized_sides_keep_cards() {
    let cards = CardDefs::new();
    let mut rng = seeded("sides");
    let start = get_start_from_classes(&cards, Class::Warrior, Class::Ogre, &mut rng);
    let mut pile = start.clone();
    randomize_sides(&mut pile, &mut rng);
    assert_eq!(
        pile.iter().map(|c| c.card_id).collect::<Vec<u8>>(),
        start.iter().map(|c| c.card_id).collect::<Vec<u8>>()
    );
    let before = pile.clone();
    randomize_hero_sides_once(&cards, &mut pile, &mut rng);
    for (a, b) in before.iter().zip(pile.iter()) {
        assert_eq!(a.card_id, b.card_id);
        if a.get_active_face(&cards).allegiance == Allegiance::Baddie {
            assert_eq!(a, b);
        }
    }
    let full = get_fully_random_pile(&cards, Class::Pyro, Class::Demon, &mut rng);
    assert_eq!(full.len(), 9);
}
