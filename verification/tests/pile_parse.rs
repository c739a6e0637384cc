use handy_core::card_defs::CardDefs;
use handy_core::class_names::class_from_str;
use handy_core::pile_parse::{string_to_card_id_result, string_to_card_ptr, string_to_pile, string_to_pile_result};
use handy_core::primitives::{Class, FaceKey};
use handy_core::random_starts::get_start_from_classes;
use rand_pcg::Pcg64;
use rand_seeder::Seeder;

#[test]
fn lib_test_empty_pile() {
    let cards = CardDefs::new();
    let result = string_to_pile_result(&cards, "beep");
    assert!(result.is_err());
}

#[test]
fn lib_test_regular_pile_long() {
    let cards = CardDefs::new();
    let result = string_to_pile_result(&cards, "1A2B3c");
    assert_eq!(result.unwrap(), string_to_pile(&cards, "1 2B 3C"))
}

#[test]
fn lib_test_regular_pile_short() {
    let cards = CardDefs::new();
    let result = string_to_pile_result(&cards, "1A2A3A");
    assert_eq!(result.unwrap(), string_to_pile(&cards, "1 2 3"))
}

#[test]
fn arg_parse_test_empty_pile() {
    let cards = CardDefs::new();
    let result = string_to_pile_result(&cards, "beep");
    assert!(result.is_err());
}

#[test]
fn arg_parse_test_regular_pile_long() {
    let cards = CardDefs::new();
    let result = string_to_pile_result(&cards, "1A2B3c");
    assert_eq!(result.unwrap(), string_to_pile(&cards, "1 2B 3C"))
}

#[test]
fn arg_parse_test_regular_pile_short() {
    let cards = CardDefs::new();
    let result = string_to_pile_result(&cards, "1A2A3A");
    assert_eq!(result.unwrap(), string_to_pile(&cards, "1 2 3"))
}

#[test]
fn lib_test_classes_with_seed() {
    let cards = CardDefs::new();
    let mut rng: Pcg64 = Seeder::from("abc".to_string()).make_rng();
    let pile = get_start_from_classes(&cards, Class::Warrior, Class::Ogre, &mut rng);
    assert_eq!(pile, string_to_pile(&cards, "3A 9A 4A 1A 5A 7A 2A 8A 6A"));
}

#[test]
fn arg_parse_test_classes_with_seed() {
    let cards = CardDefs::new();
    let hero = class_from_str("warrior").unwrap();
    let monster = class_from_str("ogre").unwrap();
    let mut rng: Pcg64 = Seeder::from("abc".to_string()).make_rng();
    let pile = get_start_from_classes(&cards, hero, monster, &mut rng);
    assert_eq!(pile, string_to_pile(&cards, "3A 9A 4A 1A 5A 7A 2A 8A 6A"));
}

#[test]
fn readme_pile_example_defaults_to_face_a() {
    let cards = CardDefs::new();
    let pile = string_to_pile(&cards, "1 2 3C 4C 5D 6b7c8d9B");
    let keys: Vec<(u8, FaceKey)> = pile.iter().map(|c| (c.card_id, c.key)).collect();
    assert_eq!(
        keys,
        vec![
            (1, FaceKey::A),
            (2, FaceKey::A),
            (3, FaceKey::C),
            (4, FaceKey::C),
            (5, FaceKey::D),
            (6, FaceKey::B),
            (7, FaceKey::C),
            (8, FaceKey::D),
            (9, FaceKey::B),
        ]
    );
}

#[test]
fn readme_puzzle_pile_with_separators() {
    let cards = CardDefs::new();
    let pile = string_to_pile(&cards, "5C > 6D > 2B > 9B");
    assert_eq!(pile, string_to_pile(&cards, "5C 6D 2B 9B"));
    assert_eq!(pile.len(), 4);
}

#[test]
fn unknown_card_id_is_an_error() {
    let cards = CardDefs::new();
    assert!(string_to_card_id_result(&cards, "99").is_err());
    assert_eq!(string_to_card_id_result(&cards, "12"), Ok(12));
    assert!(string_to_pile_result(&cards, "1 99").is_err());
}

#[test]
fn card_ptr_reads_lowercase_face() {
    let cards = CardDefs::new();
    let c = string_to_card_ptr(&cards, "7d");
    assert_eq!(c.card_id, 7);
    assert_eq!(c.key, FaceKey::D);
}

#[test]
fn readable_pile_texts() {
    let cards = CardDefs::new();
    assert!(handy_core::pile_parse::pile_text_is_readable(&cards, "1 2 3"));
    assert!(handy_core::pile_parse::pile_text_is_readable(&cards, "1 300"));
    assert!(!handy_core::pile_parse::pile_text_is_readable(&cards, "1 200"));
    assert!(handy_core::pile_parse::pile_text_is_readable(&cards, "beep"));
}

#[test]
fn unparsable_card_ids_give_the_parse_error_text() {
    let cards = CardDefs::new();
    assert_eq!(
        string_to_card_id_result(&cards, "abc"),
        Err(String::from("ParseIntError { kind: InvalidDigit }"))
    );
    assert_eq!(string_to_card_id_result(&cards, ""), Err(String::from("ParseIntError { kind: Empty }")));
    assert_eq!(string_to_card_id_result(&cards, "300"), Err(String::from("ParseIntError { kind: PosOverflow }")));
    assert_eq!(string_to_card_id_result(&cards, "127"), Err(String::from("Card Id does not exist")));
    assert_eq!(string_to_card_id_result(&cards, "7"), Ok(7));
}

#[test]
fn digits_of_other_scripts_name_no_card() {
    let cards = CardDefs::new();
    assert_eq!(string_to_pile_result(&cards, "1\u{663}"), Err(String::from("Card Id does not exist")));
    assert_eq!(string_to_pile_result(&cards, "1A \u{663}"), Err(String::from("Card Id does not exist")));
    assert_eq!(string_to_pile_result(&cards, "\u{966}1"), Err(String::from("Card Id does not exist")));
    assert_eq!(string_to_pile_result(&cards, "1A x 2B").unwrap(), string_to_pile(&cards, "1A 2B"));
}
