use handy_core::card_defs::CardDefs;
use handy_core::end_game::{
    is_game_winner, per_class_game_resolution, standard_check_is_game_winner, GameEndCheckType,
};
use handy_core::pile_parse::string_to_pile;
use handy_core::primitives::WinType;

#[test]
fn test_standard_check_is_game_winner() {
    let cards = CardDefs::new();
    {
        let pile = string_to_pile(&cards, "6D 3C 2C 5D 8C 1C 4D 7C 9C");
        assert_eq!(standard_check_is_game_winner(&cards, &pile), WinType::Lose);
    }

    {
        let pile = string_to_pile(&cards, "6C 3C 2C 5D 8C 1C 4D 7C 9C");
        assert_eq!(standard_check_is_game_winner(&cards, &pile), WinType::Win);
    }
}

#[test]
fn test_per_class_game_resolution() {
    let cards = CardDefs::new();
    {
        // All hero head, enemy alive
        let pile = string_to_pile(&cards, "1C 2C 6A");
        assert_eq!(per_class_game_resolution(&cards, &pile), WinType::Lose);
    }

    {
        // All enemy dead, hero alive
        let pile = string_to_pile(&cards, "1A 5C 6C");
        assert_eq!(per_class_game_resolution(&cards, &pile), WinType::Win);
    }

    {
        // Both all dead
        let pile = string_to_pile(&cards, "1C 2C 6C 7C");
        assert_eq!(per_class_game_resolution(&cards, &pile), WinType::Win);
    }

    {
        // Both alive
        let pile = string_to_pile(&cards, "1A 2C 6A 7C");
        assert_eq!(per_class_game_resolution(&cards, &pile), WinType::Unresolved);
    }

    {
        // Two heros, one of them dead
        let pile = string_to_pile(&cards, "1C 10A 6A");
        assert_eq!(per_class_game_resolution(&cards, &pile), WinType::Lose);
    }
}

#[test]
fn game_winner_dispatches_on_check_type() {
    let cards = CardDefs::new();
    let pile = string_to_pile(&cards, "1C 10A 6A");
    assert_eq!(is_game_winner(&cards, &pile, GameEndCheckType::PerHeroClass), WinType::Lose);
    assert_eq!(is_game_winner(&cards, &pile, GameEndCheckType::Standard), WinType::Unresolved);
}
