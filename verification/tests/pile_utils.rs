use handy_core::card_defs::CardDefs;
use handy_core::pile_parse::string_to_pile;
use handy_core::pile_utils::is_game_winner;
use handy_core::primitives::WinType;

#[test]
fn pile_utils_test_game_over() {
    let cards = CardDefs::new();
    {
        let pile = string_to_pile(&cards, "6D 3C 2C 5D 8C 1C 4D 7C 9C");
        assert_eq!(is_game_winner(&cards, &pile), WinType::Lose);
    }

    {
        let pile = string_to_pile(&cards, "6C 3C 2C 5D 8C 1C 4D 7C 9C");
        assert_eq!(is_game_winner(&cards, &pile), WinType::Win);
    }
}
