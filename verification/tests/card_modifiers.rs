use handy_core::card_defs::CardDefs;
use handy_core::card_modifiers::{mut_exhaust_card_without_giving_options, perform_card_self_action};
use handy_core::primitives::{FaceKey, SelfAction};
use handy_core::pile_parse::string_to_pile;

#[test]
fn exhausting_turns_to_the_first_exhausted_face() {
    let cards = CardDefs::new();
    let mut card = string_to_pile(&cards, "1A")[0];
    mut_exhaust_card_without_giving_options(&cards, &mut card);
    assert_eq!(card, string_to_pile(&cards, "1C")[0]);
    mut_exhaust_card_without_giving_options(&cards, &mut card);
    assert_eq!(card, string_to_pile(&cards, "1C")[0]);
    let mut fourth = string_to_pile(&cards, "4B")[0];
    mut_exhaust_card_without_giving_options(&cards, &mut fourth);
    assert_eq!(fourth, string_to_pile(&cards, "4D")[0]);
}

#[test]
fn self_actions_turn_the_card() {
    let cards = CardDefs::new();
    let mut card = string_to_pile(&cards, "7A")[0];
    perform_card_self_action(SelfAction::Rotate, &mut card);
    assert_eq!(card.key, FaceKey::B);
    perform_card_self_action(SelfAction::Flip, &mut card);
    assert_eq!(card.key, FaceKey::D);
    perform_card_self_action(SelfAction::Rotate, &mut card);
    assert_eq!(card.key, FaceKey::C);
    assert_eq!(card.card_id, 7);
}
