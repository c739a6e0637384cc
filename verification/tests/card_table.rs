use handy_core::card_defs::CardDefs;
use handy_core::primitives::{Action, Class, Health, Range, Target};

#[test]
fn table_holds_cards_one_to_fifty_nine() {
    let cards = CardDefs::new();
    for id in 0..128usize {
        assert_eq!(cards.get_card_if_exists(id).is_some(), (1..=59).contains(&id));
    }
    let ids = |class: Class| -> Vec<u8> { cards.get_cards_for_class(class).iter().map(|c| c.id).collect() };
    assert_eq!(ids(Class::Warrior), vec![1, 2, 3, 4, 5]);
    assert_eq!(ids(Class::Ogre), vec![6, 7, 8, 9]);
    assert_eq!(ids(Class::Piper), vec![55, 56, 57, 58, 59]);
}

#[test]
fn first_warrior_card() {
    let cards = CardDefs::new();
    let card = cards.get_card(1);
    assert_eq!(card.faces.a.health, Health::Full);
    assert_eq!(card.faces.c.health, Health::Empty);
    assert_eq!(card.faces.d.health, Health::Half);
    assert_eq!(card.faces.a.rows.len(), 2);
    assert_eq!(card.faces.a.rows[0].actions.len(), 1);
    assert_eq!(card.faces.a.rows[0].actions[0].action, Action::Hit(Range::Int(2)));
    assert_eq!(card.faces.a.rows[0].actions[0].target, Target::Any);
}
