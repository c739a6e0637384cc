use handy_core::card_defs::CardDefs;
use handy_core::pile_parse::string_to_pile;
use handy_core::piper_helpers::{
    action_with_modified_range, get_modifier_options, range_with_modifier, size_with_modifier, ModifierRangeType,
};
use handy_core::primitives::{Action, Range};

#[test]
fn test_get_modifier_options() {
    let cards = CardDefs::new();
    {
        // No modifiers
        let pile = string_to_pile(&cards, "1 2 3 4 5");
        let results = get_modifier_options(&cards, &pile, 0, ModifierRangeType::Discrete);
        assert_eq!(results.len(), 0);
    }

    {
        // With modifiers
        let pile = string_to_pile(&cards, "55 56 57");
        let results = get_modifier_options(&cards, &pile, 0, ModifierRangeType::Discrete);
        assert_eq!(results, vec![(vec![1], -2), (vec![2], 1), (vec![1, 2], -1),]);
    }
}

#[test]
fn modifiers_change_sizes_and_ranges() {
    assert_eq!(size_with_modifier(3, -2), 1);
    assert_eq!(size_with_modifier(3, 1), 4);
    assert_eq!(range_with_modifier(Range::Int(2), 1), Range::Int(3));
    assert_eq!(range_with_modifier(Range::Inf, -1), Range::Inf);
    assert_eq!(action_with_modified_range(&Action::Hit(Range::Int(2)), -1), Action::Hit(Range::Int(1)));
}
