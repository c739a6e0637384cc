use handy_core::card_defs::CardDefs;
use handy_core::pile_parse::string_to_pile;
use handy_core::primitives::FaceKey;
use handy_core::tiny_pile::{
    face_key_from_byte, number_to_ordering, order_to_number, pack_faces_from_pile, NoopPileStorageConverter,
    TinyPile, TinyPileConverter,
};

#[test]
fn test_face_pack() {
    let cards = CardDefs::new();
    assert_eq!(pack_faces_from_pile(&string_to_pile(&cards, "1A 1A 1A 1A 1A 1A 1A 1A 1A")), [0, 0, 0]);

    let ex2 = pack_faces_from_pile(&string_to_pile(&cards, "1A 1B 1C 1D 1D 1C 1B 1A 1D"));
    assert_eq!(ex2, [0b00011011, 0b11100100, 0b00000011]);

    assert_eq!(face_key_from_byte(ex2[0], 0), FaceKey::A);
    assert_eq!(face_key_from_byte(ex2[0], 1), FaceKey::B);
    assert_eq!(face_key_from_byte(ex2[0], 2), FaceKey::C);
    assert_eq!(face_key_from_byte(ex2[0], 3), FaceKey::D);

    assert_eq!(face_key_from_byte(ex2[1], 0), FaceKey::D);
    assert_eq!(face_key_from_byte(ex2[1], 1), FaceKey::C);
    assert_eq!(face_key_from_byte(ex2[1], 2), FaceKey::B);
    assert_eq!(face_key_from_byte(ex2[1], 3), FaceKey::A);

    assert_eq!(face_key_from_byte(ex2[2], 3), FaceKey::D);
}

#[test]
fn test_converter() {
    let cards = CardDefs::new();
    let base_pile = string_to_pile(&cards, "1A 2A 3A 4A 5A 6A 7A 8A 9A");
    let converter = TinyPileConverter::new_from_pile(&base_pile);

    {
        let pile = base_pile.clone();
        let tiny_pile = converter.pile_to_tiny_pile(&pile);
        let reformed_pile = converter.tiny_pile_to_pile(&tiny_pile);
        assert_eq!(pile, reformed_pile);
    }

    {
        let pile = string_to_pile(&cards, "9D 8B 5A 4B 1A 6A 2B 7C 3D");
        let tiny_pile = converter.pile_to_tiny_pile(&pile);
        let reformed_pile = converter.tiny_pile_to_pile(&tiny_pile);
        assert_eq!(pile, reformed_pile);
    }
}

#[test]
fn test_converter_all_numbers() {
    let cards = CardDefs::new();
    let base_pile = string_to_pile(&cards, "1A 2A 3A 4A 5A 6A 7A 8A 9A");
    let converter = TinyPileConverter::new_from_pile(&base_pile);

    for i in 0..362880 {
        let tiny_pile = TinyPile { pile_key: i, faces: [0; 3] };

        let pile = converter.tiny_pile_to_pile(&tiny_pile);
        let result = converter.pile_to_tiny_pile(&pile);

        assert_eq!(tiny_pile, result);
    }
}

#[test]
fn ordering_numbers_round_trip_on_examples() {
    assert_eq!(number_to_ordering(0).len(), 9);
    for n in [0u32, 1, 2, 1000, 362879] {
        let order = number_to_ordering(n);
        assert_eq!(order_to_number(&order), n);
    }
    let identity = [0, 1, 2, 3, 4, 5, 6, 7, 8];
    let n = order_to_number(&identity);
    assert_eq!(number_to_ordering(n), identity);
}

#[test]
fn pile_round_trip_keeps_faces() {
    let cards = CardDefs::new();
    let base_pile = string_to_pile(&cards, "1A 2A 3A 4A 5A 6A 7A 8A 9A");
    let converter = TinyPileConverter::new_from_pile(&base_pile);
    let pile = string_to_pile(&cards, "3C 1D 2B 9A 4D 8C 5B 7A 6D");
    let tiny = converter.pile_to_tiny_pile(&pile);
    assert_ne!(tiny.faces, [0, 0, 0]);
    assert_eq!(converter.tiny_pile_to_pile(&tiny), pile);
}

#[test]
fn noop_converter_keeps_pile() {
    let cards = CardDefs::new();
    let pile = string_to_pile(&cards, "3C 1D 2B");
    let converter = NoopPileStorageConverter::new_from_pile(&pile);
    let stored = converter.pile_to_tiny_pile(&pile);
    assert_eq!(stored, pile);
    assert_eq!(converter.tiny_pile_to_pile(&stored), pile);
}
