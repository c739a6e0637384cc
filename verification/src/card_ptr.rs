//! A card in a pile: which card it is and which of its faces is up.
use vstd::prelude::*;
use crate::primitives::{CardDef, CardId, FaceDef, FaceKey};
use crate::card_defs::CardDefs;

verus! {

/// A card referred to by its id, together with the face that is up.
#[derive(Copy, Clone, Debug, PartialEq, Eq, Hash, Ord, PartialOrd, Structural)]
pub struct CardPtrAsId {
    pub card_id: CardId,
    pub key: FaceKey,
}

/// The plain form in which a card is stored: its id and its face.
#[derive(Copy, Clone, Debug, PartialEq, Eq, Hash, Structural)]
pub struct CardPtrAsTuple(pub CardId, pub FaceKey);

pub type CardPtr = CardPtrAsId;

impl CardPtrAsId {
    /// The card with this id, showing this face.
    pub fn new_from_id(id: CardId, key: FaceKey) -> (r: Self)
        ensures
            r.card_id == id,
            r.key == key,
    {
        Self { card_id: id, key }
    }

    /// The card that an `(id, face)` pair names.
    pub fn new_from_tuple(tuple: CardPtrAsTuple) -> (r: Self)
        ensures
            r.card_id == tuple.0,
            r.key == tuple.1,
    {
        Self::new_from_id(tuple.0, tuple.1)
    }

    /// The id of the card.
    pub fn get_card_id(&self) -> (r: CardId)
        ensures
            r == self.card_id,
    {
        self.card_id
    }

    /// The face the card shows.
    pub fn get_card_face(&self) -> (r: FaceKey)
        ensures
            r == self.key,
    {
        self.key
    }

    /// The definition of this card in the table.
    pub fn get_card_def<'a>(&self, cards: &'a CardDefs) -> (r: &'a CardDef)
        requires
            cards.has_card(self.card_id as int),
        ensures
            *r == cards.card(self.card_id as int),
    {
        cards.get_card(self.card_id as usize)
    }

    /// The face of this card that is up.
    pub fn get_active_face<'a>(&self, cards: &'a CardDefs) -> (r: &'a FaceDef)
        requires
            cards.has_card(self.card_id as int),
        ensures
            *r == cards.face(*self),
    {
        self.get_card_def(cards).faces.get(self.key)
    }

    /// The card as an `(id, face)` pair.
    pub fn to_tuple(&self) -> (r: CardPtrAsTuple)
        ensures
            r.0 == self.card_id,
            r.1 == self.key,
    {
        CardPtrAsTuple(self.card_id, self.key)
    }
}

/// Converting a card to its stored form and back gives the same card.
pub proof fn lemma_tuple_round_trip(c: CardPtr)
    ensures
        (CardPtrAsId { card_id: CardPtrAsTuple(c.card_id, c.key).0, key: CardPtrAsTuple(c.card_id, c.key).1 }) == c,
{
}

} // verus!
