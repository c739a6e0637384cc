//! Up to four cards, each with its position in the pile, that were used
//! together: the cards that paid a row's cost, or whose modifiers applied.
use vstd::prelude::*;
use crate::card_ptr::CardPtr;

verus! {

/// A card together with its position in the pile.
#[derive(Copy, Clone, Debug, PartialEq, Eq, Hash, Structural)]
pub struct PositionedCard {
    pub index: usize,
    pub card: CardPtr,
}

/// Up to four positioned cards, in the order they were added. The filled
/// slots come first, so two lists with the same cards are equal.
#[derive(Copy, Clone, Debug, PartialEq, Eq, Hash, Structural)]
pub struct UsedCards {
    pub first: Option<PositionedCard>,
    pub second: Option<PositionedCard>,
    pub third: Option<PositionedCard>,
    pub fourth: Option<PositionedCard>,
}

/// The cards that paid a row's cost, with their positions.
pub type CostArr = UsedCards;

/// The cards whose modifiers were used, with their positions.
pub type ModifierArr = UsedCards;

impl UsedCards {
    /// The filled slots come first.
    pub open spec fn wf(&self) -> bool {
        &&& self.first is None ==> self.second is None
        &&& self.second is None ==> self.third is None
        &&& self.third is None ==> self.fourth is None
    }

    /// The cards, in the order they were added.
    pub open spec fn view(&self) -> Seq<PositionedCard> {
        if self.first is None {
            Seq::empty()
        } else if self.second is None {
            seq![self.first->0]
        } else if self.third is None {
            seq![self.first->0, self.second->0]
        } else if self.fourth is None {
            seq![self.first->0, self.second->0, self.third->0]
        } else {
            seq![self.first->0, self.second->0, self.third->0, self.fourth->0]
        }
    }

    /// No cards.
    pub fn new() -> (r: Self)
        ensures
            r.wf(),
            r.view() == Seq::<PositionedCard>::empty(),
    {
        UsedCards { first: None, second: None, third: None, fourth: None }
    }

    /// The number of cards.
    pub fn len(&self) -> (r: usize)
        requires
            self.wf(),
        ensures
            r == self.view().len(),
    {
        if self.first.is_none() {
            0
        } else if self.second.is_none() {
            1
        } else if self.third.is_none() {
            2
        } else if self.fourth.is_none() {
            3
        } else {
            4
        }
    }

    /// Adds a card after the others; there must be room for it.
    pub fn push(&mut self, item: PositionedCard)
        requires
            old(self).wf(),
            old(self).view().len() < 4,
        ensures
            final(self).wf(),
            final(self).view() == old(self).view().push(item),
    {
        if self.first.is_none() {
            self.first = Some(item);
        } else if self.second.is_none() {
            self.second = Some(item);
        } else if self.third.is_none() {
            self.third = Some(item);
        } else {
            self.fourth = Some(item);
        }
        assert(self.view() =~= old(self).view().push(item));
    }

    /// The card at position `i` of the list.
    pub fn get(&self, i: usize) -> (r: PositionedCard)
        requires
            self.wf(),
            i < self.view().len(),
        ensures
            r == self.view()[i as int],
    {
        if i == 0 {
            self.first.unwrap()
        } else if i == 1 {
            self.second.unwrap()
        } else if i == 2 {
            self.third.unwrap()
        } else {
            self.fourth.unwrap()
        }
    }
}

/// Two well-formed lists are equal exactly when they hold the same cards in
/// the same order.
pub proof fn lemma_used_cards_equal(a: UsedCards, b: UsedCards)
    requires
        a.wf(),
        b.wf(),
    ensures
        (a == b) <==> (a.view() == b.view()),
{
    if a.view() == b.view() {
        assert(a.view().len() == b.view().len());
        if a.view().len() >= 1 {
            assert(a.view()[0] == b.view()[0]);
        }
        if a.view().len() >= 2 {
            assert(a.view()[1] == b.view()[1]);
        }
        if a.view().len() >= 3 {
            assert(a.view()[2] == b.view()[2]);
        }
        if a.view().len() >= 4 {
            assert(a.view()[3] == b.view()[3]);
        }
    }
}

} // verus!
