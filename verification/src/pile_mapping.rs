//! Two-way numbering of the cards of a pile: card id to position and back.
use vstd::prelude::*;
use crate::card_ptr::CardPtr;
use crate::pile::{pile_cards, pile_get, pile_len, Pile};
use crate::primitives::CardId;

verus! {

/// The last position before `n` that holds the card `id`, or 0 when there
/// is none.
pub open spec fn spec_id_index(p: Seq<CardPtr>, id: int, n: nat) -> usize
    decreases n,
{
    if n == 0 {
        0
    } else if p[n - 1].card_id == id {
        (n - 1) as usize
    } else {
        spec_id_index(p, id, (n - 1) as nat)
    }
}

/// The largest card id of the pile.
pub open spec fn spec_max_id(p: Seq<CardPtr>, n: nat) -> int
    decreases n,
{
    if n == 0 {
        0
    } else {
        let prev = spec_max_id(p, (n - 1) as nat);
        if p[n - 1].card_id > prev {
            p[n - 1].card_id as int
        } else {
            prev
        }
    }
}

/// The numbering that `PileMappings::new` makes of a pile: for each id up
/// to the largest one, its last position in the pile (or 0); and for each
/// position, the id of its card.
pub open spec fn spec_mappings(p: Seq<CardPtr>) -> (Seq<usize>, Seq<CardId>) {
    (
        Seq::new((spec_max_id(p, p.len()) + 1) as nat, |id: int| spec_id_index(p, id, p.len())),
        p.map_values(|c: CardPtr| c.card_id),
    )
}

pub struct PileMappings {
    card_id_to_index: Vec<usize>,
    index_to_card_id: Vec<CardId>,
}

impl View for PileMappings {
    type V = (Seq<usize>, Seq<CardId>);

    closed spec fn view(&self) -> (Seq<usize>, Seq<CardId>) {
        (self.card_id_to_index@, self.index_to_card_id@)
    }
}

proof fn lemma_max_id(p: Seq<CardPtr>, n: nat)
    requires
        n <= p.len(),
    ensures
        forall|i: int| 0 <= i < n ==> p[i].card_id <= spec_max_id(p, n),
        0 <= spec_max_id(p, n) <= 255,
    decreases n,
{
    if n > 0 {
        lemma_max_id(p, (n - 1) as nat);
    }
}

proof fn lemma_id_index_below(p: Seq<CardPtr>, id: int, n: nat)
    requires
        1 <= n <= usize::MAX,
    ensures
        spec_id_index(p, id, n) < n,
    decreases n,
{
    if p[n - 1].card_id == id {
        assert(spec_id_index(p, id, n) == (n - 1) as usize);
    } else if n > 1 {
        lemma_id_index_below(p, id, (n - 1) as nat);
    } else {
        assert(spec_id_index(p, id, 0) == 0);
    }
}

impl PileMappings {
    /// The numbering of a pile of one to nine cards.
    pub fn new(pile: &Pile) -> (r: Self)
        requires
            0 < pile_cards(*pile).len() <= 9,
        ensures
            r@ == spec_mappings(pile_cards(*pile)),
    {
        let ghost p = pile_cards(*pile);
        let n = pile_len(pile);
        let mut max_num: CardId = 0;
        let mut i: usize = 0;
        while i < n
            invariant
                p == pile_cards(*pile),
                n == p.len(),
                i <= n,
                max_num == spec_max_id(p, i as nat),
            decreases n - i,
        {
            let c = pile_get(pile, i);
            if c.get_card_id() > max_num {
                max_num = c.get_card_id();
            }
            i += 1;
        }
        proof {
            lemma_max_id(p, n as nat);
        }
        let size = max_num as usize + 1;
        let mut card_id_to_index: Vec<usize> = Vec::new();
        let mut j: usize = 0;
        while j < size
            invariant
                j <= size,
                card_id_to_index@.len() == j,
                forall|t: int| 0 <= t < j ==> card_id_to_index@[t] == 0,
            decreases size - j,
        {
            card_id_to_index.push(0);
            j += 1;
        }
        let mut index_to_card_id: Vec<CardId> = Vec::new();
        let mut i: usize = 0;
        while i < n
            invariant
                p == pile_cards(*pile),
                n == p.len(),
                i <= n,
                size == spec_max_id(p, p.len()) + 1,
                forall|t: int| 0 <= t < n ==> p[t].card_id < size,
                card_id_to_index@.len() == size,
                forall|id: int| 0 <= id < size ==> card_id_to_index@[id] == spec_id_index(p, id, i as nat),
                index_to_card_id@ == p.subrange(0, i as int).map_values(|c: CardPtr| c.card_id),
            decreases n - i,
        {
            let c = pile_get(pile, i);
            card_id_to_index.set(c.get_card_id() as usize, i);
            index_to_card_id.push(c.get_card_id());
            assert(p.subrange(0, i + 1).map_values(|c: CardPtr| c.card_id) =~= p.subrange(0, i as int).map_values(
                |c: CardPtr| c.card_id,
            ).push(c.card_id));
            i += 1;
        }
        assert(p.subrange(0, n as int) =~= p);
        let r = Self { card_id_to_index, index_to_card_id };
        assert(r@.0 =~= spec_mappings(p).0);
        r
    }

    /// The position of a card id.
    pub fn index(&self, card_id: CardId) -> (r: usize)
        requires
            (card_id as int) < self@.0.len(),
        ensures
            r == self@.0[card_id as int],
    {
        self.card_id_to_index[card_id as usize]
    }

    /// The card id at a position.
    pub fn card_id(&self, index: usize) -> (r: CardId)
        requires
            index < self@.1.len(),
        ensures
            r == self@.1[index as int],
    {
        self.index_to_card_id[index]
    }
}

/// Every position that the numbering gives is a position of the pile.
pub proof fn lemma_mappings_in_range(p: Seq<CardPtr>)
    requires
        0 < p.len() <= usize::MAX,
    ensures
        forall|id: int| 0 <= id < spec_mappings(p).0.len() ==> #[trigger] spec_mappings(p).0[id] < p.len(),
        forall|i: int| 0 <= i < p.len() ==> (p[i].card_id as int) < spec_mappings(p).0.len(),
        spec_mappings(p).1.len() == p.len(),
{
    lemma_max_id(p, p.len());
    assert forall|id: int| 0 <= id < spec_mappings(p).0.len() implies #[trigger] spec_mappings(p).0[id] < p.len() by {
        lemma_id_index_below(p, id, p.len());
    }
}

/// With distinct ids, the position that the numbering gives a card's id is
/// that card's position.
pub proof fn lemma_distinct_id_index(p: Seq<CardPtr>, i: int, n: nat)
    requires
        0 <= i < n <= p.len(),
        n <= usize::MAX,
        forall|a: int, b: int| 0 <= a < p.len() && 0 <= b < p.len() && a != b ==> p[a].card_id != p[b].card_id,
    ensures
        spec_id_index(p, p[i].card_id as int, n) == i,
    decreases n,
{
    if n - 1 != i {
        lemma_distinct_id_index(p, i, (n - 1) as nat);
    }
}

} // verus!
