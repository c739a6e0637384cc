//! Where each card of a matchup, and each face, stands in the one-hot input
//! of the scoring network.
use std::collections::HashMap;
use vstd::prelude::*;
use crate::card_defs::CardDefs;
use crate::matchups::{class_pair_ids, get_relevant_cards_for_matchup};
use crate::primitives::{CardId, Class, FaceKey};

verus! {

broadcast use vstd::std_specs::hash::group_hash_axioms;

/// How many of the ids are at most `k`.
pub open spec fn count_at_most(ids: Seq<int>, k: int) -> nat
    decreases ids.len(),
{
    if ids.len() == 0 {
        0
    } else {
        count_at_most(ids.drop_last(), k) + if ids.last() <= k {
            1nat
        } else {
            0nat
        }
    }
}

proof fn lemma_count_at_most_step(ids: Seq<int>, i: int, k: int)
    requires
        0 <= i < ids.len(),
    ensures
        count_at_most(ids.subrange(0, i + 1), k) == count_at_most(ids.subrange(0, i), k) + if ids[i] <= k {
            1nat
        } else {
            0nat
        },
{
    assert(ids.subrange(0, i + 1).drop_last() =~= ids.subrange(0, i));
}

proof fn lemma_count_at_most_self(ids: Seq<int>, i: int)
    requires
        0 <= i < ids.len(),
    ensures
        count_at_most(ids, ids[i]) >= 1,
    decreases ids.len(),
{
    if i < ids.len() - 1 {
        lemma_count_at_most_self(ids.drop_last(), i);
    }
}

/// Each card id of the two classes, mapped to its position among those ids
/// in ascending order (for an id listed twice, its later position).
pub fn make_card_map(cards: &CardDefs, hero: Class, monster: Class) -> (r: HashMap<CardId, usize>)
    requires
        cards.wf(),
    ensures
        forall|k: CardId| r@.contains_key(k) <==> class_pair_ids(*cards, hero, monster).contains(k as int),
        forall|k: CardId|
            #[trigger] r@.contains_key(k) ==> r@[k] == count_at_most(class_pair_ids(*cards, hero, monster), k as int) - 1,
{
    let ids = get_relevant_cards_for_matchup(cards, (hero, monster));
    let ghost spec_ids = class_pair_ids(*cards, hero, monster);
    let ghost as_ints = ids@.map_values(|x: CardId| x as int);
    assert(as_ints =~= spec_ids);
    let n = ids.len();
    let mut card_map: HashMap<CardId, usize> = HashMap::new();
    let mut i: usize = 0;
    while i < n
        invariant
            n == ids@.len(),
            as_ints == ids@.map_values(|x: CardId| x as int),
            as_ints == spec_ids,
            i <= n,
            forall|k: CardId| card_map@.contains_key(k) <==> as_ints.subrange(0, i as int).contains(k as int),
            forall|k: CardId|
                #[trigger] card_map@.contains_key(k) ==> card_map@[k] == count_at_most(as_ints, k as int) - 1,
        decreases n - i,
    {
        let id = ids[i];
        let mut count: usize = 0;
        let mut j: usize = 0;
        while j < n
            invariant
                n == ids@.len(),
                as_ints == ids@.map_values(|x: CardId| x as int),
                j <= n,
                count == count_at_most(as_ints.subrange(0, j as int), id as int),
                count <= j,
            decreases n - j,
        {
            proof {
                lemma_count_at_most_step(as_ints, j as int, id as int);
            }
            if ids[j] <= id {
                count += 1;
            }
            j += 1;
        }
        proof {
            assert(as_ints.subrange(0, n as int) =~= as_ints);
            assert(as_ints[i as int] == id as int);
            lemma_count_at_most_self(as_ints, i as int);
        }
        card_map.insert(id, count - 1);
        proof {
            assert forall|k: CardId| card_map@.contains_key(k) <==> as_ints.subrange(0, i + 1).contains(
                k as int,
            ) by {
                crate::matchups::lemma_prefix_contains(as_ints, i as int, k as int);
            }
        }
        i += 1;
    }
    proof {
        assert(as_ints.subrange(0, n as int) =~= as_ints);
    }
    card_map
}

/// The row of a face in the one-hot input: `A` is 0 through `D` is 3.
pub fn face_to_idx(face_key: FaceKey) -> (r: usize)
    ensures
        r == match face_key {
            FaceKey::A => 0usize,
            FaceKey::B => 1usize,
            FaceKey::C => 2usize,
            FaceKey::D => 3usize,
        },
{
    match face_key {
        FaceKey::A => 0,
        FaceKey::B => 1,
        FaceKey::C => 2,
        FaceKey::D => 3,
    }
}


proof fn lemma_count_at_most_bounds(ids: Seq<int>, a: int, b: int)
    requires
        a <= b,
    ensures
        count_at_most(ids, a) <= count_at_most(ids, b),
        count_at_most(ids, b) <= ids.len(),
    decreases ids.len(),
{
    if ids.len() > 0 {
        lemma_count_at_most_bounds(ids.drop_last(), a, b);
    }
}

proof fn lemma_count_at_most_strict(ids: Seq<int>, a: int, j: int)
    requires
        0 <= j < ids.len(),
        a < ids[j],
    ensures
        count_at_most(ids, a) + 1 <= count_at_most(ids, ids[j]),
    decreases ids.len(),
{
    if j == ids.len() - 1 {
        lemma_count_at_most_bounds(ids.drop_last(), a, ids[j]);
    } else {
        lemma_count_at_most_strict(ids.drop_last(), a, j);
        assert(ids.drop_last()[j] == ids[j]);
    }
}

/// When no card id is listed twice, `make_card_map` gives each card its own
/// position, and every position lies in `0..n` for `n` cards: the positions
/// number the cards.
pub proof fn lemma_card_positions_distinct(ids: Seq<int>, i: int, j: int)
    requires
        ids.no_duplicates(),
        0 <= i < ids.len(),
        0 <= j < ids.len(),
        i != j,
    ensures
        count_at_most(ids, ids[i]) != count_at_most(ids, ids[j]),
        1 <= count_at_most(ids, ids[i]) <= ids.len(),
{
    lemma_count_at_most_self(ids, i);
    lemma_count_at_most_bounds(ids, ids[i], ids[i]);
    if ids[i] < ids[j] {
        lemma_count_at_most_strict(ids, ids[i], j);
    } else {
        lemma_count_at_most_strict(ids, ids[j], i);
    }
}

} // verus!
