//! Random starting piles and random faces, drawn with a `rand_pcg::Pcg64`.
//!
//! The random draws are made by `rand`; what the library does with them
//! (which cards go in, where the back-start cards end up, which faces can
//! come out) is verified for every outcome of the draws.
use vstd::prelude::*;
use rand::seq::SliceRandom;
use rand::Rng;
use rand_pcg::Lcg128Xsl64;
use crate::card_defs::{card_has_exhausted_face, class_ids_below, CardDefs, CARDS_SIZE};
use crate::card_ptr::CardPtr;
use crate::matchups::{class_pair_ids, get_relevant_cards_for_matchup};
use crate::pile::{pile_cards, pile_from_slice, pile_get, pile_len, pile_set, Pile};
use crate::pile_utils::{alive_with_allegiance, any_alive, is_game_winner, pile_valid, spec_standard_winner};
use crate::primitives::{Allegiance, CardDef, CardId, Class, FaceKey, Health, WinType, MAX_PILE_LEN};

verus! {

broadcast use {
    vstd::seq_lib::to_multiset_update,
    vstd::seq_lib::to_multiset_contains,
    vstd::multiset::group_multiset_properties,
    vstd::multiset::group_multiset_axioms,
};

/// The random number generator that the command line seeds (`Pcg64`).
#[verifier::external_type_specification]
#[verifier::external_body]
pub struct ExLcg128Xsl64(Lcg128Xsl64);

/// `SliceRandom::shuffle`: puts the items in a random order. Its source
/// swaps items pairwise, so the result holds the same items, each as often
/// as before; which order comes out depends on the generator's state and is
/// not stated.
#[verifier::external_body]
pub(crate) fn shuffle_vec<T>(items: &mut Vec<T>, rng: &mut Lcg128Xsl64)
    ensures
        final(items)@.len() == old(items)@.len(),
        final(items)@.to_multiset() == old(items)@.to_multiset(),
{
    items.shuffle(rng);
}

/// `Rng::gen_range(0..n)` on `i32`: a number drawn from `0..n`, which must
/// not be empty. Which number comes out is not stated.
#[verifier::external_body]
fn random_i32_below(rng: &mut Lcg128Xsl64, n: i32) -> (r: i32)
    requires
        n > 0,
    ensures
        0 <= r < n,
{
    rng.gen_range(0..n)
}

/// `SliceRandom::choose`: one of the items, which must not be empty. Which
/// one comes out is not stated.
#[verifier::external_body]
fn choose_face(faces: &Vec<FaceKey>, rng: &mut Lcg128Xsl64) -> (r: FaceKey)
    requires
        faces@.len() > 0,
    ensures
        faces@.contains(r),
{
    *faces.choose(rng).unwrap()
}

/// The face numbered `n`: 0 is `A` through 3 is `D`.
pub open spec fn spec_face_for_number(n: int) -> FaceKey {
    if n == 0 {
        FaceKey::A
    } else if n == 1 {
        FaceKey::B
    } else if n == 2 {
        FaceKey::C
    } else {
        FaceKey::D
    }
}

/// The face numbered `n`, for `n` in `0..4`.
pub fn face_for_number(n: i32) -> (r: FaceKey)
    requires
        0 <= n < 4,
    ensures
        r == spec_face_for_number(n as int),
{
    match n {
        0 => FaceKey::A,
        1 => FaceKey::B,
        2 => FaceKey::C,
        _ => FaceKey::D,
    }
}

/// A face drawn at random: the generator draws a number in `0..4` and
/// `face_for_number` turns it into a face.
pub fn get_random_face(rng: &mut Lcg128Xsl64) -> (r: FaceKey)
    ensures
        exists|n: int| 0 <= n < 4 && r == spec_face_for_number(n),
{
    let n = random_i32_below(rng, 4);
    face_for_number(n)
}

/// The face of a card def under a key.
pub open spec fn def_face_health(def: CardDef, key: FaceKey) -> Health {
    def.faces.spec_get(key).health
}

/// The exhausted faces of a card, in the order `A`, `B`, `C`, `D`.
pub open spec fn spec_def_exhausted_faces(def: CardDef) -> Seq<FaceKey> {
    let a = if def.faces.a.health == Health::Empty {
        seq![FaceKey::A]
    } else {
        Seq::empty()
    };
    let b = if def.faces.b.health == Health::Empty {
        seq![FaceKey::B]
    } else {
        Seq::empty()
    };
    let c = if def.faces.c.health == Health::Empty {
        seq![FaceKey::C]
    } else {
        Seq::empty()
    };
    let d = if def.faces.d.health == Health::Empty {
        seq![FaceKey::D]
    } else {
        Seq::empty()
    };
    a + b + c + d
}

/// The exhausted faces of a card, in the order `A`, `B`, `C`, `D`.
pub fn exhausted_faces(def: &CardDef) -> (r: Vec<FaceKey>)
    ensures
        r@ == spec_def_exhausted_faces(*def),
{
    let mut r: Vec<FaceKey> = Vec::new();
    if def.faces.a.health == Health::Empty {
        r.push(FaceKey::A);
    }
    if def.faces.b.health == Health::Empty {
        r.push(FaceKey::B);
    }
    if def.faces.c.health == Health::Empty {
        r.push(FaceKey::C);
    }
    if def.faces.d.health == Health::Empty {
        r.push(FaceKey::D);
    }
    assert(r@ =~= spec_def_exhausted_faces(*def));
    r
}

/// One of the card's exhausted faces, drawn at random; the card must have
/// one.
pub fn get_random_exhausted_face(rng: &mut Lcg128Xsl64, card_def: &CardDef) -> (r: FaceKey)
    requires
        card_has_exhausted_face(*card_def),
    ensures
        spec_def_exhausted_faces(*card_def).contains(r),
        def_face_health(*card_def, r) == Health::Empty,
{
    let faces = exhausted_faces(card_def);
    let r = choose_face(&faces, rng);
    let ghost k = choose|k: int| 0 <= k < faces@.len() && faces@[k] == r;
    r
}

/// Whether a card starts with its back towards the pile.
pub open spec fn back_start(cards: CardDefs, id: CardId) -> bool {
    cards.card(id as int).is_back_start
}

/// The scan that moves back-start cards to the bottom, from position `i - 1`
/// up to the top: each back-start card met is swapped into `slot`, the
/// lowest position not yet given to one, and `slot` moves up by one.
pub open spec fn arrange_from(cards: CardDefs, s: Seq<CardId>, i: int, slot: int) -> Seq<CardId>
    decreases i,
{
    if i <= 0 {
        s
    } else if back_start(cards, s[i - 1]) {
        let swapped = if i - 1 != slot {
            s.update(i - 1, s[slot]).update(slot, s[i - 1])
        } else {
            s
        };
        arrange_from(cards, swapped, i - 1, slot - 1)
    } else {
        arrange_from(cards, s, i - 1, slot)
    }
}

/// The order after the back-start cards have been moved to the bottom.
pub open spec fn arrange_back_starts(cards: CardDefs, s: Seq<CardId>) -> Seq<CardId> {
    arrange_from(cards, s, s.len() as int, s.len() - 1)
}

/// Every back-start card lies below every other card.
pub open spec fn back_starts_at_bottom(cards: CardDefs, s: Seq<CardId>) -> bool {
    forall|a: int, b: int|
        0 <= a < b < s.len() && back_start(cards, #[trigger] s[a]) ==> back_start(cards, #[trigger] s[b])
}

/// The cards of a starting pile, all showing face `A`.
pub open spec fn face_a_cards(ids: Seq<CardId>) -> Seq<CardPtr> {
    ids.map_values(|id: CardId| CardPtr { card_id: id, key: FaceKey::A })
}

/// Moves the back-start cards of a shuffled list to the bottom and deals
/// the list as a pile, every card on face `A`. The list must not be empty,
/// must hold a card that is not back-start, and must fit in a pile.
pub fn start_from_shuffled(cards: &CardDefs, shuffled: Vec<CardId>) -> (r: Pile)
    requires
        0 < shuffled@.len() <= MAX_PILE_LEN,
        forall|i: int| 0 <= i < shuffled@.len() ==> cards.has_card(#[trigger] shuffled@[i] as int),
        exists|i: int| 0 <= i < shuffled@.len() && !back_start(*cards, #[trigger] shuffled@[i]),
    ensures
        pile_cards(r) == face_a_cards(arrange_back_starts(*cards, shuffled@)),
        arrange_back_starts(*cards, shuffled@).to_multiset() == shuffled@.to_multiset(),
        back_starts_at_bottom(*cards, arrange_back_starts(*cards, shuffled@)),
{
    let ghost orig = shuffled@;
    let mut ids = shuffled;
    let n = ids.len();
    let mut back_idx: usize = n - 1;
    let mut i: usize = n;
    while i > 0
        invariant
            n == orig.len(),
            0 < n <= MAX_PILE_LEN,
            ids@.len() == n,
            i <= n,
            i <= back_idx + 1,
            back_idx < n,
            forall|k: int| 0 <= k < orig.len() ==> cards.has_card(#[trigger] orig[k] as int),
            exists|k: int| 0 <= k < orig.len() && !back_start(*cards, #[trigger] orig[k]),
            ids@.to_multiset() == orig.to_multiset(),
            arrange_back_starts(*cards, orig) == arrange_from(*cards, ids@, i as int, back_idx as int),
            forall|k: int| i <= k <= back_idx ==> !back_start(*cards, #[trigger] ids@[k]),
            forall|k: int| back_idx < k < n ==> back_start(*cards, #[trigger] ids@[k]),
        decreases i,
    {
        i -= 1;
        let id = ids[i];
        let ghost before = ids@;
        proof {
            assert(ids@.to_multiset().count(id) > 0);
            assert(orig.contains(id));
        }
        let back_card = cards.get_card(id as usize);
        if back_card.is_back_start {
            if back_idx == 0 {
                proof {
                    let k = choose|k: int| 0 <= k < orig.len() && !back_start(*cards, #[trigger] orig[k]);
                    assert(orig.to_multiset().count(orig[k]) > 0);
                    assert(ids@.contains(orig[k]));
                    let m = choose|m: int| 0 <= m < ids@.len() && ids@[m] == orig[k];
                    assert(back_start(*cards, ids@[m]));
                }
            }
            if i != back_idx {
                let other = ids[back_idx];
                ids.set(i, other);
                ids.set(back_idx, id);
                proof {
                    assert(ids@ == before.update(i as int, before[back_idx as int]).update(
                        back_idx as int,
                        before[i as int],
                    ));
                    let mid = before.update(i as int, before[back_idx as int]);
                    assert(mid[back_idx as int] == before[back_idx as int]);
                    assert(ids@.to_multiset() =~= before.to_multiset());
                }
            }
            back_idx -= 1;
        }
    }
    let ghost arranged = ids@;
    let mut ptrs: Vec<CardPtr> = Vec::new();
    let mut j: usize = 0;
    while j < n
        invariant
            n == ids@.len(),
            j <= n,
            ptrs@ == face_a_cards(ids@.subrange(0, j as int)),
        decreases n - j,
    {
        ptrs.push(CardPtr { card_id: ids[j], key: FaceKey::A });
        assert(face_a_cards(ids@.subrange(0, j + 1)) =~= face_a_cards(ids@.subrange(0, j as int)).push(
            CardPtr { card_id: ids@[j as int], key: FaceKey::A },
        ));
        j += 1;
    }
    assert(ids@.subrange(0, n as int) =~= ids@);
    pile_from_slice(ptrs.as_slice())
}

/// A starting pile for two classes: their cards, shuffled, with the
/// back-start cards moved to the bottom, all on face `A`. The classes must
/// have at most a pile's worth of cards together, and one that is not
/// back-start. Whatever order the shuffle gives, the pile holds each card of
/// the two classes once and the back-start cards lie below the others.
pub fn get_start_from_classes(cards: &CardDefs, hero_class: Class, monster_class: Class, rng: &mut Lcg128Xsl64) -> (r:
    Pile)
    requires
        cards.wf(),
        0 < class_pair_ids(*cards, hero_class, monster_class).len() <= MAX_PILE_LEN,
        exists|i: int|
            0 <= i < class_pair_ids(*cards, hero_class, monster_class).len() && !cards.card(
                #[trigger] class_pair_ids(*cards, hero_class, monster_class)[i],
            ).is_back_start,
    ensures
        exists|shuffled: Seq<CardId>|
            #[trigger] shuffled.to_multiset() == class_pair_ids(*cards, hero_class, monster_class).map_values(
                |id: int| id as CardId,
            ).to_multiset() && pile_cards(r) == face_a_cards(arrange_back_starts(*cards, shuffled))
                && back_starts_at_bottom(*cards, arrange_back_starts(*cards, shuffled))
                && arrange_back_starts(*cards, shuffled).to_multiset() == shuffled.to_multiset(),
{
    let mut ids = get_relevant_cards_for_matchup(cards, (hero_class, monster_class));
    let ghost spec_ids = class_pair_ids(*cards, hero_class, monster_class);
    let ghost listed = ids@;
    assert(listed =~= spec_ids.map_values(|id: int| id as CardId)) by {
        assert forall|k: int| 0 <= k < listed.len() implies listed[k] == spec_ids[k] as CardId by {
            assert(listed[k] == spec_ids[k]);
        }
    }
    proof {
        assert forall|k: int| 0 <= k < listed.len() implies cards.has_card(#[trigger] listed[k] as int) by {
            let hero_len = class_ids_below(*cards, hero_class, CARDS_SIZE as nat).len();
            if k < hero_len {
                crate::matchups::lemma_class_ids_registered(*cards, hero_class, CARDS_SIZE as nat, k);
            } else {
                crate::matchups::lemma_class_ids_registered(*cards, monster_class, CARDS_SIZE as nat, k - hero_len);
            }
        }
        let w = choose|w: int|
            0 <= w < spec_ids.len() && !cards.card(#[trigger] spec_ids[w]).is_back_start;
        assert(!back_start(*cards, listed[w]));
    }
    shuffle_vec(&mut ids, rng);
    let ghost shuffled = ids@;
    proof {
        let w = choose|w: int| 0 <= w < listed.len() && !back_start(*cards, #[trigger] listed[w]);
        assert(listed.to_multiset().count(listed[w]) > 0);
        assert(shuffled.contains(listed[w]));
        assert forall|k: int| 0 <= k < shuffled.len() implies cards.has_card(#[trigger] shuffled[k] as int) by {
            assert(shuffled.to_multiset().count(shuffled[k]) > 0);
            assert(listed.contains(shuffled[k]));
        }
    }
    start_from_shuffled(cards, ids)
}


/// A scenario, with the hero class that plays it.
#[derive(Copy, Clone, Debug, PartialEq, Eq, Structural)]
pub enum ScenarioSelection {
    ScenarioOne(Class),
    ScenarioTwo(Class),
    ScenarioThree(Class),
}

/// The baddie class of a scenario.
pub open spec fn scenario_foe(s: ScenarioSelection) -> Class {
    match s {
        ScenarioSelection::ScenarioOne(_) => Class::Ogre,
        ScenarioSelection::ScenarioTwo(_) => Class::Vampire,
        ScenarioSelection::ScenarioThree(_) => Class::Troupe,
    }
}

/// The hero class of a scenario.
pub open spec fn scenario_hero(s: ScenarioSelection) -> Class {
    match s {
        ScenarioSelection::ScenarioOne(h) => h,
        ScenarioSelection::ScenarioTwo(h) => h,
        ScenarioSelection::ScenarioThree(h) => h,
    }
}

/// The extra card that a scenario shuffles in with the classes' cards.
pub open spec fn scenario_extra(s: ScenarioSelection) -> CardPtr {
    match s {
        ScenarioSelection::ScenarioOne(_) => CardPtr { card_id: 101, key: FaceKey::C },
        ScenarioSelection::ScenarioTwo(_) => CardPtr { card_id: 111, key: FaceKey::A },
        ScenarioSelection::ScenarioThree(_) => CardPtr { card_id: 101, key: FaceKey::B },
    }
}

/// The cards a scenario shuffles: those of its two classes on face `A`, then
/// its extra card.
pub open spec fn scenario_deck(cards: CardDefs, s: ScenarioSelection) -> Seq<CardPtr> {
    face_a_cards(class_pair_ids(cards, scenario_hero(s), scenario_foe(s)).map_values(|id: int| id as CardId)).push(
        scenario_extra(s),
    )
}

/// The card that the first scenario puts at the bottom after shuffling.
pub open spec fn scenario_one_bottom() -> CardPtr {
    CardPtr { card_id: 102, key: FaceKey::A }
}

/// The starting pile of a scenario: the cards of the hero class and of the
/// scenario's baddie class on face `A`, with the scenario's extra card,
/// shuffled; the first scenario then adds card 102 at the bottom. The
/// cards must fit in a pile. Whatever order the shuffle gives, the pile holds
/// exactly those cards.
pub fn get_scenario_starts(cards: &CardDefs, scenario_selection: ScenarioSelection, rng: &mut Lcg128Xsl64) -> (r: Pile)
    requires
        cards.wf(),
        class_pair_ids(*cards, scenario_hero(scenario_selection), scenario_foe(scenario_selection)).len() + 2
            <= MAX_PILE_LEN,
    ensures
        exists|shuffled: Seq<CardPtr>|
            #[trigger] shuffled.to_multiset() == scenario_deck(*cards, scenario_selection).to_multiset()
                && pile_cards(r) == (if scenario_selection is ScenarioOne {
                shuffled.push(scenario_one_bottom())
            } else {
                shuffled
            }),
{
    let (hero, foe, extra) = match scenario_selection {
        ScenarioSelection::ScenarioOne(h) => (h, Class::Ogre, CardPtr { card_id: 101, key: FaceKey::C }),
        ScenarioSelection::ScenarioTwo(h) => (h, Class::Vampire, CardPtr { card_id: 111, key: FaceKey::A }),
        ScenarioSelection::ScenarioThree(h) => (h, Class::Troupe, CardPtr { card_id: 101, key: FaceKey::B }),
    };
    let ids = get_relevant_cards_for_matchup(cards, (hero, foe));
    let ghost spec_ids = class_pair_ids(*cards, hero, foe);
    assert(ids@ =~= spec_ids.map_values(|id: int| id as CardId)) by {
        assert forall|k: int| 0 <= k < ids@.len() implies ids@[k] == spec_ids[k] as CardId by {
            assert(ids@[k] == spec_ids[k]);
        }
    }
    let n = ids.len();
    let mut deck: Vec<CardPtr> = Vec::new();
    let mut j: usize = 0;
    while j < n
        invariant
            n == ids@.len(),
            j <= n,
            deck@ == face_a_cards(ids@.subrange(0, j as int)),
        decreases n - j,
    {
        deck.push(CardPtr { card_id: ids[j], key: FaceKey::A });
        assert(face_a_cards(ids@.subrange(0, j + 1)) =~= face_a_cards(ids@.subrange(0, j as int)).push(
            CardPtr { card_id: ids@[j as int], key: FaceKey::A },
        ));
        j += 1;
    }
    assert(ids@.subrange(0, n as int) =~= ids@);
    deck.push(extra);
    let ghost full_deck = deck@;
    assert(full_deck == scenario_deck(*cards, scenario_selection));
    shuffle_vec(&mut deck, rng);
    let ghost shuffled = deck@;
    if let ScenarioSelection::ScenarioOne(_) = scenario_selection {
        deck.push(CardPtr { card_id: 102, key: FaceKey::A });
    }
    let r = pile_from_slice(deck.as_slice());
    assert(shuffled.to_multiset() == scenario_deck(*cards, scenario_selection).to_multiset());
    r
}



/// The piles are the same cards, faces aside.
pub open spec fn same_cards(a: Seq<CardPtr>, b: Seq<CardPtr>) -> bool {
    a.len() == b.len() && forall|i: int| 0 <= i < a.len() ==> #[trigger] a[i].card_id == b[i].card_id
}

/// Turns every card of the pile to a random face.
pub fn randomize_sides(pile: &mut Pile, rng: &mut Lcg128Xsl64)
    ensures
        same_cards(pile_cards(*final(pile)), pile_cards(*old(pile))),
{
    let n = pile_len(pile);
    let mut i: usize = 0;
    while i < n
        invariant
            n == pile_cards(*pile).len(),
            i <= n,
            same_cards(pile_cards(*pile), pile_cards(*old(pile))),
        decreases n - i,
    {
        let c = pile_get(pile, i);
        let key = get_random_face(rng);
        pile_set(pile, i, CardPtr { card_id: c.card_id, key });
        i += 1;
    }
}

/// Turns every card of the pile whose face is not a baddie's to a random
/// face, once.
pub fn randomize_hero_sides_once(cards: &CardDefs, pile: &mut Pile, rng: &mut Lcg128Xsl64)
    requires
        pile_valid(*cards, pile_cards(*old(pile))),
    ensures
        same_cards(pile_cards(*final(pile)), pile_cards(*old(pile))),
        pile_valid(*cards, pile_cards(*final(pile))),
        forall|i: int|
            0 <= i < pile_cards(*old(pile)).len() && cards.face(pile_cards(*old(pile))[i]).allegiance
                == Allegiance::Baddie ==> #[trigger] pile_cards(*final(pile))[i] == pile_cards(*old(pile))[i],
{
    let ghost start = pile_cards(*pile);
    let n = pile_len(pile);
    let mut i: usize = 0;
    while i < n
        invariant
            n == pile_cards(*pile).len(),
            start == pile_cards(*old(pile)),
            pile_valid(*cards, start),
            i <= n,
            same_cards(pile_cards(*pile), start),
            forall|k: int| i <= k < n ==> #[trigger] pile_cards(*pile)[k] == start[k],
            forall|k: int|
                0 <= k < n && cards.face(start[k]).allegiance == Allegiance::Baddie ==> #[trigger] pile_cards(
                    *pile,
                )[k] == start[k],
        decreases n - i,
    {
        let c = pile_get(pile, i);
        assert(cards.has_card(start[i as int].card_id as int));
        if c.get_active_face(cards).allegiance != Allegiance::Baddie {
            let key = get_random_face(rng);
            pile_set(pile, i, CardPtr { card_id: c.card_id, key });
        }
        i += 1;
    }
    proof {
        assert forall|k: int| 0 <= k < n implies cards.has_card(#[trigger] pile_cards(*pile)[k].card_id as int) by {
            assert(pile_cards(*pile)[k].card_id == start[k].card_id);
        }
    }
}

/// A starting pile for two classes with every card on a random face: see
/// `get_start_from_classes` for what the classes must have.
pub fn get_fully_random_pile(cards: &CardDefs, hero: Class, monster: Class, rng: &mut Lcg128Xsl64) -> (r: Pile)
    requires
        cards.wf(),
        0 < class_pair_ids(*cards, hero, monster).len() <= MAX_PILE_LEN,
        exists|i: int|
            0 <= i < class_pair_ids(*cards, hero, monster).len() && !cards.card(
                #[trigger] class_pair_ids(*cards, hero, monster)[i],
            ).is_back_start,
    ensures
        exists|start: Pile|
            #[trigger] same_cards(pile_cards(r), pile_cards(start)) && pile_cards(start).map_values(
                |c: CardPtr| c.card_id as int,
            ).to_multiset() == class_pair_ids(*cards, hero, monster).to_multiset(),
{
    let start = get_start_from_classes(cards, hero, monster, rng);
    let ghost first = start;
    proof {
        let ids = class_pair_ids(*cards, hero, monster);
        assert forall|k: int| 0 <= k < ids.len() implies 0 <= #[trigger] ids[k] < 256 by {
            let hero_len = class_ids_below(*cards, hero, CARDS_SIZE as nat).len();
            if k < hero_len {
                crate::matchups::lemma_class_ids_registered(*cards, hero, CARDS_SIZE as nat, k);
            } else {
                crate::matchups::lemma_class_ids_registered(*cards, monster, CARDS_SIZE as nat, k - hero_len);
            }
        }
        lemma_start_ids(*cards, hero, monster, pile_cards(start));
    }
    let mut pile = start;
    randomize_sides(&mut pile, rng);
    assert(same_cards(pile_cards(pile), pile_cards(first)));
    pile
}

/// The ids of a starting pile are the ids of the classes' cards.
proof fn lemma_start_ids(cards: CardDefs, hero: Class, monster: Class, p: Seq<CardPtr>)
    requires
        exists|shuffled: Seq<CardId>|
            #[trigger] shuffled.to_multiset() == class_pair_ids(cards, hero, monster).map_values(
                |id: int| id as CardId,
            ).to_multiset() && p == face_a_cards(arrange_back_starts(cards, shuffled))
                && arrange_back_starts(cards, shuffled).to_multiset() == shuffled.to_multiset(),
        forall|k: int|
            0 <= k < class_pair_ids(cards, hero, monster).len() ==> 0 <= #[trigger] class_pair_ids(cards, hero, monster)[k] < 256,
    ensures
        p.map_values(|c: CardPtr| c.card_id as int).to_multiset() == class_pair_ids(cards, hero, monster).to_multiset(),
{
    let shuffled = choose|shuffled: Seq<CardId>|
        #[trigger] shuffled.to_multiset() == class_pair_ids(cards, hero, monster).map_values(
            |id: int| id as CardId,
        ).to_multiset() && p == face_a_cards(arrange_back_starts(cards, shuffled))
            && arrange_back_starts(cards, shuffled).to_multiset() == shuffled.to_multiset();
    let ids = class_pair_ids(cards, hero, monster);
    let arranged = arrange_back_starts(cards, shuffled);
    let small = ids.map_values(|id: int| id as CardId);
    assert(p.map_values(|c: CardPtr| c.card_id as int) =~= arranged.map_values(|id: CardId| id as int));
    assert(small.map_values(|id: CardId| id as int) =~= ids);
    lemma_multiset_map_values(arranged, small);
}

/// Two lists with the same ids, each as often, keep that when widened to
/// `int`.
proof fn lemma_multiset_map_values(a: Seq<CardId>, b: Seq<CardId>)
    requires
        a.to_multiset() == b.to_multiset(),
    ensures
        a.map_values(|id: CardId| id as int).to_multiset() == b.map_values(|id: CardId| id as int).to_multiset(),
{
    broadcast use vstd::seq_lib::group_to_multiset_ensures;
    let f = |id: CardId| id as int;
    assert forall|x: int| a.map_values(f).to_multiset().count(x) == b.map_values(f).to_multiset().count(x) by {
        if 0 <= x < 256 {
            lemma_count_widened(a, x as CardId);
            lemma_count_widened(b, x as CardId);
        } else {
            lemma_count_out_of_range(a, x);
            lemma_count_out_of_range(b, x);
        }
    }
    assert(a.map_values(f).to_multiset() =~= b.map_values(f).to_multiset());
}

proof fn lemma_count_widened(a: Seq<CardId>, x: CardId)
    ensures
        a.map_values(|id: CardId| id as int).to_multiset().count(x as int) == a.to_multiset().count(x),
    decreases a.len(),
{
    broadcast use vstd::seq_lib::group_to_multiset_ensures;
    if a.len() > 0 {
        let rest = a.drop_last();
        lemma_count_widened(rest, x);
        assert(a =~= rest.push(a.last()));
        assert(a.map_values(|id: CardId| id as int) =~= rest.map_values(|id: CardId| id as int).push(a.last() as int));
    } else {
        assert(a.map_values(|id: CardId| id as int) =~= Seq::<int>::empty());
    }
}

proof fn lemma_count_out_of_range(a: Seq<CardId>, x: int)
    requires
        !(0 <= x < 256),
    ensures
        a.map_values(|id: CardId| id as int).to_multiset().count(x) == 0,
    decreases a.len(),
{
    broadcast use vstd::seq_lib::group_to_multiset_ensures;
    if a.len() > 0 {
        let rest = a.drop_last();
        lemma_count_out_of_range(rest, x);
        assert(a.map_values(|id: CardId| id as int) =~= rest.map_values(|id: CardId| id as int).push(a.last() as int));
    } else {
        assert(a.map_values(|id: CardId| id as int) =~= Seq::<int>::empty());
    }
}


/// No card shows a baddie face that has health left.
pub open spec fn no_live_baddie(cards: CardDefs, p: Seq<CardPtr>) -> bool {
    forall|i: int|
        0 <= i < p.len() ==> cards.face(#[trigger] p[i]).health == Health::Empty || cards.face(p[i]).allegiance
            != Allegiance::Baddie
}

/// Turns every card that shows a baddie face to one of its exhausted faces,
/// drawn at random.
pub fn exhaust_baddies(cards: &CardDefs, pile: &mut Pile, rng: &mut Lcg128Xsl64)
    requires
        cards.wf(),
        pile_valid(*cards, pile_cards(*old(pile))),
    ensures
        same_cards(pile_cards(*final(pile)), pile_cards(*old(pile))),
        pile_valid(*cards, pile_cards(*final(pile))),
        no_live_baddie(*cards, pile_cards(*final(pile))),
{
    let ghost start = pile_cards(*pile);
    let n = pile_len(pile);
    let mut i: usize = 0;
    while i < n
        invariant
            cards.wf(),
            n == pile_cards(*pile).len(),
            start == pile_cards(*old(pile)),
            pile_valid(*cards, start),
            i <= n,
            same_cards(pile_cards(*pile), start),
            forall|k: int| i <= k < n ==> #[trigger] pile_cards(*pile)[k] == start[k],
            forall|k: int|
                0 <= k < i ==> cards.face(#[trigger] pile_cards(*pile)[k]).health == Health::Empty || cards.face(
                    pile_cards(*pile)[k],
                ).allegiance != Allegiance::Baddie,
        decreases n - i,
    {
        let c = pile_get(pile, i);
        assert(cards.has_card(start[i as int].card_id as int));
        if c.get_active_face(cards).allegiance == Allegiance::Baddie {
            let def = c.get_card_def(cards);
            proof {
                assert(cards.cards@[c.card_id as int].is_some());
            }
            let key = get_random_exhausted_face(rng, def);
            pile_set(pile, i, CardPtr { card_id: c.card_id, key });
            assert(cards.face(pile_cards(*pile)[i as int]).health == Health::Empty);
        }
        i += 1;
    }
    proof {
        assert forall|k: int| 0 <= k < n implies cards.has_card(#[trigger] pile_cards(*pile)[k].card_id as int) by {
            assert(pile_cards(*pile)[k].card_id == start[k].card_id);
        }
    }
}

/// A starting pile for two classes with every card on a random face, then
/// every card that shows a baddie face exhausted: a pile that the heroes
/// have won. See `get_start_from_classes` for what the classes must have.
pub fn get_random_won_pile(cards: &CardDefs, hero: Class, monster: Class, rng: &mut Lcg128Xsl64) -> (r: Pile)
    requires
        cards.wf(),
        0 < class_pair_ids(*cards, hero, monster).len() <= MAX_PILE_LEN,
        exists|i: int|
            0 <= i < class_pair_ids(*cards, hero, monster).len() && !cards.card(
                #[trigger] class_pair_ids(*cards, hero, monster)[i],
            ).is_back_start,
    ensures
        pile_cards(r).map_values(|c: CardPtr| c.card_id as int).to_multiset() == class_pair_ids(
            *cards,
            hero,
            monster,
        ).to_multiset(),
        no_live_baddie(*cards, pile_cards(r)),
        spec_standard_winner(*cards, pile_cards(r)) == WinType::Win,
{
    let mut pile = get_fully_random_pile(cards, hero, monster, rng);
    let ghost first = pile_cards(pile);
    proof {
        let start = choose|start: Pile|
            #[trigger] same_cards(first, pile_cards(start)) && pile_cards(start).map_values(
                |c: CardPtr| c.card_id as int,
            ).to_multiset() == class_pair_ids(*cards, hero, monster).to_multiset();
        assert(first.map_values(|c: CardPtr| c.card_id as int) =~= pile_cards(start).map_values(
            |c: CardPtr| c.card_id as int,
        ));
        assert forall|k: int| 0 <= k < first.len() implies cards.has_card(#[trigger] first[k].card_id as int) by {
            let ids = class_pair_ids(*cards, hero, monster);
            let as_ints = first.map_values(|c: CardPtr| c.card_id as int);
            assert(as_ints[k] == first[k].card_id as int);
            assert(as_ints.to_multiset().count(as_ints[k]) > 0);
            assert(ids.contains(as_ints[k]));
            let m = choose|m: int| 0 <= m < ids.len() && ids[m] == as_ints[k];
            let hero_len = class_ids_below(*cards, hero, CARDS_SIZE as nat).len();
            if m < hero_len {
                crate::matchups::lemma_class_ids_registered(*cards, hero, CARDS_SIZE as nat, m);
            } else {
                crate::matchups::lemma_class_ids_registered(*cards, monster, CARDS_SIZE as nat, m - hero_len);
            }
        }
    }
    exhaust_baddies(cards, &mut pile, rng);
    proof {
        assert(pile_cards(pile).map_values(|c: CardPtr| c.card_id as int) =~= first.map_values(
            |c: CardPtr| c.card_id as int,
        ));
        if any_alive(*cards, pile_cards(pile), Allegiance::Baddie) {
            let k = choose|k: int|
                0 <= k < pile_cards(pile).len() && alive_with_allegiance(*cards, pile_cards(pile), k, Allegiance::Baddie);
            assert(cards.face(pile_cards(pile)[k]).health == Health::Empty || cards.face(pile_cards(pile)[k]).allegiance
                != Allegiance::Baddie);
        }
    }
    pile
}


/// Which kind of random pile a draw of `0..100` asks for.
#[derive(Copy, Clone, Debug, PartialEq, Eq, Structural)]
pub enum RandomPileKind {
    /// Random faces with neither side having won.
    NoWinner,
    /// A shuffled start whose non-baddie cards get random faces, with
    /// neither side having won.
    RandomHeroSides,
    /// A shuffled start on face `A`.
    Standard,
}

/// The kind of random pile for a score drawn from `0..100`: the first
/// `randomize_sides_pct` scores ask for random faces, the next
/// `randomize_hero_sides_pct` for random hero faces, the rest for a standard
/// start.
pub fn random_pile_kind(score: usize, randomize_sides_pct: usize, randomize_hero_sides_pct: usize) -> (r:
    RandomPileKind)
    requires
        score >= randomize_sides_pct ==> randomize_sides_pct + randomize_hero_sides_pct <= usize::MAX,
    ensures
        r == if score < randomize_sides_pct {
            RandomPileKind::NoWinner
        } else if score < randomize_sides_pct + randomize_hero_sides_pct {
            RandomPileKind::RandomHeroSides
        } else {
            RandomPileKind::Standard
        },
{
    if score < randomize_sides_pct {
        RandomPileKind::NoWinner
    } else if score < randomize_sides_pct + randomize_hero_sides_pct {
        RandomPileKind::RandomHeroSides
    } else {
        RandomPileKind::Standard
    }
}

} // verus!
