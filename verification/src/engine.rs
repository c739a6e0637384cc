//! The rules that play out a turn: the card on top acts, row by row and
//! action by action, and every way the turn can go is kept as a state of
//! its own. Hits, reactions, moves, heals and assists are all resolved
//! here; the outcomes are then what a search walks through.
use vstd::prelude::*;
use vstd::multiset::Multiset;
use crate::card_defs::{when_hit_row, CardDefs};
use crate::card_ptr::CardPtr;
use crate::game_state::{bottom_top_card, perform_mandatory_action, EngineGameState};
use crate::outcomes::hurt_card_get_all_outcomes;
use crate::pile::{pile_cards, pile_get, pile_len, pile_set, Pile};
use crate::pile_utils::{
    exhaust_card, find_heal_target, is_allegiance_match, pile_valid, rotate_key, spec_allegiance_match,
};
use crate::card_modifiers::mut_exhaust_card_without_giving_options;
use crate::primitives::{
    Action, Allegiance, CardId, ClawSpaceType, Condition, ConditionCostType, EndPileMoveType, Event,
    FaceDef, FaceKey, Features, HitType, Health, MoveType, ProvideAssistReaction, Range, Reaction,
    ReactionTrigger, Row, SelfAction, SkipActionReason, StandardReaction, Target, WrappedAction,
    FEATURE_ENERGY, FEATURE_TRAP, FEATURE_VENOM, FEATURE_WEB, FEATURE_WEIGHT, MAX_PILE_LEN,
};
use crate::used_cards::{PositionedCard, UsedCards};
use itertools::Itertools;

verus! {

/// How deep calls may nest while a turn is played out: an inspired card
/// acting, a card reacting to a hit, an assist. Each nesting acts on a card
/// further down the pile, so a turn on a pile of at most twelve cards stays
/// far below this.
pub const TURN_DEPTH: usize = 1000;

/// A range that the rules here read: one card or more, or the whole pile.
pub open spec fn range_ruled(r: Range) -> bool {
    match r {
        Range::Int(n) => n >= 1,
        Range::Inf => true,
        _ => false,
    }
}

/// An action that the rules give a hero.
pub open spec fn player_action_ruled(a: Action) -> bool {
    match a {
        Action::Arrow | Action::ArrowTwice | Action::Fireball | Action::Ablaze | Action::Teleport
        | Action::CallAssist | Action::CallAssistTwice | Action::Inspire | Action::Heal | Action::Maneuver
        | Action::Revive => true,
        Action::Quicken(r) | Action::Delay(r) | Action::Hit(r) | Action::Claws(r) => range_ruled(r),
        _ => false,
    }
}

/// An action that the rules give a baddie or a werewolf.
pub open spec fn enemy_action_ruled(a: Action) -> bool {
    match a {
        Action::Hit(r) | Action::Claws(r) | Action::Pull(r) | Action::Push(r) => range_ruled(r),
        Action::SpacedClaws(_) | Action::Void | Action::Death | Action::Heal | Action::Revive
        | Action::Inspire => true,
        _ => false,
    }
}

/// A hero row that the rules read: no condition, or an energy cost of at
/// most four cards; and actions a hero may take.
pub open spec fn player_row_ruled(r: Row) -> bool {
    &&& match r.condition {
        None => true,
        Some(Condition::Cost(ConditionCostType::Energy, n)) => n <= 4,
        _ => false,
    }
    &&& forall|i: int| 0 <= i < r.actions@.len() ==> player_action_ruled(#[trigger] r.actions@[i].action)
}

/// A baddie row that the rules read: no condition, a rage condition or an
/// exhausted-allies condition; and actions a baddie may take.
pub open spec fn enemy_row_ruled(r: Row) -> bool {
    &&& match r.condition {
        None => true,
        Some(Condition::Rage(_)) => true,
        Some(Condition::ExhaustedAllies(_)) => true,
        _ => false,
    }
    &&& forall|i: int| 0 <= i < r.actions@.len() ==> enemy_action_ruled(#[trigger] r.actions@[i].action)
}

/// A reaction that the rules read.
pub open spec fn reaction_ruled(r: Option<Reaction>) -> bool {
    match r {
        None => true,
        Some(Reaction::Standard(c, _)) => c is None,
        Some(Reaction::Assist(_)) => true,
        Some(Reaction::WhenHit(_)) => true,
        Some(Reaction::Roll(_)) => false,
    }
}

/// A face that the rules read through: a hero, baddie or werewolf face
/// whose rows, assists, swarm row and reaction the rules cover.
pub open spec fn face_ruled(f: FaceDef) -> bool {
    &&& f.allegiance != Allegiance::Rat
    &&& reaction_ruled(f.reaction)
    &&& forall|i: int|
        0 <= i < f.rows@.len() ==> if f.allegiance == Allegiance::Hero {
            player_row_ruled(#[trigger] f.rows@[i])
        } else {
            enemy_row_ruled(f.rows@[i])
        }
    &&& forall|i: int| 0 <= i < f.assists@.len() ==> player_row_ruled(#[trigger] f.assists@[i])
    &&& match f.swarm {
        Some(r) => enemy_row_ruled(r),
        None => true,
    }
}

/// Every face of the card is one the rules read through.
pub open spec fn card_ruled(cards: CardDefs, id: int) -> bool {
    let c = cards.card(id);
    face_ruled(c.faces.a) && face_ruled(c.faces.b) && face_ruled(c.faces.c) && face_ruled(c.faces.d)
}

/// A pile of the table's cards, each of which the rules read through.
pub open spec fn pile_ruled(cards: CardDefs, p: Seq<CardPtr>) -> bool {
    &&& p.len() <= MAX_PILE_LEN
    &&& pile_valid(cards, p)
    &&& forall|i: int| 0 <= i < p.len() ==> card_ruled(cards, #[trigger] p[i].card_id as int)
}

/// The state's log starts with the events of `base`: what a turn logs is
/// added after the events that led to the state it started from.
pub open spec fn extends_log<T: EngineGameState>(base: Seq<Event>, s: T) -> bool {
    &&& base.len() <= s.event_view().len()
    &&& forall|i: int| 0 <= i < base.len() ==> #[trigger] s.event_view()[i] == base[i]
}

/// The card ids of the pile, as a multiset: which cards it holds, however
/// they are ordered or turned.
pub open spec fn card_ids(p: Seq<CardPtr>) -> Multiset<u8> {
    p.map_values(|c: CardPtr| c.card_id).to_multiset()
}

proof fn lemma_update_ids(p: Seq<CardPtr>, i: int, c: CardPtr)
    requires
        0 <= i < p.len(),
    ensures
        card_ids(p.update(i, c)) == card_ids(p).remove(p[i].card_id).insert(c.card_id),
{
    broadcast use vstd::seq_lib::group_to_multiset_ensures;
    let f = |c: CardPtr| c.card_id;
    let m = p.map_values(f);
    let u = p.update(i, c).map_values(f);
    assert(u =~= m.update(i, c.card_id));
    assert(u.remove(i) =~= m.remove(i));
    assert(u.remove(i).to_multiset() == u.to_multiset().remove(u[i]));
    assert(m.remove(i).to_multiset() == m.to_multiset().remove(m[i]));
    assert(u.to_multiset().count(c.card_id) > 0) by {
        assert(u.contains(c.card_id)) by {
            assert(u[i] == c.card_id);
        }
    }
    assert(u.to_multiset() =~= u.to_multiset().remove(c.card_id).insert(c.card_id));
}

proof fn lemma_rekey_ids(p: Seq<CardPtr>, i: int, c: CardPtr)
    requires
        0 <= i < p.len(),
        c.card_id == p[i].card_id,
    ensures
        card_ids(p.update(i, c)) == card_ids(p),
{
    let f = |c: CardPtr| c.card_id;
    assert(p.update(i, c).map_values(f) =~= p.map_values(f));
}

proof fn lemma_swap_ids(p: Seq<CardPtr>, i: int, j: int)
    requires
        0 <= i < p.len(),
        0 <= j < p.len(),
    ensures
        card_ids(p.update(i, p[j]).update(j, p[i])) == card_ids(p),
{
    broadcast use vstd::seq_lib::group_to_multiset_ensures;
    let q = p.update(i, p[j]);
    lemma_update_ids(p, i, p[j]);
    lemma_update_ids(q, j, p[i]);
    let m = p.map_values(|c: CardPtr| c.card_id);
    assert(m.to_multiset().count(p[i].card_id) > 0) by {
        assert(m[i] == p[i].card_id);
        assert(m.contains(p[i].card_id));
    }
    assert(m.to_multiset().count(p[j].card_id) > 0) by {
        assert(m[j] == p[j].card_id);
        assert(m.contains(p[j].card_id));
    }
    assert(card_ids(p.update(i, p[j]).update(j, p[i])) =~= card_ids(p));
}

proof fn lemma_bottomed_ids(p: Seq<CardPtr>)
    requires
        p.len() >= 1,
    ensures
        card_ids(crate::game_state::bottomed(p)) == card_ids(p),
{
    broadcast use vstd::seq_lib::group_to_multiset_ensures;
    let f = |c: CardPtr| c.card_id;
    let m = p.map_values(f);
    let b = crate::game_state::bottomed(p).map_values(f);
    assert(b =~= m.remove(0).push(m[0]));
    assert(m.to_multiset().count(m[0]) > 0) by {
        assert(m.contains(m[0]));
    }
    assert(b.to_multiset() =~= m.to_multiset());
}

/// A state that a turn can reach from a pile of `n` cards, with card ids
/// `ids`, whose log was `base`: the same number of cards and the same
/// cards, each of the table and read through by the rules, and a log that
/// goes on from `base`.
pub open spec fn state_ok<T: EngineGameState>(cards: CardDefs, n: nat, ids: Multiset<u8>, base: Seq<Event>, s: T) -> bool {
    &&& s.pile_view().len() == n
    &&& card_ids(s.pile_view()) == ids
    &&& pile_ruled(cards, s.pile_view())
    &&& extends_log(base, s)
}

/// Every state of the list is one a turn can reach from a pile of `n`
/// cards with ids `ids`, logged as `base`.
pub open spec fn all_ok<T: EngineGameState>(cards: CardDefs, n: nat, ids: Multiset<u8>, base: Seq<Event>, v: Seq<T>) -> bool {
    forall|k: int| 0 <= k < v.len() ==> state_ok(cards, n, ids, base, #[trigger] v[k])
}

proof fn lemma_face_ruled(cards: CardDefs, p: Seq<CardPtr>, i: int)
    requires
        pile_ruled(cards, p),
        0 <= i < p.len(),
    ensures
        face_ruled(cards.face(p[i])),
        cards.has_card(p[i].card_id as int),
{
    assert(card_ruled(cards, p[i].card_id as int));
}

proof fn lemma_all_ok_concat<T: EngineGameState>(cards: CardDefs, n: nat, ids: Multiset<u8>, base: Seq<Event>, a: Seq<T>, b: Seq<T>)
    requires
        all_ok(cards, n, ids, base, a),
        all_ok(cards, n, ids, base, b),
    ensures
        all_ok(cards, n, ids, base, a + b),
{
    assert forall|k: int| 0 <= k < (a + b).len() implies state_ok(cards, n, ids, base, #[trigger] (a + b)[k]) by {
        if k < a.len() {
            assert((a + b)[k] == a[k]);
        } else {
            assert((a + b)[k] == b[k - a.len()]);
        }
    }
}

proof fn lemma_all_ok_rebase<T: EngineGameState>(cards: CardDefs, n: nat, ids: Multiset<u8>, base: Seq<Event>, mid: T, v: Seq<T>)
    requires
        all_ok(cards, n, ids, mid.event_view(), v),
        extends_log(base, mid),
        card_ids(mid.pile_view()) == ids,
    ensures
        all_ok(cards, n, ids, base, v),
{
    assert forall|k: int| 0 <= k < v.len() implies state_ok(cards, n, ids, base, #[trigger] v[k]) by {
        assert(state_ok(cards, n, ids, mid.event_view(), v[k]));
    }
}

/// The event records that the card at position `t` was attacked: it took
/// damage, blocked or dodged, or reacted to being hurt.
pub open spec fn attack_event(e: Event, t: int) -> bool {
    match e {
        Event::Damage(i, _, _, _) => i == t,
        Event::Block(i, _, _, _) => i == t,
        Event::Dodge(i, _, _, _) => i == t,
        Event::OnHurt(i, _) => i == t,
        _ => false,
    }
}

/// The state's log records, after the events of `base`, that the card at
/// position `t` was attacked.
pub open spec fn logs_attack_on<T: EngineGameState>(base: Seq<Event>, s: T, t: int) -> bool {
    exists|p: int| base.len() <= p < s.event_view().len() && #[trigger] attack_event(s.event_view()[p], t)
}

/// Every state of the list records an attack on `t` after `base`.
pub open spec fn all_log_attack_on<T: EngineGameState>(base: Seq<Event>, v: Seq<T>, t: int) -> bool {
    forall|m: int| 0 <= m < v.len() ==> logs_attack_on(base, #[trigger] v[m], t)
}

proof fn lemma_logs_attack_extends<T: EngineGameState>(base: Seq<Event>, s1: T, s2: T, t: int)
    requires
        logs_attack_on(base, s1, t),
        extends_log(s1.event_view(), s2),
    ensures
        logs_attack_on(base, s2, t),
{
    let p = choose|p: int| base.len() <= p < s1.event_view().len() && #[trigger] attack_event(s1.event_view()[p], t);
    assert(s2.event_view()[p] == s1.event_view()[p]);
}

proof fn lemma_logs_attack_rebase<T: EngineGameState>(b1: Seq<Event>, b2: Seq<Event>, s: T, t: int)
    requires
        logs_attack_on(b2, s, t),
        b1.len() <= b2.len(),
    ensures
        logs_attack_on(b1, s, t),
{
    let p = choose|p: int| b2.len() <= p < s.event_view().len() && #[trigger] attack_event(s.event_view()[p], t);
    assert(attack_event(s.event_view()[p], t));
}

proof fn lemma_logs_attack_pushed<T: EngineGameState>(base: Seq<Event>, s: T, e: Event, t: int)
    requires
        s.event_view() == base.push(e),
        attack_event(e, t),
    ensures
        logs_attack_on(base, s, t),
{
    assert(attack_event(s.event_view()[base.len() as int], t));
}

proof fn lemma_all_log_attack_concat<T: EngineGameState>(base: Seq<Event>, a: Seq<T>, b: Seq<T>, t: int)
    requires
        all_log_attack_on(base, a, t),
        all_log_attack_on(base, b, t),
    ensures
        all_log_attack_on(base, a + b, t),
{
    assert forall|m: int| 0 <= m < (a + b).len() implies logs_attack_on(base, #[trigger] (a + b)[m], t) by {
        if m < a.len() {
            assert((a + b)[m] == a[m]);
        } else {
            assert((a + b)[m] == b[m - a.len()]);
        }
    }
}

/// Adds the states of `b` after those of `a`.
fn extend_states<T: EngineGameState>(
    a: &mut Vec<T>,
    b: Vec<T>,
    Ghost(cards): Ghost<CardDefs>,
    Ghost(n): Ghost<nat>,
    Ghost(ids): Ghost<Multiset<u8>>,
    Ghost(base): Ghost<Seq<Event>>,
)
    requires
        all_ok(cards, n, ids, base, old(a)@),
        all_ok(cards, n, ids, base, b@),
    ensures
        final(a)@ == old(a)@ + b@,
        all_ok(cards, n, ids, base, final(a)@),
{
    let mut b = b;
    proof {
        lemma_all_ok_concat(cards, n, ids, base, a@, b@);
    }
    a.append(&mut b);
}

/// `itertools::Itertools::combinations`: the `k`-element combinations of
/// the items, each as a list of `k` of them; every item of a combination is
/// one of the items.
#[verifier::external_body]
fn index_combinations(items: &Vec<usize>, k: usize) -> (r: Vec<Vec<usize>>)
    ensures
        forall|c: int|
            0 <= c < r@.len() ==> (#[trigger] r@[c])@.len() == k && forall|x: int|
                0 <= x < r@[c]@.len() ==> items@.contains(#[trigger] r@[c]@[x]),
{
    items.iter().copied().combinations(k).collect()
}

/// The card right behind the active one has one of the features.
fn infront_has(cards: &CardDefs, pile: &Pile, feature: u16, active_idx: usize) -> (r: bool)
    requires
        pile_valid(*cards, pile_cards(*pile)),
        active_idx < pile_cards(*pile).len(),
{
    let len = pile_len(pile);
    if active_idx + 1 < len {
        pile_get(pile, active_idx + 1).get_active_face(cards).features.intersects(Features { bits: feature })
    } else {
        false
    }
}

/// The face of the card at `i`.
fn face_at<'a>(cards: &'a CardDefs, pile: &Pile, i: usize) -> (r: &'a FaceDef)
    requires
        pile_valid(*cards, pile_cards(*pile)),
        i < pile_cards(*pile).len(),
    ensures
        *r == cards.face(pile_cards(*pile)[i as int]),
{
    pile_get(pile, i).get_active_face(cards)
}

/// Turns the card at `idx` to another face.
fn set_card_key<T: EngineGameState>(cards: &CardDefs, state: &mut T, idx: usize, key: FaceKey)
    requires
        idx < old(state).pile_view().len(),
        pile_ruled(*cards, old(state).pile_view()),
    ensures
        final(state).pile_view() == old(state).pile_view().update(
            idx as int,
            CardPtr { card_id: old(state).pile_view()[idx as int].card_id, key },
        ),
        final(state).event_view() == old(state).event_view(),
        pile_ruled(*cards, final(state).pile_view()),
        card_ids(final(state).pile_view()) == card_ids(old(state).pile_view()),
{
    let ghost before = state.pile_view();
    proof {
        lemma_rekey_ids(before, idx as int, CardPtr { card_id: before[idx as int].card_id, key });
    }
    {
        let pile = state.get_pile_mut();
        let c = pile_get(pile, idx);
        pile_set(pile, idx, CardPtr { card_id: c.card_id, key });
    }
    proof {
        let after = state.pile_view();
        assert forall|i: int| 0 <= i < after.len() implies cards.has_card(#[trigger] after[i].card_id as int) by {
            assert(after[i].card_id == before[i].card_id);
        }
        assert forall|i: int| 0 <= i < after.len() implies card_ruled(*cards, #[trigger] after[i].card_id as int) by {
            assert(after[i].card_id == before[i].card_id);
        }
    }
}

/// Swaps the cards at `i` and `j`.
fn swap_cards<T: EngineGameState>(cards: &CardDefs, state: &mut T, i: usize, j: usize)
    requires
        i < old(state).pile_view().len(),
        j < old(state).pile_view().len(),
        pile_ruled(*cards, old(state).pile_view()),
    ensures
        final(state).pile_view() == old(state).pile_view().update(i as int, old(state).pile_view()[j as int]).update(
            j as int,
            old(state).pile_view()[i as int],
        ),
        final(state).event_view() == old(state).event_view(),
        pile_ruled(*cards, final(state).pile_view()),
        card_ids(final(state).pile_view()) == card_ids(old(state).pile_view()),
{
    let ghost before = state.pile_view();
    proof {
        lemma_swap_ids(before, i as int, j as int);
    }
    {
        let pile = state.get_pile_mut();
        let a = pile_get(pile, i);
        let b = pile_get(pile, j);
        pile_set(pile, i, b);
        pile_set(pile, j, a);
    }
    proof {
        let after = state.pile_view();
        assert forall|k: int| 0 <= k < after.len() implies cards.has_card(#[trigger] after[k].card_id as int) by {
            if k == j {
                assert(after[k] == before[i as int]);
            } else if k == i {
                assert(after[k] == before[j as int]);
            } else {
                assert(after[k] == before[k]);
            }
        }
        assert forall|k: int| 0 <= k < after.len() implies card_ruled(*cards, #[trigger] after[k].card_id as int) by {
            if k == j {
                assert(after[k] == before[i as int]);
            } else if k == i {
                assert(after[k] == before[j as int]);
            } else {
                assert(after[k] == before[k]);
            }
        }
    }
}

/// A copy of the state with the event logged.
fn with_event<T: EngineGameState>(state: &T, event: Event) -> (r: T)
    ensures
        r.pile_view() == state.pile_view(),
        r.event_view() == if T::logs_events() {
            state.event_view().push(event)
        } else {
            state.event_view()
        },
{
    state.clone_state().append_event(event)
}

/// The states did not change: exactly one, with the same pile.
fn did_states_change<T: EngineGameState>(state_agg: &Vec<T>, state: &T) -> (r: bool) {
    !(state_agg.len() == 1 && crate::game_state::pile_eq(state_agg[0].get_pile(), state.get_pile()))
}

/// The table is well formed and the state's pile is one the rules read.
pub open spec fn ready<T: EngineGameState>(cards: CardDefs, s: T) -> bool {
    cards.wf() && pile_ruled(cards, s.pile_view())
}

/// Every state of the pairs is one a turn can reach from a pile of `n`
/// cards with ids `ids`, logged as `base`.
pub open spec fn all_ok_pairs<T: EngineGameState, A>(cards: CardDefs, n: nat, ids: Multiset<u8>, base: Seq<Event>, v: Seq<(T, A)>) -> bool {
    forall|k: int| 0 <= k < v.len() ==> state_ok(cards, n, ids, base, #[trigger] v[k].0)
}

/// Every state of the moves is one a turn can reach from a pile of `n`
/// cards with ids `ids`, logged as `base`.
pub open spec fn all_ok_moves<T: EngineGameState>(cards: CardDefs, n: nat, ids: Multiset<u8>, base: Seq<Event>, v: Seq<(usize, T)>) -> bool {
    forall|k: int| 0 <= k < v.len() ==> state_ok(cards, n, ids, base, #[trigger] v[k].1)
}

/// The first position past `active_idx + amount`, capped at the pile's end.
fn range_cap(range: Range, active_idx: usize, len: usize) -> (r: usize)
    requires
        active_idx < len,
        range_ruled(range),
    ensures
        active_idx < r <= len,
{
    match range {
        Range::Int(amount) => if amount < len - active_idx {
            active_idx + amount + 1
        } else {
            len
        },
        _ => len,
    }
}

/// The state after a standard reaction of the card at `target_idx`: its
/// self action, if any, and the block or dodge logged with the face it
/// turned to.
fn get_standard_reaction_results<T: EngineGameState>(
    cards: &CardDefs,
    state: &T,
    target_idx: usize,
    standard_reaction: StandardReaction,
) -> (r: T)
    requires
        ready(*cards, *state),
        target_idx < state.pile_view().len(),
    ensures
        state_ok(*cards, state.pile_view().len(), card_ids(state.pile_view()), state.event_view(), r),
        T::logs_events() ==> logs_attack_on(state.event_view(), r, target_idx as int),
{
    let before = pile_get(state.get_pile(), target_idx);
    let mut new_state = state.clone_state();
    let mut key = before.key;
    if let Some(self_action) = standard_reaction.outcome {
        let mut c = before;
        crate::card_modifiers::perform_card_self_action(self_action, &mut c);
        key = c.key;
        set_card_key(cards, &mut new_state, target_idx, c.key);
    }
    let event = match standard_reaction.trigger {
        ReactionTrigger::Block => Event::Block(target_idx, before, standard_reaction.outcome, key),
        ReactionTrigger::Dodge => Event::Dodge(target_idx, before, standard_reaction.outcome, key),
    };
    let ghost before_events = new_state.event_view();
    new_state.mut_append_event(event);
    proof {
        if T::logs_events() {
            lemma_logs_attack_pushed(before_events, new_state, event, target_idx as int);
        }
    }
    new_state
}

proof fn lemma_rekey_ruled(cards: CardDefs, p: Seq<CardPtr>, i: int, key: FaceKey)
    requires
        pile_ruled(cards, p),
        0 <= i < p.len(),
    ensures
        pile_ruled(cards, p.update(i, CardPtr { card_id: p[i].card_id, key })),
        card_ids(p.update(i, CardPtr { card_id: p[i].card_id, key })) == card_ids(p),
{
    let q = p.update(i, CardPtr { card_id: p[i].card_id, key });
    lemma_rekey_ids(p, i, CardPtr { card_id: p[i].card_id, key });
    assert forall|j: int| 0 <= j < q.len() implies cards.has_card(#[trigger] q[j].card_id as int) by {
        assert(q[j].card_id == p[j].card_id);
    }
    assert forall|j: int| 0 <= j < q.len() implies card_ruled(cards, #[trigger] q[j].card_id as int) by {
        assert(q[j].card_id == p[j].card_id);
    }
}

/// Every way the card at `target_idx` can take one damage.
fn hurt_outcomes<T: EngineGameState>(cards: &CardDefs, state: &T, target_idx: usize, hit_type: HitType) -> (r: Vec<T>)
    requires
        ready(*cards, *state),
        target_idx < state.pile_view().len(),
    ensures
        all_ok(*cards, state.pile_view().len(), card_ids(state.pile_view()), state.event_view(), r@),
        r@.len() == crate::pile_utils::spec_hurt_faces(*cards, state.pile_view()[target_idx as int]).len(),
        T::logs_events() ==> all_log_attack_on(state.event_view(), r@, target_idx as int),
{
    let r = hurt_card_get_all_outcomes(cards, state, target_idx, hit_type);
    proof {
        if T::logs_events() {
            assert forall|m: int| 0 <= m < r@.len() implies logs_attack_on(state.event_view(), #[trigger] r@[m], target_idx as int) by {
                let key = crate::pile_utils::spec_hurt_faces(*cards, state.pile_view()[target_idx as int])[m];
                lemma_logs_attack_pushed(
                    state.event_view(),
                    r@[m],
                    Event::Damage(target_idx, state.pile_view()[target_idx as int], hit_type, key),
                    target_idx as int,
                );
            }
        }
        assert forall|k: int| 0 <= k < r@.len() implies state_ok(*cards, state.pile_view().len(), card_ids(state.pile_view()), state.event_view(), #[trigger] r@[k]) by {
            let key = crate::pile_utils::spec_hurt_faces(*cards, state.pile_view()[target_idx as int])[k];
            lemma_rekey_ruled(*cards, state.pile_view(), target_idx as int, key);
        }
    }
    r
}

/// The states after the card at `target_idx` tries to prevent an action
/// with its reaction of the given kind: its own block or dodge, or the
/// first ally that can assist it; no state when it cannot.
fn try_prevent_action_with_reaction<T: EngineGameState>(
    cards: &CardDefs,
    state: &T,
    target_idx: usize,
    trigger: ReactionTrigger,
    depth: usize,
) -> (r: Vec<T>)
    requires
        ready(*cards, *state),
        target_idx < state.pile_view().len(),
    ensures
        all_ok(*cards, state.pile_view().len(), card_ids(state.pile_view()), state.event_view(), r@),
    decreases depth,
{
    let ghost n = state.pile_view().len();
    let ghost base0 = state.event_view();
    let ghost ids0 = card_ids(state.pile_view());
    let pile = state.get_pile();
    let len = pile_len(pile);
    proof {
        lemma_face_ruled(*cards, state.pile_view(), target_idx as int);
    }
    let target_face = face_at(cards, pile, target_idx);
    match target_face.reaction {
        Some(Reaction::Standard(_, standard_reaction)) => {
            if standard_reaction.trigger == trigger {
                let s = get_standard_reaction_results(cards, state, target_idx, standard_reaction);
                let mut v: Vec<T> = Vec::new();
                v.push(s);
                return v;
            }
        },
        Some(Reaction::Assist(request_assist)) => {
            if depth == 0 {
                return Vec::new();
            }
            let target_allegiance = target_face.allegiance;
            let mut assist_idx: usize = 0;
            while assist_idx < len
                invariant
                    ready(*cards, *state),
                    len == state.pile_view().len(),
                    pile_cards(*pile) == state.pile_view(),
                    target_idx < len,
                    depth > 0,
                decreases len - assist_idx,
            {
                proof {
                    lemma_face_ruled(*cards, state.pile_view(), assist_idx as int);
                }
                let assist_face = face_at(cards, pile, assist_idx);
                if assist_face.allegiance == target_allegiance {
                    if let Some(option) = assist_face.reaction_assist {
                        if option.trigger == trigger {
                            return get_reaction_assist_results(
                                cards,
                                state,
                                target_idx,
                                assist_idx,
                                option,
                                request_assist.outcome,
                                depth - 1,
                            );
                        }
                    }
                }
                assist_idx += 1;
            }
        },
        _ => {},
    }
    Vec::new()
}

/// The states after the card at `provider_idx` assists the one at
/// `user_idx`: it pays with its self action, the user reacts, and then the
/// user may take one assist action of another card, or none.
fn get_reaction_assist_results<T: EngineGameState>(
    cards: &CardDefs,
    initial_state: &T,
    user_idx: usize,
    provider_idx: usize,
    assist: ProvideAssistReaction,
    assist_outcome: Option<SelfAction>,
    depth: usize,
) -> (r: Vec<T>)
    requires
        ready(*cards, *initial_state),
        user_idx < initial_state.pile_view().len(),
        provider_idx < initial_state.pile_view().len(),
    ensures
        all_ok(*cards, initial_state.pile_view().len(), card_ids(initial_state.pile_view()), initial_state.event_view(), r@),
        T::logs_events() ==> all_log_attack_on(initial_state.event_view(), r@, user_idx as int),
    decreases depth,
{
    let ghost n = initial_state.pile_view().len();
    let ghost base0 = initial_state.event_view();
    let ghost ids0 = card_ids(initial_state.pile_view());
    let provider = pile_get(initial_state.get_pile(), provider_idx);
    let mut cost_state = initial_state.clone_state();
    let mut paid = provider;
    crate::card_modifiers::perform_card_self_action(assist.assist_cost, &mut paid);
    set_card_key(cards, &mut cost_state, provider_idx, paid.key);
    cost_state.mut_append_event(Event::ReactAssistUsed(provider_idx, provider, assist.trigger, assist.assist_cost));
    let reacted = get_standard_reaction_results(
        cards,
        &cost_state,
        user_idx,
        StandardReaction { trigger: assist.trigger, outcome: assist_outcome },
    );
    proof {
        if T::logs_events() {
            lemma_logs_attack_rebase(base0, cost_state.event_view(), reacted, user_idx as int);
        }
    }
    let mut final_results: Vec<T> = Vec::new();
    if depth > 0 {
        let used_id = pile_get(reacted.get_pile(), provider_idx).card_id;
        let outcomes = get_assist_action_outcomes(cards, &reacted, user_idx, Some(used_id), depth - 1);
        let mut k: usize = 0;
        while k < outcomes.len()
            invariant
                all_ok_pairs(*cards, n, ids0, base0, outcomes@),
                all_ok_pairs(*cards, n, card_ids(reacted.pile_view()), reacted.event_view(), outcomes@),
                all_ok(*cards, n, ids0, base0, final_results@),
                T::logs_events() ==> logs_attack_on(base0, reacted, user_idx as int),
                T::logs_events() ==> all_log_attack_on(base0, final_results@, user_idx as int),
            decreases outcomes@.len() - k,
        {
            let next = outcomes[k].0.clone_state();
            proof {
                if T::logs_events() {
                    assert(state_ok(*cards, n, card_ids(reacted.pile_view()), reacted.event_view(), outcomes@[k as int].0));
                    lemma_logs_attack_extends(base0, reacted, next, user_idx as int);
                }
            }
            final_results.push(next);
            k += 1;
        }
    }
    let skipped = reacted.append_event(Event::SkipReactActionAssist);
    proof {
        if T::logs_events() {
            lemma_logs_attack_extends(base0, reacted, skipped, user_idx as int);
        }
    }
    final_results.push(skipped);
    final_results
}

/// The hero card at `i`, other than the active one and than the card
/// `used`, has an assist row `j` to lend.
pub open spec fn assist_eligible(
    cards: CardDefs,
    p: Seq<CardPtr>,
    active_idx: int,
    used: Option<CardId>,
    i: int,
    j: int,
) -> bool {
    &&& 0 <= i < p.len()
    &&& i != active_idx
    &&& cards.face(p[i]).allegiance == Allegiance::Hero
    &&& used != Some(p[i].card_id)
    &&& 0 <= j < cards.face(p[i]).assists@.len()
}

/// The state's log goes on from `base` with the card `c` at `i` lending its
/// assist row `j`.
pub open spec fn assist_started<T: EngineGameState>(base: Seq<Event>, s: T, i: int, c: CardPtr, j: int) -> bool {
    &&& s.event_view().len() >= base.len() + 2
    &&& s.event_view()[base.len() as int] == Event::UseActionAssistCard(i as usize, c)
    &&& s.event_view()[base.len() as int + 1] == Event::UseActionAssistRow(i as usize, c, j as usize)
}

/// Some state of the pairs starts with the card at `i` lending its row `j`.
pub open spec fn some_assist_started<T: EngineGameState, A>(base: Seq<Event>, v: Seq<(T, A)>, i: int, c: CardPtr, j: int) -> bool {
    exists|m: int| 0 <= m < v.len() && #[trigger] assist_started(base, v[m].0, i, c, j)
}

/// Some state of the list starts with the card at `i` lending its row `j`.
pub open spec fn some_state_assist_started<T: EngineGameState>(base: Seq<Event>, v: Seq<T>, i: int, c: CardPtr, j: int) -> bool {
    exists|m: int| 0 <= m < v.len() && #[trigger] assist_started(base, v[m], i, c, j)
}

proof fn lemma_some_assist_grow<T: EngineGameState, A>(
    base: Seq<Event>,
    v: Seq<(T, A)>,
    w: Seq<(T, A)>,
    i: int,
    c: CardPtr,
    j: int,
)
    requires
        some_assist_started(base, v, i, c, j),
        v.len() <= w.len(),
        forall|s: int| 0 <= s < v.len() ==> w[s] == v[s],
    ensures
        some_assist_started(base, w, i, c, j),
{
    let m = choose|m: int| 0 <= m < v.len() && #[trigger] assist_started(base, v[m].0, i, c, j);
    assert(w[m] == v[m]);
    assert(assist_started(base, w[m].0, i, c, j));
}

/// Every way another hero card can lend one of its assist rows to the
/// card at `active_idx`, with the id of the card that lent it; the card
/// with id `used` may not lend again.
fn get_assist_action_outcomes<T: EngineGameState>(
    cards: &CardDefs,
    state: &T,
    active_idx: usize,
    used: Option<CardId>,
    depth: usize,
) -> (r: Vec<(T, CardId)>)
    requires
        ready(*cards, *state),
        active_idx < state.pile_view().len(),
    ensures
        all_ok_pairs(*cards, state.pile_view().len(), card_ids(state.pile_view()), state.event_view(), r@),
        T::logs_events() && depth >= 2 ==> forall|i: int, j: int|
            #![trigger assist_eligible(*cards, state.pile_view(), active_idx as int, used, i, j)]
            assist_eligible(*cards, state.pile_view(), active_idx as int, used, i, j) ==> some_assist_started(
                state.event_view(),
                r@,
                i,
                state.pile_view()[i],
                j,
            ),
    decreases depth,
{
    let ghost n = state.pile_view().len();
    let ghost base0 = state.event_view();
    let ghost ids0 = card_ids(state.pile_view());
    let mut results: Vec<(T, CardId)> = Vec::new();
    if depth == 0 {
        return results;
    }
    let pile = state.get_pile();
    let len = pile_len(pile);
    let mut assist_idx: usize = 0;
    while assist_idx < len
        invariant
            ready(*cards, *state),
            len == n,
            n == state.pile_view().len(),
            base0 == state.event_view(),
            ids0 == card_ids(state.pile_view()),
            pile_cards(*pile) == state.pile_view(),
            active_idx < len,
            depth > 0,
            all_ok_pairs(*cards, n, ids0, base0, results@),
            assist_idx <= len,
            T::logs_events() && depth >= 2 ==> forall|i: int, j: int|
                #![trigger assist_eligible(*cards, state.pile_view(), active_idx as int, used, i, j)]
                i < assist_idx && assist_eligible(*cards, state.pile_view(), active_idx as int, used, i, j)
                    ==> some_assist_started(base0, results@, i, state.pile_view()[i], j),
        decreases len - assist_idx,
    {
        let assist_card = pile_get(pile, assist_idx);
        proof {
            lemma_face_ruled(*cards, state.pile_view(), assist_idx as int);
        }
        let assist_face = face_at(cards, pile, assist_idx);
        let skip = assist_idx == active_idx || used == Some(assist_card.card_id) || assist_face.allegiance
            != Allegiance::Hero;
        if !skip {
            let mut row_idx: usize = 0;
            while row_idx < assist_face.assists.len()
                invariant
                    ready(*cards, *state),
                    len == n,
                    n == state.pile_view().len(),
                    base0 == state.event_view(),
                    ids0 == card_ids(state.pile_view()),
                    pile_cards(*pile) == state.pile_view(),
                    active_idx < len,
                    assist_idx < len,
                    depth > 0,
                    face_ruled(*assist_face),
                    assist_face.allegiance == Allegiance::Hero,
                    all_ok_pairs(*cards, n, ids0, base0, results@),
                    *assist_face == cards.face(state.pile_view()[assist_idx as int]),
                    assist_card == state.pile_view()[assist_idx as int],
                    row_idx <= assist_face.assists@.len(),
                    T::logs_events() && depth >= 2 ==> forall|i: int, j: int|
                        #![trigger assist_eligible(*cards, state.pile_view(), active_idx as int, used, i, j)]
                        (i < assist_idx || (i == assist_idx && j < row_idx)) && assist_eligible(
                            *cards,
                            state.pile_view(),
                            active_idx as int,
                            used,
                            i,
                            j,
                        ) ==> some_assist_started(base0, results@, i, state.pile_view()[i], j),
                decreases assist_face.assists@.len() - row_idx,
            {
                let row = &assist_face.assists[row_idx];
                assert(player_row_ruled(assist_face.assists@[row_idx as int]));
                let mut new_state = with_event(state, Event::UseActionAssistCard(assist_idx, assist_card));
                new_state.mut_append_event(Event::UseActionAssistRow(assist_idx, assist_card, row_idx));
                let ghost started = new_state.event_view();
                if let Some(self_action) = row.mandatory {
                    let ghost before = new_state.pile_view();
                    perform_mandatory_action(&mut new_state, self_action, assist_idx);
                    proof {
                        lemma_rekey_ruled(
                            *cards,
                            before,
                            assist_idx as int,
                            crate::card_modifiers::spec_self_action_key(self_action, before[assist_idx as int].key),
                        );
                    }
                }
                let no_energy: Vec<usize> = Vec::new();
                let outcomes = resolve_player_row_post_conditions_no_mandatory(
                    cards,
                    &new_state,
                    row,
                    active_idx,
                    &no_energy,
                    depth - 1,
                );
                proof {
                    if T::logs_events() {
                        assert(started[base0.len() as int] == Event::UseActionAssistCard(assist_idx, assist_card));
                        assert(started[base0.len() as int + 1] == Event::UseActionAssistRow(assist_idx, assist_card, row_idx));
                        assert(new_state.event_view()[base0.len() as int] == Event::UseActionAssistCard(assist_idx, assist_card));
                        assert(new_state.event_view()[base0.len() as int + 1] == Event::UseActionAssistRow(assist_idx, assist_card, row_idx));
                    }
                }
                let ghost snap = results@;
                let mut k: usize = 0;
                while k < outcomes.len()
                    invariant
                        all_ok(*cards, n, ids0, base0, outcomes@),
                        all_ok(*cards, n, card_ids(new_state.pile_view()), new_state.event_view(), outcomes@),
                        all_ok_pairs(*cards, n, ids0, base0, results@),
                        k <= outcomes@.len(),
                        results@.len() == snap.len() + k,
                        forall|s: int| 0 <= s < snap.len() ==> results@[s] == snap[s],
                        forall|s: int|
                            0 <= s < k ==> results@[snap.len() + s].0.event_view() == (#[trigger] outcomes@[s]).event_view(),
                    decreases outcomes@.len() - k,
                {
                    assert(state_ok(*cards, n, ids0, base0, outcomes@[k as int]));
                    results.push((outcomes[k].clone_state(), assist_card.card_id));
                    k += 1;
                }
                proof {
                    if T::logs_events() && depth >= 2 {
                        assert(outcomes@.len() > 0);
                        let o = outcomes@[0];
                        assert(state_ok(*cards, n, card_ids(new_state.pile_view()), new_state.event_view(), o));
                        assert(o.event_view()[base0.len() as int] == new_state.event_view()[base0.len() as int]);
                        assert(o.event_view()[base0.len() as int + 1] == new_state.event_view()[base0.len() as int + 1]);
                        assert(results@[snap.len() as int].0.event_view() == o.event_view());
                        assert(assist_started(base0, results@[snap.len() as int].0, assist_idx as int, assist_card, row_idx as int));
                        assert forall|i: int, j: int|
                            #![trigger assist_eligible(*cards, state.pile_view(), active_idx as int, used, i, j)]
                            (i < assist_idx || (i == assist_idx && j < row_idx + 1)) && assist_eligible(
                                *cards,
                                state.pile_view(),
                                active_idx as int,
                                used,
                                i,
                                j,
                            ) implies some_assist_started(base0, results@, i, state.pile_view()[i], j) by {
                            if i == assist_idx && j == row_idx {
                                assert(assist_started(base0, results@[snap.len() as int].0, i, state.pile_view()[i], j));
                            } else {
                                lemma_some_assist_grow(base0, snap, results@, i, state.pile_view()[i], j);
                            }
                        }
                    }
                }
                row_idx += 1;
            }
        }
        assist_idx += 1;
    }
    results
}

/// `o` comes from attacking the card at `t` in `s`: its log goes on from
/// that of `s` and records the attack, or, where the attack has no outcome
/// (the card cannot be hurt, or no depth is left), `o` is `s` as it was.
pub open spec fn attacked_from<T: EngineGameState>(cards: CardDefs, s: T, o: T, t: int, depth: int) -> bool {
    &&& extends_log(s.event_view(), o)
    &&& {
        ||| (o.pile_view() == s.pile_view() && o.event_view() == s.event_view() && (depth == 0
            || crate::pile_utils::spec_hurt_faces(cards, s.pile_view()[t]).len() == 0))
        ||| (T::logs_events() ==> logs_attack_on(s.event_view(), o, t))
    }
}

/// `o` comes from attacking the card at `t` in one of the states.
pub open spec fn attacked_from_one<T: EngineGameState>(cards: CardDefs, states: Seq<T>, o: T, t: int, depth: int) -> bool {
    exists|i: int| 0 <= i < states.len() && #[trigger] attacked_from(cards, states[i], o, t, depth)
}

/// Attacks the card at `target_idx` in each of the states; a state in
/// which the attack has no outcome is kept as it is.
fn attack_idx_in_all_states<T: EngineGameState>(
    cards: &CardDefs,
    states: &Vec<T>,
    target_idx: usize,
    hit_type: HitType,
    depth: usize,
    Ghost(n): Ghost<nat>,
    Ghost(ids0): Ghost<Multiset<u8>>,
    Ghost(base0): Ghost<Seq<Event>>,
) -> (r: Vec<T>)
    requires
        cards.wf(),
        all_ok(*cards, n, ids0, base0, states@),
        target_idx < n,
    ensures
        all_ok(*cards, n, ids0, base0, r@),
        forall|m: int|
            0 <= m < r@.len() ==> attacked_from_one(*cards, states@, #[trigger] r@[m], target_idx as int, depth as int),
    decreases depth,
{
    let ghost old_depth = depth;
    let ghost st = states@;
    let ghost mut origin: Seq<int> = Seq::empty();
    let mut results: Vec<T> = Vec::new();
    let mut k: usize = 0;
    while k < states.len()
        invariant
            cards.wf(),
            all_ok(*cards, n, ids0, base0, states@),
            all_ok(*cards, n, ids0, base0, results@),
            target_idx < n,
            k <= states@.len(),
            depth == old_depth,
            st == states@,
            all_ok(*cards, n, ids0, base0, st),
            origin.len() == results@.len(),
            forall|m: int|
                0 <= m < results@.len() ==> 0 <= #[trigger] origin[m] < st.len() && attacked_from(
                    *cards,
                    st[origin[m]],
                    results@[m],
                    target_idx as int,
                    depth as int,
                ),
        decreases states@.len() - k,
    {
        assert(state_ok(*cards, n, ids0, base0, states@[k as int]));
        let outcomes = if depth > 0 {
            attack_card_get_all_outcomes(cards, &states[k], target_idx, hit_type, depth - 1)
        } else {
            Vec::new()
        };
        let ghost sk = states@[k as int];
        let ghost before = results@;
        if outcomes.len() > 0 {
            proof {
                assert forall|m: int| 0 <= m < outcomes@.len() implies attacked_from(
                    *cards,
                    sk,
                    #[trigger] outcomes@[m],
                    target_idx as int,
                    depth as int,
                ) by {
                    assert(state_ok(*cards, n, card_ids(sk.pile_view()), sk.event_view(), outcomes@[m]));
                    if T::logs_events() {
                        assert(logs_attack_on(sk.event_view(), outcomes@[m], target_idx as int));
                    }
                }
            }
            extend_states(&mut results, outcomes, Ghost(*cards), Ghost(n), Ghost(ids0), Ghost(base0));
            proof {
                let ghost old_origin = origin;
                origin = old_origin + Seq::new((results@.len() - before.len()) as nat, |x: int| k as int);
                assert forall|m: int| 0 <= m < results@.len() implies 0 <= #[trigger] origin[m] < st.len() && attacked_from(
                    *cards,
                    st[origin[m]],
                    results@[m],
                    target_idx as int,
                    depth as int,
                ) by {
                    if m < before.len() {
                        assert(results@[m] == before[m]);
                        assert(origin[m] == old_origin[m]);
                    } else {
                        assert(results@[m] == outcomes@[m - before.len()]);
                        assert(origin[m] == k);
                    }
                }
            }
        } else {
            let kept = states[k].clone_state();
            proof {
                assert(kept.event_view() =~= sk.event_view());
                assert(attacked_from(*cards, sk, kept, target_idx as int, depth as int));
            }
            results.push(kept);
            proof {
                let ghost old_origin = origin;
                origin = old_origin.push(k as int);
                assert forall|m: int| 0 <= m < results@.len() implies 0 <= #[trigger] origin[m] < st.len() && attacked_from(
                    *cards,
                    st[origin[m]],
                    results@[m],
                    target_idx as int,
                    depth as int,
                ) by {
                    if m < before.len() {
                        assert(results@[m] == before[m]);
                        assert(origin[m] == old_origin[m]);
                    }
                }
            }
        }
        k += 1;
    }
    proof {
        assert(st =~= states@);
        assert forall|m: int| 0 <= m < results@.len() implies attacked_from_one(
            *cards,
            states@,
            #[trigger] results@[m],
            target_idx as int,
            depth as int,
        ) by {
            let i = origin[m];
            assert(st[i] == states@[i]);
            assert(attacked_from(*cards, states@[i], results@[m], target_idx as int, depth as int));
        }
    }
    results
}

/// Attacks, from the back, every card from `start` to before `end` that
/// the target kind covers; no state at all when nothing changed.
pub fn attack_all_in_range<T: EngineGameState>(
    cards: &CardDefs,
    state: &T,
    attacker_allegiance: Allegiance,
    start: usize,
    end: usize,
    target: Target,
    hit_type: HitType,
    depth: usize,
) -> (r: Vec<T>)
    requires
        ready(*cards, *state),
        end <= state.pile_view().len(),
    ensures
        all_ok(*cards, state.pile_view().len(), card_ids(state.pile_view()), state.event_view(), r@),
    decreases depth,
{
    let ghost n = state.pile_view().len();
    let ghost base0 = state.event_view();
    let ghost ids0 = card_ids(state.pile_view());
    let pile = state.get_pile();
    let mut state_agg: Vec<T> = Vec::new();
    state_agg.push(state.clone_state());
    let mut target_idx = end;
    while target_idx > start
        invariant
            ready(*cards, *state),
            n == state.pile_view().len(),
            base0 == state.event_view(),
            ids0 == card_ids(state.pile_view()),
            pile_cards(*pile) == state.pile_view(),
            target_idx <= end <= n,
            all_ok(*cards, n, ids0, base0, state_agg@),
        decreases target_idx,
    {
        target_idx -= 1;
        proof {
            lemma_face_ruled(*cards, state.pile_view(), target_idx as int);
        }
        let target_face = face_at(cards, pile, target_idx);
        if is_allegiance_match(attacker_allegiance, target_face.allegiance, target) {
            if depth > 0 {
                state_agg = attack_idx_in_all_states(cards, &state_agg, target_idx, hit_type, depth - 1, Ghost(n), Ghost(ids0), Ghost(base0));
            }
        }
    }
    if did_states_change(&state_agg, state) {
        state_agg
    } else {
        Vec::new()
    }
}

/// Every way an attack on the card at `target_idx` can end: its reaction,
/// and the damage it takes. A baddie or werewolf that reacts takes no
/// damage.
pub fn attack_card_get_all_outcomes<T: EngineGameState>(
    cards: &CardDefs,
    state: &T,
    target_idx: usize,
    hit_type: HitType,
    depth: usize,
) -> (r: Vec<T>)
    requires
        ready(*cards, *state),
        target_idx < state.pile_view().len(),
    ensures
        all_ok(*cards, state.pile_view().len(), card_ids(state.pile_view()), state.event_view(), r@),
        T::logs_events() ==> all_log_attack_on(state.event_view(), r@, target_idx as int),
        crate::pile_utils::spec_hurt_faces(*cards, state.pile_view()[target_idx as int]).len() > 0 ==> r@.len() > 0,
    decreases depth,
{
    let ghost n = state.pile_view().len();
    let ghost base0 = state.event_view();
    let ghost ids0 = card_ids(state.pile_view());
    let mut results: Vec<T> = Vec::new();
    let pile = state.get_pile();
    let len = pile_len(pile);
    let target_card = pile_get(pile, target_idx);
    proof {
        lemma_face_ruled(*cards, state.pile_view(), target_idx as int);
    }
    let target_face = face_at(cards, pile, target_idx);
    let target_allegiance = target_face.allegiance;
    let is_reaction_forced = target_allegiance != Allegiance::Hero;
    if let Some(reaction) = target_face.reaction {
        match reaction {
            Reaction::Standard(_, standard_reaction) => {
                results.push(get_standard_reaction_results(cards, state, target_idx, standard_reaction));
                proof {
                    if T::logs_events() {
                        assert(logs_attack_on(base0, results@[0], target_idx as int));
                    }
                }
            },
            Reaction::Assist(assist_reaction) => {
                if depth > 0 {
                    let mut assist_idx: usize = 0;
                    while assist_idx < len
                        invariant
                            ready(*cards, *state),
                            len == n,
                            n == state.pile_view().len(),
                            base0 == state.event_view(),
                            ids0 == card_ids(state.pile_view()),
                            pile_cards(*pile) == state.pile_view(),
                            target_idx < len,
                            depth > 0,
                            all_ok(*cards, n, ids0, base0, results@),
                            T::logs_events() ==> all_log_attack_on(base0, results@, target_idx as int),
                        decreases len - assist_idx,
                    {
                        proof {
                            lemma_face_ruled(*cards, state.pile_view(), assist_idx as int);
                        }
                        let assist_face = face_at(cards, pile, assist_idx);
                        if assist_face.allegiance == target_allegiance {
                            if let Some(option) = assist_face.reaction_assist {
                                let outs = get_reaction_assist_results(
                                    cards,
                                    state,
                                    target_idx,
                                    assist_idx,
                                    option,
                                    assist_reaction.outcome,
                                    depth - 1,
                                );
                                let ghost before = results@;
                                extend_states(&mut results, outs, Ghost(*cards), Ghost(n), Ghost(ids0), Ghost(base0));
                                proof {
                                    if T::logs_events() {
                                        lemma_all_log_attack_concat(base0, before, outs@, target_idx as int);
                                    }
                                }
                            }
                        }
                        assist_idx += 1;
                    }
                }
            },
            Reaction::WhenHit(which) => {
                if depth > 0 {
                    let row = when_hit_row(which);
                    let hurt_state = with_event(state, Event::OnHurt(target_idx, target_card));
                    let reaction_results = resolve_enemy_row(
                        cards,
                        &hurt_state,
                        target_allegiance,
                        &row,
                        target_idx,
                        true,
                        depth - 1,
                    );
                    proof {
                        if T::logs_events() {
                            lemma_logs_attack_pushed(base0, hurt_state, Event::OnHurt(target_idx, target_card), target_idx as int);
                        }
                    }
                    let mut k: usize = 0;
                    while k < reaction_results.len()
                        invariant
                            cards.wf(),
                            all_ok(*cards, n, ids0, base0, reaction_results@),
                            all_ok(*cards, n, ids0, hurt_state.event_view(), reaction_results@),
                            all_ok(*cards, n, ids0, base0, results@),
                            target_idx < n,
                            T::logs_events() ==> logs_attack_on(base0, hurt_state, target_idx as int),
                            T::logs_events() ==> all_log_attack_on(base0, results@, target_idx as int),
                        decreases reaction_results@.len() - k,
                    {
                        assert(state_ok(*cards, n, ids0, base0, reaction_results@[k as int]));
                        assert(state_ok(*cards, n, ids0, hurt_state.event_view(), reaction_results@[k as int]));
                        let outs = hurt_outcomes(cards, &reaction_results[k], target_idx, hit_type);
                        proof {
                            if T::logs_events() {
                                lemma_logs_attack_extends(base0, hurt_state, reaction_results@[k as int], target_idx as int);
                                assert forall|m: int| 0 <= m < outs@.len() implies logs_attack_on(base0, #[trigger] outs@[m], target_idx as int) by {
                                    assert(state_ok(*cards, n, ids0, reaction_results@[k as int].event_view(), outs@[m]));
                                    lemma_logs_attack_extends(base0, reaction_results@[k as int], outs@[m], target_idx as int);
                                }
                            }
                        }
                        let ghost before = results@;
                        extend_states(&mut results, outs, Ghost(*cards), Ghost(n), Ghost(ids0), Ghost(base0));
                        proof {
                            if T::logs_events() {
                                lemma_all_log_attack_concat(base0, before, outs@, target_idx as int);
                            }
                        }
                        k += 1;
                    }
                }
            },
            Reaction::Roll(_) => {},
        }
        if results.len() > 0 && is_reaction_forced {
            return results;
        }
    }
    let outs = hurt_outcomes(cards, state, target_idx, hit_type);
    let ghost before = results@;
    extend_states(&mut results, outs, Ghost(*cards), Ghost(n), Ghost(ids0), Ghost(base0));
    proof {
        if T::logs_events() {
            lemma_all_log_attack_concat(base0, before, outs@, target_idx as int);
        }
    }
    results
}

/// The states after a card that blocks for the attacked one: from the
/// back of the range, the victim's allies that can block. A baddie victim
/// is blocked for by the first such ally only.
fn find_blockers_for_hit_outcomes<T: EngineGameState>(
    cards: &CardDefs,
    state: &T,
    active_idx: usize,
    range_cap: usize,
    attack_target_idx: usize,
    depth: usize,
) -> (r: Vec<T>)
    requires
        ready(*cards, *state),
        active_idx < state.pile_view().len(),
        range_cap <= state.pile_view().len(),
        attack_target_idx < state.pile_view().len(),
    ensures
        all_ok(*cards, state.pile_view().len(), card_ids(state.pile_view()), state.event_view(), r@),
    decreases depth,
{
    let ghost n = state.pile_view().len();
    let ghost base0 = state.event_view();
    let ghost ids0 = card_ids(state.pile_view());
    let mut results: Vec<T> = Vec::new();
    let pile = state.get_pile();
    proof {
        lemma_face_ruled(*cards, state.pile_view(), attack_target_idx as int);
    }
    let victim_allegiance = face_at(cards, pile, attack_target_idx).allegiance;
    let mut blocker_idx = range_cap;
    while blocker_idx > active_idx + 1
        invariant
            ready(*cards, *state),
            n == state.pile_view().len(),
            base0 == state.event_view(),
            ids0 == card_ids(state.pile_view()),
            pile_cards(*pile) == state.pile_view(),
            blocker_idx <= range_cap <= n,
            active_idx < n,
            all_ok(*cards, n, ids0, base0, results@),
        decreases blocker_idx,
    {
        blocker_idx -= 1;
        if blocker_idx != attack_target_idx {
            proof {
                lemma_face_ruled(*cards, state.pile_view(), blocker_idx as int);
            }
            if face_at(cards, pile, blocker_idx).allegiance == victim_allegiance && depth > 0 {
                let block_results = try_prevent_action_with_reaction(
                    cards,
                    state,
                    blocker_idx,
                    ReactionTrigger::Block,
                    depth - 1,
                );
                if block_results.len() > 0 {
                    extend_states(&mut results, block_results, Ghost(*cards), Ghost(n), Ghost(ids0), Ghost(base0));
                    if victim_allegiance != Allegiance::Hero {
                        return results;
                    }
                }
            }
        }
    }
    results
}

/// The card at `target_idx` moved one place at a time towards the top
/// (quicken) or the bottom (delay), up to `remaining` places: each
/// distance it can stop at, with the state there. A baddie that moves over
/// a trap is hit by it, and moves on from each way the hit ends unless it
/// turned heavy.
fn move_card_inner<T: EngineGameState>(
    cards: &CardDefs,
    state: &T,
    target_idx: usize,
    remaining: usize,
    so_far: usize,
    since_last: usize,
    move_type: MoveType,
    depth: usize,
) -> (r: Vec<(usize, T)>)
    requires
        ready(*cards, *state),
        remaining >= 1,
        target_idx < state.pile_view().len(),
        move_type == MoveType::Quicken ==> target_idx >= remaining,
        move_type == MoveType::Delay ==> target_idx + remaining < state.pile_view().len(),
        so_far + remaining <= state.pile_view().len(),
        since_last <= so_far,
    ensures
        all_ok_moves(*cards, state.pile_view().len(), card_ids(state.pile_view()), state.event_view(), r@),
        forall|k: int| 0 <= k < r@.len() ==> so_far < (#[trigger] r@[k]).0 <= so_far + remaining,
    decreases depth,
{
    let ghost n = state.pile_view().len();
    let ghost base0 = state.event_view();
    let ghost ids0 = card_ids(state.pile_view());
    let mut results: Vec<(usize, T)> = Vec::new();
    if depth == 0 {
        return results;
    }
    let pile = state.get_pile();
    let swap_with_idx = match move_type {
        MoveType::Delay => target_idx + 1,
        MoveType::Quicken => target_idx - 1,
    };
    let moved_card = pile_get(pile, target_idx);
    let moved_over_card = pile_get(pile, swap_with_idx);
    proof {
        lemma_face_ruled(*cards, state.pile_view(), target_idx as int);
        lemma_face_ruled(*cards, state.pile_view(), swap_with_idx as int);
    }
    let mut new_state = state.clone_state();
    swap_cards(cards, &mut new_state, target_idx, swap_with_idx);
    if moved_card.get_active_face(cards).allegiance != Allegiance::Hero && moved_over_card.get_active_face(
        cards,
    ).features.intersects(Features { bits: FEATURE_TRAP }) {
        let with_move = with_event(&new_state, Event::MoveResult(move_type, since_last + 1));
        let hit_options = attack_card_get_all_outcomes(cards, &with_move, swap_with_idx, HitType::Trap, depth - 1);
        if hit_options.len() > 0 {
            let mut k: usize = 0;
            while k < hit_options.len()
                invariant
                    cards.wf(),
                    n == state.pile_view().len(),
                    base0 == state.event_view(),
                    ids0 == card_ids(state.pile_view()),
                    all_ok(*cards, n, ids0, base0, hit_options@),
                    all_ok_moves(*cards, n, ids0, base0, results@),
                    forall|j: int| 0 <= j < results@.len() ==> so_far < (#[trigger] results@[j]).0 <= so_far + remaining,
                    swap_with_idx < n,
                    remaining >= 1,
                    move_type == MoveType::Quicken ==> swap_with_idx + 1 >= remaining,
                    move_type == MoveType::Delay ==> swap_with_idx + remaining <= n,
                    so_far + remaining <= n,
                    depth > 0,
                decreases hit_options@.len() - k,
            {
                let hit_option = &hit_options[k];
                assert(state_ok(*cards, n, ids0, base0, hit_options@[k as int]));
                proof {
                    lemma_face_ruled(*cards, hit_option.pile_view(), swap_with_idx as int);
                }
                if remaining > 1 && !pile_get(hit_option.get_pile(), swap_with_idx).get_active_face(
                    cards,
                ).features.intersects(Features { bits: FEATURE_WEIGHT }) {
                    let further = move_card_inner(
                        cards,
                        hit_option,
                        swap_with_idx,
                        remaining - 1,
                        so_far + 1,
                        0,
                        move_type,
                        depth - 1,
                    );
                    let mut j: usize = 0;
                    while j < further.len()
                        invariant
                            all_ok_moves(*cards, n, ids0, base0, further@),
                            forall|i: int| 0 <= i < further@.len() ==> so_far + 1 < (#[trigger] further@[i]).0 <= so_far + remaining,
                            all_ok_moves(*cards, n, ids0, base0, results@),
                            forall|i: int| 0 <= i < results@.len() ==> so_far < (#[trigger] results@[i]).0 <= so_far + remaining,
                        decreases further@.len() - j,
                    {
                        assert(state_ok(*cards, n, ids0, base0, further@[j as int].1));
                        assert(so_far + 1 < further@[j as int].0 <= so_far + remaining);
                        results.push((further[j].0, further[j].1.clone_state()));
                        j += 1;
                    }
                }
                results.push((so_far + 1, hit_option.clone_state()));
                k += 1;
            }
            return results;
        }
    }
    results.push((so_far + 1, with_event(&new_state, Event::MoveResult(move_type, since_last + 1))));
    if remaining > 1 {
        let further = move_card_inner(
            cards,
            &new_state,
            swap_with_idx,
            remaining - 1,
            so_far + 1,
            since_last + 1,
            move_type,
            depth - 1,
        );
        let mut j: usize = 0;
        while j < further.len()
            invariant
                all_ok_moves(*cards, n, ids0, base0, further@),
                forall|i: int| 0 <= i < further@.len() ==> so_far + 1 < (#[trigger] further@[i]).0 <= so_far + remaining,
                all_ok_moves(*cards, n, ids0, base0, results@),
                forall|i: int| 0 <= i < results@.len() ==> so_far < (#[trigger] results@[i]).0 <= so_far + remaining,
            decreases further@.len() - j,
        {
            assert(state_ok(*cards, n, ids0, base0, further@[j as int].1));
            assert(so_far + 1 < further@[j as int].0 <= so_far + remaining);
            results.push((further[j].0, further[j].1.clone_state()));
            j += 1;
        }
    }
    results
}

/// Moves the card at `target_idx` by one to `moves` places, unless it is
/// heavy: each outcome logs the moved card, the card it now stands next
/// to and the distance, then the moves themselves.
pub fn move_card_by_up_to_amount<T: EngineGameState>(
    cards: &CardDefs,
    state: &T,
    target_idx: usize,
    moves: usize,
    move_type: MoveType,
    depth: usize,
) -> (r: Vec<T>)
    requires
        ready(*cards, *state),
        moves >= 1,
        target_idx < state.pile_view().len(),
        move_type == MoveType::Quicken ==> target_idx >= moves,
        move_type == MoveType::Delay ==> target_idx + moves < state.pile_view().len(),
    ensures
        all_ok(*cards, state.pile_view().len(), card_ids(state.pile_view()), state.event_view(), r@),
    decreases depth,
{
    let ghost n = state.pile_view().len();
    let ghost base0 = state.event_view();
    let ghost ids0 = card_ids(state.pile_view());
    let mut results: Vec<T> = Vec::new();
    if depth == 0 {
        return results;
    }
    let pile = state.get_pile();
    let target_card = pile_get(pile, target_idx);
    proof {
        lemma_face_ruled(*cards, state.pile_view(), target_idx as int);
    }
    if target_card.get_active_face(cards).features.intersects(Features { bits: FEATURE_WEIGHT }) {
        return results;
    }
    let target_state = with_event(state, Event::MoveTarget(target_idx, target_card, move_type));
    let fresh = T::new(crate::pile::pile_clone(pile));
    let moved = move_card_inner(cards, &fresh, target_idx, moves, 0, 0, move_type, depth - 1);
    let mut k: usize = 0;
    while k < moved.len()
        invariant
            ready(*cards, *state),
            n == state.pile_view().len(),
            base0 == state.event_view(),
            ids0 == card_ids(state.pile_view()),
            pile_cards(*pile) == state.pile_view(),
            target_state.pile_view() == state.pile_view(),
            extends_log(base0, target_state),
            all_ok_moves(*cards, n, ids0, fresh.event_view(), moved@),
            forall|i: int| 0 <= i < moved@.len() ==> 0 < (#[trigger] moved@[i]).0 <= moves,
            move_type == MoveType::Quicken ==> target_idx >= moves,
            move_type == MoveType::Delay ==> target_idx + moves < n,
            target_idx < n,
            all_ok(*cards, n, ids0, base0, results@),
        decreases moved@.len() - k,
    {
        let distance = moved[k].0;
        assert(0 < moved@[k as int].0 <= moves);
        assert(state_ok(*cards, n, ids0, fresh.event_view(), moved@[k as int].1));
        let anchor_idx = match move_type {
            MoveType::Quicken => target_idx - distance,
            MoveType::Delay => target_idx + distance,
        };
        let anchor_card = pile_get(pile, anchor_idx);
        let prefix = with_event(&target_state, Event::MoveBy(anchor_idx, anchor_card, move_type, distance));
        let combined = T::combine(prefix, moved[k].1.clone_state());
        results.push(combined);
        k += 1;
    }
    results
}

/// The states after the card at `target_idx` is pulled (towards the
/// active card) or pushed (towards the bottom) as far as it goes. A baddie
/// that moves over a trap is hit by it, and each way the hit ends moves
/// on.
#[verifier::loop_isolation(false)]
fn move_card_to_end<T: EngineGameState>(
    cards: &CardDefs,
    state: T,
    active_idx: usize,
    target_idx: usize,
    move_type: EndPileMoveType,
    depth: usize,
) -> (r: Vec<T>)
    requires
        ready(*cards, state),
        active_idx < target_idx < state.pile_view().len(),
    ensures
        all_ok(*cards, state.pile_view().len(), card_ids(state.pile_view()), state.event_view(), r@),
    decreases depth,
{
    let ghost n = state.pile_view().len();
    let ghost base0 = state.event_view();
    let ghost ids0 = card_ids(state.pile_view());
    let mut results: Vec<T> = Vec::new();
    if depth == 0 {
        return results;
    }
    let mut state = state;
    let mut target = target_idx;
    let mut did_move = false;
    let len = pile_len(state.get_pile());
    loop
        invariant
            ready(*cards, state),
            n == state.pile_view().len(),
            base0 == state.event_view(),
            ids0 == card_ids(state.pile_view()),
            len == n,
            n == state.pile_view().len(),
            base0 == state.event_view(),
            ids0 == card_ids(state.pile_view()),
            active_idx < target < len,
            depth > 0,
            results@.len() == 0,
        decreases if move_type == EndPileMoveType::Push { len - target } else { target as int },
    {
        let at_end = match move_type {
            EndPileMoveType::Push => target + 1 >= len,
            EndPileMoveType::Pull => target - 1 <= active_idx,
        };
        if at_end {
            if did_move {
                state.mut_append_event(Event::EndPileMoveResult(move_type));
            }
            results.push(state);
            return results;
        }
        let swap_with_idx = match move_type {
            EndPileMoveType::Push => target + 1,
            EndPileMoveType::Pull => target - 1,
        };
        did_move = true;
        let moved_card = pile_get(state.get_pile(), target);
        let moved_over_card = pile_get(state.get_pile(), swap_with_idx);
        proof {
            lemma_face_ruled(*cards, state.pile_view(), target as int);
            lemma_face_ruled(*cards, state.pile_view(), swap_with_idx as int);
        }
        swap_cards(cards, &mut state, target, swap_with_idx);
        target = swap_with_idx;
        if moved_card.get_active_face(cards).allegiance != Allegiance::Hero && moved_over_card.get_active_face(
            cards,
        ).features.intersects(Features { bits: FEATURE_TRAP }) {
            let with_move = with_event(&state, Event::EndPileMoveResult(move_type));
            let hit_options = attack_card_get_all_outcomes(cards, &with_move, swap_with_idx, HitType::Trap, depth - 1);
            if hit_options.len() > 0 {
                let mut k: usize = 0;
                while k < hit_options.len()
                    invariant
                        cards.wf(),
                        all_ok(*cards, n, ids0, base0, hit_options@),
                        all_ok(*cards, n, ids0, base0, results@),
                        active_idx < target < n,
                        depth > 0,
                    decreases hit_options@.len() - k,
                {
                    assert(state_ok(*cards, n, ids0, base0, hit_options@[k as int]));
                    let further = move_card_to_end(
                        cards,
                        hit_options[k].clone_state(),
                        active_idx,
                        target,
                        move_type,
                        depth - 1,
                    );
                    extend_states(&mut results, further, Ghost(*cards), Ghost(n), Ghost(ids0), Ghost(base0));
                    k += 1;
                }
                return results;
            }
        }
    }
}

/// A baddie's or werewolf's turn: the baddies behind it that swarm act
/// first, then it takes its first row that does anything.
pub fn resolve_enemy_turn<T: EngineGameState>(
    cards: &CardDefs,
    state: &T,
    allegiance: Allegiance,
    active_idx: usize,
    depth: usize,
) -> (r: Vec<T>)
    requires
        ready(*cards, *state),
        active_idx < state.pile_view().len(),
    ensures
        all_ok(*cards, state.pile_view().len(), card_ids(state.pile_view()), state.event_view(), r@),
        depth >= 2 ==> r@.len() > 0,
    decreases depth,
{
    let ghost n = state.pile_view().len();
    let ghost base0 = state.event_view();
    let ghost ids0 = card_ids(state.pile_view());
    if depth == 0 {
        return Vec::new();
    }
    let swarm_states = swarm_me_recursive(cards, state, allegiance, active_idx + 1, depth - 1);
    if swarm_states.len() > 0 {
        let mut results: Vec<T> = Vec::new();
        let mut k: usize = 0;
        while k < swarm_states.len()
            invariant
                cards.wf(),
                all_ok(*cards, n, ids0, base0, swarm_states@),
                all_ok(*cards, n, ids0, base0, results@),
                active_idx < n,
                depth > 0,
                k > 0 && depth >= 2 ==> results@.len() > 0,
            decreases swarm_states@.len() - k,
        {
            assert(state_ok(*cards, n, ids0, base0, swarm_states@[k as int]));
            let outs = resolve_enemy_turn_no_swarm(cards, &swarm_states[k], allegiance, active_idx, depth - 1);
            extend_states(&mut results, outs, Ghost(*cards), Ghost(n), Ghost(ids0), Ghost(base0));
            k += 1;
        }
        results
    } else {
        resolve_enemy_turn_no_swarm(cards, state, allegiance, active_idx, depth - 1)
    }
}

/// The cards from `active_idx` on that swarm with the acting card, each
/// taking its swarm row, the one furthest back first.
pub fn swarm_me_recursive<T: EngineGameState>(
    cards: &CardDefs,
    state: &T,
    allegiance: Allegiance,
    active_idx: usize,
    depth: usize,
) -> (r: Vec<T>)
    requires
        ready(*cards, *state),
        active_idx <= state.pile_view().len(),
    ensures
        all_ok(*cards, state.pile_view().len(), card_ids(state.pile_view()), state.event_view(), r@),
    decreases depth,
{
    let ghost n = state.pile_view().len();
    let ghost base0 = state.event_view();
    let ghost ids0 = card_ids(state.pile_view());
    let mut result_states: Vec<T> = Vec::new();
    if depth == 0 || active_idx >= pile_len(state.get_pile()) {
        return result_states;
    }
    proof {
        lemma_face_ruled(*cards, state.pile_view(), active_idx as int);
    }
    let active_face = face_at(cards, state.get_pile(), active_idx);
    if active_face.allegiance != allegiance {
        return result_states;
    }
    match &active_face.swarm {
        Some(swarm_row) => {
            let mut child_states = swarm_me_recursive(cards, state, allegiance, active_idx + 1, depth - 1);
            if child_states.len() == 0 {
                child_states.push(state.clone_state());
            }
            let mut k: usize = 0;
            while k < child_states.len()
                invariant
                    cards.wf(),
                    all_ok(*cards, n, ids0, base0, child_states@),
                    all_ok(*cards, n, ids0, base0, result_states@),
                    active_idx < n,
                    depth > 0,
                    enemy_row_ruled(*swarm_row),
                decreases child_states@.len() - k,
            {
                assert(state_ok(*cards, n, ids0, base0, child_states@[k as int]));
                let mut base_state = child_states[k].clone_state();
                let swarm_card = pile_get(base_state.get_pile(), active_idx);
                base_state.mut_append_event(Event::Swarm(active_idx, swarm_card));
                let new_states = resolve_enemy_row(
                    cards,
                    &base_state,
                    allegiance,
                    swarm_row,
                    active_idx,
                    true,
                    depth - 1,
                );
                if new_states.len() == 0 {
                    result_states.push(base_state);
                } else {
                    extend_states(&mut result_states, new_states, Ghost(*cards), Ghost(n), Ghost(ids0), Ghost(base0));
                }
                k += 1;
            }
            result_states
        },
        None => result_states,
    }
}

/// A baddie's turn without swarming: its first row that does anything, or
/// a skipped turn.
fn resolve_enemy_turn_no_swarm<T: EngineGameState>(
    cards: &CardDefs,
    state: &T,
    allegiance: Allegiance,
    active_idx: usize,
    depth: usize,
) -> (r: Vec<T>)
    requires
        ready(*cards, *state),
        active_idx < state.pile_view().len(),
    ensures
        all_ok(*cards, state.pile_view().len(), card_ids(state.pile_view()), state.event_view(), r@),
        depth > 0 ==> r@.len() > 0,
    decreases depth,
{
    let ghost n = state.pile_view().len();
    let ghost base0 = state.event_view();
    let ghost ids0 = card_ids(state.pile_view());
    if depth == 0 {
        return Vec::new();
    }
    let pile = state.get_pile();
    let active_card = pile_get(pile, active_idx);
    proof {
        lemma_face_ruled(*cards, state.pile_view(), active_idx as int);
    }
    let active_face = face_at(cards, pile, active_idx);
    let mut row_idx: usize = 0;
    while row_idx < active_face.rows.len()
        invariant
            ready(*cards, *state),
            n == state.pile_view().len(),
            base0 == state.event_view(),
            ids0 == card_ids(state.pile_view()),
            active_idx < n,
            face_ruled(*active_face),
            depth > 0,
        decreases active_face.rows@.len() - row_idx,
    {
        let with_row = with_event(state, Event::PickRow(row_idx, active_idx, active_card));
        proof {
            assert(if active_face.allegiance == Allegiance::Hero {
                player_row_ruled(active_face.rows@[row_idx as int])
            } else {
                enemy_row_ruled(active_face.rows@[row_idx as int])
            });
        }
        if active_face.allegiance != Allegiance::Hero {
            let outcomes = resolve_enemy_row(
                cards,
                &with_row,
                allegiance,
                &active_face.rows[row_idx],
                active_idx,
                false,
                depth - 1,
            );
            if outcomes.len() > 0 {
                return outcomes;
            }
        }
        row_idx += 1;
    }
    let mut v: Vec<T> = Vec::new();
    v.push(with_event(state, Event::SkipTurn(active_card)));
    v
}

/// The rage of the cards of the allegiance at positions `from` up to (not
/// including) `to`: the sum of their faces' rage.
pub open spec fn rage_between(cards: CardDefs, p: Seq<CardPtr>, allegiance: Allegiance, from: int, to: int) -> int
    decreases to - from,
{
    if to <= from {
        0
    } else {
        rage_between(cards, p, allegiance, from, to - 1) + if cards.face(p[to - 1]).allegiance == allegiance {
            cards.face(p[to - 1]).rage as int
        } else {
            0
        }
    }
}

/// The rage that counts for the row of the card at `active_idx`: that of
/// the cards of its allegiance behind it.
pub open spec fn rage_behind(cards: CardDefs, p: Seq<CardPtr>, allegiance: Allegiance, active_idx: int) -> int {
    rage_between(cards, p, allegiance, active_idx + 1, p.len() as int)
}

/// A baddie row: its condition, each action in every state the previous
/// actions left (an action with no outcome is logged as skipped), then
/// its self action. No state when the condition fails, or when no action
/// did anything and the row is not forced.
pub fn resolve_enemy_row<T: EngineGameState>(
    cards: &CardDefs,
    state: &T,
    allegiance: Allegiance,
    row: &Row,
    active_idx: usize,
    force_mandatory: bool,
    depth: usize,
) -> (r: Vec<T>)
    requires
        ready(*cards, *state),
        active_idx < state.pile_view().len(),
        enemy_row_ruled(*row),
    ensures
        all_ok(*cards, state.pile_view().len(), card_ids(state.pile_view()), state.event_view(), r@),
        row.condition matches Some(Condition::Rage(required)) && rage_behind(
            *cards,
            state.pile_view(),
            allegiance,
            active_idx as int,
        ) < required ==> r@.len() == 0,
        row.condition matches Some(Condition::ExhaustedAllies(required)) && crate::outcomes::revive_targets_upto(
            *cards,
            state.pile_view(),
            allegiance,
            active_idx + 1,
            state.pile_view().len() as int,
        ).len() < required ==> r@.len() == 0,
        depth > 0 && force_mandatory && (row.condition matches Some(Condition::Rage(required)) ==> rage_behind(
            *cards,
            state.pile_view(),
            allegiance,
            active_idx as int,
        ) >= required) && (row.condition matches Some(Condition::ExhaustedAllies(required))
            ==> crate::outcomes::revive_targets_upto(
            *cards,
            state.pile_view(),
            allegiance,
            active_idx + 1,
            state.pile_view().len() as int,
        ).len() >= required) ==> r@.len() > 0,
    decreases depth,
{
    let ghost n = state.pile_view().len();
    let ghost base0 = state.event_view();
    let ghost ids0 = card_ids(state.pile_view());
    if depth == 0 {
        return Vec::new();
    }
    let pile = state.get_pile();
    let len = pile_len(pile);
    match row.condition {
        Some(Condition::ExhaustedAllies(required)) => {
            let targets = crate::outcomes::find_all_revive_targets(cards, pile, allegiance, active_idx + 1);
            if targets.len() < required {
                return Vec::new();
            }
        },
        Some(Condition::Rage(required)) => {
            let mut total: u32 = 0;
            let mut i = active_idx + 1;
            while i < len
                invariant
                    ready(*cards, *state),
                    len == n,
                    n == state.pile_view().len(),
                    base0 == state.event_view(),
                    ids0 == card_ids(state.pile_view()),
                    pile_cards(*pile) == state.pile_view(),
                    total <= 255 * i,
                    total == rage_between(*cards, state.pile_view(), allegiance, active_idx + 1, i as int),
                    active_idx + 1 <= i <= len,
                    len <= 12,
                decreases len - i,
            {
                proof {
                    lemma_face_ruled(*cards, state.pile_view(), i as int);
                }
                let face = face_at(cards, pile, i);
                if face.allegiance == allegiance {
                    total = total + face.rage as u32;
                }
                i += 1;
            }
            if total < required as u32 {
                return Vec::new();
            }
        },
        _ => {},
    }
    let active_card = pile_get(pile, active_idx);
    let mut active_states: Vec<T> = Vec::new();
    active_states.push(state.clone_state());
    let mut did_any_actions = false;
    let mut a: usize = 0;
    while a < row.actions.len()
        invariant
            cards.wf(),
            n == state.pile_view().len(),
            base0 == state.event_view(),
            ids0 == card_ids(state.pile_view()),
            active_idx < n,
            enemy_row_ruled(*row),
            all_ok(*cards, n, ids0, base0, active_states@),
            active_states@.len() > 0,
            depth > 0,
        decreases row.actions@.len() - a,
    {
        let action = row.actions[a];
        assert(enemy_action_ruled(row.actions@[a as int].action));
        let mut next: Vec<T> = Vec::new();
        let mut k: usize = 0;
        while k < active_states.len()
            invariant
                cards.wf(),
                n == state.pile_view().len(),
                base0 == state.event_view(),
                ids0 == card_ids(state.pile_view()),
                active_idx < n,
                enemy_action_ruled(action.action),
                all_ok(*cards, n, ids0, base0, active_states@),
                all_ok(*cards, n, ids0, base0, next@),
                next@.len() >= k,
                k <= active_states@.len(),
                depth > 0,
            decreases active_states@.len() - k,
        {
            assert(state_ok(*cards, n, ids0, base0, active_states@[k as int]));
            let outs = resolve_enemy_action(cards, &active_states[k], allegiance, &action, active_idx, depth - 1);
            if outs.len() > 0 {
                did_any_actions = true;
                extend_states(&mut next, outs, Ghost(*cards), Ghost(n), Ghost(ids0), Ghost(base0));
            } else {
                next.push(
                    with_event(&active_states[k], Event::SkipAction(active_card, action, SkipActionReason::NoOption)),
                );
            }
            k += 1;
        }
        active_states = next;
        a += 1;
    }
    if !did_any_actions && !force_mandatory {
        return Vec::new();
    }
    match row.mandatory {
        Some(self_action) => {
            let mut out: Vec<T> = Vec::new();
            let mut k: usize = 0;
            while k < active_states.len()
                invariant
                    cards.wf(),
                    active_idx < n,
                    all_ok(*cards, n, ids0, base0, active_states@),
                    all_ok(*cards, n, ids0, base0, out@),
                    out@.len() == k,
                    k <= active_states@.len(),
                decreases active_states@.len() - k,
            {
                assert(state_ok(*cards, n, ids0, base0, active_states@[k as int]));
                let mut s = active_states[k].clone_state();
                let ghost before = s.pile_view();
                perform_mandatory_action(&mut s, self_action, active_idx);
                proof {
                    lemma_rekey_ruled(
                        *cards,
                        before,
                        active_idx as int,
                        crate::card_modifiers::spec_self_action_key(self_action, before[active_idx as int].key),
                    );
                }
                out.push(s);
                k += 1;
            }
            out
        },
        None => active_states,
    }
}

/// The first position that spaced claws from `active_idx` reach: the next
/// card for odd spacing, the one after it for even spacing.
pub open spec fn claw_start(space: ClawSpaceType, active_idx: int) -> int {
    match space {
        ClawSpaceType::Odd => active_idx + 1,
        ClawSpaceType::Even => active_idx + 2,
    }
}

/// The last position, in a pile of `len` cards, that spaced claws starting
/// at `start` reach: every second card from `start` on.
pub open spec fn claw_last(len: int, start: int) -> int {
    start + 2 * ((len - 1 - start) / 2)
}

/// Every state of the list records an attack on `t` after `base`, unless
/// the card there cannot be hurt.
pub open spec fn clawed_at<T: EngineGameState>(cards: CardDefs, base: Seq<Event>, v: Seq<T>, t: int) -> bool {
    forall|m: int|
        0 <= m < v.len() ==> logs_attack_on(base, #[trigger] v[m], t) || crate::pile_utils::spec_hurt_faces(
            cards,
            v[m].pile_view()[t],
        ).len() == 0
}

/// Every state of the list records an attack on `t` after `base`, unless
/// the card at `t` of the pile `p` cannot be hurt.
pub open spec fn clawed_at_first<T: EngineGameState>(
    cards: CardDefs,
    base: Seq<Event>,
    v: Seq<T>,
    p: Seq<CardPtr>,
    t: int,
) -> bool {
    forall|m: int|
        0 <= m < v.len() ==> logs_attack_on(base, #[trigger] v[m], t) || crate::pile_utils::spec_hurt_faces(
            cards,
            p[t],
        ).len() == 0
}

/// Every way a baddie's (or a reacting card's) action can go.
pub fn resolve_enemy_action<T: EngineGameState>(
    cards: &CardDefs,
    state: &T,
    allegiance: Allegiance,
    wrapped_action: &WrappedAction,
    active_idx: usize,
    depth: usize,
) -> (r: Vec<T>)
    requires
        ready(*cards, *state),
        active_idx < state.pile_view().len(),
        enemy_action_ruled(wrapped_action.action),
    ensures
        all_ok(*cards, state.pile_view().len(), card_ids(state.pile_view()), state.event_view(), r@),
        wrapped_action.action matches Action::SpacedClaws(space) ==> T::logs_events() && depth >= 2 ==> {
            let p = state.pile_view();
            let t0 = claw_start(space, active_idx as int);
            let last = claw_last(p.len() as int, t0);
            &&& (t0 < p.len() && spec_allegiance_match(allegiance, cards.face(p[t0]).allegiance, wrapped_action.target)
                ==> clawed_at(*cards, state.event_view(), r@, t0))
            &&& (t0 < p.len() && spec_allegiance_match(allegiance, cards.face(p[last]).allegiance, wrapped_action.target)
                ==> clawed_at_first(*cards, state.event_view(), r@, p, last))
        },
    decreases depth,
{
    let ghost n = state.pile_view().len();
    let ghost base0 = state.event_view();
    let ghost ids0 = card_ids(state.pile_view());
    let mut results: Vec<T> = Vec::new();
    if depth == 0 {
        return results;
    }
    let pile = state.get_pile();
    let len = pile_len(pile);
    let target = wrapped_action.target;
    let is_werewolf = allegiance == Allegiance::Werewolf;
    match wrapped_action.action {
        Action::Hit(range) => {
            if is_werewolf && infront_has(cards, pile, FEATURE_VENOM, active_idx) {
                return results;
            }
            let cap = range_cap(range, active_idx, len);
            let mut target_idx = active_idx + 1;
            while target_idx < cap
                invariant
                    !(wrapped_action.action is SpacedClaws),
                    ready(*cards, *state),
                    len == n,
                    n == state.pile_view().len(),
                    base0 == state.event_view(),
                    ids0 == card_ids(state.pile_view()),
                    pile_cards(*pile) == state.pile_view(),
                    active_idx < target_idx,
                    cap <= len,
                    depth > 0,
                    all_ok(*cards, n, ids0, base0, results@),
                decreases cap - target_idx,
            {
                let target_card = pile_get(pile, target_idx);
                proof {
                    lemma_face_ruled(*cards, state.pile_view(), target_idx as int);
                }
                let target_face = face_at(cards, pile, target_idx);
                let target_allegiance = target_face.allegiance;
                if is_allegiance_match(allegiance, target_allegiance, target) && target_face.health != Health::Empty {
                    let with_target = with_event(state, Event::AttackCard(target_idx, target_card, HitType::Hit));
                    let blockers = find_blockers_for_hit_outcomes(
                        cards,
                        &with_target,
                        active_idx,
                        cap,
                        target_idx,
                        depth - 1,
                    );
                    let num_blockers = blockers.len();
                    extend_states(&mut results, blockers, Ghost(*cards), Ghost(n), Ghost(ids0), Ghost(base0));
                    if num_blockers == 0 || target_allegiance == Allegiance::Hero {
                        let outs = attack_card_get_all_outcomes(cards, &with_target, target_idx, HitType::Hit, depth - 1);
                        extend_states(&mut results, outs, Ghost(*cards), Ghost(n), Ghost(ids0), Ghost(base0));
                    }
                    return results;
                }
                target_idx += 1;
            }
        },
        Action::Claws(range) => {
            if is_werewolf && infront_has(cards, pile, FEATURE_VENOM, active_idx) {
                return results;
            }
            let cap = range_cap(range, active_idx, len);
            let outs = attack_all_in_range(
                cards,
                state,
                allegiance,
                active_idx + 1,
                cap,
                target,
                HitType::Claw,
                depth - 1,
            );
            extend_states(&mut results, outs, Ghost(*cards), Ghost(n), Ghost(ids0), Ghost(base0));
        },
        Action::SpacedClaws(space_type) => {
            if is_werewolf && infront_has(cards, pile, FEATURE_VENOM, active_idx) {
                return results;
            }
            let start_idx = match space_type {
                ClawSpaceType::Odd => active_idx + 1,
                ClawSpaceType::Even => active_idx + 2,
            };
            let mut state_agg: Vec<T> = Vec::new();
            state_agg.push(state.clone_state());
            if start_idx < len {
                let steps = (len - 1 - start_idx) / 2;
                let mut step: usize = steps + 1;
                while step > 0
                    invariant
                        ready(*cards, *state),
                        len == n,
                        n == state.pile_view().len(),
                        base0 == state.event_view(),
                        ids0 == card_ids(state.pile_view()),
                        pile_cards(*pile) == state.pile_view(),
                        start_idx < len,
                        step <= steps + 1,
                        start_idx + 2 * steps < len,
                        start_idx == claw_start(space_type, active_idx as int),
                        start_idx + 2 * steps == claw_last(len as int, start_idx as int),
                        depth > 0,
                        all_ok(*cards, n, ids0, base0, state_agg@),
                        step == steps + 1 ==> state_agg@.len() == 1 && state_agg@[0].pile_view() == state.pile_view()
                            && state_agg@[0].event_view() == base0,
                        T::logs_events() && depth >= 2 && step == 0 && spec_allegiance_match(
                            allegiance,
                            cards.face(state.pile_view()[start_idx as int]).allegiance,
                            target,
                        ) ==> clawed_at(*cards, base0, state_agg@, start_idx as int),
                        T::logs_events() && depth >= 2 && step <= steps && spec_allegiance_match(
                            allegiance,
                            cards.face(state.pile_view()[start_idx + 2 * steps]).allegiance,
                            target,
                        ) ==> clawed_at_first(*cards, base0, state_agg@, state.pile_view(), start_idx + 2 * steps),
                    decreases step,
                {
                    step -= 1;
                    let target_idx = start_idx + 2 * step;
                    proof {
                        lemma_face_ruled(*cards, state.pile_view(), target_idx as int);
                    }
                    if is_allegiance_match(allegiance, face_at(cards, pile, target_idx).allegiance, target) {
                        let ghost old_agg = state_agg@;
                        state_agg = attack_idx_in_all_states(cards, &state_agg, target_idx, HitType::Claw, depth - 1, Ghost(n), Ghost(ids0), Ghost(base0));
                        proof {
                            if T::logs_events() && depth >= 2 {
                                let t = target_idx as int;
                                let last = start_idx + 2 * steps;
                                assert forall|m: int| 0 <= m < state_agg@.len() implies logs_attack_on(base0, #[trigger] state_agg@[m], t)
                                    || crate::pile_utils::spec_hurt_faces(*cards, state_agg@[m].pile_view()[t]).len() == 0 by {
                                    let o = state_agg@[m];
                                    assert(attacked_from_one(*cards, old_agg, o, t, (depth - 1) as int));
                                    let i = choose|i: int| 0 <= i < old_agg.len() && #[trigger] attacked_from(*cards, old_agg[i], o, t, (depth - 1) as int);
                                    assert(state_ok(*cards, n, ids0, base0, old_agg[i]));
                                    if logs_attack_on(old_agg[i].event_view(), o, t) {
                                        lemma_logs_attack_rebase(base0, old_agg[i].event_view(), o, t);
                                    }
                                }
                                if spec_allegiance_match(allegiance, cards.face(state.pile_view()[last as int]).allegiance, target) && step <= steps {
                                    assert forall|m: int| 0 <= m < state_agg@.len() implies logs_attack_on(base0, #[trigger] state_agg@[m], last as int)
                                        || crate::pile_utils::spec_hurt_faces(*cards, state.pile_view()[last as int]).len() == 0 by {
                                        let o = state_agg@[m];
                                        assert(attacked_from_one(*cards, old_agg, o, t, (depth - 1) as int));
                                        let i = choose|i: int| 0 <= i < old_agg.len() && #[trigger] attacked_from(*cards, old_agg[i], o, t, (depth - 1) as int);
                                        assert(state_ok(*cards, n, ids0, base0, old_agg[i]));
                                        if step == steps {
                                            assert(old_agg[i].pile_view() == state.pile_view());
                                            assert(old_agg[i].event_view() == base0);
                                            if logs_attack_on(old_agg[i].event_view(), o, t) {
                                                lemma_logs_attack_rebase(base0, old_agg[i].event_view(), o, t);
                                            }
                                        } else {
                                            assert(logs_attack_on(base0, old_agg[i], last as int) || crate::pile_utils::spec_hurt_faces(
                                                *cards,
                                                state.pile_view()[last as int],
                                            ).len() == 0);
                                            if logs_attack_on(base0, old_agg[i], last as int) {
                                                lemma_logs_attack_extends(base0, old_agg[i], o, last as int);
                                            }
                                        }
                                    }
                                }
                            }
                        }
                    }
                }
            }
            let ghost before = results@;
            if did_states_change(&state_agg, state) {
                extend_states(&mut results, state_agg, Ghost(*cards), Ghost(n), Ghost(ids0), Ghost(base0));
            }
            proof {
                assert(before.len() == 0);
                assert(results@ == before || results@ == state_agg@);
            }
        },
        Action::Void => {
            let mut target_idx = active_idx + 1;
            while target_idx < len
                invariant
                    !(wrapped_action.action is SpacedClaws),
                    ready(*cards, *state),
                    len == n,
                    n == state.pile_view().len(),
                    base0 == state.event_view(),
                    ids0 == card_ids(state.pile_view()),
                    pile_cards(*pile) == state.pile_view(),
                    active_idx < target_idx,
                    all_ok(*cards, n, ids0, base0, results@),
                decreases len - target_idx,
            {
                let target_card = pile_get(pile, target_idx);
                proof {
                    lemma_face_ruled(*cards, state.pile_view(), target_idx as int);
                }
                let target_face = face_at(cards, pile, target_idx);
                if is_allegiance_match(allegiance, target_face.allegiance, target) && target_face.health != Health::Empty {
                    let keys = exhaust_card(cards, &target_card);
                    let mut k: usize = 0;
                    while k < keys.len()
                        invariant
                            !(wrapped_action.action is SpacedClaws),
                            ready(*cards, *state),
                            len == n,
                            n == state.pile_view().len(),
                            base0 == state.event_view(),
                            ids0 == card_ids(state.pile_view()),
                            pile_cards(*pile) == state.pile_view(),
                            target_idx < len,
                            all_ok(*cards, n, ids0, base0, results@),
                        decreases keys@.len() - k,
                    {
                        let mut new_state = state.clone_state();
                        set_card_key(cards, &mut new_state, target_idx, keys[k]);
                        results.push(new_state.append_event(Event::Void(target_idx, target_card, keys[k])));
                        k += 1;
                    }
                    return results;
                }
                target_idx += 1;
            }
        },
        Action::Death => {
            let mut new_state = state.clone_state();
            let mut i: usize = 0;
            while i < len
                invariant
                    cards.wf(),
                    len == n,
                    n == state.pile_view().len(),
                    base0 == state.event_view(),
                    ids0 == card_ids(state.pile_view()),
                    new_state.pile_view().len() == n,
                    new_state.event_view() == base0,
                    card_ids(new_state.pile_view()) == ids0,
                    pile_ruled(*cards, new_state.pile_view()),
                decreases len - i,
            {
                let mut card = pile_get(new_state.get_pile(), i);
                proof {
                    lemma_face_ruled(*cards, new_state.pile_view(), i as int);
                }
                if is_allegiance_match(allegiance, card.get_active_face(cards).allegiance, target) {
                    mut_exhaust_card_without_giving_options(cards, &mut card);
                    set_card_key(cards, &mut new_state, i, card.key);
                }
                i += 1;
            }
            results.push(new_state.append_event(Event::Death));
        },
        Action::Pull(range) => {
            if is_werewolf && infront_has(cards, pile, FEATURE_WEB, active_idx) {
                return results;
            }
            let cap = range_cap(range, active_idx, len);
            let mut target_idx = cap;
            while target_idx > active_idx + 2
                invariant
                    !(wrapped_action.action is SpacedClaws),
                    ready(*cards, *state),
                    len == n,
                    n == state.pile_view().len(),
                    base0 == state.event_view(),
                    ids0 == card_ids(state.pile_view()),
                    pile_cards(*pile) == state.pile_view(),
                    target_idx <= cap <= len,
                    active_idx < len,
                    depth > 0,
                    all_ok(*cards, n, ids0, base0, results@),
                decreases target_idx,
            {
                target_idx -= 1;
                let target_card = pile_get(pile, target_idx);
                proof {
                    lemma_face_ruled(*cards, state.pile_view(), target_idx as int);
                }
                let target_face = face_at(cards, pile, target_idx);
                let target_allegiance = target_face.allegiance;
                let refused = !is_allegiance_match(allegiance, target_allegiance, target) || (target_allegiance
                    != allegiance && (target_face.health == Health::Empty || target_face.features.intersects(
                    Features { bits: FEATURE_WEIGHT },
                )));
                if !refused {
                    let dodges = try_prevent_action_with_reaction(
                        cards,
                        state,
                        target_idx,
                        ReactionTrigger::Dodge,
                        depth - 1,
                    );
                    extend_states(&mut results, dodges, Ghost(*cards), Ghost(n), Ghost(ids0), Ghost(base0));
                    let pulled = move_card_to_end(
                        cards,
                        with_event(state, Event::Pull(target_idx, target_card)),
                        active_idx,
                        target_idx,
                        EndPileMoveType::Pull,
                        depth - 1,
                    );
                    extend_states(&mut results, pulled, Ghost(*cards), Ghost(n), Ghost(ids0), Ghost(base0));
                    return results;
                }
            }
        },
        Action::Push(range) => {
            if is_werewolf && infront_has(cards, pile, FEATURE_WEB, active_idx) {
                return results;
            }
            let cap = match range {
                Range::Int(r) => if r < len - 1 - active_idx {
                    active_idx + r + 1
                } else {
                    len - 1
                },
                _ => len - 1,
            };
            let mut target_idx = active_idx + 1;
            while target_idx < cap
                invariant
                    !(wrapped_action.action is SpacedClaws),
                    ready(*cards, *state),
                    len == n,
                    n == state.pile_view().len(),
                    base0 == state.event_view(),
                    ids0 == card_ids(state.pile_view()),
                    pile_cards(*pile) == state.pile_view(),
                    active_idx < target_idx,
                    cap < len,
                    depth > 0,
                    all_ok(*cards, n, ids0, base0, results@),
                decreases cap - target_idx,
            {
                let target_card = pile_get(pile, target_idx);
                proof {
                    lemma_face_ruled(*cards, state.pile_view(), target_idx as int);
                }
                let target_face = face_at(cards, pile, target_idx);
                let target_allegiance = target_face.allegiance;
                let refused = !is_allegiance_match(allegiance, target_allegiance, target) || (target_allegiance
                    != allegiance && target_face.features.intersects(Features { bits: FEATURE_WEIGHT }));
                if !refused {
                    let dodges = try_prevent_action_with_reaction(
                        cards,
                        state,
                        target_idx,
                        ReactionTrigger::Dodge,
                        depth - 1,
                    );
                    extend_states(&mut results, dodges, Ghost(*cards), Ghost(n), Ghost(ids0), Ghost(base0));
                    let pushed = move_card_to_end(
                        cards,
                        with_event(state, Event::Push(target_idx, target_card)),
                        active_idx,
                        target_idx,
                        EndPileMoveType::Push,
                        depth - 1,
                    );
                    extend_states(&mut results, pushed, Ghost(*cards), Ghost(n), Ghost(ids0), Ghost(base0));
                    return results;
                }
                target_idx += 1;
            }
        },
        Action::Heal | Action::Revive => {
            if is_werewolf && infront_has(cards, pile, FEATURE_VENOM, active_idx) {
                return results;
            }
            let is_heal = match wrapped_action.action {
                Action::Heal => true,
                _ => false,
            };
            let health = if is_heal {
                Health::Half
            } else {
                Health::Empty
            };
            match find_heal_target(cards, pile, health, allegiance, target, active_idx + 1) {
                Some(t) => {
                    let before = pile_get(pile, t);
                    let mut new_state = state.clone_state();
                    set_card_key(cards, &mut new_state, t, FaceKey::A);
                    let event = if is_heal {
                        Event::Heal(t, before)
                    } else {
                        Event::Revive(t, before)
                    };
                    results.push(new_state.append_event(event));
                },
                None => {},
            }
        },
        Action::Inspire => {
            let mut target_idx = active_idx + 1;
            while target_idx < len
                invariant
                    !(wrapped_action.action is SpacedClaws),
                    ready(*cards, *state),
                    len == n,
                    n == state.pile_view().len(),
                    base0 == state.event_view(),
                    ids0 == card_ids(state.pile_view()),
                    pile_cards(*pile) == state.pile_view(),
                    active_idx < target_idx,
                    depth > 0,
                    all_ok(*cards, n, ids0, base0, results@),
                decreases len - target_idx,
            {
                let target_card = pile_get(pile, target_idx);
                proof {
                    lemma_face_ruled(*cards, state.pile_view(), target_idx as int);
                }
                if is_allegiance_match(allegiance, face_at(cards, pile, target_idx).allegiance, target) {
                    let inspired = with_event(state, Event::Inspire(target_idx, target_card));
                    let outs = resolve_card_at_index(cards, &inspired, target_idx, depth - 1);
                    extend_states(&mut results, outs, Ghost(*cards), Ghost(n), Ghost(ids0), Ghost(base0));
                    return results;
                }
                target_idx += 1;
            }
        },
        _ => {},
    }
    results
}

/// The outcomes of the card at `active_idx` acting: a baddie's or
/// werewolf's turn, or for a hero each of its rows, and skipping.
pub fn resolve_card_at_index<T: EngineGameState>(
    cards: &CardDefs,
    state: &T,
    active_idx: usize,
    depth: usize,
) -> (r: Vec<T>)
    requires
        ready(*cards, *state),
        active_idx < state.pile_view().len(),
    ensures
        all_ok(*cards, state.pile_view().len(), card_ids(state.pile_view()), state.event_view(), r@),
        depth >= 3 ==> r@.len() > 0,
        depth > 0 && cards.face(state.pile_view()[active_idx as int]).allegiance == Allegiance::Hero ==> {
            &&& r@.len() > 0
            &&& r@.last().pile_view() == state.pile_view()
            &&& r@.last().event_view() == if T::logs_events() {
                state.event_view().push(Event::SkipTurn(state.pile_view()[active_idx as int]))
            } else {
                state.event_view()
            }
        },
    decreases depth,
{
    let ghost n = state.pile_view().len();
    let ghost base0 = state.event_view();
    let ghost ids0 = card_ids(state.pile_view());
    if depth == 0 {
        return Vec::new();
    }
    let pile = state.get_pile();
    let active_card = pile_get(pile, active_idx);
    proof {
        lemma_face_ruled(*cards, state.pile_view(), active_idx as int);
    }
    let active_face = face_at(cards, pile, active_idx);
    let allegiance = active_face.allegiance;
    if allegiance != Allegiance::Hero {
        return resolve_enemy_turn(cards, state, allegiance, active_idx, depth - 1);
    }
    let mut all_outcomes: Vec<T> = Vec::new();
    let mut row_idx: usize = 0;
    while row_idx < active_face.rows.len()
        invariant
            ready(*cards, *state),
            n == state.pile_view().len(),
            base0 == state.event_view(),
            ids0 == card_ids(state.pile_view()),
            active_idx < n,
            face_ruled(*active_face),
            active_face.allegiance == Allegiance::Hero,
            depth > 0,
            all_ok(*cards, n, ids0, base0, all_outcomes@),
        decreases active_face.rows@.len() - row_idx,
    {
        assert(player_row_ruled(active_face.rows@[row_idx as int]));
        let base = with_event(state, Event::PickRow(row_idx, active_idx, active_card));
        let outs = resolve_player_row(cards, &base, &active_face.rows[row_idx], active_idx, depth - 1);
        extend_states(&mut all_outcomes, outs, Ghost(*cards), Ghost(n), Ghost(ids0), Ghost(base0));
        row_idx += 1;
    }
    all_outcomes.push(with_event(state, Event::SkipTurn(active_card)));
    all_outcomes
}

/// A hero row: for an energy cost, each choice of that many energy cards
/// behind the hero, each turned and logged as paid, then the actions;
/// then the row's self action.
pub fn resolve_player_row<T: EngineGameState>(
    cards: &CardDefs,
    state: &T,
    row: &Row,
    active_idx: usize,
    depth: usize,
) -> (r: Vec<T>)
    requires
        ready(*cards, *state),
        active_idx < state.pile_view().len(),
        player_row_ruled(*row),
    ensures
        all_ok(*cards, state.pile_view().len(), card_ids(state.pile_view()), state.event_view(), r@),
    decreases depth,
{
    let ghost n = state.pile_view().len();
    let ghost base0 = state.event_view();
    let ghost ids0 = card_ids(state.pile_view());
    if depth == 0 {
        return Vec::new();
    }
    let pile = state.get_pile();
    let len = pile_len(pile);
    let mut active_states: Vec<T> = Vec::new();
    match row.condition {
        Some(Condition::Cost(_, amount)) => {
            let mut options: Vec<usize> = Vec::new();
            let mut i = active_idx + 1;
            while i < len
                invariant
                    ready(*cards, *state),
                    len == n,
                    n == state.pile_view().len(),
                    base0 == state.event_view(),
                    ids0 == card_ids(state.pile_view()),
                    pile_cards(*pile) == state.pile_view(),
                    active_idx + 1 <= i <= len,
                    forall|k: int| 0 <= k < options@.len() ==> active_idx < #[trigger] options@[k] < len,
                decreases len - i,
            {
                proof {
                    lemma_face_ruled(*cards, state.pile_view(), i as int);
                }
                if face_at(cards, pile, i).features.intersects(Features { bits: FEATURE_ENERGY }) {
                    options.push(i);
                }
                i += 1;
            }
            let combos = index_combinations(&options, amount as usize);
            let mut c: usize = 0;
            while c < combos.len()
                invariant
                    ready(*cards, *state),
                    len == n,
                    n == state.pile_view().len(),
                    base0 == state.event_view(),
                    ids0 == card_ids(state.pile_view()),
                    pile_cards(*pile) == state.pile_view(),
                    active_idx < len,
                    amount <= 4,
                    player_row_ruled(*row),
                    forall|k: int| 0 <= k < options@.len() ==> active_idx < #[trigger] options@[k] < len,
                    forall|x: int|
                        0 <= x < combos@.len() ==> (#[trigger] combos@[x])@.len() == amount as usize && forall|y: int|
                            0 <= y < combos@[x]@.len() ==> options@.contains(#[trigger] combos@[x]@[y]),
                    depth > 0,
                    all_ok(*cards, n, ids0, base0, active_states@),
                decreases combos@.len() - c,
            {
                let combo = &combos[c];
                assert(combo@.len() == amount as usize);
                let mut paid = state.clone_state();
                let mut used = UsedCards::new();
                let mut j: usize = 0;
                while j < combo.len()
                    invariant
                        cards.wf(),
                        len == n,
                        n == state.pile_view().len(),
                        base0 == state.event_view(),
                        ids0 == card_ids(state.pile_view()),
                        pile_cards(*pile) == state.pile_view(),
                        paid.pile_view().len() == n,
                        paid.event_view() == base0,
                        card_ids(paid.pile_view()) == ids0,
                        pile_ruled(*cards, paid.pile_view()),
                        pile_ruled(*cards, state.pile_view()),
                        combo@.len() <= 4,
                        used.wf(),
                        used.view().len() == j,
                        j <= combo@.len(),
                        forall|y: int| 0 <= y < combo@.len() ==> options@.contains(#[trigger] combo@[y]),
                        forall|k: int| 0 <= k < options@.len() ==> active_idx < #[trigger] options@[k] < len,
                    decreases combo@.len() - j,
                {
                    let idx = combo[j];
                    assert(options@.contains(combo@[j as int]));
                    let key = rotate_key(pile_get(paid.get_pile(), idx).key);
                    set_card_key(cards, &mut paid, idx, key);
                    used.push(PositionedCard { index: idx, card: pile_get(pile, idx) });
                    j += 1;
                }
                paid.mut_append_event(Event::PayRowConditionCosts(ConditionCostType::Energy, used));
                let mut energy_ids: Vec<usize> = Vec::new();
                let mut j: usize = 0;
                while j < combo.len()
                    invariant
                        j <= combo@.len(),
                        forall|y: int| 0 <= y < combo@.len() ==> options@.contains(#[trigger] combo@[y]),
                        forall|k: int| 0 <= k < options@.len() ==> active_idx < #[trigger] options@[k] < len,
                        forall|k: int| 0 <= k < energy_ids@.len() ==> active_idx < #[trigger] energy_ids@[k] < len,
                    decreases combo@.len() - j,
                {
                    assert(options@.contains(combo@[j as int]));
                    energy_ids.push(combo[j]);
                    j += 1;
                }
                let outs = resolve_player_row_post_conditions_no_mandatory(
                    cards,
                    &paid,
                    row,
                    active_idx,
                    &energy_ids,
                    depth - 1,
                );
                proof {
                    lemma_all_ok_rebase(*cards, n, ids0, base0, paid, outs@);
                }
                extend_states(&mut active_states, outs, Ghost(*cards), Ghost(n), Ghost(ids0), Ghost(base0));
                c += 1;
            }
        },
        _ => {
            let no_energy: Vec<usize> = Vec::new();
            active_states = resolve_player_row_post_conditions_no_mandatory(
                cards,
                state,
                row,
                active_idx,
                &no_energy,
                depth - 1,
            );
        },
    }
    match row.mandatory {
        Some(self_action) => {
            let mut out: Vec<T> = Vec::new();
            let mut k: usize = 0;
            while k < active_states.len()
                invariant
                    cards.wf(),
                    active_idx < n,
                    all_ok(*cards, n, ids0, base0, active_states@),
                    all_ok(*cards, n, ids0, base0, out@),
                decreases active_states@.len() - k,
            {
                assert(state_ok(*cards, n, ids0, base0, active_states@[k as int]));
                let mut s = active_states[k].clone_state();
                let ghost before = s.pile_view();
                perform_mandatory_action(&mut s, self_action, active_idx);
                proof {
                    lemma_rekey_ruled(
                        *cards,
                        before,
                        active_idx as int,
                        crate::card_modifiers::spec_self_action_key(self_action, before[active_idx as int].key),
                    );
                }
                out.push(s);
                k += 1;
            }
            out
        },
        None => active_states,
    }
}

/// A hero row's actions, each in every state the previous ones left.
fn resolve_player_row_post_conditions_no_mandatory<T: EngineGameState>(
    cards: &CardDefs,
    state: &T,
    row: &Row,
    active_idx: usize,
    energy_ids: &Vec<usize>,
    depth: usize,
) -> (r: Vec<T>)
    requires
        ready(*cards, *state),
        active_idx < state.pile_view().len(),
        player_row_ruled(*row),
        forall|k: int| 0 <= k < energy_ids@.len() ==> active_idx < #[trigger] energy_ids@[k] < state.pile_view().len(),
    ensures
        all_ok(*cards, state.pile_view().len(), card_ids(state.pile_view()), state.event_view(), r@),
        depth > 0 ==> r@.len() > 0,
    decreases depth,
{
    let ghost n = state.pile_view().len();
    let ghost base0 = state.event_view();
    let ghost ids0 = card_ids(state.pile_view());
    let mut active_states: Vec<T> = Vec::new();
    if depth == 0 {
        return active_states;
    }
    active_states.push(state.clone_state());
    let mut a: usize = 0;
    while a < row.actions.len()
        invariant
            cards.wf(),
            n == state.pile_view().len(),
            base0 == state.event_view(),
            ids0 == card_ids(state.pile_view()),
            active_idx < n,
            player_row_ruled(*row),
            forall|k: int| 0 <= k < energy_ids@.len() ==> active_idx < #[trigger] energy_ids@[k] < n,
            all_ok(*cards, n, ids0, base0, active_states@),
            active_states@.len() > 0,
            depth > 0,
        decreases row.actions@.len() - a,
    {
        let action = row.actions[a];
        assert(player_action_ruled(row.actions@[a as int].action));
        let mut next: Vec<T> = Vec::new();
        let mut k: usize = 0;
        while k < active_states.len()
            invariant
                cards.wf(),
                n == state.pile_view().len(),
                base0 == state.event_view(),
                ids0 == card_ids(state.pile_view()),
                active_idx < n,
                player_action_ruled(action.action),
                forall|k: int| 0 <= k < energy_ids@.len() ==> active_idx < #[trigger] energy_ids@[k] < n,
                all_ok(*cards, n, ids0, base0, active_states@),
                all_ok(*cards, n, ids0, base0, next@),
                next@.len() >= k,
                k <= active_states@.len(),
                depth > 0,
            decreases active_states@.len() - k,
        {
            assert(state_ok(*cards, n, ids0, base0, active_states@[k as int]));
            let outs = resolve_player_action(cards, &active_states[k], &action, active_idx, energy_ids, depth - 1);
            extend_states(&mut next, outs, Ghost(*cards), Ghost(n), Ghost(ids0), Ghost(base0));
            k += 1;
        }
        active_states = next;
        a += 1;
    }
    active_states
}

/// The hero allegiances that the hit may strike, by allegiance.
fn candidate(hero: bool, baddie: bool, werewolf: bool, a: Allegiance) -> (r: bool) {
    match a {
        Allegiance::Hero => hero,
        Allegiance::Baddie => baddie,
        Allegiance::Werewolf => werewolf,
        Allegiance::Rat => false,
    }
}

/// Every way a hero's action can go. The first outcome skips the action.
pub fn resolve_player_action<T: EngineGameState>(
    cards: &CardDefs,
    state: &T,
    wrapped_action: &WrappedAction,
    active_idx: usize,
    energy_ids: &Vec<usize>,
    depth: usize,
) -> (r: Vec<T>)
    requires
        ready(*cards, *state),
        active_idx < state.pile_view().len(),
        player_action_ruled(wrapped_action.action),
        forall|k: int| 0 <= k < energy_ids@.len() ==> active_idx < #[trigger] energy_ids@[k] < state.pile_view().len(),
    ensures
        all_ok(*cards, state.pile_view().len(), card_ids(state.pile_view()), state.event_view(), r@),
        r@.len() > 0,
        r@[0].pile_view() == state.pile_view(),
        r@[0].event_view() == if T::logs_events() {
            state.event_view().push(
                Event::SkipAction(state.pile_view()[active_idx as int], *wrapped_action, SkipActionReason::Choice),
            )
        } else {
            state.event_view()
        },
        (wrapped_action.action is CallAssist || wrapped_action.action is CallAssistTwice) ==> T::logs_events() && depth
            >= 3 ==> forall|i: int, j: int|
            #![trigger assist_eligible(*cards, state.pile_view(), active_idx as int, None::<CardId>, i, j)]
            assist_eligible(*cards, state.pile_view(), active_idx as int, None::<CardId>, i, j)
                ==> some_state_assist_started(state.event_view(), r@, i, state.pile_view()[i], j),
    decreases depth,
{
    let ghost n = state.pile_view().len();
    let ghost base0 = state.event_view();
    let ghost ids0 = card_ids(state.pile_view());
    let pile = state.get_pile();
    let len = pile_len(pile);
    let active_card = pile_get(pile, active_idx);
    let target = wrapped_action.target;
    let mut results: Vec<T> = Vec::new();
    results.push(with_event(state, Event::SkipAction(active_card, *wrapped_action, SkipActionReason::Choice)));
    let ghost skip = results@[0];
    if depth == 0 {
        return results;
    }
    let venom = infront_has(cards, pile, FEATURE_VENOM, active_idx);
    let web = infront_has(cards, pile, FEATURE_WEB, active_idx);
    match wrapped_action.action {
        Action::CallAssist => {
            let outs = get_assist_action_outcomes(cards, state, active_idx, None, depth - 1);
            let mut k: usize = 0;
            while k < outs.len()
                invariant
                    all_ok_pairs(*cards, n, ids0, base0, outs@),
                    all_ok(*cards, n, ids0, base0, results@),
                    results@.len() > 0,
                    results@[0] == skip,
                    k <= outs@.len(),
                    results@.len() == k + 1,
                    forall|s: int|
                        0 <= s < k ==> results@[s + 1].event_view() == (#[trigger] outs@[s]).0.event_view(),
                decreases outs@.len() - k,
            {
                assert(state_ok(*cards, n, ids0, base0, outs@[k as int].0));
                results.push(outs[k].0.clone_state());
                k += 1;
            }
            proof {
                if T::logs_events() && depth >= 3 {
                    assert forall|i: int, j: int|
                        #![trigger assist_eligible(*cards, state.pile_view(), active_idx as int, None::<CardId>, i, j)]
                        assist_eligible(*cards, state.pile_view(), active_idx as int, None::<CardId>, i, j)
                            implies some_state_assist_started(base0, results@, i, state.pile_view()[i], j) by {
                        let m = choose|m: int| 0 <= m < outs@.len() && #[trigger] assist_started(base0, outs@[m].0, i, state.pile_view()[i], j);
                        assert(results@[m + 1].event_view() == outs@[m].0.event_view());
                        assert(assist_started(base0, results@[m + 1], i, state.pile_view()[i], j));
                    }
                }
            }
        },
        Action::CallAssistTwice => {
            let outs = get_assist_action_outcomes(cards, state, active_idx, None, depth - 1);
            let ghost mut pos: Seq<int> = Seq::empty();
            let mut k: usize = 0;
            while k < outs.len()
                invariant
                    cards.wf(),
                    active_idx < n,
                    all_ok_pairs(*cards, n, ids0, base0, outs@),
                    all_ok(*cards, n, ids0, base0, results@),
                    results@.len() > 0,
                    results@[0] == skip,
                    depth > 0,
                    k <= outs@.len(),
                    pos.len() == k,
                    forall|s: int| 0 <= s < k ==> 0 <= #[trigger] pos[s] && pos[s] < results@.len(),
                    forall|s: int| 0 <= s < k ==> results@[pos[s]].event_view() == (#[trigger] outs@[s]).0.event_view(),
                decreases outs@.len() - k,
            {
                assert(state_ok(*cards, n, ids0, base0, outs@[k as int].0));
                let second = get_assist_action_outcomes(cards, &outs[k].0, active_idx, Some(outs[k].1), depth - 1);
                let ghost snap = results@;
                proof {
                    let ghost old_pos = pos;
                    pos = pos.push((results@.len() + second@.len()) as int);
                    assert forall|s: int| 0 <= s < k implies 0 <= #[trigger] pos[s] && pos[s] < snap.len() by {
                        assert(pos[s] == old_pos[s]);
                    }
                    assert forall|s: int| 0 <= s < k implies snap[pos[s]].event_view() == (#[trigger] outs@[s]).0.event_view() by {
                        assert(pos[s] == old_pos[s]);
                    }
                }
                let mut j: usize = 0;
                while j < second.len()
                    invariant
                        all_ok_pairs(*cards, n, ids0, base0, second@),
                        all_ok(*cards, n, ids0, base0, results@),
                        results@.len() > 0,
                        results@[0] == skip,
                        j <= second@.len(),
                        results@.len() == snap.len() + j,
                        forall|t: int| 0 <= t < snap.len() ==> results@[t] == snap[t],
                        pos.len() == k + 1,
                        pos[k as int] == snap.len() + second@.len(),
                        forall|s: int| 0 <= s < k ==> 0 <= #[trigger] pos[s] && pos[s] < snap.len(),
                        forall|s: int| 0 <= s < k ==> snap[pos[s]].event_view() == (#[trigger] outs@[s]).0.event_view(),
                    decreases second@.len() - j,
                {
                    assert(state_ok(*cards, n, ids0, base0, second@[j as int].0));
                    results.push(second[j].0.clone_state());
                    j += 1;
                }
                results.push(outs[k].0.clone_state());
                k += 1;
            }
            proof {
                if T::logs_events() && depth >= 3 {
                    assert forall|i: int, j: int|
                        #![trigger assist_eligible(*cards, state.pile_view(), active_idx as int, None::<CardId>, i, j)]
                        assist_eligible(*cards, state.pile_view(), active_idx as int, None::<CardId>, i, j)
                            implies some_state_assist_started(base0, results@, i, state.pile_view()[i], j) by {
                        let m = choose|m: int| 0 <= m < outs@.len() && #[trigger] assist_started(base0, outs@[m].0, i, state.pile_view()[i], j);
                        assert(0 <= pos[m] < results@.len());
                        assert(results@[pos[m]].event_view() == outs@[m].0.event_view());
                        assert(assist_started(base0, results@[pos[m]], i, state.pile_view()[i], j));
                    }
                }
            }
        },
        Action::Inspire => {
            let mut t = active_idx + 1;
            while t < len
                invariant
                    ready(*cards, *state),
                    len == n,
                    n == state.pile_view().len(),
                    base0 == state.event_view(),
                    ids0 == card_ids(state.pile_view()),
                    pile_cards(*pile) == state.pile_view(),
                    active_idx < t,
                    depth > 0,
                    all_ok(*cards, n, ids0, base0, results@),
                    results@.len() > 0,
                    results@[0] == skip,
                decreases len - t,
            {
                let card = pile_get(pile, t);
                proof {
                    lemma_face_ruled(*cards, state.pile_view(), t as int);
                }
                if is_allegiance_match(Allegiance::Hero, face_at(cards, pile, t).allegiance, target) {
                    let inspired = with_event(state, Event::Inspire(t, card));
                    let outs = resolve_card_at_index(cards, &inspired, t, depth - 1);
                    extend_states(&mut results, outs, Ghost(*cards), Ghost(n), Ghost(ids0), Ghost(base0));
                }
                t += 1;
            }
        },
        Action::Revive | Action::Heal => {
            if venom {
                return results;
            }
            let is_heal = match wrapped_action.action {
                Action::Heal => true,
                _ => false,
            };
            let mut t = active_idx + 1;
            while t < len
                invariant
                    ready(*cards, *state),
                    len == n,
                    n == state.pile_view().len(),
                    base0 == state.event_view(),
                    ids0 == card_ids(state.pile_view()),
                    pile_cards(*pile) == state.pile_view(),
                    active_idx < t,
                    all_ok(*cards, n, ids0, base0, results@),
                    results@.len() > 0,
                    results@[0] == skip,
                decreases len - t,
            {
                let card = pile_get(pile, t);
                proof {
                    lemma_face_ruled(*cards, state.pile_view(), t as int);
                }
                let face = face_at(cards, pile, t);
                let wanted = if is_heal {
                    Health::Half
                } else {
                    Health::Empty
                };
                if is_allegiance_match(Allegiance::Hero, face.allegiance, target) && face.health == wanted {
                    let mut new_state = state.clone_state();
                    set_card_key(cards, &mut new_state, t, FaceKey::A);
                    if is_heal {
                        results.push(new_state.append_event(Event::Heal(t, card)));
                    } else {
                        let revived = pile_get(new_state.get_pile(), t);
                        results.push(new_state.append_event(Event::Revive(t, revived)));
                    }
                }
                t += 1;
            }
        },
        Action::Claws(range) => {
            if venom {
                return results;
            }
            let cap = range_cap(range, active_idx, len);
            let outs = attack_all_in_range(
                cards,
                state,
                Allegiance::Hero,
                active_idx + 1,
                cap,
                target,
                HitType::Claw,
                depth - 1,
            );
            extend_states(&mut results, outs, Ghost(*cards), Ghost(n), Ghost(ids0), Ghost(base0));
        },
        Action::Ablaze => {
            if venom {
                return results;
            }
            let mut i: usize = 0;
            while i < energy_ids.len()
                invariant
                    ready(*cards, *state),
                    len == n,
                    n == state.pile_view().len(),
                    base0 == state.event_view(),
                    ids0 == card_ids(state.pile_view()),
                    pile_cards(*pile) == state.pile_view(),
                    forall|k: int| 0 <= k < energy_ids@.len() ==> active_idx < #[trigger] energy_ids@[k] < n,
                    depth > 0,
                    all_ok(*cards, n, ids0, base0, results@),
                    results@.len() > 0,
                    results@[0] == skip,
                decreases energy_ids@.len() - i,
            {
                let start = energy_ids[i];
                let mut j = i + 1;
                while j < energy_ids.len()
                    invariant
                        ready(*cards, *state),
                        len == n,
                        n == state.pile_view().len(),
                        base0 == state.event_view(),
                        ids0 == card_ids(state.pile_view()),
                        pile_cards(*pile) == state.pile_view(),
                        forall|k: int| 0 <= k < energy_ids@.len() ==> active_idx < #[trigger] energy_ids@[k] < n,
                        start < n,
                        depth > 0,
                        all_ok(*cards, n, ids0, base0, results@),
                        results@.len() > 0,
                        results@[0] == skip,
                    decreases energy_ids@.len() - j,
                {
                    let end = energy_ids[j];
                    let marked = with_event(
                        state,
                        Event::Ablaze(start, pile_get(pile, start), end, pile_get(pile, end)),
                    );
                    let outs = attack_all_in_range(
                        cards,
                        &marked,
                        Allegiance::Hero,
                        start + 1,
                        end,
                        target,
                        HitType::Ablaze,
                        depth - 1,
                    );
                    extend_states(&mut results, outs, Ghost(*cards), Ghost(n), Ghost(ids0), Ghost(base0));
                    j += 1;
                }
                i += 1;
            }
        },
        Action::Fireball => {
            if venom {
                return results;
            }
            let mut i: usize = 0;
            while i < energy_ids.len()
                invariant
                    ready(*cards, *state),
                    len == n,
                    n == state.pile_view().len(),
                    base0 == state.event_view(),
                    ids0 == card_ids(state.pile_view()),
                    pile_cards(*pile) == state.pile_view(),
                    forall|k: int| 0 <= k < energy_ids@.len() ==> active_idx < #[trigger] energy_ids@[k] < n,
                    depth > 0,
                    all_ok(*cards, n, ids0, base0, results@),
                    results@.len() > 0,
                    results@[0] == skip,
                decreases energy_ids@.len() - i,
            {
                let energy_idx = energy_ids[i];
                let mut fireball: Vec<T> = Vec::new();
                fireball.push(with_event(state, Event::FireballTarget(energy_idx, pile_get(pile, energy_idx))));
                if energy_idx + 1 < len {
                    fireball = attack_idx_in_all_states(cards, &fireball, energy_idx + 1, HitType::Fireball, depth - 1, Ghost(n), Ghost(ids0), Ghost(base0));
                }
                if energy_idx > active_idx + 1 {
                    fireball = attack_idx_in_all_states(cards, &fireball, energy_idx - 1, HitType::Fireball, depth - 1, Ghost(n), Ghost(ids0), Ghost(base0));
                }
                extend_states(&mut results, fireball, Ghost(*cards), Ghost(n), Ghost(ids0), Ghost(base0));
                i += 1;
            }
        },
        Action::Teleport => {
            if web {
                return results;
            }
            let mut first = active_idx + 1;
            while first < len
                invariant
                    ready(*cards, *state),
                    len == n,
                    n == state.pile_view().len(),
                    base0 == state.event_view(),
                    ids0 == card_ids(state.pile_view()),
                    pile_cards(*pile) == state.pile_view(),
                    active_idx < first,
                    all_ok(*cards, n, ids0, base0, results@),
                    results@.len() > 0,
                    results@[0] == skip,
                decreases len - first,
            {
                proof {
                    lemma_face_ruled(*cards, state.pile_view(), first as int);
                }
                let first_face = face_at(cards, pile, first);
                let first_allegiance = first_face.allegiance;
                let first_ok = !first_face.features.intersects(Features { bits: FEATURE_WEIGHT }) && (target
                    == Target::Any || is_allegiance_match(Allegiance::Hero, first_allegiance, target));
                if first_ok {
                    let mut second = first + 1;
                    while second < len
                        invariant
                            ready(*cards, *state),
                            len == n,
                            n == state.pile_view().len(),
                            base0 == state.event_view(),
                            ids0 == card_ids(state.pile_view()),
                            pile_cards(*pile) == state.pile_view(),
                            first < len,
                            all_ok(*cards, n, ids0, base0, results@),
                            results@.len() > 0,
                            results@[0] == skip,
                        decreases len - second,
                    {
                        proof {
                            lemma_face_ruled(*cards, state.pile_view(), second as int);
                        }
                        let second_face = face_at(cards, pile, second);
                        let second_allegiance = second_face.allegiance;
                        let second_ok = !second_face.features.intersects(Features { bits: FEATURE_WEIGHT }) && if target
                            == Target::Any {
                            (first_allegiance == Allegiance::Hero) != (second_allegiance == Allegiance::Hero)
                        } else {
                            is_allegiance_match(Allegiance::Hero, second_allegiance, target)
                        };
                        if second_ok {
                            let mut new_state = state.clone_state();
                            swap_cards(cards, &mut new_state, first, second);
                            results.push(
                                new_state.append_event(
                                    Event::Teleport(first, pile_get(pile, first), second, pile_get(pile, second)),
                                ),
                            );
                        }
                        second += 1;
                    }
                }
                first += 1;
            }
        },
        Action::Hit(range) => {
            if venom {
                return results;
            }
            let cap = range_cap(range, active_idx, len);
            let player_candidate = is_allegiance_match(Allegiance::Hero, Allegiance::Hero, target);
            let mut hero_c = false;
            let mut baddie_c = is_allegiance_match(Allegiance::Hero, Allegiance::Baddie, target);
            let mut werewolf_c = is_allegiance_match(Allegiance::Hero, Allegiance::Werewolf, target);
            let mut b = cap;
            while b > active_idx + 1
                invariant
                    ready(*cards, *state),
                    len == n,
                    n == state.pile_view().len(),
                    base0 == state.event_view(),
                    ids0 == card_ids(state.pile_view()),
                    pile_cards(*pile) == state.pile_view(),
                    b <= cap <= len,
                    active_idx < len,
                    depth > 0,
                    all_ok(*cards, n, ids0, base0, results@),
                    results@.len() > 0,
                    results@[0] == skip,
                decreases b,
            {
                b -= 1;
                proof {
                    lemma_face_ruled(*cards, state.pile_view(), b as int);
                }
                let blocker_allegiance = face_at(cards, pile, b).allegiance;
                if candidate(hero_c, baddie_c, werewolf_c, blocker_allegiance) {
                    let blocks = try_prevent_action_with_reaction(cards, state, b, ReactionTrigger::Block, depth - 1);
                    if blocks.len() > 0 {
                        extend_states(&mut results, blocks, Ghost(*cards), Ghost(n), Ghost(ids0), Ghost(base0));
                        match blocker_allegiance {
                            Allegiance::Baddie => {
                                baddie_c = false;
                            },
                            Allegiance::Werewolf => {
                                werewolf_c = false;
                            },
                            _ => {},
                        }
                    }
                }
            }
            hero_c = player_candidate;
            let mut t = active_idx + 1;
            while t < cap
                invariant
                    ready(*cards, *state),
                    len == n,
                    n == state.pile_view().len(),
                    base0 == state.event_view(),
                    ids0 == card_ids(state.pile_view()),
                    pile_cards(*pile) == state.pile_view(),
                    active_idx < t,
                    cap <= len,
                    depth > 0,
                    all_ok(*cards, n, ids0, base0, results@),
                    results@.len() > 0,
                    results@[0] == skip,
                decreases cap - t,
            {
                let card = pile_get(pile, t);
                proof {
                    lemma_face_ruled(*cards, state.pile_view(), t as int);
                }
                if candidate(hero_c, baddie_c, werewolf_c, face_at(cards, pile, t).allegiance) {
                    let aimed = with_event(state, Event::AttackCard(t, card, HitType::Hit));
                    let outs = attack_card_get_all_outcomes(cards, &aimed, t, HitType::Hit, depth - 1);
                    extend_states(&mut results, outs, Ghost(*cards), Ghost(n), Ghost(ids0), Ghost(base0));
                }
                t += 1;
            }
        },
        Action::Arrow | Action::ArrowTwice => {
            if venom {
                return results;
            }
            let twice = match wrapped_action.action {
                Action::ArrowTwice => true,
                _ => false,
            };
            let start = if len >= 3 && len - 3 > active_idx + 1 {
                len - 3
            } else if len >= 3 {
                active_idx + 1
            } else {
                len
            };
            let mut arrow_targets: Vec<usize> = Vec::new();
            let mut t = len;
            while t > start
                invariant
                    ready(*cards, *state),
                    len == n,
                    n == state.pile_view().len(),
                    base0 == state.event_view(),
                    ids0 == card_ids(state.pile_view()),
                    pile_cards(*pile) == state.pile_view(),
                    t <= len,
                    forall|k: int| 0 <= k < arrow_targets@.len() ==> #[trigger] arrow_targets@[k] < len,
                decreases t,
            {
                t -= 1;
                proof {
                    lemma_face_ruled(*cards, state.pile_view(), t as int);
                }
                if is_allegiance_match(Allegiance::Hero, face_at(cards, pile, t).allegiance, target) {
                    arrow_targets.push(t);
                }
            }
            let mut i: usize = 0;
            while i < arrow_targets.len()
                invariant
                    ready(*cards, *state),
                    len == n,
                    n == state.pile_view().len(),
                    base0 == state.event_view(),
                    ids0 == card_ids(state.pile_view()),
                    pile_cards(*pile) == state.pile_view(),
                    forall|k: int| 0 <= k < arrow_targets@.len() ==> #[trigger] arrow_targets@[k] < len,
                    depth > 0,
                    all_ok(*cards, n, ids0, base0, results@),
                    results@.len() > 0,
                    results@[0] == skip,
                decreases arrow_targets@.len() - i,
            {
                let t1 = arrow_targets[i];
                let aimed = with_event(state, Event::AttackCard(t1, pile_get(pile, t1), HitType::Arrow));
                let firsts = attack_card_get_all_outcomes(cards, &aimed, t1, HitType::Arrow, depth - 1);
                if !twice {
                    extend_states(&mut results, firsts, Ghost(*cards), Ghost(n), Ghost(ids0), Ghost(base0));
                } else {
                    let mut f: usize = 0;
                    while f < firsts.len()
                        invariant
                            ready(*cards, *state),
                            len == n,
                            n == state.pile_view().len(),
                            base0 == state.event_view(),
                            ids0 == card_ids(state.pile_view()),
                            pile_cards(*pile) == state.pile_view(),
                            forall|k: int| 0 <= k < arrow_targets@.len() ==> #[trigger] arrow_targets@[k] < len,
                            depth > 0,
                            all_ok(*cards, n, ids0, base0, firsts@),
                            all_ok(*cards, n, ids0, base0, results@),
                            results@.len() > 0,
                            results@[0] == skip,
                        decreases firsts@.len() - f,
                    {
                        assert(state_ok(*cards, n, ids0, base0, firsts@[f as int]));
                        let mut j: usize = 0;
                        while j < arrow_targets.len()
                            invariant
                                ready(*cards, *state),
                                len == n,
                                n == state.pile_view().len(),
                                base0 == state.event_view(),
                                ids0 == card_ids(state.pile_view()),
                                pile_cards(*pile) == state.pile_view(),
                                forall|k: int| 0 <= k < arrow_targets@.len() ==> #[trigger] arrow_targets@[k] < len,
                                depth > 0,
                                f < firsts@.len(),
                                all_ok(*cards, n, ids0, base0, firsts@),
                                all_ok(*cards, n, ids0, base0, results@),
                                results@.len() > 0,
                                results@[0] == skip,
                            decreases arrow_targets@.len() - j,
                        {
                            if i != j {
                                let t2 = arrow_targets[j];
                                assert(state_ok(*cards, n, ids0, base0, firsts@[f as int]));
                                let aimed2 = with_event(
                                    &firsts[f],
                                    Event::AttackCard(t2, pile_get(pile, t2), HitType::Arrow),
                                );
                                let seconds = attack_card_get_all_outcomes(cards, &aimed2, t2, HitType::Arrow, depth - 1);
                                extend_states(&mut results, seconds, Ghost(*cards), Ghost(n), Ghost(ids0), Ghost(base0));
                            }
                            j += 1;
                        }
                        results.push(with_event(&firsts[f], Event::SkipHit(HitType::Arrow)));
                        f += 1;
                    }
                }
                i += 1;
            }
        },
        Action::Quicken(range) => {
            if web {
                return results;
            }
            let mut t = active_idx + 2;
            while t < len
                invariant
                    ready(*cards, *state),
                    len == n,
                    n == state.pile_view().len(),
                    base0 == state.event_view(),
                    ids0 == card_ids(state.pile_view()),
                    pile_cards(*pile) == state.pile_view(),
                    active_idx + 2 <= t,
                    range_ruled(range),
                    depth > 0,
                    all_ok(*cards, n, ids0, base0, results@),
                    results@.len() > 0,
                    results@[0] == skip,
                decreases len - t,
            {
                proof {
                    lemma_face_ruled(*cards, state.pile_view(), t as int);
                }
                if is_allegiance_match(Allegiance::Hero, face_at(cards, pile, t).allegiance, target) {
                    let room = t - active_idx - 1;
                    let amount = match range {
                        Range::Int(m) => if m < room {
                            m
                        } else {
                            room
                        },
                        _ => room,
                    };
                    let outs = move_card_by_up_to_amount(cards, state, t, amount, MoveType::Quicken, depth - 1);
                    extend_states(&mut results, outs, Ghost(*cards), Ghost(n), Ghost(ids0), Ghost(base0));
                }
                t += 1;
            }
        },
        Action::Delay(range) => {
            if web {
                return results;
            }
            let mut t = active_idx + 1;
            while t + 1 < len
                invariant
                    ready(*cards, *state),
                    t <= len,
                    len == n,
                    n == state.pile_view().len(),
                    base0 == state.event_view(),
                    ids0 == card_ids(state.pile_view()),
                    pile_cards(*pile) == state.pile_view(),
                    active_idx < t,
                    range_ruled(range),
                    depth > 0,
                    all_ok(*cards, n, ids0, base0, results@),
                    results@.len() > 0,
                    results@[0] == skip,
                decreases len - t,
            {
                proof {
                    lemma_face_ruled(*cards, state.pile_view(), t as int);
                }
                if is_allegiance_match(Allegiance::Hero, face_at(cards, pile, t).allegiance, target) {
                    let room = len - t - 1;
                    let amount = match range {
                        Range::Int(m) => if m < room {
                            m
                        } else {
                            room
                        },
                        _ => room,
                    };
                    let outs = move_card_by_up_to_amount(cards, state, t, amount, MoveType::Delay, depth - 1);
                    extend_states(&mut results, outs, Ghost(*cards), Ghost(n), Ghost(ids0), Ghost(base0));
                }
                t += 1;
            }
        },
        Action::Maneuver => {
            if venom {
                return results;
            }
            let mut t = active_idx + 1;
            while t < len
                invariant
                    ready(*cards, *state),
                    len == n,
                    n == state.pile_view().len(),
                    base0 == state.event_view(),
                    ids0 == card_ids(state.pile_view()),
                    pile_cards(*pile) == state.pile_view(),
                    active_idx < t,
                    all_ok(*cards, n, ids0, base0, results@),
                    results@.len() > 0,
                    results@[0] == skip,
                decreases len - t,
            {
                let card = pile_get(pile, t);
                proof {
                    lemma_face_ruled(*cards, state.pile_view(), t as int);
                }
                let face = face_at(cards, pile, t);
                if is_allegiance_match(Allegiance::Hero, face.allegiance, target) {
                    let rotated = rotate_key(card.key);
                    let rotated_health = card.get_card_def(cards).faces.get(rotated).health;
                    if crate::primitives::health_value(rotated_health) <= crate::primitives::health_value(face.health) {
                        let mut new_state = state.clone_state();
                        set_card_key(cards, &mut new_state, t, rotated);
                        results.push(new_state.append_event(Event::Maneuver(t, card)));
                    }
                }
                t += 1;
            }
        },
        _ => {},
    }
    results
}

/// The outcomes of one turn: the top card acts, in every way it can, and
/// then goes to the bottom of the pile. There is always at least one
/// outcome. A turn neither adds nor removes a card: each outcome holds the
/// same cards, reordered and turned. Each outcome's log goes on from the
/// state's log, and logs moving the top card to the bottom last. A hero on
/// top may always skip its turn: the last outcome is then the pile with
/// just the top card moved to the bottom.
pub fn resolve_top_card<T: EngineGameState>(cards: &CardDefs, state: &T) -> (r: Vec<T>)
    requires
        cards.wf(),
        pile_ruled(*cards, state.pile_view()),
        state.pile_view().len() >= 1,
    ensures
        r@.len() > 0,
        all_ok(*cards, state.pile_view().len(), card_ids(state.pile_view()), state.event_view(), r@),
        forall|k: int|
            0 <= k < r@.len() ==> card_ids((#[trigger] r@[k]).pile_view()) == card_ids(state.pile_view())
                && extends_log(state.event_view(), r@[k]),
        forall|k: int|
            0 <= k < r@.len() ==> T::logs_events() ==> (#[trigger] r@[k]).event_view().len() > 0
                && r@[k].event_view().last() == Event::BottomCard,
        cards.face(state.pile_view()[0]).allegiance == Allegiance::Hero ==> {
            &&& r@.last().pile_view() == crate::game_state::bottomed(state.pile_view())
            &&& r@.last().event_view() == if T::logs_events() {
                state.event_view().push(Event::SkipTurn(state.pile_view()[0])).push(Event::BottomCard)
            } else {
                state.event_view()
            }
        },
{
    let ghost n = state.pile_view().len();
    let ghost base0 = state.event_view();
    let ghost ids0 = card_ids(state.pile_view());
    let outcomes = resolve_card_at_index(cards, state, 0, TURN_DEPTH);
    let mut results: Vec<T> = Vec::new();
    let mut k: usize = 0;
    while k < outcomes.len()
        invariant
            cards.wf(),
            n >= 1,
            outcomes@.len() > 0,
            all_ok(*cards, n, ids0, base0, outcomes@),
            all_ok(*cards, n, ids0, base0, results@),
            results@.len() == k,
            k <= outcomes@.len(),
            forall|j: int|
                0 <= j < results@.len() ==> T::logs_events() ==> (#[trigger] results@[j]).event_view().len() > 0
                    && results@[j].event_view().last() == Event::BottomCard,
            forall|j: int|
                0 <= j < results@.len() ==> (#[trigger] results@[j]).pile_view() == crate::game_state::bottomed(
                    outcomes@[j].pile_view(),
                ) && results@[j].event_view() == if T::logs_events() {
                    outcomes@[j].event_view().push(Event::BottomCard)
                } else {
                    outcomes@[j].event_view()
                },
        decreases outcomes@.len() - k,
    {
        assert(state_ok(*cards, n, ids0, base0, outcomes@[k as int]));
        let mut s = outcomes[k].clone_state();
        let ghost before = s.pile_view();
        bottom_top_card(&mut s);
        proof {
            lemma_bottomed_ids(before);
            let after = s.pile_view();
            assert forall|i: int| 0 <= i < after.len() implies cards.has_card(#[trigger] after[i].card_id as int) && card_ruled(*cards, after[i].card_id as int) by {
                if i < n - 1 {
                    assert(after[i] == before[i + 1]);
                } else {
                    assert(after[i] == before[0]);
                }
            }
        }
        results.push(s);
        k += 1;
    }
    proof {
        if cards.face(state.pile_view()[0]).allegiance == Allegiance::Hero {
            assert(results@.last() == results@[results@.len() - 1]);
            assert(outcomes@.last() == outcomes@[outcomes@.len() - 1]);
        }
    }
    results
}


/// Whether the rules here cover the range.
fn range_is_ruled(r: Range) -> (b: bool)
    ensures
        b == range_ruled(r),
{
    match r {
        Range::Int(n) => n >= 1,
        Range::Inf => true,
        _ => false,
    }
}

/// Whether the rules give a hero this action.
fn player_action_is_ruled(a: Action) -> (b: bool)
    ensures
        b == player_action_ruled(a),
{
    match a {
        Action::Arrow | Action::ArrowTwice | Action::Fireball | Action::Ablaze | Action::Teleport
        | Action::CallAssist | Action::CallAssistTwice | Action::Inspire | Action::Heal | Action::Maneuver
        | Action::Revive => true,
        Action::Quicken(r) | Action::Delay(r) | Action::Hit(r) | Action::Claws(r) => range_is_ruled(r),
        _ => false,
    }
}

/// Whether the rules give a baddie this action.
fn enemy_action_is_ruled(a: Action) -> (b: bool)
    ensures
        b == enemy_action_ruled(a),
{
    match a {
        Action::Hit(r) | Action::Claws(r) | Action::Pull(r) | Action::Push(r) => range_is_ruled(r),
        Action::SpacedClaws(_) | Action::Void | Action::Death | Action::Heal | Action::Revive
        | Action::Inspire => true,
        _ => false,
    }
}

/// Whether the rules read the row, as a hero's row or as a baddie's.
fn row_is_ruled(r: &Row, hero: bool) -> (b: bool)
    ensures
        b == if hero {
            player_row_ruled(*r)
        } else {
            enemy_row_ruled(*r)
        },
{
    let condition_ok = match r.condition {
        None => true,
        Some(Condition::Cost(ConditionCostType::Energy, n)) => hero && n <= 4,
        Some(Condition::Rage(_)) => !hero,
        Some(Condition::ExhaustedAllies(_)) => !hero,
        _ => false,
    };
    if !condition_ok {
        return false;
    }
    let mut i: usize = 0;
    while i < r.actions.len()
        invariant
            i <= r.actions@.len(),
            forall|k: int|
                0 <= k < i ==> if hero {
                    player_action_ruled(#[trigger] r.actions@[k].action)
                } else {
                    enemy_action_ruled(r.actions@[k].action)
                },
        decreases r.actions@.len() - i,
    {
        let ok = if hero {
            player_action_is_ruled(r.actions[i].action)
        } else {
            enemy_action_is_ruled(r.actions[i].action)
        };
        if !ok {
            return false;
        }
        i += 1;
    }
    true
}

/// Whether the rules read through the face.
fn face_is_ruled(f: &FaceDef) -> (b: bool)
    ensures
        b == face_ruled(*f),
{
    if f.allegiance == Allegiance::Rat {
        return false;
    }
    let reaction_ok = match f.reaction {
        None => true,
        Some(Reaction::Standard(c, _)) => c.is_none(),
        Some(Reaction::Assist(_)) => true,
        Some(Reaction::WhenHit(_)) => true,
        Some(Reaction::Roll(_)) => false,
    };
    if !reaction_ok {
        return false;
    }
    let hero = f.allegiance == Allegiance::Hero;
    let mut i: usize = 0;
    while i < f.rows.len()
        invariant
            hero == (f.allegiance == Allegiance::Hero),
            i <= f.rows@.len(),
            forall|k: int|
                0 <= k < i ==> if f.allegiance == Allegiance::Hero {
                    player_row_ruled(#[trigger] f.rows@[k])
                } else {
                    enemy_row_ruled(f.rows@[k])
                },
        decreases f.rows@.len() - i,
    {
        if !row_is_ruled(&f.rows[i], hero) {
            return false;
        }
        i += 1;
    }
    let mut i: usize = 0;
    while i < f.assists.len()
        invariant
            i <= f.assists@.len(),
            forall|k: int| 0 <= k < i ==> player_row_ruled(#[trigger] f.assists@[k]),
        decreases f.assists@.len() - i,
    {
        if !row_is_ruled(&f.assists[i], true) {
            return false;
        }
        i += 1;
    }
    match &f.swarm {
        Some(r) => row_is_ruled(r, false),
        None => true,
    }
}

/// Whether a pile of the table's cards is one the rules here read through:
/// at most `MAX_PILE_LEN` cards, each of the table, with faces whose rows,
/// actions and reactions the rules cover.
pub fn is_pile_ruled(cards: &CardDefs, pile: &Pile) -> (r: bool)
    requires
        cards.wf(),
    ensures
        r == pile_ruled(*cards, pile_cards(*pile)),
{
    let ghost p = pile_cards(*pile);
    let len = pile_len(pile);
    let mut i: usize = 0;
    while i < len
        invariant
            cards.wf(),
            p == pile_cards(*pile),
            len == p.len(),
            i <= len,
            forall|k: int| 0 <= k < i ==> cards.has_card(#[trigger] p[k].card_id as int) && card_ruled(*cards, p[k].card_id as int),
        decreases len - i,
    {
        let id = pile_get(pile, i).card_id;
        if (id as usize) >= cards.cards.len() || cards.get_card_if_exists(id as usize).is_none() {
            proof {
                assert(!cards.has_card(p[i as int].card_id as int));
            }
            return false;
        }
        let def = cards.get_card(id as usize);
        let ok = face_is_ruled(&def.faces.a) && face_is_ruled(&def.faces.b) && face_is_ruled(&def.faces.c)
            && face_is_ruled(&def.faces.d);
        if !ok {
            proof {
                assert(!card_ruled(*cards, p[i as int].card_id as int));
            }
            return false;
        }
        i += 1;
    }
    true
}

} // verus!
