//! The piper's modifier cards: how they change the range of an action and
//! which combinations of them a card can use.
use vstd::prelude::*;
use crate::card_defs::CardDefs;
use crate::card_ptr::CardPtr;
use crate::pile::{pile_cards, pile_get, pile_len, Pile};
use crate::pile_utils::pile_valid;
use crate::primitives::{Action, ModifierAmount, Range};

verus! {

/// Some card of the pile has a modifier on the face that is up.
pub fn any_card_has_modifiers(cards: &CardDefs, pile: &Pile) -> (r: bool)
    requires
        pile_valid(*cards, pile_cards(*pile)),
    ensures
        r == exists|i: int|
            0 <= i < pile_cards(*pile).len() && (#[trigger] cards.face(pile_cards(*pile)[i])).modifier.is_some(),
{
    let ghost p = pile_cards(*pile);
    let n = pile_len(pile);
    let mut i: usize = 0;
    while i < n
        invariant
            p == pile_cards(*pile),
            pile_valid(*cards, p),
            n == p.len(),
            i <= n,
            forall|j: int| 0 <= j < i ==> (#[trigger] cards.face(p[j])).modifier.is_none(),
        decreases n - i,
    {
        let card_ptr = pile_get(pile, i);
        assert(cards.has_card(p[i as int].card_id as int));
        if card_ptr.get_active_face(cards).modifier.is_some() {
            return true;
        }
        i += 1;
    }
    false
}

/// The size after the modifier: the size, read as an `i8`, plus the
/// modifier, and never below zero.
pub open spec fn spec_size_with_modifier(amount: usize, modifier: ModifierAmount) -> int {
    let sum = (amount as i8) as int + modifier as int;
    if sum < 0 {
        0
    } else {
        sum
    }
}

/// The size after the modifier; the sum must fit in an `i8`.
pub fn size_with_modifier(amount: usize, modifier: ModifierAmount) -> (r: usize)
    requires
        -128 <= (amount as i8) as int + modifier as int <= 127,
    ensures
        r == spec_size_with_modifier(amount, modifier),
{
    let base = #[verifier::truncate] (amount as i8);
    let sum: i8 = base + modifier;
    if sum < 0 {
        0
    } else {
        sum as usize
    }
}

/// The modifier applies to a range of a whole number of cards only.
pub open spec fn range_modifier_fits(range: Range, modifier: ModifierAmount) -> bool {
    match range {
        Range::Int(amount) => -128 <= (amount as i8) as int + modifier as int <= 127,
        _ => true,
    }
}

/// A range after a modifier: a whole number of cards changes, the other
/// ranges stay.
pub open spec fn spec_range_with_modifier(range: Range, modifier: ModifierAmount) -> Range {
    match range {
        Range::Int(amount) => Range::Int(spec_size_with_modifier(amount, modifier) as usize),
        _ => range,
    }
}

/// The range after the modifier: only a range of a number of cards changes.
pub fn range_with_modifier(range: Range, modifier: ModifierAmount) -> (r: Range)
    requires
        range_modifier_fits(range, modifier),
    ensures
        r == spec_range_with_modifier(range, modifier),
{
    match range {
        Range::Inf => range,
        Range::Int(amount) => Range::Int(size_with_modifier(amount, modifier)),
        Range::Stance(stance_type) => Range::Stance(stance_type),
    }
}

#[derive(Copy, Clone, Debug, PartialEq, Eq, Hash, Structural)]
pub enum ModifierRangeType {
    Discrete,
    Infinity,
    NoRange,
}

/// The range of an action that modifiers can change, if it has one.
pub open spec fn action_range(action: Action) -> Option<Range> {
    match action {
        Action::Pull(range) | Action::Push(range) | Action::Claws(range) | Action::Hit(range)
        | Action::Quicken(range) | Action::Delay(range) => Some(range),
        _ => None,
    }
}

/// Whether modifiers change a number of cards, an unlimited range, or
/// nothing at all.
pub fn modifier_range_type_for_action(action: &Action) -> (r: ModifierRangeType)
    ensures
        r == match action_range(*action) {
            Some(Range::Inf) => ModifierRangeType::Infinity,
            Some(_) => ModifierRangeType::Discrete,
            None => ModifierRangeType::NoRange,
        },
{
    match action {
        Action::Pull(range)
        | Action::Push(range)
        | Action::Claws(range)
        | Action::Hit(range)
        | Action::Quicken(range)
        | Action::Delay(range) => match range {
            Range::Inf => ModifierRangeType::Infinity,
            Range::Int(_) => ModifierRangeType::Discrete,
            Range::Stance(_) => ModifierRangeType::Discrete,
        },
        Action::Death
        | Action::Void
        | Action::CallAssist
        | Action::CallAssistTwice
        | Action::Inspire
        | Action::Hypnosis
        | Action::Ablaze
        | Action::Fireball
        | Action::FireballTwice
        | Action::Teleport
        | Action::Arrow
        | Action::ArrowTwice
        | Action::Heal
        | Action::Revive
        | Action::Rats
        | Action::Maneuver
        | Action::Backstab
        | Action::BackstabTwice
        | Action::Poison
        | Action::SpacedClaws(_) => ModifierRangeType::NoRange,
    }
}

/// The action with its range changed by the modifier.
pub open spec fn spec_action_with_modified_range(action: Action, modifier: ModifierAmount) -> Action {
    match action {
        Action::Pull(range) => Action::Pull(spec_range_with_modifier(range, modifier)),
        Action::Push(range) => Action::Push(spec_range_with_modifier(range, modifier)),
        Action::Hit(range) => Action::Hit(spec_range_with_modifier(range, modifier)),
        Action::Claws(range) => Action::Claws(spec_range_with_modifier(range, modifier)),
        Action::Quicken(range) => Action::Quicken(spec_range_with_modifier(range, modifier)),
        Action::Delay(range) => Action::Delay(spec_range_with_modifier(range, modifier)),
        _ => action,
    }
}

/// The action with its range changed by the modifier, for the actions whose
/// range a modifier can change.
pub fn action_with_modified_range(action: &Action, modifier: ModifierAmount) -> (r: Action)
    requires
        action_range(*action) matches Some(range) ==> range_modifier_fits(range, modifier),
    ensures
        r == spec_action_with_modified_range(*action, modifier),
{
    match action {
        Action::Pull(range) => Action::Pull(range_with_modifier(*range, modifier)),
        Action::Push(range) => Action::Push(range_with_modifier(*range, modifier)),
        Action::Hit(range) => Action::Hit(range_with_modifier(*range, modifier)),
        Action::Claws(range) => Action::Claws(range_with_modifier(*range, modifier)),
        Action::Quicken(range) => Action::Quicken(range_with_modifier(*range, modifier)),
        Action::Delay(range) => Action::Delay(range_with_modifier(*range, modifier)),
        Action::Death
        | Action::Void
        | Action::CallAssist
        | Action::CallAssistTwice
        | Action::Inspire
        | Action::Hypnosis
        | Action::Ablaze
        | Action::Fireball
        | Action::FireballTwice
        | Action::Teleport
        | Action::Arrow
        | Action::ArrowTwice
        | Action::Heal
        | Action::Revive
        | Action::Rats
        | Action::Maneuver
        | Action::Backstab
        | Action::BackstabTwice
        | Action::Poison
        | Action::SpacedClaws(_) => *action,
    }
}

/// The card at `t` offers its modifier: it has one, and for an unlimited
/// range only a modifier that forces a self action counts.
pub open spec fn offers_modifier(cards: CardDefs, p: Seq<CardPtr>, mrt: ModifierRangeType, t: int) -> bool {
    &&& cards.face(p[t]).modifier.is_some()
    &&& !(mrt == ModifierRangeType::Infinity && cards.face(p[t]).modifier.unwrap().mandatory.is_none())
}

/// The combinations of modifier cards among the positions after
/// `active_idx` and before `end`, with their total amounts: each new
/// modifier card first on its own, then added to every earlier combination.
pub open spec fn spec_modifier_options(
    cards: CardDefs,
    p: Seq<CardPtr>,
    active_idx: int,
    mrt: ModifierRangeType,
    end: int,
) -> Seq<(Seq<usize>, int)>
    decreases end - active_idx,
{
    if mrt == ModifierRangeType::NoRange || end <= active_idx + 1 {
        Seq::empty()
    } else {
        let prev = spec_modifier_options(cards, p, active_idx, mrt, end - 1);
        let t = end - 1;
        if offers_modifier(cards, p, mrt, t) {
            let amount = cards.face(p[t]).modifier.unwrap().amount as int;
            prev.push((seq![t as usize], amount)) + prev.map_values(
                |e: (Seq<usize>, int)| (e.0.push(t as usize), e.1 + amount),
            )
        } else {
            prev
        }
    }
}

/// The view of the options that `get_modifier_options` returns.
pub open spec fn options_view(v: Seq<(Vec<usize>, ModifierAmount)>) -> Seq<(Seq<usize>, int)> {
    v.map_values(|e: (Vec<usize>, ModifierAmount)| (e.0@, e.1 as int))
}

/// Every combination of modifier cards behind the active card, with the
/// total modifier of each; the totals must fit in an `i8`.
pub fn get_modifier_options(
    cards: &CardDefs,
    pile: &Pile,
    active_idx: usize,
    modifier_range_type: ModifierRangeType,
) -> (r: Vec<(Vec<usize>, ModifierAmount)>)
    requires
        pile_valid(*cards, pile_cards(*pile)),
        active_idx < usize::MAX,
        forall|k: int|
            0 <= k < spec_modifier_options(
                *cards,
                pile_cards(*pile),
                active_idx as int,
                modifier_range_type,
                pile_cards(*pile).len() as int,
            ).len() ==> -128 <= #[trigger] spec_modifier_options(
                *cards,
                pile_cards(*pile),
                active_idx as int,
                modifier_range_type,
                pile_cards(*pile).len() as int,
            )[k].1 <= 127,
    ensures
        options_view(r@) == spec_modifier_options(
            *cards,
            pile_cards(*pile),
            active_idx as int,
            modifier_range_type,
            pile_cards(*pile).len() as int,
        ),
{
    let ghost p = pile_cards(*pile);
    let ghost full = spec_modifier_options(*cards, p, active_idx as int, modifier_range_type, p.len() as int);
    let mut results: Vec<(Vec<usize>, ModifierAmount)> = Vec::new();
    if modifier_range_type == ModifierRangeType::NoRange {
        assert(options_view(results@) =~= full);
        return results;
    }
    let n = pile_len(pile);
    if active_idx + 1 >= n {
        assert(options_view(results@) =~= full);
        return results;
    }
    proof {
        lemma_options_prefix(*cards, p, active_idx as int, modifier_range_type, active_idx + 1, p.len() as int);
    }
    let mut target_idx = active_idx + 1;
    while target_idx < n
        invariant
            p == pile_cards(*pile),
            pile_valid(*cards, p),
            n == p.len(),
            active_idx + 1 <= target_idx <= n,
            modifier_range_type != ModifierRangeType::NoRange,
            full == spec_modifier_options(*cards, p, active_idx as int, modifier_range_type, p.len() as int),
            forall|k: int| 0 <= k < full.len() ==> -128 <= #[trigger] full[k].1 <= 127,
            options_view(results@) == spec_modifier_options(
                *cards,
                p,
                active_idx as int,
                modifier_range_type,
                target_idx as int,
            ),
            spec_modifier_options(*cards, p, active_idx as int, modifier_range_type, target_idx as int).len() == 0
                || full.len() > 0,
            forall|k: int|
                0 <= k < spec_modifier_options(
                    *cards,
                    p,
                    active_idx as int,
                    modifier_range_type,
                    target_idx as int,
                ).len() ==> -128 <= #[trigger] spec_modifier_options(
                    *cards,
                    p,
                    active_idx as int,
                    modifier_range_type,
                    target_idx as int,
                )[k].1 <= 127,
        decreases n - target_idx,
    {
        let ghost prev = spec_modifier_options(*cards, p, active_idx as int, modifier_range_type, target_idx as int);
        let ghost next = spec_modifier_options(*cards, p, active_idx as int, modifier_range_type, target_idx + 1);
        proof {
            lemma_options_prefix(*cards, p, active_idx as int, modifier_range_type, target_idx + 1, p.len() as int);
        }
        let active_card_ptr = pile_get(pile, target_idx);
        assert(cards.has_card(p[target_idx as int].card_id as int));
        if let Some(modifier) = active_card_ptr.get_active_face(cards).modifier {
            if modifier_range_type == ModifierRangeType::Infinity && modifier.mandatory.is_none() {
                assert(next == prev);
            } else {
                assert(offers_modifier(*cards, p, modifier_range_type, target_idx as int));
                let ghost amount = modifier.amount as int;
                assert(next == prev.push((seq![target_idx], amount)) + prev.map_values(
                    |e: (Seq<usize>, int)| (e.0.push(target_idx), e.1 + amount),
                ));
                let pre_results_len = results.len();
                let mut single: Vec<usize> = Vec::new();
                single.push(target_idx);
                assert(next[prev.len() as int].1 == amount);
                results.push((single, modifier.amount));
                assert(options_view(results@) =~= prev.push((seq![target_idx], amount)));
                let mut result_idx: usize = 0;
                while result_idx < pre_results_len
                    invariant
                        pre_results_len == prev.len(),
                        result_idx <= pre_results_len,
                        results@.len() == pre_results_len + 1 + result_idx,
                        forall|k: int| 0 <= k < next.len() ==> -128 <= #[trigger] next[k].1 <= 127,
                        next == prev.push((seq![target_idx], amount)) + prev.map_values(
                            |e: (Seq<usize>, int)| (e.0.push(target_idx), e.1 + amount),
                        ),
                        amount == modifier.amount,
                        options_view(results@) == next.subrange(0, pre_results_len + 1 + result_idx),
                    decreases pre_results_len - result_idx,
                {
                    let mut entry_cards = results[result_idx].0.clone();
                    let entry_amount = results[result_idx].1;
                    assert(options_view(results@)[result_idx as int] == next[result_idx as int]);
                    assert(next[pre_results_len + 1 + result_idx] == (
                    prev[result_idx as int].0.push(target_idx), prev[result_idx as int].1 + amount));
                    assert(-128 <= next[pre_results_len + 1 + result_idx].1 <= 127);
                    entry_cards.push(target_idx);
                    let new_amount: ModifierAmount = entry_amount + modifier.amount;
                    results.push((entry_cards, new_amount));
                    assert(options_view(results@) =~= next.subrange(0, pre_results_len + 1 + result_idx + 1));
                    result_idx += 1;
                }
                assert(next.subrange(0, next.len() as int) =~= next);
            }
        } else {
            assert(next == prev);
        }
        target_idx += 1;
    }
    results
}

/// The options up to `end` are the first ones of the options up to a later
/// `end2`.
proof fn lemma_options_prefix(
    cards: CardDefs,
    p: Seq<CardPtr>,
    active_idx: int,
    mrt: ModifierRangeType,
    end: int,
    end2: int,
)
    requires
        end <= end2,
    ensures
        spec_modifier_options(cards, p, active_idx, mrt, end).len() <= spec_modifier_options(
            cards,
            p,
            active_idx,
            mrt,
            end2,
        ).len(),
        forall|k: int|
            0 <= k < spec_modifier_options(cards, p, active_idx, mrt, end).len() ==> #[trigger] spec_modifier_options(
                cards,
                p,
                active_idx,
                mrt,
                end,
            )[k] == spec_modifier_options(cards, p, active_idx, mrt, end2)[k],
    decreases end2 - end,
{
    if end < end2 {
        lemma_options_prefix(cards, p, active_idx, mrt, end, end2 - 1);
        let a = spec_modifier_options(cards, p, active_idx, mrt, end2 - 1);
        let b = spec_modifier_options(cards, p, active_idx, mrt, end2);
        assert(a.len() <= b.len());
        assert forall|k: int| 0 <= k < a.len() implies (#[trigger] a[k]) == b[k] by {}
    }
}

} // verus!
