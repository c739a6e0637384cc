//! Following a player's choices through the outcomes of a turn: each
//! outcome is a state whose log pairs every event with the pile it happened
//! on, and the choices made so far are a prefix of such a log.
use vstd::prelude::*;
use crate::card_defs::CardDefs;
use crate::card_ptr::CardPtr;
use crate::engine::{card_ids, pile_ruled, resolve_top_card, state_ok};
use crate::game_state::{pile_eq, EngineGameState, GameStateWithPileTrackedEventLog};
use crate::pile::{pile_cards, pile_clone, Pile};
use crate::primitives::{Action, Allegiance, Event};

verus! {

/// What comes after a prefix of a log: the next event with the pile it
/// happened on, or, where the log ends there, the final pile.
pub enum PrefixResult {
    Event(Event, Pile),
    Pile(Pile),
}

/// A prefix result as plain values: the next event, if any, and the pile.
pub open spec fn prefix_result_view(r: PrefixResult) -> (Option<Event>, Seq<CardPtr>) {
    match r {
        PrefixResult::Event(e, p) => (Some(e), pile_cards(p)),
        PrefixResult::Pile(p) => (None, pile_cards(p)),
    }
}

/// The log starts with the prefix.
pub open spec fn prefix_fits(prefix: Seq<Event>, events: Seq<Event>) -> bool {
    prefix.len() <= events.len() && events.subrange(0, prefix.len() as int) == prefix
}

/// Whether the state's log starts with the prefix.
pub fn does_event_prefix_fit_sequence_for_state(prefix: &Vec<Event>, state: &GameStateWithPileTrackedEventLog) -> (r:
    bool)
    ensures
        r == prefix_fits(prefix@, state.event_view()),
{
    let events = &state.events;
    if events.len() < prefix.len() {
        return false;
    }
    let mut i: usize = 0;
    while i < prefix.len()
        invariant
            events@ == state.events@,
            prefix@.len() <= events@.len(),
            i <= prefix@.len(),
            forall|k: int| 0 <= k < i ==> prefix@[k] == events@[k].1,
        decreases prefix@.len() - i,
    {
        if prefix[i] != events[i].1 {
            proof {
                assert(state.event_view()[i as int] == events@[i as int].1);
                assert(state.event_view().subrange(0, prefix@.len() as int)[i as int] != prefix@[i as int]);
            }
            return false;
        }
        i += 1;
    }
    assert(state.event_view().subrange(0, prefix@.len() as int) =~= prefix@);
    true
}

/// Events that only announce an action, which a player does not choose on
/// their own: the start of any action but a claw attack.
pub open spec fn spec_skips_in_prefix_match(event: Event) -> bool {
    match event {
        Event::StartAction(_, wrapped_action) => match wrapped_action.action {
            Action::Claws(_) => false,
            Action::SpacedClaws(_) => false,
            _ => true,
        },
        _ => false,
    }
}

/// Whether matching a prefix steps over this event.
pub fn should_skip_event_in_prefix_match(event: &Event) -> (r: bool)
    ensures
        r == spec_skips_in_prefix_match(*event),
{
    match event {
        Event::StartAction(_, wrapped_action) => match wrapped_action.action {
            Action::Claws(_) => false,
            Action::SpacedClaws(_) => false,
            _ => true,
        },
        _ => false,
    }
}

/// Where the events taken after position `i` stop: just after the first
/// event that is not stepped over, or at the end of the log.
pub open spec fn run_stop(events: Seq<Event>, i: int) -> int
    decreases events.len() - i,
{
    if i >= events.len() {
        events.len() as int
    } else if !spec_skips_in_prefix_match(events[i]) {
        i + 1
    } else {
        run_stop(events, i + 1)
    }
}

proof fn lemma_run_stop_bounds(events: Seq<Event>, i: int)
    requires
        0 <= i,
    ensures
        i <= events.len() ==> i <= run_stop(events, i) <= events.len(),
        i < events.len() ==> i < run_stop(events, i),
    decreases events.len() - i,
{
    if i < events.len() && spec_skips_in_prefix_match(events[i]) {
        lemma_run_stop_bounds(events, i + 1);
    }
}

/// The events after the prefix up to the next one the player chooses, with
/// the pile that the last of them happened on (the pile of the last prefix
/// event when the log ends with the prefix); `None` when the log does not
/// start with the prefix. A log that starts with an empty prefix must hold
/// an event.
pub fn get_next_available_events_past_prefix_allowing_skips(
    prefix: &Vec<Event>,
    state: &GameStateWithPileTrackedEventLog,
) -> (r: Option<(Pile, Vec<Event>)>)
    requires
        prefix_fits(prefix@, state.event_view()) ==> prefix@.len() > 0 || state.events@.len() > 0,
    ensures
        r is None <==> !prefix_fits(prefix@, state.event_view()),
        r matches Some((pile, following)) ==> {
            let stop = run_stop(state.event_view(), prefix@.len() as int);
            &&& following@ == state.event_view().subrange(prefix@.len() as int, stop)
            &&& pile_cards(pile) == state.pile_history()[stop - 1]
        },
{
    if !does_event_prefix_fit_sequence_for_state(prefix, state) {
        return None;
    }
    let ghost events = state.event_view();
    let state_events = &state.events;
    let mut following_events: Vec<Event> = Vec::new();
    let mut next_event_index = prefix.len();
    proof {
        lemma_run_stop_bounds(events, prefix@.len() as int);
    }
    while next_event_index < state_events.len()
        invariant_except_break
            prefix@.len() <= next_event_index <= events.len(),
            events.len() == state_events@.len(),
            events == state.event_view(),
            state_events@ == state.events@,
            run_stop(events, prefix@.len() as int) == run_stop(events, next_event_index as int),
            following_events@ == events.subrange(prefix@.len() as int, next_event_index as int),
        ensures
            next_event_index == run_stop(events, prefix@.len() as int),
            following_events@ == events.subrange(prefix@.len() as int, next_event_index as int),
        decreases state_events@.len() - next_event_index,
    {
        let next_event = state_events[next_event_index].1;
        assert(next_event == events[next_event_index as int]);
        following_events.push(next_event);
        next_event_index += 1;
        assert(following_events@ =~= events.subrange(prefix@.len() as int, next_event_index as int));
        if !should_skip_event_in_prefix_match(&next_event) {
            break;
        }
    }
    proof {
        lemma_run_stop_bounds(events, next_event_index as int);
    }
    let final_pile = pile_clone(&state_events[next_event_index - 1].0);
    Some((final_pile, following_events))
}

/// The pile of a prefix result.
pub fn prefix_result_to_pile(prefix_result: &PrefixResult) -> (r: Pile)
    ensures
        pile_cards(r) == prefix_result_view(*prefix_result).1,
{
    match prefix_result {
        PrefixResult::Event(_, pile) => pile_clone(pile),
        PrefixResult::Pile(pile) => pile_clone(pile),
    }
}

/// What follows the prefix in one state's log, if the log starts with it.
pub open spec fn next_after_prefix(s: GameStateWithPileTrackedEventLog, prefix: Seq<Event>) -> Option<(Option<Event>, Seq<CardPtr>)> {
    if !prefix_fits(prefix, s.event_view()) {
        None
    } else if s.event_view().len() == prefix.len() {
        Some((None, pile_cards(s.pile)))
    } else {
        Some((Some(s.event_view()[prefix.len() as int]), s.pile_history()[prefix.len() as int]))
    }
}

/// What follows the prefix in the first `n` states, in order: each final
/// pile, and each next event with its pile the first time it is seen.
pub open spec fn next_results_upto(states: Seq<GameStateWithPileTrackedEventLog>, prefix: Seq<Event>, n: nat) -> Seq<
    (Option<Event>, Seq<CardPtr>),
>
    decreases n,
{
    if n == 0 {
        Seq::empty()
    } else {
        let prev = next_results_upto(states, prefix, (n - 1) as nat);
        match next_after_prefix(states[n - 1], prefix) {
            None => prev,
            Some(x) => if x.0 is Some && prev.contains(x) {
                prev
            } else {
                prev.push(x)
            },
        }
    }
}

/// Whether the list already holds this next event with this pile.
fn contains_result(results: &Vec<PrefixResult>, event: Event, pile: &Pile) -> (r: bool)
    ensures
        r == results@.map_values(|x: PrefixResult| prefix_result_view(x)).contains((Some(event), pile_cards(*pile))),
{
    let ghost view = results@.map_values(|x: PrefixResult| prefix_result_view(x));
    let mut k: usize = 0;
    while k < results.len()
        invariant
            k <= results@.len(),
            view == results@.map_values(|x: PrefixResult| prefix_result_view(x)),
            forall|j: int| 0 <= j < k ==> view[j] != (Some(event), pile_cards(*pile)),
        decreases results@.len() - k,
    {
        match &results[k] {
            PrefixResult::Event(e, p) => {
                if *e == event && pile_eq(p, pile) {
                    assert(view[k as int] == (Some(event), pile_cards(*pile)));
                    return true;
                }
            },
            PrefixResult::Pile(_) => {},
        }
        assert(view[k as int] == prefix_result_view(results@[k as int]));
        k += 1;
    }
    false
}

/// What follows the prefix in each state whose log starts with it: the
/// state's final pile where the log ends there, else the next event with
/// the pile it happened on, each such event listed once.
pub fn find_next_events_matching_prefix(states: &Vec<GameStateWithPileTrackedEventLog>, prefix: &Vec<Event>) -> (r:
    Vec<PrefixResult>)
    ensures
        r@.map_values(|x: PrefixResult| prefix_result_view(x)) == next_results_upto(
            states@,
            prefix@,
            states@.len(),
        ),
{
    let mut results: Vec<PrefixResult> = Vec::new();
    let mut i: usize = 0;
    while i < states.len()
        invariant
            i <= states@.len(),
            results@.map_values(|x: PrefixResult| prefix_result_view(x)) == next_results_upto(
                states@,
                prefix@,
                i as nat,
            ),
        decreases states@.len() - i,
    {
        let state = &states[i];
        let ghost before = results@.map_values(|x: PrefixResult| prefix_result_view(x));
        if does_event_prefix_fit_sequence_for_state(prefix, state) {
            if state.events.len() == prefix.len() {
                results.push(PrefixResult::Pile(pile_clone(&state.pile)));
                assert(results@.map_values(|x: PrefixResult| prefix_result_view(x)) =~= before.push(
                    (None, pile_cards(state.pile)),
                ));
            } else {
                let entry = &state.events[prefix.len()];
                let event = entry.1;
                assert(event == state.event_view()[prefix@.len() as int]);
                assert(pile_cards(entry.0) == state.pile_history()[prefix@.len() as int]);
                if !contains_result(&results, event, &entry.0) {
                    results.push(PrefixResult::Event(event, pile_clone(&entry.0)));
                    assert(results@.map_values(|x: PrefixResult| prefix_result_view(x)) =~= before.push(
                        (Some(event), pile_cards(entry.0)),
                    ));
                }
            }
        }
        i += 1;
    }
    results
}

/// The candidate that the search keeps: the next chosen event of the state
/// with the shortest log among the first `n` states that end on the pile and
/// go past the prefix (the first such state on ties), with its log length.
pub open spec fn best_next_event_upto(
    states: Seq<GameStateWithPileTrackedEventLog>,
    prefix: Seq<Event>,
    final_pile: Seq<CardPtr>,
    n: nat,
) -> Option<(Event, nat)>
    decreases n,
{
    if n == 0 {
        None
    } else {
        let prev = best_next_event_upto(states, prefix, final_pile, (n - 1) as nat);
        let s = states[n - 1];
        let events = s.event_view();
        if pile_cards(s.pile) != final_pile || events.len() <= prefix.len() || !prefix_fits(prefix, events) {
            prev
        } else {
            let stop = run_stop(events, prefix.len() as int);
            let last = events[stop - 1];
            match prev {
                Some(p) => if events.len() < p.1 {
                    Some((last, events.len()))
                } else {
                    prev
                },
                None => Some((last, events.len())),
            }
        }
    }
}

/// Among the states that end on `final_pile` and whose logs go past the
/// prefix, the one with the shortest log (the first on ties); the event the
/// player chooses next in it.
pub fn find_next_event_matching_prefix_and_with_final_state(
    states: &Vec<GameStateWithPileTrackedEventLog>,
    prefix: &Vec<Event>,
    final_pile: &Pile,
) -> (r: Option<Event>)
    ensures
        r == (match best_next_event_upto(states@, prefix@, pile_cards(*final_pile), states@.len()) {
            Some(p) => Some(p.0),
            None => None,
        }),
{
    let mut res: Option<(Event, usize)> = None;
    let mut i: usize = 0;
    while i < states.len()
        invariant
            i <= states@.len(),
            match best_next_event_upto(states@, prefix@, pile_cards(*final_pile), i as nat) {
                Some(p) => res matches Some((e, len)) && e == p.0 && len == p.1,
                None => res is None,
            },
        decreases states@.len() - i,
    {
        let state = &states[i];
        if pile_eq(&state.pile, final_pile) && state.events.len() > prefix.len() {
            let maybe_next_events = get_next_available_events_past_prefix_allowing_skips(prefix, state);
            if let Some((_, following_events)) = maybe_next_events {
                proof {
                    lemma_run_stop_bounds(state.event_view(), prefix@.len() as int);
                }
                let n = following_events.len();
                if n > 0 {
                    let next_event = following_events[n - 1];
                    let better = match res {
                        Some(r) => state.events.len() < r.1,
                        None => true,
                    };
                    if better {
                        res = Some((next_event, state.events.len()));
                    }
                }
            }
        }
        i += 1;
    }
    match res {
        Some(r) => Some(r.0),
        None => None,
    }
}

/// The final piles of the states whose log starts with the prefix, in the
/// order of the states.
pub open spec fn piles_matching_prefix(states: Seq<GameStateWithPileTrackedEventLog>, prefix: Seq<Event>) -> Seq<
    Seq<CardPtr>,
>
    decreases states.len(),
{
    if states.len() == 0 {
        Seq::empty()
    } else {
        let rest = piles_matching_prefix(states.drop_last(), prefix);
        if prefix_fits(prefix, states.last().event_view()) {
            rest.push(pile_cards(states.last().pile))
        } else {
            rest
        }
    }
}

/// The piles of a list, as plain values.
pub open spec fn piles_view(piles: Seq<Pile>) -> Seq<Seq<CardPtr>> {
    piles.map_values(|p: Pile| pile_cards(p))
}

/// Every state whose log starts with the prefix gives its final pile, and
/// every pile given is the final pile of such a state: the piles matching
/// a prefix are exactly those of the fitting states, none left out.
pub proof fn lemma_piles_matching_prefix_members(states: Seq<GameStateWithPileTrackedEventLog>, prefix: Seq<Event>)
    ensures
        forall|k: int|
            0 <= k < states.len() && prefix_fits(prefix, #[trigger] states[k].event_view()) ==> piles_matching_prefix(
                states,
                prefix,
            ).contains(pile_cards(states[k].pile)),
        forall|i: int|
            #![trigger piles_matching_prefix(states, prefix)[i]]
            0 <= i < piles_matching_prefix(states, prefix).len() ==> exists|k: int|
                0 <= k < states.len() && prefix_fits(prefix, #[trigger] states[k].event_view()) && pile_cards(
                    states[k].pile,
                ) == piles_matching_prefix(states, prefix)[i],
        piles_matching_prefix(states, prefix).len() <= states.len(),
        prefix.len() == 0 ==> piles_matching_prefix(states, prefix).len() == states.len(),
    decreases states.len(),
{
    if states.len() > 0 {
        let init = states.drop_last();
        lemma_piles_matching_prefix_members(init, prefix);
        let rest = piles_matching_prefix(init, prefix);
        assert forall|k: int|
            0 <= k < states.len() && prefix_fits(prefix, #[trigger] states[k].event_view()) implies piles_matching_prefix(
            states,
            prefix,
        ).contains(pile_cards(states[k].pile)) by {
            if k < states.len() - 1 {
                assert(states[k] == init[k]);
                let i = choose|i: int| 0 <= i < rest.len() && rest[i] == pile_cards(init[k].pile);
                if prefix_fits(prefix, states.last().event_view()) {
                    assert(piles_matching_prefix(states, prefix)[i] == rest[i]);
                }
            } else {
                let r = piles_matching_prefix(states, prefix);
                assert(r[r.len() - 1] == pile_cards(states[k].pile));
            }
        }
        assert forall|i: int|
            #![trigger piles_matching_prefix(states, prefix)[i]]
            0 <= i < piles_matching_prefix(states, prefix).len() implies exists|k: int|
            0 <= k < states.len() && prefix_fits(prefix, #[trigger] states[k].event_view()) && pile_cards(states[k].pile)
                == piles_matching_prefix(states, prefix)[i] by {
            if i < rest.len() {
                let k = choose|k: int|
                    0 <= k < init.len() && prefix_fits(prefix, #[trigger] init[k].event_view()) && pile_cards(init[k].pile)
                        == rest[i];
                assert(states[k] == init[k]);
            } else {
                assert(prefix_fits(prefix, states[states.len() - 1].event_view()));
            }
        }
        if prefix.len() == 0 {
            assert(states.last().event_view().subrange(0, 0) =~= prefix);
        }
    }
}

/// The final piles of the states whose log starts with the prefix, in the
/// order of the states.
pub fn final_piles_matching_prefix(new_states: &Vec<GameStateWithPileTrackedEventLog>, prefix: &Vec<Event>) -> (r: Vec<
    Pile,
>)
    ensures
        piles_view(r@) == piles_matching_prefix(new_states@, prefix@),
{
    let mut results: Vec<Pile> = Vec::new();
    let mut k: usize = 0;
    while k < new_states.len()
        invariant
            k <= new_states@.len(),
            piles_view(results@) == piles_matching_prefix(new_states@.take(k as int), prefix@),
        decreases new_states@.len() - k,
    {
        assert(new_states@.take(k + 1).drop_last() =~= new_states@.take(k as int));
        assert(new_states@.take(k + 1).last() == new_states@[k as int]);
        if does_event_prefix_fit_sequence_for_state(prefix, &new_states[k]) {
            results.push(pile_clone(&new_states[k].pile));
        } else {
        }
        assert(piles_view(results@) =~= piles_matching_prefix(new_states@.take(k + 1), prefix@));
        k += 1;
    }
    assert(new_states@.take(new_states@.len() as int) =~= new_states@);
    results
}

/// The piles at which the turn from `root_pile` can end along a log that
/// starts with `prefix`: the final pile of every outcome of the turn whose
/// log starts with the prefix, in the order the outcomes come. Each holds
/// the cards of `root_pile`; with an empty prefix every outcome fits, so
/// there is at least one.
pub fn find_final_piles_matching_prefix(cards: &CardDefs, root_pile: &Pile, prefix: &Vec<Event>) -> (r: Vec<Pile>)
    requires
        cards.wf(),
        pile_ruled(*cards, pile_cards(*root_pile)),
        pile_cards(*root_pile).len() >= 1,
    ensures
        exists|outcomes: Seq<GameStateWithPileTrackedEventLog>|
            {
                &&& outcomes.len() > 0
                &&& crate::engine::all_ok(
                    *cards,
                    pile_cards(*root_pile).len(),
                    card_ids(pile_cards(*root_pile)),
                    Seq::<Event>::empty(),
                    outcomes,
                )
                &&& piles_view(r@) == piles_matching_prefix(outcomes, prefix@)
                &&& (cards.face(pile_cards(*root_pile)[0]).allegiance == Allegiance::Hero ==> {
                    &&& outcomes.last().pile_view() == crate::game_state::bottomed(pile_cards(*root_pile))
                    &&& outcomes.last().event_view() == seq![
                        Event::SkipTurn(pile_cards(*root_pile)[0]),
                        Event::BottomCard,
                    ]
                })
            },
        forall|i: int|
            0 <= i < r@.len() ==> pile_cards(#[trigger] r@[i]).len() == pile_cards(*root_pile).len()
                && card_ids(pile_cards(r@[i])) == card_ids(pile_cards(*root_pile))
                && pile_ruled(*cards, pile_cards(r@[i])),
        prefix@.len() == 0 ==> r@.len() > 0,
{
    let init_state = GameStateWithPileTrackedEventLog::new(pile_clone(root_pile));
    let new_states = resolve_top_card(cards, &init_state);
    let results = final_piles_matching_prefix(&new_states, prefix);
    proof {
        let n = pile_cards(*root_pile).len();
        let ids = card_ids(pile_cards(*root_pile));
        assert(init_state.event_view() =~= Seq::<Event>::empty());
        lemma_piles_matching_prefix_members(new_states@, prefix@);
        assert forall|i: int| 0 <= i < results@.len() implies pile_cards(#[trigger] results@[i]).len() == n && card_ids(
            pile_cards(results@[i]),
        ) == ids && pile_ruled(*cards, pile_cards(results@[i])) by {
            assert(piles_view(results@)[i] == pile_cards(results@[i]));
            let k = choose|k: int|
                0 <= k < new_states@.len() && prefix_fits(prefix@, #[trigger] new_states@[k].event_view()) && pile_cards(
                    new_states@[k].pile,
                ) == piles_matching_prefix(new_states@, prefix@)[i];
            assert(state_ok(*cards, n, ids, init_state.event_view(), new_states@[k]));
        }
        assert(piles_view(results@).len() == results@.len());
        if cards.face(pile_cards(*root_pile)[0]).allegiance == Allegiance::Hero {
            assert(Seq::<Event>::empty().push(Event::SkipTurn(pile_cards(*root_pile)[0])).push(Event::BottomCard)
                =~= seq![Event::SkipTurn(pile_cards(*root_pile)[0]), Event::BottomCard]);
        }
    }
    results
}

} // verus!
