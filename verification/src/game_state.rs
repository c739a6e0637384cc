//! The state that the game engine passes around: a pile, with or without a
//! log of the events that led to it; and the two changes that every turn
//! makes to it (a forced self action, and moving the top card to the
//! bottom).
use vstd::prelude::*;
use crate::card_modifiers::{perform_card_self_action, spec_self_action_key};
use crate::card_ptr::CardPtr;
use crate::pile::{pile_cards, pile_clone, pile_get, pile_len, pile_rotate_left_one, pile_set, Pile};
use crate::primitives::{Event, SelfAction};

verus! {

/// Whether two piles hold the same cards in the same order.
pub fn pile_eq(a: &Pile, b: &Pile) -> (r: bool)
    ensures
        r == (pile_cards(*a) == pile_cards(*b)),
{
    let n = pile_len(a);
    if n != pile_len(b) {
        return false;
    }
    let mut i: usize = 0;
    while i < n
        invariant
            n == pile_cards(*a).len(),
            n == pile_cards(*b).len(),
            i <= n,
            forall|j: int| 0 <= j < i ==> pile_cards(*a)[j] == pile_cards(*b)[j],
        decreases n - i,
    {
        let x = pile_get(a, i);
        let y = pile_get(b, i);
        if x.card_id != y.card_id || x.key != y.key {
            return false;
        }
        i += 1;
    }
    assert(pile_cards(*a) =~= pile_cards(*b));
    true
}

/// A state of the game as the engine sees it.
pub trait EngineGameState: Sized {
    /// The cards of the state's pile.
    spec fn pile_view(&self) -> Seq<CardPtr>;

    /// The events the state has logged, oldest first.
    spec fn event_view(&self) -> Seq<Event>;

    /// Whether states of this kind keep their events.
    spec fn logs_events() -> bool;

    /// The piles logged with the events, oldest first: for each event, the
    /// pile as it was when the event was logged. Empty for states that log
    /// no piles.
    spec fn pile_log(&self) -> Seq<Seq<CardPtr>>;

    /// Whether states of this kind log the pile with each event.
    spec fn logs_piles() -> bool;

    /// A state with the pile and no events.
    fn new(pile: Pile) -> (r: Self)
        ensures
            r.pile_view() == pile_cards(pile),
            r.event_view() == Seq::<Event>::empty(),
            r.pile_log() == Seq::<Seq<CardPtr>>::empty(),
    ;

    /// The state with the event logged, if it keeps events.
    fn append_event(self, event: Event) -> (r: Self)
        ensures
            r.pile_view() == self.pile_view(),
            r.event_view() == if Self::logs_events() {
                self.event_view().push(event)
            } else {
                self.event_view()
            },
            r.pile_log() == if Self::logs_piles() {
                self.pile_log().push(self.pile_view())
            } else {
                self.pile_log()
            },
    ;

    /// Logs the event, if the state keeps events.
    fn mut_append_event(&mut self, event: Event)
        ensures
            final(self).pile_view() == old(self).pile_view(),
            final(self).event_view() == if Self::logs_events() {
                old(self).event_view().push(event)
            } else {
                old(self).event_view()
            },
            final(self).pile_log() == if Self::logs_piles() {
                old(self).pile_log().push(old(self).pile_view())
            } else {
                old(self).pile_log()
            },
    ;

    /// A copy of the state.
    fn clone_state(&self) -> (r: Self)
        ensures
            r.pile_view() == self.pile_view(),
            r.event_view() == self.event_view(),
            r.pile_log() == self.pile_log(),
    ;

    /// The state's pile.
    fn get_pile(&self) -> (r: &Pile)
        ensures
            pile_cards(*r) == self.pile_view(),
    ;

    /// The state's pile, to change; the events stay as they are.
    fn get_pile_mut(&mut self) -> (r: &mut Pile)
        ensures
            pile_cards(*r) == old(self).pile_view(),
            final(self).pile_view() == pile_cards(*final(r)),
            final(self).event_view() == old(self).event_view(),
            final(self).pile_log() == old(self).pile_log(),
    ;

    /// The second state's pile, after the events of both states.
    fn combine(first: Self, second: Self) -> (r: Self)
        ensures
            r.pile_view() == second.pile_view(),
            r.event_view() == first.event_view() + second.event_view(),
            r.pile_log() == first.pile_log() + second.pile_log(),
    ;

    /// The states with repeats dropped where this kind of state drops them.
    fn dedupe(states: Vec<Self>) -> (r: Vec<Self>);
}

/// A state that keeps no events.
pub struct GameStateNoEventLog {
    pub pile: Pile,
}

/// A state that keeps the events that led to it.
pub struct GameStateWithEventLog {
    pub pile: Pile,
    pub events: Vec<Event>,
}

/// A state that keeps each event with the pile as it was when the event
/// happened.
pub struct GameStateWithPileTrackedEventLog {
    pub pile: Pile,
    pub events: Vec<(Pile, Event)>,
}

impl GameStateWithPileTrackedEventLog {
    /// The piles logged with the events, oldest first.
    pub open spec fn pile_history(&self) -> Seq<Seq<CardPtr>> {
        self.events@.map_values(|e: (Pile, Event)| pile_cards(e.0))
    }
}

impl EngineGameState for GameStateNoEventLog {
    open spec fn pile_view(&self) -> Seq<CardPtr> {
        pile_cards(self.pile)
    }

    open spec fn event_view(&self) -> Seq<Event> {
        Seq::empty()
    }

    open spec fn logs_events() -> bool {
        false
    }

    open spec fn pile_log(&self) -> Seq<Seq<CardPtr>> {
        Seq::empty()
    }

    open spec fn logs_piles() -> bool {
        false
    }

    fn new(pile: Pile) -> (r: Self) {
        Self { pile }
    }

    fn append_event(self, _event: Event) -> (r: Self) {
        self
    }

    fn mut_append_event(&mut self, _event: Event) {
    }

    fn clone_state(&self) -> (r: Self) {
        GameStateNoEventLog { pile: pile_clone(&self.pile) }
    }

    fn get_pile(&self) -> (r: &Pile) {
        &self.pile
    }

    fn get_pile_mut(&mut self) -> (r: &mut Pile) {
        &mut self.pile
    }

    fn combine(_first: Self, second: Self) -> (r: Self) {
        second
    }

    /// Up to nine states are kept as they are; from ten on, states with the
    /// same pile are kept once, the first of them. Every pile given is among
    /// those returned, and every pile returned was given.
    fn dedupe(states: Vec<Self>) -> (r: Vec<Self>)
        ensures
            forall|i: int| 0 <= i < states@.len() ==> has_pile(r@, #[trigger] states@[i].pile_view()),
            forall|j: int| 0 <= j < r@.len() ==> has_pile(states@, #[trigger] r@[j].pile_view()),
            states@.len() < 10 ==> r@ == states@,
            states@.len() >= 10 ==> forall|a: int, b: int|
                0 <= a < b < r@.len() ==> (#[trigger] r@[a]).pile_view() != (#[trigger] r@[b]).pile_view(),
    {
        if states.len() < 10 {
            let ghost given = states@;
            let r = states;
            proof {
                assert forall|i: int| 0 <= i < given.len() implies has_pile(r@, #[trigger] given[i].pile_view()) by {
                    assert(r@[i] == given[i]);
                }
                assert forall|j: int| 0 <= j < r@.len() implies has_pile(given, #[trigger] r@[j].pile_view()) by {
                    assert(r@[j] == given[j]);
                }
            }
            return r;
        }
        let n = states.len();
        let mut result: Vec<Self> = Vec::new();
        let mut i: usize = 0;
        while i < n
            invariant
                n == states@.len(),
                i <= n,
                forall|a: int, b: int|
                    0 <= a < b < result@.len() ==> (#[trigger] result@[a]).pile_view() != (
                    #[trigger] result@[b]).pile_view(),
                forall|k: int| 0 <= k < i ==> has_pile(result@, #[trigger] states@[k].pile_view()),
                forall|j: int| 0 <= j < result@.len() ==> has_pile(states@.subrange(0, i as int), #[trigger] result@[j].pile_view()),
            decreases n - i,
        {
            let ghost before = result@;
            let found = contains_pile(&result, &states[i].pile);
            if !found {
                let copy = GameStateNoEventLog { pile: pile_clone(&states[i].pile) };
                result.push(copy);
                proof {
                    assert(result@[before.len() as int].pile_view() == states@[i as int].pile_view());
                    assert forall|k: int| 0 <= k < i + 1 implies has_pile(result@, #[trigger] states@[k].pile_view()) by {
                        if k < i {
                            let j = choose|j: int| 0 <= j < before.len() && before[j].pile_view() == states@[k].pile_view();
                            assert(result@[j] == before[j]);
                        } else {
                            assert(result@[before.len() as int].pile_view() == states@[k].pile_view());
                        }
                    }
                    assert forall|j: int| 0 <= j < result@.len() implies has_pile(states@.subrange(0, i + 1), #[trigger] result@[j].pile_view()) by {
                        if j < before.len() {
                            assert(result@[j] == before[j]);
                            let k = choose|k: int| 0 <= k < i && states@.subrange(0, i as int)[k].pile_view() == before[j].pile_view();
                            assert(states@.subrange(0, i + 1)[k] == states@.subrange(0, i as int)[k]);
                        } else {
                            assert(states@.subrange(0, i + 1)[i as int] == states@[i as int]);
                        }
                    }
                    assert forall|a: int, b: int|
                        0 <= a < b < result@.len() implies (#[trigger] result@[a]).pile_view() != (
                        #[trigger] result@[b]).pile_view() by {
                        if b == before.len() {
                            assert(result@[a] == before[a]);
                        } else {
                            assert(result@[a] == before[a]);
                            assert(result@[b] == before[b]);
                        }
                    }
                }
            } else {
                proof {
                    assert forall|j: int| 0 <= j < result@.len() implies has_pile(states@.subrange(0, i + 1), #[trigger] result@[j].pile_view()) by {
                        let k = choose|k: int| 0 <= k < i && states@.subrange(0, i as int)[k].pile_view() == result@[j].pile_view();
                        assert(states@.subrange(0, i + 1)[k] == states@.subrange(0, i as int)[k]);
                    }
                }
            }
            i += 1;
        }
        proof {
            assert(states@.subrange(0, n as int) =~= states@);
        }
        result
    }
}

/// Some state of the list has this pile.
pub open spec fn has_pile(list: Seq<GameStateNoEventLog>, p: Seq<CardPtr>) -> bool {
    exists|j: int| 0 <= j < list.len() && list[j].pile_view() == p
}

/// Whether some state of the list has this pile.
fn contains_pile(list: &Vec<GameStateNoEventLog>, p: &Pile) -> (r: bool)
    ensures
        r == has_pile(list@, pile_cards(*p)),
{
    let mut k: usize = 0;
    while k < list.len()
        invariant
            k <= list@.len(),
            forall|j: int| 0 <= j < k ==> list@[j].pile_view() != pile_cards(*p),
        decreases list@.len() - k,
    {
        if pile_eq(&list[k].pile, p) {
            assert(list@[k as int].pile_view() == pile_cards(*p));
            return true;
        }
        k += 1;
    }
    false
}

impl EngineGameState for GameStateWithEventLog {
    open spec fn pile_view(&self) -> Seq<CardPtr> {
        pile_cards(self.pile)
    }

    open spec fn event_view(&self) -> Seq<Event> {
        self.events@
    }

    open spec fn logs_events() -> bool {
        true
    }

    open spec fn pile_log(&self) -> Seq<Seq<CardPtr>> {
        Seq::empty()
    }

    open spec fn logs_piles() -> bool {
        false
    }

    fn new(pile: Pile) -> (r: Self) {
        Self { pile, events: Vec::new() }
    }

    fn append_event(self, event: Event) -> (r: Self) {
        let mut this = self;
        this.mut_append_event(event);
        this
    }

    fn mut_append_event(&mut self, event: Event) {
        self.events.push(event);
    }

    fn clone_state(&self) -> (r: Self) {
        let mut events: Vec<Event> = Vec::new();
        let mut k: usize = 0;
        while k < self.events.len()
            invariant
                k <= self.events@.len(),
                events@ == self.events@.subrange(0, k as int),
            decreases self.events@.len() - k,
        {
            events.push(self.events[k]);
            assert(events@ =~= self.events@.subrange(0, k + 1));
            k += 1;
        }
        assert(events@ =~= self.events@);
        GameStateWithEventLog { pile: pile_clone(&self.pile), events }
    }

    fn get_pile(&self) -> (r: &Pile) {
        &self.pile
    }

    fn get_pile_mut(&mut self) -> (r: &mut Pile) {
        &mut self.pile
    }

    fn combine(first: Self, second: Self) -> (r: Self) {
        let mut events = first.events;
        let mut more = second.events;
        events.append(&mut more);
        Self { pile: second.pile, events }
    }

    /// Every state is kept.
    fn dedupe(states: Vec<Self>) -> (r: Vec<Self>)
        ensures
            r@ == states@,
    {
        states
    }
}

impl EngineGameState for GameStateWithPileTrackedEventLog {
    open spec fn pile_view(&self) -> Seq<CardPtr> {
        pile_cards(self.pile)
    }

    open spec fn event_view(&self) -> Seq<Event> {
        self.events@.map_values(|e: (Pile, Event)| e.1)
    }

    open spec fn logs_events() -> bool {
        true
    }

    open spec fn pile_log(&self) -> Seq<Seq<CardPtr>> {
        self.pile_history()
    }

    open spec fn logs_piles() -> bool {
        true
    }

    fn new(pile: Pile) -> (r: Self) {
        let r = Self { pile, events: Vec::new() };
        assert(r.event_view() =~= Seq::<Event>::empty());
        assert(r.pile_history() =~= Seq::<Seq<CardPtr>>::empty());
        r
    }

    fn append_event(self, event: Event) -> (r: Self) {
        let mut this = self;
        this.mut_append_event(event);
        this
    }

    /// Logs the event with a copy of the pile as it is now.
    fn mut_append_event(&mut self, event: Event)
        ensures
            final(self).pile_history() == old(self).pile_history().push(pile_cards(old(self).pile)),
    {
        let snapshot = pile_clone(&self.pile);
        let ghost before = self.events@;
        self.events.push((snapshot, event));
        proof {
            assert(self.event_view() =~= before.map_values(|e: (Pile, Event)| e.1).push(event));
            assert(self.pile_history() =~= before.map_values(|e: (Pile, Event)| pile_cards(e.0)).push(
                pile_cards(self.pile),
            ));
        }
    }

    /// A copy of the state, with copies of the logged piles.
    fn clone_state(&self) -> (r: Self)
        ensures
            r.pile_history() == self.pile_history(),
    {
        let mut events: Vec<(Pile, Event)> = Vec::new();
        let mut k: usize = 0;
        while k < self.events.len()
            invariant
                k <= self.events@.len(),
                events@.len() == k,
                forall|j: int|
                    0 <= j < k ==> pile_cards((#[trigger] events@[j]).0) == pile_cards(self.events@[j].0)
                        && events@[j].1 == self.events@[j].1,
            decreases self.events@.len() - k,
        {
            let entry = &self.events[k];
            events.push((pile_clone(&entry.0), entry.1));
            k += 1;
        }
        let r = GameStateWithPileTrackedEventLog { pile: pile_clone(&self.pile), events };
        assert(r.event_view() =~= self.event_view());
        assert(r.pile_history() =~= self.pile_history());
        r
    }

    fn get_pile(&self) -> (r: &Pile) {
        &self.pile
    }

    fn get_pile_mut(&mut self) -> (r: &mut Pile) {
        &mut self.pile
    }

    fn combine(first: Self, second: Self) -> (r: Self) {
        let ghost a = first.events@;
        let ghost b = second.events@;
        let mut events = first.events;
        let mut more = second.events;
        events.append(&mut more);
        let r = Self { pile: second.pile, events };
        assert(r.event_view() =~= a.map_values(|e: (Pile, Event)| e.1) + b.map_values(|e: (Pile, Event)| e.1));
        assert(r.pile_history() =~= a.map_values(|e: (Pile, Event)| pile_cards(e.0)) + b.map_values(
            |e: (Pile, Event)| pile_cards(e.0),
        ));
        r
    }

    /// Every state is kept.
    fn dedupe(states: Vec<Self>) -> (r: Vec<Self>)
        ensures
            r@ == states@,
    {
        states
    }
}

/// The card at `active_idx` after its forced self action.
pub open spec fn after_self_action(c: CardPtr, self_action: SelfAction) -> CardPtr {
    CardPtr { card_id: c.card_id, key: spec_self_action_key(self_action, c.key) }
}

/// Performs the row's forced self action on the active card and logs it
/// with the card as it now is.
pub fn perform_mandatory_action<T: EngineGameState>(state: &mut T, self_action: SelfAction, active_idx: usize)
    requires
        active_idx < old(state).pile_view().len(),
    ensures
        final(state).pile_view() == old(state).pile_view().update(
            active_idx as int,
            after_self_action(old(state).pile_view()[active_idx as int], self_action),
        ),
        final(state).event_view() == if T::logs_events() {
            old(state).event_view().push(
                Event::Mandatory(after_self_action(old(state).pile_view()[active_idx as int], self_action), self_action),
            )
        } else {
            old(state).event_view()
        },
        final(state).pile_log() == if T::logs_piles() {
            old(state).pile_log().push(final(state).pile_view())
        } else {
            old(state).pile_log()
        },
{
    {
        let pile = state.get_pile_mut();
        let mut card = pile_get(pile, active_idx);
        perform_card_self_action(self_action, &mut card);
        pile_set(pile, active_idx, card);
    }
    let card = pile_get(state.get_pile(), active_idx);
    state.mut_append_event(Event::Mandatory(card, self_action));
}

/// Moves the top card to the bottom and logs it; the pile must not be
/// empty.
pub fn bottom_top_card<T: EngineGameState>(state: &mut T)
    requires
        old(state).pile_view().len() >= 1,
    ensures
        final(state).pile_view() == bottomed(old(state).pile_view()),
        final(state).event_view() == if T::logs_events() {
            old(state).event_view().push(Event::BottomCard)
        } else {
            old(state).event_view()
        },
        final(state).pile_log() == if T::logs_piles() {
            old(state).pile_log().push(final(state).pile_view())
        } else {
            old(state).pile_log()
        },
{
    {
        let pile = state.get_pile_mut();
        pile_rotate_left_one(pile);
    }
    state.mut_append_event(Event::BottomCard);
}


/// The pile after its top card went to the bottom.
pub open spec fn bottomed(p: Seq<CardPtr>) -> Seq<CardPtr> {
    p.subrange(1, p.len() as int).push(p[0])
}

/// The pile after `k` top cards went to the bottom one by one.
pub open spec fn bottomed_times(p: Seq<CardPtr>, k: nat) -> Seq<CardPtr>
    decreases k,
{
    if k == 0 {
        p
    } else {
        bottomed(bottomed_times(p, (k - 1) as nat))
    }
}

proof fn lemma_bottomed_times(p: Seq<CardPtr>, k: nat)
    requires
        k <= p.len(),
    ensures
        bottomed_times(p, k) =~= p.subrange(k as int, p.len() as int) + p.subrange(0, k as int),
    decreases k,
{
    if k > 0 {
        lemma_bottomed_times(p, (k - 1) as nat);
        let prev = bottomed_times(p, (k - 1) as nat);
        assert(prev.len() == p.len());
        assert(prev[0] == p[k - 1]);
        assert(bottomed(prev) =~= p.subrange(k as int, p.len() as int) + p.subrange(0, k as int));
    }
}

/// Moving the top card to the bottom once for every card of a non-empty
/// pile gives back the pile: `bottom_top_card` called as many times as the
/// pile has cards undoes itself.
pub proof fn lemma_bottoming_every_card_restores_pile(p: Seq<CardPtr>)
    requires
        p.len() >= 1,
    ensures
        bottomed_times(p, p.len()) == p,
{
    lemma_bottomed_times(p, p.len());
    assert(p.subrange(p.len() as int, p.len() as int) + p.subrange(0, p.len() as int) =~= p);
}

/// Some state among the first `n` of the list has this pile.
pub open spec fn pile_seen<T: EngineGameState>(s: Seq<T>, n: int, p: Seq<CardPtr>) -> bool {
    exists|j: int| 0 <= j < n && (#[trigger] s[j]).pile_view() == p
}

/// The states of the list, each dropped where an earlier state has its
/// pile: the first state of each pile, in the order given.
pub open spec fn first_of_each_pile<T: EngineGameState>(s: Seq<T>) -> Seq<T>
    decreases s.len(),
{
    if s.len() == 0 {
        Seq::empty()
    } else {
        let prev = first_of_each_pile(s.drop_last());
        if pile_seen(s, s.len() - 1, s.last().pile_view()) {
            prev
        } else {
            prev.push(s.last())
        }
    }
}

/// Whether some pile of the list holds these cards.
fn piles_contain(piles: &Vec<Pile>, p: &Pile) -> (r: bool)
    ensures
        r == exists|j: int| 0 <= j < piles@.len() && pile_cards(#[trigger] piles@[j]) == pile_cards(*p),
{
    let mut k: usize = 0;
    while k < piles.len()
        invariant
            k <= piles@.len(),
            forall|j: int| 0 <= j < k ==> pile_cards(#[trigger] piles@[j]) != pile_cards(*p),
        decreases piles@.len() - k,
    {
        if pile_eq(&piles[k], p) {
            return true;
        }
        k += 1;
    }
    false
}

/// Drops each state whose pile an earlier state already has, keeping the
/// rest in order.
pub fn collapse_states<T: EngineGameState>(states: Vec<T>) -> (r: Vec<T>)
    ensures
        r@ == first_of_each_pile(states@),
{
    let ghost s0 = states@;
    let n = states.len();
    let mut states = states;
    let mut rev: Vec<T> = Vec::new();
    while states.len() > 0
        invariant
            n == s0.len(),
            states@.len() + rev@.len() == n,
            states@ == s0.take(states@.len() as int),
            forall|k: int| 0 <= k < rev@.len() ==> #[trigger] rev@[k] == s0[n - 1 - k],
        decreases states@.len(),
    {
        let x = states.pop().unwrap();
        assert(states@ =~= s0.take(states@.len() as int));
        rev.push(x);
    }
    let mut result: Vec<T> = Vec::new();
    let mut seen: Vec<Pile> = Vec::new();
    while rev.len() > 0
        invariant
            n == s0.len(),
            rev@.len() <= n,
            forall|k: int| 0 <= k < rev@.len() ==> #[trigger] rev@[k] == s0[n - 1 - k],
            result@ == first_of_each_pile(s0.take(n - rev@.len())),
            forall|p: Seq<CardPtr>|
                #![trigger pile_seen(s0, n - rev@.len(), p)]
                (exists|j: int| 0 <= j < seen@.len() && pile_cards(#[trigger] seen@[j]) == p) <==> pile_seen(
                    s0,
                    n - rev@.len(),
                    p,
                ),
        decreases rev@.len(),
    {
        let ghost i = n - rev@.len();
        let x = rev.pop().unwrap();
        assert(x == s0[i]);
        let ghost taken = s0.take(i + 1);
        assert(taken.drop_last() =~= s0.take(i));
        assert(taken.last() == s0[i]);
        assert forall|p: Seq<CardPtr>| #[trigger] pile_seen(taken, i, p) <==> pile_seen(s0, i, p) by {
            if pile_seen(taken, i, p) {
                let j = choose|j: int| 0 <= j < i && (#[trigger] taken[j]).pile_view() == p;
                assert(s0[j] == taken[j]);
            }
            if pile_seen(s0, i, p) {
                let j = choose|j: int| 0 <= j < i && (#[trigger] s0[j]).pile_view() == p;
                assert(s0[j] == taken[j]);
            }
        }
        let found = piles_contain(&seen, x.get_pile());
        let ghost seen_before = seen@;
        if !found {
            seen.push(pile_clone(x.get_pile()));
            assert forall|p: Seq<CardPtr>|
                #![trigger pile_seen(s0, i + 1, p)]
                (exists|j: int| 0 <= j < seen@.len() && pile_cards(#[trigger] seen@[j]) == p) <==> pile_seen(
                    s0,
                    i + 1,
                    p,
                ) by {
                if exists|j: int| 0 <= j < seen@.len() && pile_cards(#[trigger] seen@[j]) == p {
                    let j = choose|j: int| 0 <= j < seen@.len() && pile_cards(#[trigger] seen@[j]) == p;
                    if j < seen_before.len() {
                        assert(seen_before[j] == seen@[j]);
                        assert(pile_seen(s0, i, p));
                        let k = choose|k: int| 0 <= k < i && (#[trigger] s0[k]).pile_view() == p;
                        assert(0 <= k < i + 1 && s0[k].pile_view() == p);
                    } else {
                        assert(s0[i].pile_view() == p);
                    }
                }
                if pile_seen(s0, i + 1, p) {
                    let k = choose|k: int| 0 <= k < i + 1 && (#[trigger] s0[k]).pile_view() == p;
                    if k < i {
                        assert(pile_seen(s0, i, p));
                        let j = choose|j: int| 0 <= j < seen_before.len() && pile_cards(#[trigger] seen_before[j]) == p;
                        assert(seen@[j] == seen_before[j]);
                    } else {
                        assert(pile_cards(seen@[seen_before.len() as int]) == p);
                    }
                }
            }
            result.push(x);
        } else {
            assert forall|p: Seq<CardPtr>|
                #![trigger pile_seen(s0, i + 1, p)]
                (exists|j: int| 0 <= j < seen@.len() && pile_cards(#[trigger] seen@[j]) == p) <==> pile_seen(
                    s0,
                    i + 1,
                    p,
                ) by {
                if pile_seen(s0, i + 1, p) {
                    let k = choose|k: int| 0 <= k < i + 1 && (#[trigger] s0[k]).pile_view() == p;
                    if k == i {
                        assert(pile_seen(s0, i, s0[i].pile_view()));
                    } else {
                        assert(pile_seen(s0, i, p));
                    }
                }
                if pile_seen(s0, i, p) {
                    let k = choose|k: int| 0 <= k < i && (#[trigger] s0[k]).pile_view() == p;
                    assert(0 <= k < i + 1 && s0[k].pile_view() == p);
                }
            }
        }
    }
    assert(s0.take(n as int) =~= s0);
    result
}

} // verus!
