//! Questions about a pile or a card that change nothing.
use vstd::prelude::*;
use crate::card_defs::CardDefs;
use crate::card_ptr::CardPtr;
use crate::pile::{pile_cards, pile_get, pile_len, Pile};
use crate::primitives::{
    health_rank, features_intersect, Action, Allegiance, ConditionCostType, Event, FaceKey,
    Features, Health, Reaction, ReactionTrigger, SkipActionReason, Target, WinType,
    WrappedAction, FEATURE_ENERGY, FEATURE_INVULNERABLE, FEATURE_VENOM, FEATURE_WEB,
    FEATURE_WEIGHT, FEATURE_WISP,
};

verus! {

/// Every card of the pile is in the table.
pub open spec fn pile_valid(cards: CardDefs, p: Seq<CardPtr>) -> bool {
    forall|i: int| 0 <= i < p.len() ==> #[trigger] cards.has_card(p[i].card_id as int)
}

/// The card at position `i` is not exhausted and has allegiance `a`.
pub open spec fn alive_with_allegiance(cards: CardDefs, p: Seq<CardPtr>, i: int, a: Allegiance) -> bool {
    &&& cards.face(p[i]).health != Health::Empty
    &&& cards.face(p[i]).allegiance == a
}

/// Some card of the pile is alive and of allegiance `a`.
pub open spec fn any_alive(cards: CardDefs, p: Seq<CardPtr>, a: Allegiance) -> bool {
    exists|i: int| 0 <= i < p.len() && #[trigger] alive_with_allegiance(cards, p, i, a)
}

/// The standard end of game: the heroes win once no baddie is alive, they
/// lose once no hero is alive, and the game goes on while both sides live.
pub open spec fn spec_standard_winner(cards: CardDefs, p: Seq<CardPtr>) -> WinType {
    if !any_alive(cards, p, Allegiance::Baddie) {
        WinType::Win
    } else if !any_alive(cards, p, Allegiance::Hero) {
        WinType::Lose
    } else {
        WinType::Unresolved
    }
}

/// Whether the game is over: see `spec_standard_winner`.
pub fn is_game_winner(cards: &CardDefs, pile: &Pile) -> (r: WinType)
    requires
        cards.wf(),
        pile_valid(*cards, pile_cards(*pile)),
    ensures
        r == spec_standard_winner(*cards, pile_cards(*pile)),
{
    let ghost p = pile_cards(*pile);
    let mut player_wins = true;
    let mut enemy_wins = true;
    let n = pile_len(pile);
    let mut i: usize = 0;
    while i < n
        invariant
            cards.wf(),
            p == pile_cards(*pile),
            pile_valid(*cards, p),
            n == p.len(),
            i <= n,
            player_wins == !(exists|j: int| 0 <= j < i && #[trigger] alive_with_allegiance(*cards, p, j, Allegiance::Baddie)),
            enemy_wins == !(exists|j: int| 0 <= j < i && #[trigger] alive_with_allegiance(*cards, p, j, Allegiance::Hero)),
            player_wins || enemy_wins,
        decreases n - i,
    {
        let card = pile_get(pile, i);
        assert(cards.has_card(p[i as int].card_id as int));
        let active_face = card.get_active_face(cards);
        if active_face.health != Health::Empty {
            match active_face.allegiance {
                Allegiance::Hero => {
                    enemy_wins = false;
                    assert(alive_with_allegiance(*cards, p, i as int, Allegiance::Hero));
                    if !player_wins {
                        assert(alive_with_allegiance(*cards, p, i as int, Allegiance::Hero));
                        return WinType::Unresolved;
                    }
                },
                Allegiance::Baddie => {
                    player_wins = false;
                    assert(alive_with_allegiance(*cards, p, i as int, Allegiance::Baddie));
                    if !enemy_wins {
                        return WinType::Unresolved;
                    }
                },
                Allegiance::Werewolf | Allegiance::Rat => {},
            }
        }
        assert(forall|a: Allegiance|
            a != active_face.allegiance || active_face.health == Health::Empty ==> !#[trigger] alive_with_allegiance(*cards, p, i as int, a));
        i += 1;
    }
    if player_wins {
        WinType::Win
    } else if enemy_wins {
        WinType::Lose
    } else {
        WinType::Unresolved
    }
}

/// Whether the card's face that is up has the energy feature.
pub fn does_card_have_energy(cards: &CardDefs, card_ptr: &CardPtr) -> (r: bool)
    requires
        cards.has_card(card_ptr.card_id as int),
    ensures
        r == (cards.face(*card_ptr).features.bits & FEATURE_ENERGY != 0),
{
    card_ptr.get_active_face(cards).features.intersects(Features::energy())
}

/// Whether the card's face that is up can dodge.
pub open spec fn spec_has_dodge(cards: CardDefs, c: CardPtr) -> bool {
    match cards.face(c).reaction {
        Some(Reaction::Standard(_, standard)) => standard.trigger == ReactionTrigger::Dodge,
        _ => false,
    }
}

/// Whether the card's face that is up reacts by dodging.
pub fn does_card_have_dodge(cards: &CardDefs, card_ptr: &CardPtr) -> (r: bool)
    requires
        cards.has_card(card_ptr.card_id as int),
    ensures
        r == spec_has_dodge(*cards, *card_ptr),
{
    if let Some(reaction) = card_ptr.get_active_face(cards).reaction {
        if let Reaction::Standard(_, standard_reaction) = reaction {
            if standard_reaction.trigger == ReactionTrigger::Dodge {
                return true;
            }
        }
    }
    false
}

/// Whether a card can pay a cost of the given type: energy costs are paid by
/// energy cards, dodge costs by cards that dodge.
pub fn get_cost_predicate(condition_cost_type: ConditionCostType, cards: &CardDefs, card_ptr: &CardPtr) -> (r: bool)
    requires
        cards.has_card(card_ptr.card_id as int),
    ensures
        r == match condition_cost_type {
            ConditionCostType::Dodge => spec_has_dodge(*cards, *card_ptr),
            ConditionCostType::Energy => cards.face(*card_ptr).features.bits & FEATURE_ENERGY != 0,
        },
{
    match condition_cost_type {
        ConditionCostType::Dodge => does_card_have_dodge(cards, card_ptr),
        ConditionCostType::Energy => does_card_have_energy(cards, card_ptr),
    }
}

/// Whether `other` is a target of kind `spec` for a card of allegiance `me`.
pub open spec fn spec_allegiance_match(me: Allegiance, other: Allegiance, spec: Target) -> bool {
    match spec {
        Target::Any => true,
        Target::Ally => me == other,
        Target::Enemy => me != other,
    }
}

/// Whether `other` is a target of kind `spec` for a card of allegiance `me`:
/// any card matches `Any`, a card of the same allegiance matches `Ally` and
/// one of another allegiance matches `Enemy`.
pub fn is_allegiance_match(me: Allegiance, other: Allegiance, spec: Target) -> (r: bool)
    ensures
        r == spec_allegiance_match(me, other, spec),
{
    match spec {
        Target::Any => true,
        Target::Ally => me == other,
        Target::Enemy => me != other,
    }
}

/// Whether a card can be moved by a card of allegiance `active_allegiance`
/// that targets `target`: it must match the target, and a card of another
/// allegiance must not be heavy or invulnerable.
pub fn is_moveable_target(cards: &CardDefs, card_ptr: &CardPtr, active_allegiance: Allegiance, target: Target) -> (r: bool)
    requires
        cards.has_card(card_ptr.card_id as int),
    ensures
        r == (spec_allegiance_match(active_allegiance, cards.face(*card_ptr).allegiance, target) && (
        cards.face(*card_ptr).allegiance == active_allegiance || cards.face(*card_ptr).features.bits & (
        FEATURE_WEIGHT | FEATURE_INVULNERABLE) == 0)),
{
    let target_face = card_ptr.get_active_face(cards);
    let target_allegiance = target_face.allegiance;
    if !is_allegiance_match(active_allegiance, target_allegiance, target) {
        return false;
    }
    if target_allegiance != active_allegiance && target_face.features.intersects(
        Features::from_bits(FEATURE_WEIGHT | FEATURE_INVULNERABLE),
    ) {
        return false;
    }
    true
}

/// The card at `i` is a heal target: it matches the target kind and has the
/// wanted health.
pub open spec fn is_heal_target(
    cards: CardDefs,
    p: Seq<CardPtr>,
    i: int,
    target_health: Health,
    allegiance: Allegiance,
    target_type: Target,
) -> bool {
    &&& spec_allegiance_match(allegiance, cards.face(p[i]).allegiance, target_type)
    &&& cards.face(p[i]).health == target_health
}

/// The first position from `starting_idx` on whose card matches the target
/// kind and has the given health.
pub fn find_heal_target(
    cards: &CardDefs,
    pile: &Pile,
    target_health: Health,
    allegiance: Allegiance,
    target_type: Target,
    starting_idx: usize,
) -> (r: Option<usize>)
    requires
        pile_valid(*cards, pile_cards(*pile)),
    ensures
        match r {
            Some(i) => {
                &&& starting_idx <= i < pile_cards(*pile).len()
                &&& is_heal_target(*cards, pile_cards(*pile), i as int, target_health, allegiance, target_type)
                &&& forall|j: int|
                    starting_idx <= j < i ==> !#[trigger] is_heal_target(
                        *cards,
                        pile_cards(*pile),
                        j,
                        target_health,
                        allegiance,
                        target_type,
                    )
            },
            None => forall|j: int|
                starting_idx <= j < pile_cards(*pile).len() ==> !#[trigger] is_heal_target(
                    *cards,
                    pile_cards(*pile),
                    j,
                    target_health,
                    allegiance,
                    target_type,
                ),
        },
{
    let ghost p = pile_cards(*pile);
    let max_range = pile_len(pile);
    let mut i = starting_idx;
    while i < max_range
        invariant
            p == pile_cards(*pile),
            pile_valid(*cards, p),
            max_range == p.len(),
            starting_idx <= i || i >= max_range,
            forall|j: int|
                starting_idx <= j < i && j < max_range ==> !#[trigger] is_heal_target(
                    *cards,
                    p,
                    j,
                    target_health,
                    allegiance,
                    target_type,
                ),
        decreases max_range - i,
    {
        let active_card_ptr = pile_get(pile, i);
        assert(cards.has_card(p[i as int].card_id as int));
        let face = active_card_ptr.get_active_face(cards);
        if is_allegiance_match(allegiance, face.allegiance, target_type) {
            if face.health == target_health {
                return Some(i);
            }
        }
        i += 1;
    }
    None
}

/// One step of damage: full health becomes half, half becomes empty.
pub open spec fn spec_one_damage(health: Health) -> Health {
    match health {
        Health::Full => Health::Half,
        _ => Health::Empty,
    }
}

/// The health after one damage; an exhausted card cannot be hurt.
pub fn one_damage(health: Health) -> (r: Health)
    requires
        health != Health::Empty,
    ensures
        r == spec_one_damage(health),
        health_rank(r) == health_rank(health) - 1,
{
    match health {
        Health::Full => Health::Half,
        Health::Half => Health::Empty,
        Health::Empty => Health::Empty,
    }
}

/// All four face keys, in order.
pub open spec fn all_keys() -> Seq<FaceKey> {
    seq![FaceKey::A, FaceKey::B, FaceKey::C, FaceKey::D]
}

/// The faces of a card, other than the one that is up, whose health is one
/// step below the health of the one that is up, in key order.
pub open spec fn spec_hurt_faces(cards: CardDefs, c: CardPtr) -> Seq<FaceKey> {
    let current = cards.face(c).health;
    if current == Health::Empty {
        Seq::empty()
    } else {
        all_keys().filter(
            |k: FaceKey|
                k != c.key && cards.card(c.card_id as int).faces.spec_get(k).health == spec_one_damage(
                    current,
                ),
        )
    }
}

/// The keys among the first `n` keys that satisfy `pred`, in order.
pub open spec fn keys_upto(n: nat, pred: spec_fn(FaceKey) -> bool) -> Seq<FaceKey> {
    all_keys().take(n as int).filter(pred)
}

proof fn lemma_keys_step(n: nat, pred: spec_fn(FaceKey) -> bool)
    requires
        n < 4,
    ensures
        keys_upto(n + 1, pred) == if pred(all_keys()[n as int]) {
            keys_upto(n, pred).push(all_keys()[n as int])
        } else {
            keys_upto(n, pred)
        },
{
    reveal_with_fuel(Seq::<_>::filter, 1);
    assert(all_keys().take((n + 1) as int).drop_last() =~= all_keys().take(n as int));
}

fn key_at(i: usize) -> (r: FaceKey)
    requires
        i < 4,
    ensures
        r == all_keys()[i as int],
{
    if i == 0 {
        FaceKey::A
    } else if i == 1 {
        FaceKey::B
    } else if i == 2 {
        FaceKey::C
    } else {
        FaceKey::D
    }
}

/// The faces that a hit can turn the card to: see `spec_hurt_faces`.
pub fn find_hurt_faces(cards: &CardDefs, card: &CardPtr) -> (r: Vec<FaceKey>)
    requires
        cards.has_card(card.card_id as int),
    ensures
        r@ == spec_hurt_faces(*cards, *card),
{
    let card_def = card.get_card_def(cards);
    let current_health = card_def.faces.get(card.key).health;
    if current_health == Health::Empty {
        return Vec::new();
    }
    let mut results: Vec<FaceKey> = Vec::new();
    let target_health = one_damage(current_health);
    let ghost pred = |k: FaceKey|
        k != card.key && cards.card(card.card_id as int).faces.spec_get(k).health == spec_one_damage(
            current_health,
        );
    let mut i: usize = 0;
    while i < 4
        invariant
            i <= 4,
            *card_def == cards.card(card.card_id as int),
            current_health == cards.face(*card).health,
            target_health == spec_one_damage(current_health),
            pred == (|k: FaceKey|
                k != card.key && cards.card(card.card_id as int).faces.spec_get(k).health
                    == spec_one_damage(current_health)),
            results@ == keys_upto(i as nat, pred),
        decreases 4 - i,
    {
        proof {
            lemma_keys_step(i as nat, pred);
        }
        let key = key_at(i);
        if key != card.key && card_def.faces.get(key).health == target_health {
            results.push(key);
        }
        i += 1;
    }
    assert(all_keys().take(4) =~= all_keys());
    results
}

/// Turning a card sideways: A and B swap, and so do C and D.
pub open spec fn spec_rotate_key(key: FaceKey) -> FaceKey {
    match key {
        FaceKey::A => FaceKey::B,
        FaceKey::B => FaceKey::A,
        FaceKey::C => FaceKey::D,
        FaceKey::D => FaceKey::C,
    }
}

/// Turning a card over: A and C swap, and so do B and D.
pub open spec fn spec_flip_key(key: FaceKey) -> FaceKey {
    match key {
        FaceKey::A => FaceKey::C,
        FaceKey::C => FaceKey::A,
        FaceKey::B => FaceKey::D,
        FaceKey::D => FaceKey::B,
    }
}

/// The face a card shows after turning it around: `A` and `B` swap, so do
/// `C` and `D`.
pub fn rotate_key(key: FaceKey) -> (r: FaceKey)
    ensures
        r == spec_rotate_key(key),
{
    match key {
        FaceKey::A => FaceKey::B,
        FaceKey::B => FaceKey::A,
        FaceKey::C => FaceKey::D,
        FaceKey::D => FaceKey::C,
    }
}

/// The face a card shows after flipping it over: `A` and `C` swap, so do
/// `B` and `D`.
pub fn flip_key(key: FaceKey) -> (r: FaceKey)
    ensures
        r == spec_flip_key(key),
{
    match key {
        FaceKey::A => FaceKey::C,
        FaceKey::C => FaceKey::A,
        FaceKey::B => FaceKey::D,
        FaceKey::D => FaceKey::B,
    }
}

/// Rotating twice, or flipping twice, gives back the same face; rotating
/// and flipping commute; and neither keeps the face that was up.
pub proof fn lemma_rotate_flip(key: FaceKey)
    ensures
        spec_rotate_key(spec_rotate_key(key)) == key,
        spec_flip_key(spec_flip_key(key)) == key,
        spec_rotate_key(spec_flip_key(key)) == spec_flip_key(spec_rotate_key(key)),
        spec_rotate_key(key) != key,
        spec_flip_key(key) != key,
{
}

/// The exhausted faces of a card, in key order.
pub open spec fn spec_exhausted_faces(cards: CardDefs, c: CardPtr) -> Seq<FaceKey> {
    all_keys().filter(|k: FaceKey| cards.card(c.card_id as int).faces.spec_get(k).health == Health::Empty)
}

/// The faces that exhaust a card that is not exhausted yet; there is at
/// least one.
pub fn exhaust_card(cards: &CardDefs, card: &CardPtr) -> (r: Vec<FaceKey>)
    requires
        cards.wf(),
        cards.has_card(card.card_id as int),
        cards.face(*card).health != Health::Empty,
    ensures
        r@ == spec_exhausted_faces(*cards, *card),
        r@.len() > 0,
{
    let card_def = card.get_card_def(cards);
    let ghost pred = |k: FaceKey| cards.card(card.card_id as int).faces.spec_get(k).health == Health::Empty;
    let mut results: Vec<FaceKey> = Vec::new();
    let mut i: usize = 0;
    while i < 4
        invariant
            i <= 4,
            *card_def == cards.card(card.card_id as int),
            pred == (|k: FaceKey| cards.card(card.card_id as int).faces.spec_get(k).health == Health::Empty),
            results@ == keys_upto(i as nat, pred),
        decreases 4 - i,
    {
        proof {
            lemma_keys_step(i as nat, pred);
        }
        let key = key_at(i);
        if card_def.faces.get(key).health == Health::Empty {
            results.push(key);
        }
        i += 1;
    }
    assert(all_keys().take(4) =~= all_keys());
    proof {
        let c = cards.card(card.card_id as int);
        assert(cards.cards@[card.card_id as int].is_some());
        assert(crate::card_defs::card_has_exhausted_face(c));
        if c.faces.a.health == Health::Empty {
            assert(all_keys().filter(pred).contains(FaceKey::A)) by {
                assert(pred(all_keys()[0]));
            }
        } else if c.faces.b.health == Health::Empty {
            assert(all_keys().filter(pred).contains(FaceKey::B)) by {
                assert(pred(all_keys()[1]));
            }
        } else if c.faces.c.health == Health::Empty {
            assert(all_keys().filter(pred).contains(FaceKey::C)) by {
                assert(pred(all_keys()[2]));
            }
        } else {
            assert(all_keys().filter(pred).contains(FaceKey::D)) by {
                assert(pred(all_keys()[3]));
            }
        }
    }
    results
}

/// The card right behind `active_idx` blocks the action: it is of another
/// allegiance and has one of the given features.
pub open spec fn spec_action_prevented(
    cards: CardDefs,
    p: Seq<CardPtr>,
    feature: Features,
    active_idx: int,
    active_allegiance: Allegiance,
) -> bool {
    active_idx + 1 < p.len() && cards.face(p[active_idx + 1]).allegiance != active_allegiance
        && features_intersect(cards.face(p[active_idx + 1]).features, feature)
}

/// Whether the card behind the active one prevents its action.
pub fn is_action_prevented(
    cards: &CardDefs,
    pile: &Pile,
    feature: Features,
    active_idx: usize,
    active_allegiance: Allegiance,
) -> (r: bool)
    requires
        pile_valid(*cards, pile_cards(*pile)),
        active_idx < usize::MAX,
    ensures
        r == spec_action_prevented(*cards, pile_cards(*pile), feature, active_idx as int, active_allegiance),
{
    if active_idx + 1 < pile_len(pile) {
        let infront = pile_get(pile, active_idx + 1);
        assert(cards.has_card(pile_cards(*pile)[active_idx + 1].card_id as int));
        let active_face = infront.get_active_face(cards);
        active_face.allegiance != active_allegiance && active_face.features.intersects(feature)
    } else {
        false
    }
}

/// Whether the card at `target_idx` can take damage: never when it is
/// invulnerable; a wisp only when no neighbour shares its allegiance.
pub open spec fn spec_can_be_damaged(cards: CardDefs, p: Seq<CardPtr>, t: int) -> bool {
    let face = cards.face(p[t]);
    if face.features.bits & FEATURE_INVULNERABLE != 0 {
        false
    } else if face.features.bits & FEATURE_WISP == 0 {
        true
    } else {
        !(t >= 1 && cards.face(p[t - 1]).allegiance == face.allegiance) && !(t < p.len() - 1
            && cards.face(p[t + 1]).allegiance == face.allegiance)
    }
}

/// Whether the card at `target_idx` can take damage: see
/// `spec_can_be_damaged`.
pub fn can_card_be_damaged(cards: &CardDefs, pile: &Pile, target_idx: usize) -> (r: bool)
    requires
        pile_valid(*cards, pile_cards(*pile)),
        target_idx < pile_cards(*pile).len(),
    ensures
        r == spec_can_be_damaged(*cards, pile_cards(*pile), target_idx as int),
{
    let ghost p = pile_cards(*pile);
    let target_card = pile_get(pile, target_idx);
    assert(cards.has_card(p[target_idx as int].card_id as int));
    let target_face = target_card.get_active_face(cards);
    if target_face.features.intersects(Features::invulnerable()) {
        return false;
    }
    if !target_face.features.intersects(Features::from_bits(FEATURE_WISP)) {
        return true;
    }
    let target_allegiance = target_face.allegiance;
    if target_idx >= 1 {
        let card_above = pile_get(pile, target_idx - 1);
        assert(cards.has_card(p[target_idx - 1].card_id as int));
        if target_allegiance == card_above.get_active_face(cards).allegiance {
            return false;
        }
    }
    if target_idx < pile_len(pile) - 1 {
        let card_below = pile_get(pile, target_idx + 1);
        assert(cards.has_card(p[target_idx + 1].card_id as int));
        if target_allegiance == card_below.get_active_face(cards).allegiance {
            return false;
        }
    }
    true
}

/// Which feature of the card behind can stop an action: web stops moves,
/// venom stops attacks and heals, and nothing stops the others.
pub open spec fn spider_feature_for_action(action: Action) -> Option<(u16, SkipActionReason)> {
    match action {
        Action::Pull(_) | Action::Push(_) | Action::Quicken(_) | Action::Delay(_)
        | Action::Teleport => Some((FEATURE_WEB, SkipActionReason::Web)),
        Action::Death | Action::CallAssist | Action::CallAssistTwice | Action::Inspire
        | Action::Hypnosis => None,
        _ => Some((FEATURE_VENOM, SkipActionReason::Venom)),
    }
}

/// The event that skips the action when a spider card behind the active
/// card stops it, if one does.
pub fn maybe_skip_action_event_for_spider_feature(
    cards: &CardDefs,
    pile: &Pile,
    active_idx: usize,
    active_allegiance: Allegiance,
    wrapped_action: &WrappedAction,
) -> (r: Option<Event>)
    requires
        pile_valid(*cards, pile_cards(*pile)),
        active_idx < usize::MAX,
    ensures
        match spider_feature_for_action(wrapped_action.action) {
            Some((bits, reason)) => if spec_action_prevented(
                *cards,
                pile_cards(*pile),
                Features { bits },
                active_idx as int,
                active_allegiance,
            ) {
                r == Some(Event::SkipAction(pile_cards(*pile)[active_idx as int], *wrapped_action, reason))
            } else {
                r.is_none()
            },
            None => r.is_none(),
        },
{
    match wrapped_action.action {
        Action::Pull(_) | Action::Push(_) | Action::Quicken(_) | Action::Delay(_)
        | Action::Teleport => {
            if is_action_prevented(cards, pile, Features::web(), active_idx, active_allegiance) {
                Some(Event::SkipAction(pile_get(pile, active_idx), *wrapped_action, SkipActionReason::Web))
            } else {
                None
            }
        },
        Action::Hit(_) | Action::Claws(_) | Action::SpacedClaws(_) | Action::Void
        | Action::Ablaze | Action::Fireball | Action::FireballTwice | Action::Arrow
        | Action::ArrowTwice | Action::Heal | Action::Revive | Action::Rats | Action::Maneuver
        | Action::Backstab | Action::BackstabTwice | Action::Poison => {
            if is_action_prevented(cards, pile, Features::venom(), active_idx, active_allegiance) {
                Some(Event::SkipAction(pile_get(pile, active_idx), *wrapped_action, SkipActionReason::Venom))
            } else {
                None
            }
        },
        Action::Death | Action::CallAssist | Action::CallAssistTwice | Action::Inspire
        | Action::Hypnosis => None,
    }
}

} // verus!
