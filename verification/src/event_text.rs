//! The one-line descriptions of events that the command line prints.
//!
//! A description is a list of segments: plain text, and cards. How a card
//! is drawn (its id and face, in the colour of its side when the terminal
//! shows colours) is left to the caller; everything else is decided here.
use vstd::prelude::*;
use vstd::string::*;
use crate::action_names::{action_debug, decimal, format_wrapped_action, push_action, push_decimal, target_debug};
use crate::card_ptr::CardPtr;
use crate::primitives::{
    EndPileMoveType, Event, FaceKey, HitType, MoveType, ReactionTrigger, SelfAction, Target, WrappedAction,
};
use crate::used_cards::UsedCards;

verus! {

/// A piece of a description: plain text, or a card.
pub enum Segment {
    Text(String),
    Card(CardPtr),
}

/// A segment as plain values: its text, or the card it shows.
pub open spec fn segment_view(s: Segment) -> (Seq<char>, Option<CardPtr>) {
    match s {
        Segment::Text(t) => (t@, None),
        Segment::Card(c) => (Seq::empty(), Some(c)),
    }
}

/// The segments of a list, as plain values.
pub open spec fn segments_view(v: Seq<Segment>) -> Seq<(Seq<char>, Option<CardPtr>)> {
    v.map_values(|s: Segment| segment_view(s))
}

/// A text segment.
pub open spec fn txt(s: Seq<char>) -> Seq<(Seq<char>, Option<CardPtr>)> {
    seq![(s, None::<CardPtr>)]
}

/// A card segment.
pub open spec fn crd(c: CardPtr) -> Seq<(Seq<char>, Option<CardPtr>)> {
    seq![(Seq::<char>::empty(), Some(c))]
}

/// A card and its position: `1A@3`.
pub open spec fn card_at(c: CardPtr, i: usize) -> Seq<(Seq<char>, Option<CardPtr>)> {
    crd(c) + txt("@"@) + txt(decimal(i as nat))
}

/// How a hit type prints.
pub open spec fn hit_type_name(h: HitType) -> Seq<char> {
    match h {
        HitType::Hit => "Hit"@,
        HitType::Arrow => "Arrow"@,
        HitType::Trap => "Trap"@,
        HitType::Claw => "Claw"@,
        HitType::Ablaze => "Ablaze"@,
        HitType::Fireball => "Fireball"@,
        HitType::Backstab => "Backstab"@,
        HitType::Poison => "Poison"@,
        HitType::Roll => "Roll"@,
    }
}

fn hit_type_str(h: HitType) -> (r: &'static str)
    ensures
        r@ == hit_type_name(h),
{
    match h {
        HitType::Hit => "Hit",
        HitType::Arrow => "Arrow",
        HitType::Trap => "Trap",
        HitType::Claw => "Claw",
        HitType::Ablaze => "Ablaze",
        HitType::Fireball => "Fireball",
        HitType::Backstab => "Backstab",
        HitType::Poison => "Poison",
        HitType::Roll => "Roll",
    }
}

/// How a face key prints.
pub open spec fn face_name(f: FaceKey) -> Seq<char> {
    match f {
        FaceKey::A => "A"@,
        FaceKey::B => "B"@,
        FaceKey::C => "C"@,
        FaceKey::D => "D"@,
    }
}

fn face_str(f: FaceKey) -> (r: &'static str)
    ensures
        r@ == face_name(f),
{
    match f {
        FaceKey::A => "A",
        FaceKey::B => "B",
        FaceKey::C => "C",
        FaceKey::D => "D",
    }
}

/// How a move type prints.
pub open spec fn move_type_name(m: MoveType) -> Seq<char> {
    match m {
        MoveType::Quicken => "Quicken"@,
        MoveType::Delay => "Delay"@,
    }
}

fn move_type_str(m: MoveType) -> (r: &'static str)
    ensures
        r@ == move_type_name(m),
{
    match m {
        MoveType::Quicken => "Quicken",
        MoveType::Delay => "Delay",
    }
}

/// How an end-of-pile move prints.
pub open spec fn end_move_name(m: EndPileMoveType) -> Seq<char> {
    match m {
        EndPileMoveType::Pull => "Pull"@,
        EndPileMoveType::Push => "Push"@,
    }
}

fn end_move_str(m: EndPileMoveType) -> (r: &'static str)
    ensures
        r@ == end_move_name(m),
{
    match m {
        EndPileMoveType::Pull => "Pull",
        EndPileMoveType::Push => "Push",
    }
}

/// How a self action prints.
pub open spec fn self_action_name(a: SelfAction) -> Seq<char> {
    match a {
        SelfAction::Rotate => "Rotate"@,
        SelfAction::Flip => "Flip"@,
    }
}

fn self_action_str(a: SelfAction) -> (r: &'static str)
    ensures
        r@ == self_action_name(a),
{
    match a {
        SelfAction::Rotate => "Rotate",
        SelfAction::Flip => "Flip",
    }
}

/// How an optional self action prints: `None` or `Some(Rotate)`.
pub open spec fn opt_self_action_name(a: Option<SelfAction>) -> Seq<char> {
    match a {
        None => "None"@,
        Some(SelfAction::Rotate) => "Some(Rotate)"@,
        Some(SelfAction::Flip) => "Some(Flip)"@,
    }
}

fn opt_self_action_str(a: Option<SelfAction>) -> (r: &'static str)
    ensures
        r@ == opt_self_action_name(a),
{
    match a {
        None => "None",
        Some(SelfAction::Rotate) => "Some(Rotate)",
        Some(SelfAction::Flip) => "Some(Flip)",
    }
}

/// How a reaction trigger prints.
pub open spec fn trigger_name(t: ReactionTrigger) -> Seq<char> {
    match t {
        ReactionTrigger::Block => "Block"@,
        ReactionTrigger::Dodge => "Dodge"@,
    }
}

fn trigger_str(t: ReactionTrigger) -> (r: &'static str)
    ensures
        r@ == trigger_name(t),
{
    match t {
        ReactionTrigger::Block => "Block",
        ReactionTrigger::Dodge => "Dodge",
    }
}

/// A whole number, with a minus sign when it is negative.
pub open spec fn signed_decimal(a: int) -> Seq<char> {
    if a < 0 {
        "-"@ + decimal((-a) as nat)
    } else {
        decimal(a as nat)
    }
}

/// An action with its target, as `WrappedAction { action: .., target: .. }`.
pub open spec fn wrapped_action_debug(w: WrappedAction) -> Seq<char> {
    "WrappedAction { action: "@ + action_debug(w.action) + ", target: "@ + target_debug(w.target) + " }"@
}

/// Positioned cards, each as `1A@3`, separated by spaces.
pub open spec fn used_cards_at(cards: Seq<crate::used_cards::PositionedCard>) -> Seq<(Seq<char>, Option<CardPtr>)>
    decreases cards.len(),
{
    if cards.len() == 0 {
        Seq::empty()
    } else if cards.len() == 1 {
        card_at(cards[0].card, cards[0].index)
    } else {
        used_cards_at(cards.drop_last()) + txt(" "@) + card_at(cards.last().card, cards.last().index)
    }
}

/// Positioned cards as a list of pairs: `[(3, 1A), (4, 2B)]`.
pub open spec fn used_cards_list(cards: Seq<crate::used_cards::PositionedCard>) -> Seq<(Seq<char>, Option<CardPtr>)>
    decreases cards.len(),
{
    if cards.len() == 0 {
        Seq::empty()
    } else if cards.len() == 1 {
        txt("("@) + txt(decimal(cards[0].index as nat)) + txt(", "@) + crd(cards[0].card) + txt(")"@)
    } else {
        used_cards_list(cards.drop_last()) + txt(", "@) + txt("("@) + txt(decimal(cards.last().index as nat))
            + txt(", "@) + crd(cards.last().card) + txt(")"@)
    }
}

/// The description of an event.
pub open spec fn event_description(event: Event) -> Seq<(Seq<char>, Option<CardPtr>)> {
    match event {
        Event::PickRow(row, _, c) => crd(c) + txt(": Row "@) + txt(decimal(row as nat)),
        Event::SkipTurn(_) => txt("Skip Turn"@),
        Event::BottomCard => txt("Bottom"@),
        Event::SkipAction(c, w, _) => crd(c) + txt(": Skip "@) + txt(
            action_debug(w.action) + " "@ + target_debug(w.target),
        ),
        Event::SkipHit(h) => txt("Skip "@) + txt(hit_type_name(h)),
        Event::AttackCard(i, c, h) => card_at(c, i) + txt(": Targeted ("@) + txt(hit_type_name(h)) + txt(")"@),
        Event::Damage(i, c, h, f) => card_at(c, i) + txt(": Damage("@) + txt(hit_type_name(h)) + txt(")=>"@) + txt(
            face_name(f),
        ),
        Event::WhiffHit(i, c, h) => txt("WhiffHit("@) + txt(decimal(i as nat)) + txt(", "@) + crd(c) + txt(", "@)
            + txt(hit_type_name(h)) + txt(")"@),
        Event::Death => txt("Death"@),
        Event::Void(i, c, f) => card_at(c, i) + txt(": Void=>"@) + txt(face_name(f)),
        Event::Inspire(i, c) => txt("Inspire "@) + card_at(c, i),
        Event::Hypnosis(i, c) => txt("Hypnosis("@) + txt(decimal(i as nat)) + txt(", "@) + crd(c) + txt(")"@),
        Event::MoveTarget(i, c, m) => txt(move_type_name(m)) + txt(" "@) + card_at(c, i),
        Event::MoveBy(_, _, m, amount) => txt(move_type_name(m)) + txt(" by "@) + txt(decimal(amount as nat)),
        Event::MoveResult(_, _) => txt("Perform move"@),
        Event::Pull(i, c) => txt("Pull "@) + card_at(c, i),
        Event::Push(i, c) => txt("Push "@) + card_at(c, i),
        Event::EndPileMoveResult(m) => txt("Perform "@) + txt(end_move_name(m)),
        Event::Teleport(i1, c1, i2, c2) => txt("Teleport "@) + card_at(c1, i1) + txt(" <> "@) + card_at(c2, i2),
        Event::Mandatory(c, a) => crd(c) + txt(": Forced("@) + txt(self_action_name(a)) + txt(")"@),
        Event::FireballTarget(i, c) => card_at(c, i) + txt(": Fireball"@),
        Event::Ablaze(i1, c1, i2, c2) => txt("Ablaze "@) + card_at(c1, i1) + txt("<>"@) + card_at(c2, i2),
        Event::ReactAssistUsed(i, c, t, a) => card_at(c, i) + txt(": "@) + txt(trigger_name(t)) + txt(
            " React Assisted("@,
        ) + txt(self_action_name(a)) + txt(")"@),
        Event::Heal(i, c) => card_at(c, i) + txt(": Heal"@),
        Event::Revive(i, c) => card_at(c, i) + txt(": Revive"@),
        Event::Rat(i, c) => txt("Rat("@) + txt(decimal(i as nat)) + txt(", "@) + crd(c) + txt(")"@),
        Event::Block(i, c, cost, _) => card_at(c, i) + txt(": Block("@) + txt(opt_self_action_name(cost)) + txt(
            ")"@,
        ),
        Event::Dodge(i, c, cost, _) => card_at(c, i) + txt(": Dodge("@) + txt(opt_self_action_name(cost)) + txt(
            ")"@,
        ),
        Event::OnHurt(i, c) => card_at(c, i) + txt(": Hurt"@),
        Event::PayRowConditionCosts(_, cards) => used_cards_at(cards.view()) + txt(": Energy"@),
        Event::UseCardModifiers(mods, amount, w) => txt("UseCardModifiers(["@) + used_cards_list(mods.view())
            + txt("], "@) + txt(signed_decimal(amount as int)) + txt(", "@) + txt(wrapped_action_debug(w)) + txt(
            ")"@,
        ),
        Event::Maneuver(i, c) => card_at(c, i) + txt(": Maneuver"@),
        Event::Swarm(i, c) => card_at(c, i) + txt(": Swarm"@),
        Event::UseActionAssistCard(i, c) => card_at(c, i) + txt(": Assist"@),
        Event::UseActionAssistRow(i, c, row) => card_at(c, i) + txt(": Assist Row "@) + txt(decimal(row as nat)),
        Event::SkipReactActionAssist => txt("Skip React Action"@),
        Event::StartAction(c, w) => crd(c) + txt(": Start "@) + txt(
            action_debug(w.action) + " "@ + target_debug(w.target),
        ),
    }
}

fn push_text(out: &mut Vec<Segment>, s: &str)
    ensures
        segments_view(final(out)@) == segments_view(old(out)@) + txt(s@),
{
    out.push(Segment::Text(String::from_str(s)));
    assert(segments_view(out@) =~= segments_view(old(out)@) + txt(s@));
}

fn push_string(out: &mut Vec<Segment>, s: String)
    ensures
        segments_view(final(out)@) == segments_view(old(out)@) + txt(s@),
{
    let ghost v = s@;
    out.push(Segment::Text(s));
    assert(segments_view(out@) =~= segments_view(old(out)@) + txt(v));
}

fn push_card(out: &mut Vec<Segment>, c: CardPtr)
    ensures
        segments_view(final(out)@) == segments_view(old(out)@) + crd(c),
{
    out.push(Segment::Card(c));
    assert(segments_view(out@) =~= segments_view(old(out)@) + crd(c));
}

fn push_number(out: &mut Vec<Segment>, n: usize)
    ensures
        segments_view(final(out)@) == segments_view(old(out)@) + txt(decimal(n as nat)),
{
    let mut s = String::new();
    push_decimal(&mut s, n);
    assert(s@ =~= decimal(n as nat));
    push_string(out, s);
}

fn push_card_at(out: &mut Vec<Segment>, c: CardPtr, i: usize)
    ensures
        segments_view(final(out)@) == segments_view(old(out)@) + card_at(c, i),
{
    proof {
        reveal_strlit("@");
    }
    push_card(out, c);
    push_text(out, "@");
    push_number(out, i);
    assert(segments_view(out@) =~= segments_view(old(out)@) + card_at(c, i));
}

fn push_signed(out: &mut Vec<Segment>, a: i8)
    ensures
        segments_view(final(out)@) == segments_view(old(out)@) + txt(signed_decimal(a as int)),
{
    let mut s = String::new();
    if a < 0 {
        s.append("-");
        let m: i16 = -(a as i16);
        push_decimal(&mut s, m as usize);
    } else {
        push_decimal(&mut s, a as usize);
    }
    assert(s@ =~= signed_decimal(a as int));
    push_string(out, s);
}

fn push_wrapped_action_debug(out: &mut Vec<Segment>, w: WrappedAction)
    ensures
        segments_view(final(out)@) == segments_view(old(out)@) + txt(wrapped_action_debug(w)),
{
    let mut s = String::from_str("WrappedAction { action: ");
    push_action(&mut s, w.action);
    s.append(", target: ");
    match w.target {
        Target::Ally => s.append("Ally"),
        Target::Enemy => s.append("Enemy"),
        Target::Any => s.append("Any"),
    }
    s.append(" }");
    assert(s@ =~= wrapped_action_debug(w));
    push_string(out, s);
}

fn push_used_cards_at(out: &mut Vec<Segment>, cards: &UsedCards)
    requires
        cards.wf(),
    ensures
        segments_view(final(out)@) == segments_view(old(out)@) + used_cards_at(cards.view()),
{
    let n = cards.len();
    let mut k: usize = 0;
    while k < n
        invariant
            cards.wf(),
            n == cards.view().len(),
            k <= n,
            segments_view(out@) == segments_view(old(out)@) + used_cards_at(cards.view().subrange(0, k as int)),
        decreases n - k,
    {
        let ghost before = segments_view(out@);
        let item = cards.get(k);
        if k > 0 {
            push_text(out, " ");
        }
        push_card_at(out, item.card, item.index);
        proof {
            let pre = cards.view().subrange(0, k as int);
            let cur = cards.view().subrange(0, k + 1);
            assert(cur.drop_last() =~= pre);
            assert(cur.last() == item);
            if k == 0 {
                assert(pre =~= Seq::<crate::used_cards::PositionedCard>::empty());
                assert(segments_view(out@) =~= segments_view(old(out)@) + used_cards_at(cur));
            } else {
                assert(segments_view(out@) =~= segments_view(old(out)@) + used_cards_at(cur));
            }
        }
        k += 1;
    }
    assert(cards.view().subrange(0, n as int) =~= cards.view());
}

fn push_used_cards_list(out: &mut Vec<Segment>, cards: &UsedCards)
    requires
        cards.wf(),
    ensures
        segments_view(final(out)@) == segments_view(old(out)@) + used_cards_list(cards.view()),
{
    let n = cards.len();
    let mut k: usize = 0;
    while k < n
        invariant
            cards.wf(),
            n == cards.view().len(),
            k <= n,
            segments_view(out@) == segments_view(old(out)@) + used_cards_list(cards.view().subrange(0, k as int)),
        decreases n - k,
    {
        let item = cards.get(k);
        if k > 0 {
            push_text(out, ", ");
        }
        push_text(out, "(");
        push_number(out, item.index);
        push_text(out, ", ");
        push_card(out, item.card);
        push_text(out, ")");
        proof {
            let pre = cards.view().subrange(0, k as int);
            let cur = cards.view().subrange(0, k + 1);
            assert(cur.drop_last() =~= pre);
            assert(cur.last() == item);
            if k == 0 {
                assert(pre =~= Seq::<crate::used_cards::PositionedCard>::empty());
            }
            assert(segments_view(out@) =~= segments_view(old(out)@) + used_cards_list(cur));
        }
        k += 1;
    }
    assert(cards.view().subrange(0, n as int) =~= cards.view());
}

/// The description of an event, as the command line prints it.
pub fn format_event_for_cli(event: &Event) -> (r: Vec<Segment>)
    requires
        match *event {
            Event::PayRowConditionCosts(_, cards) => cards.wf(),
            Event::UseCardModifiers(mods, _, _) => mods.wf(),
            _ => true,
        },
    ensures
        segments_view(r@) == event_description(*event),
{
    let mut out: Vec<Segment> = Vec::new();
    match *event {
        Event::PickRow(row, _, c) => {
            push_card(&mut out, c);
            push_text(&mut out, ": Row ");
            push_number(&mut out, row);
        },
        Event::SkipTurn(_) => push_text(&mut out, "Skip Turn"),
        Event::BottomCard => push_text(&mut out, "Bottom"),
        Event::SkipAction(c, w, _) => {
            push_card(&mut out, c);
            push_text(&mut out, ": Skip ");
            push_string(&mut out, format_wrapped_action(&w));
        },
        Event::SkipHit(h) => {
            push_text(&mut out, "Skip ");
            push_text(&mut out, hit_type_str(h));
        },
        Event::AttackCard(i, c, h) => {
            push_card_at(&mut out, c, i);
            push_text(&mut out, ": Targeted (");
            push_text(&mut out, hit_type_str(h));
            push_text(&mut out, ")");
        },
        Event::Damage(i, c, h, f) => {
            push_card_at(&mut out, c, i);
            push_text(&mut out, ": Damage(");
            push_text(&mut out, hit_type_str(h));
            push_text(&mut out, ")=>");
            push_text(&mut out, face_str(f));
        },
        Event::WhiffHit(i, c, h) => {
            push_text(&mut out, "WhiffHit(");
            push_number(&mut out, i);
            push_text(&mut out, ", ");
            push_card(&mut out, c);
            push_text(&mut out, ", ");
            push_text(&mut out, hit_type_str(h));
            push_text(&mut out, ")");
        },
        Event::Death => push_text(&mut out, "Death"),
        Event::Void(i, c, f) => {
            push_card_at(&mut out, c, i);
            push_text(&mut out, ": Void=>");
            push_text(&mut out, face_str(f));
        },
        Event::Inspire(i, c) => {
            push_text(&mut out, "Inspire ");
            push_card_at(&mut out, c, i);
        },
        Event::Hypnosis(i, c) => {
            push_text(&mut out, "Hypnosis(");
            push_number(&mut out, i);
            push_text(&mut out, ", ");
            push_card(&mut out, c);
            push_text(&mut out, ")");
        },
        Event::MoveTarget(i, c, m) => {
            push_text(&mut out, move_type_str(m));
            push_text(&mut out, " ");
            push_card_at(&mut out, c, i);
        },
        Event::MoveBy(_, _, m, amount) => {
            push_text(&mut out, move_type_str(m));
            push_text(&mut out, " by ");
            push_number(&mut out, amount);
        },
        Event::MoveResult(_, _) => push_text(&mut out, "Perform move"),
        Event::Pull(i, c) => {
            push_text(&mut out, "Pull ");
            push_card_at(&mut out, c, i);
        },
        Event::Push(i, c) => {
            push_text(&mut out, "Push ");
            push_card_at(&mut out, c, i);
        },
        Event::EndPileMoveResult(m) => {
            push_text(&mut out, "Perform ");
            push_text(&mut out, end_move_str(m));
        },
        Event::Teleport(i1, c1, i2, c2) => {
            push_text(&mut out, "Teleport ");
            push_card_at(&mut out, c1, i1);
            push_text(&mut out, " <> ");
            push_card_at(&mut out, c2, i2);
        },
        Event::Mandatory(c, a) => {
            push_card(&mut out, c);
            push_text(&mut out, ": Forced(");
            push_text(&mut out, self_action_str(a));
            push_text(&mut out, ")");
        },
        Event::FireballTarget(i, c) => {
            push_card_at(&mut out, c, i);
            push_text(&mut out, ": Fireball");
        },
        Event::Ablaze(i1, c1, i2, c2) => {
            push_text(&mut out, "Ablaze ");
            push_card_at(&mut out, c1, i1);
            push_text(&mut out, "<>");
            push_card_at(&mut out, c2, i2);
        },
        Event::ReactAssistUsed(i, c, t, a) => {
            push_card_at(&mut out, c, i);
            push_text(&mut out, ": ");
            push_text(&mut out, trigger_str(t));
            push_text(&mut out, " React Assisted(");
            push_text(&mut out, self_action_str(a));
            push_text(&mut out, ")");
        },
        Event::Heal(i, c) => {
            push_card_at(&mut out, c, i);
            push_text(&mut out, ": Heal");
        },
        Event::Revive(i, c) => {
            push_card_at(&mut out, c, i);
            push_text(&mut out, ": Revive");
        },
        Event::Rat(i, c) => {
            push_text(&mut out, "Rat(");
            push_number(&mut out, i);
            push_text(&mut out, ", ");
            push_card(&mut out, c);
            push_text(&mut out, ")");
        },
        Event::Block(i, c, cost, _) => {
            push_card_at(&mut out, c, i);
            push_text(&mut out, ": Block(");
            push_text(&mut out, opt_self_action_str(cost));
            push_text(&mut out, ")");
        },
        Event::Dodge(i, c, cost, _) => {
            push_card_at(&mut out, c, i);
            push_text(&mut out, ": Dodge(");
            push_text(&mut out, opt_self_action_str(cost));
            push_text(&mut out, ")");
        },
        Event::OnHurt(i, c) => {
            push_card_at(&mut out, c, i);
            push_text(&mut out, ": Hurt");
        },
        Event::PayRowConditionCosts(_, cards) => {
            push_used_cards_at(&mut out, &cards);
            push_text(&mut out, ": Energy");
        },
        Event::UseCardModifiers(mods, amount, w) => {
            push_text(&mut out, "UseCardModifiers([");
            push_used_cards_list(&mut out, &mods);
            push_text(&mut out, "], ");
            push_signed(&mut out, amount);
            push_text(&mut out, ", ");
            push_wrapped_action_debug(&mut out, w);
            push_text(&mut out, ")");
        },
        Event::Maneuver(i, c) => {
            push_card_at(&mut out, c, i);
            push_text(&mut out, ": Maneuver");
        },
        Event::Swarm(i, c) => {
            push_card_at(&mut out, c, i);
            push_text(&mut out, ": Swarm");
        },
        Event::UseActionAssistCard(i, c) => {
            push_card_at(&mut out, c, i);
            push_text(&mut out, ": Assist");
        },
        Event::UseActionAssistRow(i, c, row) => {
            push_card_at(&mut out, c, i);
            push_text(&mut out, ": Assist Row ");
            push_number(&mut out, row);
        },
        Event::SkipReactActionAssist => push_text(&mut out, "Skip React Action"),
        Event::StartAction(c, w) => {
            push_card(&mut out, c);
            push_text(&mut out, ": Start ");
            push_string(&mut out, format_wrapped_action(&w));
        },
    }
    assert(segments_view(out@) =~= event_description(*event));
    out
}

/// The descriptions of several events, separated by `|`.
pub open spec fn events_description(events: Seq<Event>) -> Seq<(Seq<char>, Option<CardPtr>)>
    decreases events.len(),
{
    if events.len() == 0 {
        Seq::empty()
    } else if events.len() == 1 {
        event_description(events[0])
    } else {
        events_description(events.drop_last()) + txt("|"@) + event_description(events.last())
    }
}

/// The event's card lists are well formed.
pub open spec fn event_wf(event: Event) -> bool {
    match event {
        Event::PayRowConditionCosts(_, cards) => cards.wf(),
        Event::UseCardModifiers(mods, _, _) => mods.wf(),
        _ => true,
    }
}

/// The descriptions of the events, separated by `|`.
pub fn format_multiple_events(events: &[Event]) -> (r: Vec<Segment>)
    requires
        forall|i: int| 0 <= i < events@.len() ==> event_wf(#[trigger] events@[i]),
    ensures
        segments_view(r@) == events_description(events@),
{
    let mut out: Vec<Segment> = Vec::new();
    let mut k: usize = 0;
    while k < events.len()
        invariant
            k <= events@.len(),
            forall|i: int| 0 <= i < events@.len() ==> event_wf(#[trigger] events@[i]),
            segments_view(out@) == events_description(events@.subrange(0, k as int)),
        decreases events@.len() - k,
    {
        let ghost before = segments_view(out@);
        if k > 0 {
            push_text(&mut out, "|");
        }
        assert(event_wf(events@[k as int]));
        let mut described = format_event_for_cli(&events[k]);
        let ghost piece = segments_view(described@);
        out.append(&mut described);
        proof {
            let cur = events@.subrange(0, k + 1);
            assert(cur.drop_last() =~= events@.subrange(0, k as int));
            assert(cur.last() == events@[k as int]);
            if k == 0 {
                assert(segments_view(out@) =~= piece);
            } else {
                assert(segments_view(out@) =~= before + txt("|"@) + piece);
            }
            assert(segments_view(out@) =~= events_description(cur));
        }
        k += 1;
    }
    assert(events@.subrange(0, events@.len() as int) =~= events@);
    out
}


/// The cards of a pile, top first, with `sep` between them.
pub open spec fn pile_description(cards: Seq<CardPtr>, sep: Seq<char>) -> Seq<(Seq<char>, Option<CardPtr>)>
    decreases cards.len(),
{
    if cards.len() == 0 {
        Seq::empty()
    } else if cards.len() == 1 {
        crd(cards[0])
    } else {
        pile_description(cards.drop_last(), sep) + txt(sep) + crd(cards.last())
    }
}

/// The cards of a pile, top first, with `sep` between them.
pub fn compact_pile_string(pile: &crate::pile::Pile, sep: &str) -> (r: Vec<Segment>)
    ensures
        segments_view(r@) == pile_description(crate::pile::pile_cards(*pile), sep@),
{
    let ghost p = crate::pile::pile_cards(*pile);
    let n = crate::pile::pile_len(pile);
    let mut out: Vec<Segment> = Vec::new();
    let mut k: usize = 0;
    while k < n
        invariant
            p == crate::pile::pile_cards(*pile),
            n == p.len(),
            k <= n,
            segments_view(out@) == pile_description(p.subrange(0, k as int), sep@),
        decreases n - k,
    {
        let ghost before = segments_view(out@);
        if k > 0 {
            push_text(&mut out, sep);
        }
        push_card(&mut out, crate::pile::pile_get(pile, k));
        proof {
            let cur = p.subrange(0, k + 1);
            assert(cur.drop_last() =~= p.subrange(0, k as int));
            assert(cur.last() == p[k as int]);
            if k == 0 {
                assert(p.subrange(0, k as int) =~= Seq::<CardPtr>::empty());
            }
            assert(segments_view(out@) =~= pile_description(cur, sep@));
        }
        k += 1;
    }
    assert(p.subrange(0, n as int) =~= p);
    out
}

} // verus!
