use handy_core::card_defs::CardDefs;
use handy_core::card_ptr::CardPtr;
use handy_core::event_text::{compact_pile_string, format_event_for_cli, format_multiple_events, Segment};
use handy_core::pile_parse::string_to_pile;
use handy_core::primitives::{
    Action, ConditionCostType, EndPileMoveType, Event, FaceKey, HitType, MoveType, Range, ReactionTrigger, SelfAction,
    SkipActionReason, Target, WrappedAction,
};
use handy_core::used_cards::{PositionedCard, UsedCards};

fn plain(segments: &[Segment]) -> String {
    segments
        .iter()
        .map(|s| match s {
            Segment::Text(t) => t.clone(),
            Segment::Card(c) => {
                let face = match c.key {
                    FaceKey::A => "A",
                    FaceKey::B => "B",
                    FaceKey::C => "C",
                    FaceKey::D => "D",
                };
                format!("{}{}", c.card_id, face)
            }
        })
        .collect::<Vec<String>>()
        .concat()
}

fn card(id: u8, key: FaceKey) -> CardPtr {
    CardPtr::new_from_id(id, key)
}

#[test]
fn describes_events() {
    let c = card(3, FaceKey::B);
    let d = card(7, FaceKey::D);
    let hit = WrappedAction::new(Action::Hit(Range::Int(4)), Target::Any);
    let cases: Vec<(Event, &str)> = vec![
        (Event::PickRow(1, 0, c), "3B: Row 1"),
        (Event::SkipTurn(c), "Skip Turn"),
        (Event::BottomCard, "Bottom"),
        (Event::SkipAction(c, hit, SkipActionReason::Choice), "3B: Skip Hit(Int(4)) Any"),
        (Event::StartAction(c, hit), "3B: Start Hit(Int(4)) Any"),
        (Event::SkipHit(HitType::Arrow), "Skip Arrow"),
        (Event::AttackCard(2, c, HitType::Hit), "3B@2: Targeted (Hit)"),
        (Event::Damage(2, c, HitType::Trap, FaceKey::C), "3B@2: Damage(Trap)=>C"),
        (Event::WhiffHit(5, c, HitType::Claw), "WhiffHit(5, 3B, Claw)"),
        (Event::Death, "Death"),
        (Event::Void(4, c, FaceKey::D), "3B@4: Void=>D"),
        (Event::Inspire(1, c), "Inspire 3B@1"),
        (Event::Hypnosis(1, c), "Hypnosis(1, 3B)"),
        (Event::MoveTarget(6, c, MoveType::Delay), "Delay 3B@6"),
        (Event::MoveBy(6, c, MoveType::Quicken, 2), "Quicken by 2"),
        (Event::MoveResult(MoveType::Quicken, 2), "Perform move"),
        (Event::Pull(3, c), "Pull 3B@3"),
        (Event::Push(3, c), "Push 3B@3"),
        (Event::EndPileMoveResult(EndPileMoveType::Push), "Perform Push"),
        (Event::Teleport(1, c, 8, d), "Teleport 3B@1 <> 7D@8"),
        (Event::Mandatory(c, SelfAction::Flip), "3B: Forced(Flip)"),
        (Event::FireballTarget(2, c), "3B@2: Fireball"),
        (Event::Ablaze(1, c, 8, d), "Ablaze 3B@1<>7D@8"),
        (Event::ReactAssistUsed(2, c, ReactionTrigger::Dodge, SelfAction::Rotate), "3B@2: Dodge React Assisted(Rotate)"),
        (Event::Heal(2, c), "3B@2: Heal"),
        (Event::Revive(2, c), "3B@2: Revive"),
        (Event::Rat(2, c), "Rat(2, 3B)"),
        (Event::Block(2, c, None, FaceKey::A), "3B@2: Block(None)"),
        (Event::Dodge(2, c, Some(SelfAction::Rotate), FaceKey::A), "3B@2: Dodge(Some(Rotate))"),
        (Event::OnHurt(2, c), "3B@2: Hurt"),
        (Event::Maneuver(2, c), "3B@2: Maneuver"),
        (Event::Swarm(2, c), "3B@2: Swarm"),
        (Event::UseActionAssistCard(2, c), "3B@2: Assist"),
        (Event::UseActionAssistRow(2, c, 1), "3B@2: Assist Row 1"),
        (Event::SkipReactActionAssist, "Skip React Action"),
    ];
    for (event, expected) in cases {
        assert_eq!(plain(&format_event_for_cli(&event)), expected);
    }
}

#[test]
fn describes_card_lists() {
    let mut costs = UsedCards::new();
    costs.push(PositionedCard { index: 3, card: card(12, FaceKey::A) });
    costs.push(PositionedCard { index: 5, card: card(14, FaceKey::C) });
    let e = Event::PayRowConditionCosts(ConditionCostType::Energy, costs);
    assert_eq!(plain(&format_event_for_cli(&e)), "12A@3 14C@5: Energy");

    let empty = Event::PayRowConditionCosts(ConditionCostType::Energy, UsedCards::new());
    assert_eq!(plain(&format_event_for_cli(&empty)), ": Energy");

    let mods = Event::UseCardModifiers(costs, -1, WrappedAction::new(Action::Hit(Range::Int(2)), Target::Enemy));
    assert_eq!(
        plain(&format_event_for_cli(&mods)),
        "UseCardModifiers([(3, 12A), (5, 14C)], -1, WrappedAction { action: Hit(Int(2)), target: Enemy })"
    );
}

#[test]
fn describes_several_events_and_piles() {
    let c = card(3, FaceKey::B);
    let events = [Event::PickRow(0, 0, c), Event::BottomCard];
    assert_eq!(plain(&format_multiple_events(&events)), "3B: Row 0|Bottom");
    assert_eq!(plain(&format_multiple_events(&[])), "");

    let cards = CardDefs::new();
    let pile = string_to_pile(&cards, "1A 2b 3C");
    assert_eq!(plain(&compact_pile_string(&pile, " ")), "1A 2B 3C");
    assert_eq!(plain(&compact_pile_string(&pile, ", ")), "1A, 2B, 3C");
}

#[test]
fn written_piles_read_back() {
    let cards = CardDefs::new();
    for text in ["1A 2b 3C", "12D 7A 55B 59C 1A 2A 3A 4A 5A 6A 7B 8C", "9"] {
        let pile = string_to_pile(&cards, text);
        let written = plain(&compact_pile_string(&pile, " "));
        assert_eq!(string_to_pile(&cards, &written), pile);
    }
}
