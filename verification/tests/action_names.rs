use handy_core::action_names::{action_simple_name, format_wrapped_action, push_decimal};
use handy_core::primitives::{Action, ClawSpaceType, Range, StanceType, Target, WrappedAction};

#[test]
fn wrapped_actions_print_as_debug() {
    assert_eq!(format_wrapped_action(&WrappedAction::new(Action::Hit(Range::Int(4)), Target::Any)), "Hit(Int(4)) Any");
    assert_eq!(format_wrapped_action(&WrappedAction::new(Action::Pull(Range::Inf), Target::Ally)), "Pull(Inf) Ally");
    assert_eq!(
        format_wrapped_action(&WrappedAction::new(Action::SpacedClaws(ClawSpaceType::Even), Target::Enemy)),
        "SpacedClaws(Even) Enemy"
    );
    assert_eq!(
        format_wrapped_action(&WrappedAction::new(Action::Quicken(Range::Stance(StanceType::Fist)), Target::Ally)),
        "Quicken(Stance(Fist)) Ally"
    );
    assert_eq!(format_wrapped_action(&WrappedAction::new(Action::Claws(Range::Int(123)), Target::Enemy)), "Claws(Int(123)) Enemy");
    assert_eq!(format_wrapped_action(&WrappedAction::new(Action::ArrowTwice, Target::Enemy)), "ArrowTwice Enemy");
}

#[test]
fn wrapped_actions_print_like_derived_debug() {
    let samples = [
        WrappedAction::new(Action::Delay(Range::Int(10)), Target::Any),
        WrappedAction::new(Action::Push(Range::Stance(StanceType::Open)), Target::Enemy),
        WrappedAction::new(Action::Maneuver, Target::Ally),
        WrappedAction::new(Action::Rats, Target::Any),
    ];
    for w in samples {
        assert_eq!(format_wrapped_action(&w), format!("{:?} {:?}", w.action, w.target));
    }
}

#[test]
fn simple_names() {
    assert_eq!(action_simple_name(&WrappedAction::new(Action::SpacedClaws(ClawSpaceType::Odd), Target::Enemy)), "Claw I");
    assert_eq!(action_simple_name(&WrappedAction::new(Action::SpacedClaws(ClawSpaceType::Even), Target::Enemy)), "Claw II");
    assert_eq!(action_simple_name(&WrappedAction::new(Action::CallAssistTwice, Target::Ally)), "Assist x2");
    assert_eq!(action_simple_name(&WrappedAction::new(Action::Claws(Range::Inf), Target::Enemy)), "Claw");
    assert_eq!(action_simple_name(&WrappedAction::new(Action::FireballTwice, Target::Enemy)), "Fireball x2");
    assert_eq!(action_simple_name(&WrappedAction::new(Action::Hit(Range::Int(1)), Target::Enemy)), "Hit");
}

#[test]
fn decimals() {
    let mut s = String::from("n=");
    push_decimal(&mut s, 0);
    assert_eq!(s, "n=0");
    let mut t = String::new();
    push_decimal(&mut t, 1907);
    assert_eq!(t, "1907");
    let mut u = String::new();
    push_decimal(&mut u, usize::MAX);
    assert_eq!(u, usize::MAX.to_string());
}
