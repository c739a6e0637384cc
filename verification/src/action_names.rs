//! Names of actions as the game prints them: the debug form
//! (`Hit(Int(4)) Any`) and the short name shown on cards (`Claw II`).
use vstd::prelude::*;
use vstd::string::*;
use crate::primitives::{Action, ClawSpaceType, Range, StanceType, Target, WrappedAction};

verus! {

/// The character of a decimal digit.
pub open spec fn digit_char(d: nat) -> char {
    if d == 0 {
        '0'
    } else if d == 1 {
        '1'
    } else if d == 2 {
        '2'
    } else if d == 3 {
        '3'
    } else if d == 4 {
        '4'
    } else if d == 5 {
        '5'
    } else if d == 6 {
        '6'
    } else if d == 7 {
        '7'
    } else if d == 8 {
        '8'
    } else {
        '9'
    }
}

/// A number written in decimal, without leading zeros.
pub open spec fn decimal(n: nat) -> Seq<char>
    decreases n,
{
    if n < 10 {
        seq![digit_char(n)]
    } else {
        decimal(n / 10).push(digit_char(n % 10))
    }
}

fn digit_str(d: usize) -> (r: &'static str)
    requires
        d < 10,
    ensures
        r@ == seq![digit_char(d as nat)],
{
    proof {
        reveal_strlit("0");
        reveal_strlit("1");
        reveal_strlit("2");
        reveal_strlit("3");
        reveal_strlit("4");
        reveal_strlit("5");
        reveal_strlit("6");
        reveal_strlit("7");
        reveal_strlit("8");
        reveal_strlit("9");
    }
    if d == 0 {
        "0"
    } else if d == 1 {
        "1"
    } else if d == 2 {
        "2"
    } else if d == 3 {
        "3"
    } else if d == 4 {
        "4"
    } else if d == 5 {
        "5"
    } else if d == 6 {
        "6"
    } else if d == 7 {
        "7"
    } else if d == 8 {
        "8"
    } else {
        "9"
    }
}

/// Appends the decimal form of `n` to `out`.
pub fn push_decimal(out: &mut String, n: usize)
    ensures
        final(out)@ == old(out)@ + decimal(n as nat),
    decreases n,
{
    if n < 10 {
        out.append(digit_str(n));
    } else {
        push_decimal(out, n / 10);
        out.append(digit_str(n % 10));
        proof {
            assert(old(out)@ + decimal(n as nat) =~= old(out)@ + decimal((n / 10) as nat) + seq![
                digit_char((n % 10) as nat),
            ]);
        }
    }
}

/// How a range prints: `Inf`, `Int(3)` or `Stance(Open)`.
pub open spec fn range_debug(r: Range) -> Seq<char> {
    match r {
        Range::Inf => "Inf"@,
        Range::Int(n) => "Int("@ + decimal(n as nat) + ")"@,
        Range::Stance(StanceType::Open) => "Stance(Open)"@,
        Range::Stance(StanceType::Fist) => "Stance(Fist)"@,
    }
}

fn push_range(out: &mut String, r: Range)
    ensures
        final(out)@ == old(out)@ + range_debug(r),
{
    match r {
        Range::Inf => out.append("Inf"),
        Range::Int(n) => {
            out.append("Int(");
            push_decimal(out, n);
            out.append(")");
            proof {
                assert(old(out)@ + range_debug(r) =~= old(out)@ + "Int("@ + decimal(n as nat) + ")"@);
            }
        },
        Range::Stance(StanceType::Open) => out.append("Stance(Open)"),
        Range::Stance(StanceType::Fist) => out.append("Stance(Fist)"),
    }
}

/// How an action prints: its variant, with its argument in brackets.
pub open spec fn action_debug(a: Action) -> Seq<char> {
    match a {
        Action::Pull(r) => "Pull("@ + range_debug(r) + ")"@,
        Action::Push(r) => "Push("@ + range_debug(r) + ")"@,
        Action::Death => "Death"@,
        Action::Void => "Void"@,
        Action::SpacedClaws(ClawSpaceType::Odd) => "SpacedClaws(Odd)"@,
        Action::SpacedClaws(ClawSpaceType::Even) => "SpacedClaws(Even)"@,
        Action::Arrow => "Arrow"@,
        Action::ArrowTwice => "ArrowTwice"@,
        Action::Quicken(r) => "Quicken("@ + range_debug(r) + ")"@,
        Action::Delay(r) => "Delay("@ + range_debug(r) + ")"@,
        Action::Fireball => "Fireball"@,
        Action::FireballTwice => "FireballTwice"@,
        Action::Ablaze => "Ablaze"@,
        Action::Teleport => "Teleport"@,
        Action::CallAssist => "CallAssist"@,
        Action::CallAssistTwice => "CallAssistTwice"@,
        Action::Backstab => "Backstab"@,
        Action::BackstabTwice => "BackstabTwice"@,
        Action::Poison => "Poison"@,
        Action::Rats => "Rats"@,
        Action::Hypnosis => "Hypnosis"@,
        Action::Hit(r) => "Hit("@ + range_debug(r) + ")"@,
        Action::Inspire => "Inspire"@,
        Action::Heal => "Heal"@,
        Action::Maneuver => "Maneuver"@,
        Action::Revive => "Revive"@,
        Action::Claws(r) => "Claws("@ + range_debug(r) + ")"@,
    }
}

fn push_with_range(out: &mut String, name: &str, r: Range)
    ensures
        final(out)@ == old(out)@ + name@ + "("@ + range_debug(r) + ")"@,
{
    out.append(name);
    out.append("(");
    push_range(out, r);
    out.append(")");
    proof {
        assert(final(out)@ =~= old(out)@ + name@ + "("@ + range_debug(r) + ")"@);
    }
}

pub(crate) fn push_action(out: &mut String, a: Action)
    ensures
        final(out)@ == old(out)@ + action_debug(a),
{
    proof {
        reveal_strlit("Pull(");
        reveal_strlit("Pull");
        reveal_strlit("Push(");
        reveal_strlit("Push");
        reveal_strlit("Quicken(");
        reveal_strlit("Quicken");
        reveal_strlit("Delay(");
        reveal_strlit("Delay");
        reveal_strlit("Hit(");
        reveal_strlit("Hit");
        reveal_strlit("Claws(");
        reveal_strlit("Claws");
        reveal_strlit("(");
    }
    match a {
        Action::Pull(r) => push_with_range(out, "Pull", r),
        Action::Push(r) => push_with_range(out, "Push", r),
        Action::Death => out.append("Death"),
        Action::Void => out.append("Void"),
        Action::SpacedClaws(ClawSpaceType::Odd) => out.append("SpacedClaws(Odd)"),
        Action::SpacedClaws(ClawSpaceType::Even) => out.append("SpacedClaws(Even)"),
        Action::Arrow => out.append("Arrow"),
        Action::ArrowTwice => out.append("ArrowTwice"),
        Action::Quicken(r) => push_with_range(out, "Quicken", r),
        Action::Delay(r) => push_with_range(out, "Delay", r),
        Action::Fireball => out.append("Fireball"),
        Action::FireballTwice => out.append("FireballTwice"),
        Action::Ablaze => out.append("Ablaze"),
        Action::Teleport => out.append("Teleport"),
        Action::CallAssist => out.append("CallAssist"),
        Action::CallAssistTwice => out.append("CallAssistTwice"),
        Action::Backstab => out.append("Backstab"),
        Action::BackstabTwice => out.append("BackstabTwice"),
        Action::Poison => out.append("Poison"),
        Action::Rats => out.append("Rats"),
        Action::Hypnosis => out.append("Hypnosis"),
        Action::Hit(r) => push_with_range(out, "Hit", r),
        Action::Inspire => out.append("Inspire"),
        Action::Heal => out.append("Heal"),
        Action::Maneuver => out.append("Maneuver"),
        Action::Revive => out.append("Revive"),
        Action::Claws(r) => push_with_range(out, "Claws", r),
    }
    proof {
        assert(final(out)@ =~= old(out)@ + action_debug(a));
    }
}

/// How a target prints.
pub open spec fn target_debug(t: Target) -> Seq<char> {
    match t {
        Target::Ally => "Ally"@,
        Target::Enemy => "Enemy"@,
        Target::Any => "Any"@,
    }
}

/// An action and its target as the game prints them, such as
/// `Hit(Int(4)) Any`.
pub fn format_wrapped_action(wrapped_action: &WrappedAction) -> (r: String)
    ensures
        r@ == action_debug(wrapped_action.action) + " "@ + target_debug(wrapped_action.target),
{
    let mut out = String::new();
    push_action(&mut out, wrapped_action.action);
    out.append(" ");
    match wrapped_action.target {
        Target::Ally => out.append("Ally"),
        Target::Enemy => out.append("Enemy"),
        Target::Any => out.append("Any"),
    }
    proof {
        assert(out@ =~= action_debug(wrapped_action.action) + " "@ + target_debug(wrapped_action.target));
    }
    out
}

/// The short name of an action as cards show it.
pub open spec fn action_name(a: Action) -> Seq<char> {
    match a {
        Action::Pull(_) => "Pull"@,
        Action::Push(_) => "Push"@,
        Action::Death => "Death"@,
        Action::Void => "Void"@,
        Action::SpacedClaws(ClawSpaceType::Odd) => "Claw I"@,
        Action::SpacedClaws(ClawSpaceType::Even) => "Claw II"@,
        Action::Arrow => "Arrow"@,
        Action::ArrowTwice => "Arrow x2"@,
        Action::Quicken(_) => "Quicken"@,
        Action::Delay(_) => "Delay"@,
        Action::Fireball => "Fireball"@,
        Action::FireballTwice => "Fireball x2"@,
        Action::Ablaze => "Ablaze"@,
        Action::Teleport => "Teleport"@,
        Action::CallAssist => "CallAssist"@,
        Action::CallAssistTwice => "Assist x2"@,
        Action::Hit(_) => "Hit"@,
        Action::Inspire => "Inspire"@,
        Action::Heal => "Heal"@,
        Action::Maneuver => "Maneuver"@,
        Action::Revive => "Revive"@,
        Action::Claws(_) => "Claw"@,
        Action::Backstab => "Backstab"@,
        Action::BackstabTwice => "Backstab x2"@,
        Action::Poison => "Poison"@,
        Action::Rats => "Rats"@,
        Action::Hypnosis => "Hypnosis"@,
    }
}

/// The short name of the action, such as `Claw II` or `Arrow x2`.
pub fn action_simple_name(wrapped_action: &WrappedAction) -> (r: String)
    ensures
        r@ == action_name(wrapped_action.action),
{
    let name: &str = match wrapped_action.action {
        Action::Pull(_) => "Pull",
        Action::Push(_) => "Push",
        Action::Death => "Death",
        Action::Void => "Void",
        Action::SpacedClaws(ClawSpaceType::Odd) => "Claw I",
        Action::SpacedClaws(ClawSpaceType::Even) => "Claw II",
        Action::Arrow => "Arrow",
        Action::ArrowTwice => "Arrow x2",
        Action::Quicken(_) => "Quicken",
        Action::Delay(_) => "Delay",
        Action::Fireball => "Fireball",
        Action::FireballTwice => "Fireball x2",
        Action::Ablaze => "Ablaze",
        Action::Teleport => "Teleport",
        Action::CallAssist => "CallAssist",
        Action::CallAssistTwice => "Assist x2",
        Action::Hit(_) => "Hit",
        Action::Inspire => "Inspire",
        Action::Heal => "Heal",
        Action::Maneuver => "Maneuver",
        Action::Revive => "Revive",
        Action::Claws(_) => "Claw",
        Action::Backstab => "Backstab",
        Action::BackstabTwice => "Backstab x2",
        Action::Poison => "Poison",
        Action::Rats => "Rats",
        Action::Hypnosis => "Hypnosis",
    };
    String::from_str(name)
}

} // verus!
