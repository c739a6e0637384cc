//! The builders with which cards are described, and the table of all cards.
use vstd::prelude::*;
use crate::primitives::{
    Action, Allegiance, CardDef, CardId, ClawSpaceType, Class, Condition, ConditionCostType,
    ConditionCountType, FaceDef, FaceMap, Features, FEATURE_ENERGY, Health, Modifier,
    ModifierAmount, ProvideAssistReaction, Range, Reaction, ReactionTrigger,
    RequestAssistReaction, Row, SelfAction, StandardReaction, Target, WhenHitRow, WrappedAction,
};

use crate::card_table::spec_card_table;
use crate::card_views::{FaceView, RowView, card_view, face_map_view, face_view, row_view, rows_view, spec_faces, spec_row, spec_side};

verus! {

/// The number of slots in the card table; card ids are below it.
pub const CARDS_SIZE: usize = 128;

/// `new` is `old` with the action `action` on `target` added at the end,
/// everything else unchanged.
pub open spec fn row_appended(old: Row, new: Row, action: Action, target: Target) -> bool {
    &&& new.actions@ == old.actions@.push(WrappedAction { action, target })
    &&& new.condition == old.condition
    &&& new.mandatory == old.mandatory
    &&& new.is_mandatory == old.is_mandatory
}

/// A row with no condition, no action and no mandatory self action.
pub fn row() -> (r: Row)
    ensures
        row_view(r) == spec_row(),
        r.actions@.len() == 0,
        r.condition.is_none(),
        r.mandatory.is_none(),
        !r.is_mandatory,
{
    Row { is_mandatory: false, condition: None, mandatory: None, actions: Vec::new() }
}

/// The shared row that a card performs when it is hit.
pub fn when_hit_row(which: WhenHitRow) -> (r: Row)
    ensures
        r.condition.is_none(),
        r.mandatory.is_none(),
        !r.is_mandatory,
        r.actions@ == (match which {
            WhenHitRow::PushAllyInfPullAllyInf => seq![
                WrappedAction { action: Action::Push(Range::Inf), target: Target::Ally },
                WrappedAction { action: Action::Pull(Range::Inf), target: Target::Ally },
            ],
            WhenHitRow::ReviveAlly => seq![WrappedAction { action: Action::Revive, target: Target::Ally }],
            WhenHitRow::ClawOddEnemies => seq![
                WrappedAction { action: Action::SpacedClaws(ClawSpaceType::Odd), target: Target::Enemy },
            ],
            WhenHitRow::ClawEvenEnemies => seq![
                WrappedAction { action: Action::SpacedClaws(ClawSpaceType::Even), target: Target::Enemy },
            ],
            WhenHitRow::PushEnemyInfPushEnemyInf => seq![
                WrappedAction { action: Action::Push(Range::Inf), target: Target::Enemy },
                WrappedAction { action: Action::Push(Range::Inf), target: Target::Enemy },
            ],
            WhenHitRow::ClawEnemy4 => seq![
                WrappedAction { action: Action::Claws(Range::Int(4)), target: Target::Enemy },
            ],
            WhenHitRow::HealAlly => seq![WrappedAction { action: Action::Heal, target: Target::Ally }],
            WhenHitRow::HealAllyClawEnemy3 => seq![
                WrappedAction { action: Action::Heal, target: Target::Ally },
                WrappedAction { action: Action::Claws(Range::Int(3)), target: Target::Enemy },
            ],
        }),
{
    match which {
        WhenHitRow::PushAllyInfPullAllyInf => row().push_ally_inf().pull_ally_inf(),
        WhenHitRow::ReviveAlly => row().revive_ally(),
        WhenHitRow::ClawOddEnemies => row().claw_odd_enemies(),
        WhenHitRow::ClawEvenEnemies => row().claw_even_enemies(),
        WhenHitRow::PushEnemyInfPushEnemyInf => row().push_enemy_inf().push_enemy_inf(),
        WhenHitRow::ClawEnemy4 => row().claw_enemy(4),
        WhenHitRow::HealAlly => row().heal_ally(),
        WhenHitRow::HealAllyClawEnemy3 => row().heal_ally().claw_enemy(3),
    }
}

impl Row {
    fn with_action(self, wrapped: WrappedAction) -> (r: Self)
        ensures
            row_view(r) == row_view(self).with_action(wrapped),
            row_appended(self, r, wrapped.action, wrapped.target),
    {
        proof {
            reveal(RowView::with_action);
        }
        let mut this = self;
        this.actions.push(wrapped);
        this
    }

    pub fn add_condition(self, condition: Condition) -> (r: Self)
        ensures
            row_view(r) == row_view(self).add_condition(condition),
            r.condition == Some(condition),
            r.actions@ == self.actions@,
            r.mandatory == self.mandatory,
            r.is_mandatory == self.is_mandatory,
    {
        proof {
            reveal(RowView::add_condition);
        }
        let mut this = self;
        this.condition = Some(condition);
        this
    }

    pub fn rage_condition(self, rage: ConditionCountType) -> (r: Self)
        ensures
            row_view(r) == row_view(self).rage_condition(rage),
            r.condition == Some(Condition::Rage(rage)),
            r.actions@ == self.actions@,
            r.mandatory == self.mandatory,
            r.is_mandatory == self.is_mandatory,
    {
        proof {
            reveal(RowView::rage_condition);
        }
        self.add_condition(Condition::Rage(rage))
    }

    pub fn energy_cost(self, cost: ConditionCountType) -> (r: Self)
        ensures
            row_view(r) == row_view(self).energy_cost(cost),
            r.condition == Some(Condition::Cost(ConditionCostType::Energy, cost)),
            r.actions@ == self.actions@,
            r.mandatory == self.mandatory,
            r.is_mandatory == self.is_mandatory,
    {
        proof {
            reveal(RowView::energy_cost);
        }
        self.add_condition(Condition::Cost(ConditionCostType::Energy, cost))
    }

    pub fn dodge_cost(self, cost: ConditionCountType) -> (r: Self)
        ensures
            row_view(r) == row_view(self).dodge_cost(cost),
            r.condition == Some(Condition::Cost(ConditionCostType::Dodge, cost)),
            r.actions@ == self.actions@,
            r.mandatory == self.mandatory,
            r.is_mandatory == self.is_mandatory,
    {
        proof {
            reveal(RowView::dodge_cost);
        }
        self.add_condition(Condition::Cost(ConditionCostType::Dodge, cost))
    }

    pub fn add_mandatory(self, mandatory: SelfAction) -> (r: Self)
        ensures
            row_view(r) == row_view(self).add_mandatory(mandatory),
            r.mandatory == Some(mandatory),
            r.actions@ == self.actions@,
            r.condition == self.condition,
            r.is_mandatory == self.is_mandatory,
    {
        proof {
            reveal(RowView::add_mandatory);
        }
        let mut this = self;
        this.mandatory = Some(mandatory);
        this
    }

    pub fn rotate(self) -> (r: Self)
        ensures
            row_view(r) == row_view(self).rotate(),
            r.mandatory == Some(SelfAction::Rotate),
            r.actions@ == self.actions@,
            r.condition == self.condition,
            r.is_mandatory == self.is_mandatory,
    {
        proof {
            reveal(RowView::rotate);
        }
        self.add_mandatory(SelfAction::Rotate)
    }

    pub fn flip(self) -> (r: Self)
        ensures
            row_view(r) == row_view(self).flip(),
            r.mandatory == Some(SelfAction::Flip),
            r.actions@ == self.actions@,
            r.condition == self.condition,
            r.is_mandatory == self.is_mandatory,
    {
        proof {
            reveal(RowView::flip);
        }
        self.add_mandatory(SelfAction::Flip)
    }

    pub fn is_mandatory(self) -> (r: Self)
        ensures
            row_view(r) == row_view(self).is_mandatory(),
            r.is_mandatory,
            r.actions@ == self.actions@,
            r.condition == self.condition,
            r.mandatory == self.mandatory,
    {
        proof {
            reveal(RowView::is_mandatory);
        }
        let mut this = self;
        this.is_mandatory = true;
        this
    }

    pub fn manouver(self) -> (r: Self)
        ensures
            row_view(r) == row_view(self).manouver(),
            row_appended(self, r, Action::Maneuver, Target::Ally),
    {
        proof {
            reveal(RowView::manouver);
        }
        self.with_action(WrappedAction { action: Action::Maneuver, target: Target::Ally })
    }

    pub fn arrow_any(self) -> (r: Self)
        ensures
            row_view(r) == row_view(self).arrow_any(),
            row_appended(self, r, Action::Arrow, Target::Any),
    {
        proof {
            reveal(RowView::arrow_any);
        }
        self.with_action(WrappedAction { action: Action::Arrow, target: Target::Any })
    }

    pub fn double_arrow_any(self) -> (r: Self)
        ensures
            row_view(r) == row_view(self).double_arrow_any(),
            row_appended(self, r, Action::ArrowTwice, Target::Any),
    {
        proof {
            reveal(RowView::double_arrow_any);
        }
        self.with_action(WrappedAction { action: Action::ArrowTwice, target: Target::Any })
    }

    pub fn delay_ally(self, amount: usize) -> (r: Self)
        ensures
            row_view(r) == row_view(self).delay_ally(amount),
            row_appended(self, r, Action::Delay(Range::Int(amount)), Target::Ally),
    {
        proof {
            reveal(RowView::delay_ally);
        }
        self.with_action(WrappedAction { action: Action::Delay(Range::Int(amount)), target: Target::Ally })
    }

    pub fn delay_any(self, range: usize) -> (r: Self)
        ensures
            row_view(r) == row_view(self).delay_any(range),
            row_appended(self, r, Action::Delay(Range::Int(range)), Target::Any),
    {
        proof {
            reveal(RowView::delay_any);
        }
        self.with_action(WrappedAction { action: Action::Delay(Range::Int(range)), target: Target::Any })
    }

    pub fn delay_enemy(self, range: usize) -> (r: Self)
        ensures
            row_view(r) == row_view(self).delay_enemy(range),
            row_appended(self, r, Action::Delay(Range::Int(range)), Target::Enemy),
    {
        proof {
            reveal(RowView::delay_enemy);
        }
        self.with_action(WrappedAction { action: Action::Delay(Range::Int(range)), target: Target::Enemy })
    }

    pub fn quicken_any(self, range: usize) -> (r: Self)
        ensures
            row_view(r) == row_view(self).quicken_any(range),
            row_appended(self, r, Action::Quicken(Range::Int(range)), Target::Any),
    {
        proof {
            reveal(RowView::quicken_any);
        }
        self.with_action(WrappedAction { action: Action::Quicken(Range::Int(range)), target: Target::Any })
    }

    pub fn quicken_enemy(self, range: usize) -> (r: Self)
        ensures
            row_view(r) == row_view(self).quicken_enemy(range),
            row_appended(self, r, Action::Quicken(Range::Int(range)), Target::Enemy),
    {
        proof {
            reveal(RowView::quicken_enemy);
        }
        self.with_action(WrappedAction { action: Action::Quicken(Range::Int(range)), target: Target::Enemy })
    }

    pub fn quicken_ally(self, range: usize) -> (r: Self)
        ensures
            row_view(r) == row_view(self).quicken_ally(range),
            row_appended(self, r, Action::Quicken(Range::Int(range)), Target::Ally),
    {
        proof {
            reveal(RowView::quicken_ally);
        }
        self.with_action(WrappedAction { action: Action::Quicken(Range::Int(range)), target: Target::Ally })
    }

    pub fn hit_any(self, range: usize) -> (r: Self)
        ensures
            row_view(r) == row_view(self).hit_any(range),
            row_appended(self, r, Action::Hit(Range::Int(range)), Target::Any),
    {
        proof {
            reveal(RowView::hit_any);
        }
        self.with_action(WrappedAction { action: Action::Hit(Range::Int(range)), target: Target::Any })
    }

    pub fn hit_any_inf(self) -> (r: Self)
        ensures
            row_view(r) == row_view(self).hit_any_inf(),
            row_appended(self, r, Action::Hit(Range::Inf), Target::Any),
    {
        proof {
            reveal(RowView::hit_any_inf);
        }
        self.with_action(WrappedAction { action: Action::Hit(Range::Inf), target: Target::Any })
    }

    pub fn hit_ally(self, range: usize) -> (r: Self)
        ensures
            row_view(r) == row_view(self).hit_ally(range),
            row_appended(self, r, Action::Hit(Range::Int(range)), Target::Ally),
    {
        proof {
            reveal(RowView::hit_ally);
        }
        self.with_action(WrappedAction { action: Action::Hit(Range::Int(range)), target: Target::Ally })
    }

    pub fn hit_ally_inf(self) -> (r: Self)
        ensures
            row_view(r) == row_view(self).hit_ally_inf(),
            row_appended(self, r, Action::Hit(Range::Inf), Target::Ally),
    {
        proof {
            reveal(RowView::hit_ally_inf);
        }
        self.with_action(WrappedAction { action: Action::Hit(Range::Inf), target: Target::Ally })
    }

    pub fn heal_any(self) -> (r: Self)
        ensures
            row_view(r) == row_view(self).heal_any(),
            row_appended(self, r, Action::Heal, Target::Any),
    {
        proof {
            reveal(RowView::heal_any);
        }
        self.with_action(WrappedAction { action: Action::Heal, target: Target::Any })
    }

    pub fn heal_ally(self) -> (r: Self)
        ensures
            row_view(r) == row_view(self).heal_ally(),
            row_appended(self, r, Action::Heal, Target::Ally),
    {
        proof {
            reveal(RowView::heal_ally);
        }
        self.with_action(WrappedAction { action: Action::Heal, target: Target::Ally })
    }

    pub fn heal_enemy(self) -> (r: Self)
        ensures
            row_view(r) == row_view(self).heal_enemy(),
            row_appended(self, r, Action::Heal, Target::Enemy),
    {
        proof {
            reveal(RowView::heal_enemy);
        }
        self.with_action(WrappedAction { action: Action::Heal, target: Target::Enemy })
    }

    pub fn revive_ally(self) -> (r: Self)
        ensures
            row_view(r) == row_view(self).revive_ally(),
            row_appended(self, r, Action::Revive, Target::Ally),
    {
        proof {
            reveal(RowView::revive_ally);
        }
        self.with_action(WrappedAction { action: Action::Revive, target: Target::Ally })
    }

    pub fn revive_any(self) -> (r: Self)
        ensures
            row_view(r) == row_view(self).revive_any(),
            row_appended(self, r, Action::Revive, Target::Any),
    {
        proof {
            reveal(RowView::revive_any);
        }
        self.with_action(WrappedAction { action: Action::Revive, target: Target::Any })
    }

    pub fn hit_enemy(self, range: usize) -> (r: Self)
        ensures
            row_view(r) == row_view(self).hit_enemy(range),
            row_appended(self, r, Action::Hit(Range::Int(range)), Target::Enemy),
    {
        proof {
            reveal(RowView::hit_enemy);
        }
        self.with_action(WrappedAction { action: Action::Hit(Range::Int(range)), target: Target::Enemy })
    }

    pub fn hit_enemy_inf(self) -> (r: Self)
        ensures
            row_view(r) == row_view(self).hit_enemy_inf(),
            row_appended(self, r, Action::Hit(Range::Inf), Target::Enemy),
    {
        proof {
            reveal(RowView::hit_enemy_inf);
        }
        self.with_action(WrappedAction { action: Action::Hit(Range::Inf), target: Target::Enemy })
    }

    pub fn pull_enemy(self, range: usize) -> (r: Self)
        ensures
            row_view(r) == row_view(self).pull_enemy(range),
            row_appended(self, r, Action::Pull(Range::Int(range)), Target::Enemy),
    {
        proof {
            reveal(RowView::pull_enemy);
        }
        self.with_action(WrappedAction { action: Action::Pull(Range::Int(range)), target: Target::Enemy })
    }

    pub fn pull_enemy_inf(self) -> (r: Self)
        ensures
            row_view(r) == row_view(self).pull_enemy_inf(),
            row_appended(self, r, Action::Pull(Range::Inf), Target::Enemy),
    {
        proof {
            reveal(RowView::pull_enemy_inf);
        }
        self.with_action(WrappedAction { action: Action::Pull(Range::Inf), target: Target::Enemy })
    }

    pub fn pull_ally(self, range: usize) -> (r: Self)
        ensures
            row_view(r) == row_view(self).pull_ally(range),
            row_appended(self, r, Action::Pull(Range::Int(range)), Target::Ally),
    {
        proof {
            reveal(RowView::pull_ally);
        }
        self.with_action(WrappedAction { action: Action::Pull(Range::Int(range)), target: Target::Ally })
    }

    pub fn pull_ally_inf(self) -> (r: Self)
        ensures
            row_view(r) == row_view(self).pull_ally_inf(),
            row_appended(self, r, Action::Pull(Range::Inf), Target::Ally),
    {
        proof {
            reveal(RowView::pull_ally_inf);
        }
        self.with_action(WrappedAction { action: Action::Pull(Range::Inf), target: Target::Ally })
    }

    pub fn push_enemy(self, range: usize) -> (r: Self)
        ensures
            row_view(r) == row_view(self).push_enemy(range),
            row_appended(self, r, Action::Push(Range::Int(range)), Target::Enemy),
    {
        proof {
            reveal(RowView::push_enemy);
        }
        self.with_action(WrappedAction { action: Action::Push(Range::Int(range)), target: Target::Enemy })
    }

    pub fn push_enemy_inf(self) -> (r: Self)
        ensures
            row_view(r) == row_view(self).push_enemy_inf(),
            row_appended(self, r, Action::Push(Range::Inf), Target::Enemy),
    {
        proof {
            reveal(RowView::push_enemy_inf);
        }
        self.with_action(WrappedAction { action: Action::Push(Range::Inf), target: Target::Enemy })
    }

    pub fn push_ally_inf(self) -> (r: Self)
        ensures
            row_view(r) == row_view(self).push_ally_inf(),
            row_appended(self, r, Action::Push(Range::Inf), Target::Ally),
    {
        proof {
            reveal(RowView::push_ally_inf);
        }
        self.with_action(WrappedAction { action: Action::Push(Range::Inf), target: Target::Ally })
    }

    pub fn inspire_ally(self) -> (r: Self)
        ensures
            row_view(r) == row_view(self).inspire_ally(),
            row_appended(self, r, Action::Inspire, Target::Ally),
    {
        proof {
            reveal(RowView::inspire_ally);
        }
        self.with_action(WrappedAction { action: Action::Inspire, target: Target::Ally })
    }

    pub fn inspire_enemy(self) -> (r: Self)
        ensures
            row_view(r) == row_view(self).inspire_enemy(),
            row_appended(self, r, Action::Inspire, Target::Enemy),
    {
        proof {
            reveal(RowView::inspire_enemy);
        }
        self.with_action(WrappedAction { action: Action::Inspire, target: Target::Enemy })
    }

    pub fn void(self) -> (r: Self)
        ensures
            row_view(r) == row_view(self).void(),
            row_appended(self, r, Action::Void, Target::Enemy),
    {
        proof {
            reveal(RowView::void);
        }
        self.with_action(WrappedAction { action: Action::Void, target: Target::Enemy })
    }

    pub fn death(self) -> (r: Self)
        ensures
            row_view(r) == row_view(self).death(),
            row_appended(self, r, Action::Death, Target::Enemy),
    {
        proof {
            reveal(RowView::death);
        }
        self.with_action(WrappedAction { action: Action::Death, target: Target::Enemy })
    }

    pub fn claw_enemy(self, range: usize) -> (r: Self)
        ensures
            row_view(r) == row_view(self).claw_enemy(range),
            row_appended(self, r, Action::Claws(Range::Int(range)), Target::Enemy),
    {
        proof {
            reveal(RowView::claw_enemy);
        }
        self.with_action(WrappedAction { action: Action::Claws(Range::Int(range)), target: Target::Enemy })
    }

    pub fn claw_enemy_inf(self) -> (r: Self)
        ensures
            row_view(r) == row_view(self).claw_enemy_inf(),
            row_appended(self, r, Action::Claws(Range::Inf), Target::Enemy),
    {
        proof {
            reveal(RowView::claw_enemy_inf);
        }
        self.with_action(WrappedAction { action: Action::Claws(Range::Inf), target: Target::Enemy })
    }

    pub fn claw_odd_enemies(self) -> (r: Self)
        ensures
            row_view(r) == row_view(self).claw_odd_enemies(),
            row_appended(self, r, Action::SpacedClaws(ClawSpaceType::Odd), Target::Enemy),
    {
        proof {
            reveal(RowView::claw_odd_enemies);
        }
        self.with_action(WrappedAction { action: Action::SpacedClaws(ClawSpaceType::Odd), target: Target::Enemy })
    }

    pub fn claw_even_enemies(self) -> (r: Self)
        ensures
            row_view(r) == row_view(self).claw_even_enemies(),
            row_appended(self, r, Action::SpacedClaws(ClawSpaceType::Even), Target::Enemy),
    {
        proof {
            reveal(RowView::claw_even_enemies);
        }
        self.with_action(WrappedAction { action: Action::SpacedClaws(ClawSpaceType::Even), target: Target::Enemy })
    }

    pub fn fireball(self) -> (r: Self)
        ensures
            row_view(r) == row_view(self).fireball(),
            row_appended(self, r, Action::Fireball, Target::Any),
    {
        proof {
            reveal(RowView::fireball);
        }
        self.with_action(WrappedAction { action: Action::Fireball, target: Target::Any })
    }

    pub fn ablaze(self) -> (r: Self)
        ensures
            row_view(r) == row_view(self).ablaze(),
            row_appended(self, r, Action::Ablaze, Target::Any),
    {
        proof {
            reveal(RowView::ablaze);
        }
        self.with_action(WrappedAction { action: Action::Ablaze, target: Target::Any })
    }

    pub fn teleport_ally(self) -> (r: Self)
        ensures
            row_view(r) == row_view(self).teleport_ally(),
            row_appended(self, r, Action::Teleport, Target::Ally),
    {
        proof {
            reveal(RowView::teleport_ally);
        }
        self.with_action(WrappedAction { action: Action::Teleport, target: Target::Ally })
    }

    pub fn teleport_enemy(self) -> (r: Self)
        ensures
            row_view(r) == row_view(self).teleport_enemy(),
            row_appended(self, r, Action::Teleport, Target::Enemy),
    {
        proof {
            reveal(RowView::teleport_enemy);
        }
        self.with_action(WrappedAction { action: Action::Teleport, target: Target::Enemy })
    }

    pub fn teleport_each(self) -> (r: Self)
        ensures
            row_view(r) == row_view(self).teleport_each(),
            row_appended(self, r, Action::Teleport, Target::Any),
    {
        proof {
            reveal(RowView::teleport_each);
        }
        self.with_action(WrappedAction { action: Action::Teleport, target: Target::Any })
    }

    pub fn call_assist(self) -> (r: Self)
        ensures
            row_view(r) == row_view(self).call_assist(),
            row_appended(self, r, Action::CallAssist, Target::Any),
    {
        proof {
            reveal(RowView::call_assist);
        }
        self.with_action(WrappedAction { action: Action::CallAssist, target: Target::Any })
    }

    pub fn call_assist_twice(self) -> (r: Self)
        ensures
            row_view(r) == row_view(self).call_assist_twice(),
            row_appended(self, r, Action::CallAssistTwice, Target::Any),
    {
        proof {
            reveal(RowView::call_assist_twice);
        }
        self.with_action(WrappedAction { action: Action::CallAssistTwice, target: Target::Any })
    }

    pub fn backstab_any(self) -> (r: Self)
        ensures
            row_view(r) == row_view(self).backstab_any(),
            row_appended(self, r, Action::Backstab, Target::Any),
    {
        proof {
            reveal(RowView::backstab_any);
        }
        self.with_action(WrappedAction { action: Action::Backstab, target: Target::Any })
    }

    pub fn backstab_any_twice(self) -> (r: Self)
        ensures
            row_view(r) == row_view(self).backstab_any_twice(),
            row_appended(self, r, Action::BackstabTwice, Target::Any),
    {
        proof {
            reveal(RowView::backstab_any_twice);
        }
        self.with_action(WrappedAction { action: Action::BackstabTwice, target: Target::Any })
    }

    pub fn poison_any(self) -> (r: Self)
        ensures
            row_view(r) == row_view(self).poison_any(),
            row_appended(self, r, Action::Poison, Target::Any),
    {
        proof {
            reveal(RowView::poison_any);
        }
        self.with_action(WrappedAction { action: Action::Poison, target: Target::Any })
    }

    pub fn rats(self) -> (r: Self)
        ensures
            row_view(r) == row_view(self).rats(),
            row_appended(self, r, Action::Rats, Target::Any),
    {
        proof {
            reveal(RowView::rats);
        }
        self.with_action(WrappedAction { action: Action::Rats, target: Target::Any })
    }

    pub fn hypnosis_enemy(self) -> (r: Self)
        ensures
            row_view(r) == row_view(self).hypnosis_enemy(),
            row_appended(self, r, Action::Hypnosis, Target::Enemy),
    {
        proof {
            reveal(RowView::hypnosis_enemy);
        }
        self.with_action(WrappedAction { action: Action::Hypnosis, target: Target::Enemy })
    }
}

/// A face with the given health, hero allegiance and nothing else.
pub fn side(health: Health) -> (r: FaceDef)
    ensures
        face_view(r) == spec_side(health),
        r.health == health,
        r.allegiance == Allegiance::Hero,
        r.features.bits == 0,
        r.reaction.is_none(),
        r.reaction_assist.is_none(),
        r.rows@.len() == 0,
        r.assists@.len() == 0,
        r.swarm.is_none(),
        r.rage == 0,
        r.modifier.is_none(),
{
    let r = FaceDef {
        health,
        allegiance: Allegiance::Hero,
        features: Features::empty(),
        reaction: None,
        reaction_assist: None,
        rows: Vec::new(),
        assists: Vec::new(),
        swarm: None,
        rage: 0,
        modifier: None,
    };
    assert(rows_view(r.rows@) =~= Seq::empty());
    assert(rows_view(r.assists@) =~= Seq::empty());
    r
}

impl FaceDef {
    pub fn feature(self, features: Features) -> (r: Self)
        ensures
            face_view(r) == face_view(self).feature(features),
            r.allegiance == self.allegiance,
            r.health == self.health,
            r.features == (Features { bits: self.features.bits | features.bits }),
            r.reaction == self.reaction,
            r.reaction_assist == self.reaction_assist,
            r.rage == self.rage,
            r.modifier == self.modifier,
            r.rows@ == self.rows@,
            r.assists@ == self.assists@,
            r.swarm == self.swarm,
    {
        proof {
            reveal(FaceView::feature);
        }
        let mut this = self;
        this.features = this.features.union(features);
        this
    }

    pub fn energy(self) -> (r: Self)
        ensures
            face_view(r) == face_view(self).energy(),
            r.allegiance == self.allegiance,
            r.health == self.health,
            r.features == (Features { bits: self.features.bits | FEATURE_ENERGY }),
            r.reaction == self.reaction,
            r.reaction_assist == self.reaction_assist,
            r.rage == self.rage,
            r.modifier == self.modifier,
            r.rows@ == self.rows@,
            r.assists@ == self.assists@,
            r.swarm == self.swarm,
    {
        proof {
            reveal(FaceView::energy);
        }
        let mut this = self;
        this.features = this.features.union(Features::energy());
        this
    }

    pub fn werewolf(self) -> (r: Self)
        ensures
            face_view(r) == face_view(self).werewolf(),
            r.allegiance == Allegiance::Werewolf,
            r.health == self.health,
            r.features == self.features,
            r.reaction == self.reaction,
            r.reaction_assist == self.reaction_assist,
            r.rage == self.rage,
            r.modifier == self.modifier,
            r.rows@ == self.rows@,
            r.assists@ == self.assists@,
            r.swarm == self.swarm,
    {
        proof {
            reveal(FaceView::werewolf);
        }
        let mut this = self;
        this.allegiance = Allegiance::Werewolf;
        this
    }

    pub fn reaction(self, reaction: Reaction) -> (r: Self)
        ensures
            face_view(r) == face_view(self).reaction(reaction),
            r.allegiance == self.allegiance,
            r.health == self.health,
            r.features == self.features,
            r.reaction == Some(reaction),
            r.reaction_assist == self.reaction_assist,
            r.rage == self.rage,
            r.modifier == self.modifier,
            r.rows@ == self.rows@,
            r.assists@ == self.assists@,
            r.swarm == self.swarm,
    {
        proof {
            reveal(FaceView::reaction);
        }
        let mut this = self;
        this.reaction = Some(reaction);
        this
    }

    pub fn block_to_rotate(self) -> (r: Self)
        ensures
            face_view(r) == face_view(self).block_to_rotate(),
            r.allegiance == self.allegiance,
            r.health == self.health,
            r.features == self.features,
            r.reaction == (Some(Reaction::Standard(None, StandardReaction { trigger: ReactionTrigger::Block, outcome: Some(SelfAction::Rotate) }))),
            r.reaction_assist == self.reaction_assist,
            r.rage == self.rage,
            r.modifier == self.modifier,
            r.rows@ == self.rows@,
            r.assists@ == self.assists@,
            r.swarm == self.swarm,
    {
        proof {
            reveal(FaceView::block_to_rotate);
        }
        let mut this = self;
        this.reaction = Some(Reaction::Standard(None, StandardReaction { trigger: ReactionTrigger::Block, outcome: Some(SelfAction::Rotate) }));
        this
    }

    pub fn block_to_flip(self) -> (r: Self)
        ensures
            face_view(r) == face_view(self).block_to_flip(),
            r.allegiance == self.allegiance,
            r.health == self.health,
            r.features == self.features,
            r.reaction == (Some(Reaction::Standard(None, StandardReaction { trigger: ReactionTrigger::Block, outcome: Some(SelfAction::Flip) }))),
            r.reaction_assist == self.reaction_assist,
            r.rage == self.rage,
            r.modifier == self.modifier,
            r.rows@ == self.rows@,
            r.assists@ == self.assists@,
            r.swarm == self.swarm,
    {
        proof {
            reveal(FaceView::block_to_flip);
        }
        let mut this = self;
        this.reaction = Some(Reaction::Standard(None, StandardReaction { trigger: ReactionTrigger::Block, outcome: Some(SelfAction::Flip) }));
        this
    }

    pub fn block_perm(self) -> (r: Self)
        ensures
            face_view(r) == face_view(self).block_perm(),
            r.allegiance == self.allegiance,
            r.health == self.health,
            r.features == self.features,
            r.reaction == (Some(Reaction::Standard(None, StandardReaction { trigger: ReactionTrigger::Block, outcome: None }))),
            r.reaction_assist == self.reaction_assist,
            r.rage == self.rage,
            r.modifier == self.modifier,
            r.rows@ == self.rows@,
            r.assists@ == self.assists@,
            r.swarm == self.swarm,
    {
        proof {
            reveal(FaceView::block_perm);
        }
        let mut this = self;
        this.reaction = Some(Reaction::Standard(None, StandardReaction { trigger: ReactionTrigger::Block, outcome: None }));
        this
    }

    pub fn dodge_to_rotate(self) -> (r: Self)
        ensures
            face_view(r) == face_view(self).dodge_to_rotate(),
            r.allegiance == self.allegiance,
            r.health == self.health,
            r.features == self.features,
            r.reaction == (Some(Reaction::Standard(None, StandardReaction { trigger: ReactionTrigger::Dodge, outcome: Some(SelfAction::Rotate) }))),
            r.reaction_assist == self.reaction_assist,
            r.rage == self.rage,
            r.modifier == self.modifier,
            r.rows@ == self.rows@,
            r.assists@ == self.assists@,
            r.swarm == self.swarm,
    {
        proof {
            reveal(FaceView::dodge_to_rotate);
        }
        let mut this = self;
        this.reaction = Some(Reaction::Standard(None, StandardReaction { trigger: ReactionTrigger::Dodge, outcome: Some(SelfAction::Rotate) }));
        this
    }

    pub fn call_assist_to_turn(self) -> (r: Self)
        ensures
            face_view(r) == face_view(self).call_assist_to_turn(),
            r.allegiance == self.allegiance,
            r.health == self.health,
            r.features == self.features,
            r.reaction == (Some(Reaction::Assist(RequestAssistReaction { outcome: Some(SelfAction::Rotate) }))),
            r.reaction_assist == self.reaction_assist,
            r.rage == self.rage,
            r.modifier == self.modifier,
            r.rows@ == self.rows@,
            r.assists@ == self.assists@,
            r.swarm == self.swarm,
    {
        proof {
            reveal(FaceView::call_assist_to_turn);
        }
        let mut this = self;
        this.reaction = Some(Reaction::Assist(RequestAssistReaction { outcome: Some(SelfAction::Rotate) }));
        this
    }

    pub fn call_assist_perm(self) -> (r: Self)
        ensures
            face_view(r) == face_view(self).call_assist_perm(),
            r.allegiance == self.allegiance,
            r.health == self.health,
            r.features == self.features,
            r.reaction == (Some(Reaction::Assist(RequestAssistReaction { outcome: None }))),
            r.reaction_assist == self.reaction_assist,
            r.rage == self.rage,
            r.modifier == self.modifier,
            r.rows@ == self.rows@,
            r.assists@ == self.assists@,
            r.swarm == self.swarm,
    {
        proof {
            reveal(FaceView::call_assist_perm);
        }
        let mut this = self;
        this.reaction = Some(Reaction::Assist(RequestAssistReaction { outcome: None }));
        this
    }

    pub fn on_hit_reaction(self, actions: WhenHitRow) -> (r: Self)
        ensures
            face_view(r) == face_view(self).on_hit_reaction(actions),
            r.allegiance == self.allegiance,
            r.health == self.health,
            r.features == self.features,
            r.reaction == Some(Reaction::WhenHit(actions)),
            r.reaction_assist == self.reaction_assist,
            r.rage == self.rage,
            r.modifier == self.modifier,
            r.rows@ == self.rows@,
            r.assists@ == self.assists@,
            r.swarm == self.swarm,
    {
        proof {
            reveal(FaceView::on_hit_reaction);
        }
        let mut this = self;
        this.reaction = Some(Reaction::WhenHit(actions));
        this
    }

    pub fn provide_assist_block_rotate(self) -> (r: Self)
        ensures
            face_view(r) == face_view(self).provide_assist_block_rotate(),
            r.allegiance == self.allegiance,
            r.health == self.health,
            r.features == self.features,
            r.reaction == self.reaction,
            r.reaction_assist == (Some(ProvideAssistReaction { trigger: ReactionTrigger::Block, assist_cost: SelfAction::Rotate })),
            r.rage == self.rage,
            r.modifier == self.modifier,
            r.rows@ == self.rows@,
            r.assists@ == self.assists@,
            r.swarm == self.swarm,
    {
        proof {
            reveal(FaceView::provide_assist_block_rotate);
        }
        let mut this = self;
        this.reaction_assist = Some(ProvideAssistReaction { trigger: ReactionTrigger::Block, assist_cost: SelfAction::Rotate });
        this
    }

    pub fn provide_assist_block_flip(self) -> (r: Self)
        ensures
            face_view(r) == face_view(self).provide_assist_block_flip(),
            r.allegiance == self.allegiance,
            r.health == self.health,
            r.features == self.features,
            r.reaction == self.reaction,
            r.reaction_assist == (Some(ProvideAssistReaction { trigger: ReactionTrigger::Block, assist_cost: SelfAction::Flip })),
            r.rage == self.rage,
            r.modifier == self.modifier,
            r.rows@ == self.rows@,
            r.assists@ == self.assists@,
            r.swarm == self.swarm,
    {
        proof {
            reveal(FaceView::provide_assist_block_flip);
        }
        let mut this = self;
        this.reaction_assist = Some(ProvideAssistReaction { trigger: ReactionTrigger::Block, assist_cost: SelfAction::Flip });
        this
    }

    pub fn provide_assist_dodge_rotate(self) -> (r: Self)
        ensures
            face_view(r) == face_view(self).provide_assist_dodge_rotate(),
            r.allegiance == self.allegiance,
            r.health == self.health,
            r.features == self.features,
            r.reaction == self.reaction,
            r.reaction_assist == (Some(ProvideAssistReaction { trigger: ReactionTrigger::Dodge, assist_cost: SelfAction::Rotate })),
            r.rage == self.rage,
            r.modifier == self.modifier,
            r.rows@ == self.rows@,
            r.assists@ == self.assists@,
            r.swarm == self.swarm,
    {
        proof {
            reveal(FaceView::provide_assist_dodge_rotate);
        }
        let mut this = self;
        this.reaction_assist = Some(ProvideAssistReaction { trigger: ReactionTrigger::Dodge, assist_cost: SelfAction::Rotate });
        this
    }

    pub fn provide_assist_dodge_flip(self) -> (r: Self)
        ensures
            face_view(r) == face_view(self).provide_assist_dodge_flip(),
            r.allegiance == self.allegiance,
            r.health == self.health,
            r.features == self.features,
            r.reaction == self.reaction,
            r.reaction_assist == (Some(ProvideAssistReaction { trigger: ReactionTrigger::Dodge, assist_cost: SelfAction::Flip })),
            r.rage == self.rage,
            r.modifier == self.modifier,
            r.rows@ == self.rows@,
            r.assists@ == self.assists@,
            r.swarm == self.swarm,
    {
        proof {
            reveal(FaceView::provide_assist_dodge_flip);
        }
        let mut this = self;
        this.reaction_assist = Some(ProvideAssistReaction { trigger: ReactionTrigger::Dodge, assist_cost: SelfAction::Flip });
        this
    }

    pub fn roll(self) -> (r: Self)
        ensures
            face_view(r) == face_view(self).roll(),
            r.allegiance == self.allegiance,
            r.health == self.health,
            r.features == self.features,
            r.reaction == Some(Reaction::Roll(None)),
            r.reaction_assist == self.reaction_assist,
            r.rage == self.rage,
            r.modifier == self.modifier,
            r.rows@ == self.rows@,
            r.assists@ == self.assists@,
            r.swarm == self.swarm,
    {
        proof {
            reveal(FaceView::roll);
        }
        let mut this = self;
        this.reaction = Some(Reaction::Roll(None));
        this
    }

    pub fn rage(self, rage: ConditionCountType) -> (r: Self)
        ensures
            face_view(r) == face_view(self).rage(rage),
            r.allegiance == self.allegiance,
            r.health == self.health,
            r.features == self.features,
            r.reaction == self.reaction,
            r.reaction_assist == self.reaction_assist,
            r.rage == rage,
            r.modifier == self.modifier,
            r.rows@ == self.rows@,
            r.assists@ == self.assists@,
            r.swarm == self.swarm,
    {
        proof {
            reveal(FaceView::rage);
        }
        let mut this = self;
        this.rage = rage;
        this
    }

    pub fn modifier_no_mandatory(self, amount: ModifierAmount) -> (r: Self)
        ensures
            face_view(r) == face_view(self).modifier_no_mandatory(amount),
            r.allegiance == self.allegiance,
            r.health == self.health,
            r.features == self.features,
            r.reaction == self.reaction,
            r.reaction_assist == self.reaction_assist,
            r.rage == self.rage,
            r.modifier == (Some(Modifier { amount, mandatory: None })),
            r.rows@ == self.rows@,
            r.assists@ == self.assists@,
            r.swarm == self.swarm,
    {
        proof {
            reveal(FaceView::modifier_no_mandatory);
        }
        let mut this = self;
        this.modifier = Some(Modifier { amount, mandatory: None });
        this
    }

    pub fn modifier_rotate(self, amount: ModifierAmount) -> (r: Self)
        ensures
            face_view(r) == face_view(self).modifier_rotate(amount),
            r.allegiance == self.allegiance,
            r.health == self.health,
            r.features == self.features,
            r.reaction == self.reaction,
            r.reaction_assist == self.reaction_assist,
            r.rage == self.rage,
            r.modifier == (Some(Modifier { amount, mandatory: Some(SelfAction::Rotate) })),
            r.rows@ == self.rows@,
            r.assists@ == self.assists@,
            r.swarm == self.swarm,
    {
        proof {
            reveal(FaceView::modifier_rotate);
        }
        let mut this = self;
        this.modifier = Some(Modifier { amount, mandatory: Some(SelfAction::Rotate) });
        this
    }

    pub fn add_row(self, row: Row) -> (r: Self)
        ensures
            face_view(r) == face_view(self).add_row(row_view(row)),
            r.allegiance == self.allegiance,
            r.health == self.health,
            r.features == self.features,
            r.reaction == self.reaction,
            r.reaction_assist == self.reaction_assist,
            r.rage == self.rage,
            r.modifier == self.modifier,
            r.rows@ == self.rows@.push(row),
            r.assists@ == self.assists@,
            r.swarm == self.swarm,
    {
        proof {
            reveal(FaceView::add_row);
        }
        let ghost before = self.rows@;
        let ghost added = row_view(row);
        let mut this = self;
        this.rows.push(row);
        assert(rows_view(this.rows@) =~= rows_view(before).push(added));
        this
    }

    pub fn add_assist(self, row: Row) -> (r: Self)
        ensures
            face_view(r) == face_view(self).add_assist(row_view(row)),
            r.allegiance == self.allegiance,
            r.health == self.health,
            r.features == self.features,
            r.reaction == self.reaction,
            r.reaction_assist == self.reaction_assist,
            r.rage == self.rage,
            r.modifier == self.modifier,
            r.rows@ == self.rows@,
            r.assists@ == self.assists@.push(row),
            r.swarm == self.swarm,
    {
        proof {
            reveal(FaceView::add_assist);
        }
        let ghost before = self.assists@;
        let ghost added = row_view(row);
        let mut this = self;
        this.assists.push(row);
        assert(rows_view(this.assists@) =~= rows_view(before).push(added));
        this
    }

    pub fn swarm(self, row: Row) -> (r: Self)
        ensures
            face_view(r) == face_view(self).swarm(row_view(row)),
            r.allegiance == self.allegiance,
            r.health == self.health,
            r.features == self.features,
            r.reaction == self.reaction,
            r.reaction_assist == self.reaction_assist,
            r.rage == self.rage,
            r.modifier == self.modifier,
            r.rows@ == self.rows@,
            r.assists@ == self.assists@,
            r.swarm == Some(row),
    {
        proof {
            reveal(FaceView::swarm);
        }
        let mut this = self;
        this.swarm = Some(row);
        this
    }

}

/// The four faces of a card, in key order.
pub fn faces(a: FaceDef, b: FaceDef, c: FaceDef, d: FaceDef) -> (r: FaceMap)
    ensures
        face_map_view(r) == spec_faces(face_view(a), face_view(b), face_view(c), face_view(d)),
        r.a == a,
        r.b == b,
        r.c == c,
        r.d == d,
{
    FaceMap { a, b, c, d }
}

/// The allegiance that a card's builder gives a face: werewolf faces keep
/// theirs; a regular card's rat faces keep theirs as well; every other face
/// takes the builder's allegiance.
pub open spec fn built_allegiance(face: Allegiance, builder: Allegiance, is_back: bool) -> Allegiance {
    if face == Allegiance::Werewolf || (!is_back && face == Allegiance::Rat) {
        face
    } else {
        builder
    }
}

/// `r` is `face` with the allegiance that the builder gives it.
pub open spec fn face_built(face: FaceDef, r: FaceDef, builder: Allegiance, is_back: bool) -> bool {
    &&& r.allegiance == built_allegiance(face.allegiance, builder, is_back)
    &&& r.health == face.health
    &&& r.features == face.features
    &&& r.reaction == face.reaction
    &&& r.reaction_assist == face.reaction_assist
    &&& r.rage == face.rage
    &&& r.modifier == face.modifier
    &&& r.rows@ == face.rows@
    &&& r.assists@ == face.assists@
    &&& r.swarm == face.swarm
}

fn with_built_allegiance(mut face: FaceDef, builder: Allegiance, is_back: bool) -> (r: FaceDef)
    ensures
        face_view(r) == face_view(face).built(builder, is_back),
        face_built(face, r, builder, is_back),
{
    proof {
        reveal(FaceView::built);
    }
    let keep = match face.allegiance {
        Allegiance::Werewolf => true,
        Allegiance::Rat => !is_back,
        Allegiance::Hero | Allegiance::Baddie => false,
    };
    if !keep {
        face.allegiance = builder;
    }
    face
}

/// Builds the cards of one class, all with the same allegiance.
pub struct CharBuilder {
    pub class: Class,
    pub allegiance: Allegiance,
}

impl CharBuilder {
    pub fn new(class: Class, allegiance: Allegiance) -> (r: CharBuilder)
        ensures
            r.class == class,
            r.allegiance == allegiance,
    {
        CharBuilder { class, allegiance }
    }

    /// A card that starts face up; its hero and baddie faces take the
    /// builder's allegiance.
    pub fn card(&self, id: CardId, faces: FaceMap) -> (r: CardDef)
        ensures
            card_view(r) == self.spec_card(id, face_map_view(faces)),
            r.id == id,
            r.class == self.class,
            !r.is_back_start,
            r.troupe_type.is_none(),
            face_built(faces.a, r.faces.a, self.allegiance, false),
            face_built(faces.b, r.faces.b, self.allegiance, false),
            face_built(faces.c, r.faces.c, self.allegiance, false),
            face_built(faces.d, r.faces.d, self.allegiance, false),
    {
        let FaceMap { a, b, c, d } = faces;
        CardDef {
            id,
            faces: FaceMap {
                a: with_built_allegiance(a, self.allegiance, false),
                b: with_built_allegiance(b, self.allegiance, false),
                c: with_built_allegiance(c, self.allegiance, false),
                d: with_built_allegiance(d, self.allegiance, false),
            },
            class: self.class,
            is_back_start: false,
            troupe_type: None,
        }
    }

    /// A card that starts at the back of the pile; every face but a
    /// werewolf face takes the builder's allegiance.
    pub fn back_card(&self, id: CardId, faces: FaceMap) -> (r: CardDef)
        ensures
            card_view(r) == self.spec_back_card(id, face_map_view(faces)),
            r.id == id,
            r.class == self.class,
            r.is_back_start,
            r.troupe_type.is_none(),
            face_built(faces.a, r.faces.a, self.allegiance, true),
            face_built(faces.b, r.faces.b, self.allegiance, true),
            face_built(faces.c, r.faces.c, self.allegiance, true),
            face_built(faces.d, r.faces.d, self.allegiance, true),
    {
        let FaceMap { a, b, c, d } = faces;
        CardDef {
            id,
            faces: FaceMap {
                a: with_built_allegiance(a, self.allegiance, true),
                b: with_built_allegiance(b, self.allegiance, true),
                c: with_built_allegiance(c, self.allegiance, true),
                d: with_built_allegiance(d, self.allegiance, true),
            },
            class: self.class,
            is_back_start: true,
            troupe_type: None,
        }
    }
}

/// Whether some face of the card has no health left.
pub open spec fn card_has_exhausted_face(c: CardDef) -> bool {
    c.faces.a.health == Health::Empty || c.faces.b.health == Health::Empty
        || c.faces.c.health == Health::Empty || c.faces.d.health == Health::Empty
}

/// The table of cards, indexed by card id.
pub struct CardDefs {
    pub cards: Vec<Option<CardDef>>,
}

/// The ids below `n` of the registered cards of class `class`, in order.
pub open spec fn class_ids_below(defs: CardDefs, class: Class, n: nat) -> Seq<int>
    decreases n,
{
    if n == 0 {
        Seq::empty()
    } else {
        let prev = class_ids_below(defs, class, (n - 1) as nat);
        if defs.has_card(n - 1) && defs.card(n - 1).class == class {
            prev.push(n - 1)
        } else {
            prev
        }
    }
}

impl CardDefs {
    /// Every slot holds a card with that id, and every card can be
    /// exhausted.
    pub open spec fn wf(&self) -> bool {
        &&& self.cards@.len() == CARDS_SIZE
        &&& forall|i: int|
            0 <= i < self.cards@.len() && (#[trigger] self.cards@[i]).is_some() ==> {
                &&& self.cards@[i].unwrap().id == i
                &&& card_has_exhausted_face(self.cards@[i].unwrap())
            }
    }

    pub open spec fn has_card(&self, id: int) -> bool {
        0 <= id < self.cards@.len() && self.cards@[id].is_some()
    }

    pub open spec fn card(&self, id: int) -> CardDef {
        self.cards@[id].unwrap()
    }

    /// The face of the table's card that `c` names.
    pub open spec fn face(&self, c: crate::card_ptr::CardPtr) -> FaceDef {
        self.card(c.card_id as int).faces.spec_get(c.key)
    }

    /// The largest id of a registered card, or 0 when there is none.
    pub fn get_max_card_id(&self) -> (r: CardId)
        requires
            self.wf(),
        ensures
            forall|i: int| #[trigger] self.has_card(i) ==> i <= r,
            r == 0 || self.has_card(r as int),
    {
        let mut max_id: CardId = 0;
        let mut i: usize = 0;
        while i < self.cards.len()
            invariant
                self.wf(),
                i <= self.cards@.len(),
                forall|j: int| 0 <= j < i && #[trigger] self.has_card(j) ==> j <= max_id,
                max_id == 0 || self.has_card(max_id as int),
            decreases self.cards@.len() - i,
        {
            if let Some(card) = &self.cards[i] {
                if card.id > max_id {
                    max_id = card.id;
                }
            }
            i += 1;
        }
        max_id
    }

    /// The card with the given id, if one is registered; an id past the
    /// table is refused by the caller.
    pub fn get_card_if_exists(&self, id: usize) -> (r: Option<&CardDef>)
        requires
            id < self.cards@.len(),
        ensures
            r.is_some() == self.has_card(id as int),
            r.is_some() ==> *r.unwrap() == self.card(id as int),
    {
        match &self.cards[id] {
            Some(card) => Some(card),
            None => None,
        }
    }

    /// The card with the given id, which must be registered.
    pub fn get_card(&self, id: usize) -> (r: &CardDef)
        requires
            self.has_card(id as int),
        ensures
            *r == self.card(id as int),
    {
        self.cards[id].as_ref().unwrap()
    }

    /// The cards of a class, in id order.
    pub fn get_cards_for_class(&self, class: Class) -> (r: Vec<&CardDef>)
        requires
            self.wf(),
        ensures
            r@.len() == class_ids_below(*self, class, CARDS_SIZE as nat).len(),
            forall|k: int|
                0 <= k < r@.len() ==> *r@[k] == self.card(
                    #[trigger] class_ids_below(*self, class, CARDS_SIZE as nat)[k],
                ),
    {
        let mut result: Vec<&CardDef> = Vec::new();
        let mut i: usize = 0;
        while i < self.cards.len()
            invariant
                self.wf(),
                i <= self.cards@.len(),
                result@.len() == class_ids_below(*self, class, i as nat).len(),
                forall|k: int|
                    0 <= k < result@.len() ==> *result@[k] == self.card(
                        #[trigger] class_ids_below(*self, class, i as nat)[k],
                    ),
            decreases self.cards@.len() - i,
        {
            if let Some(card) = &self.cards[i] {
                if card.class == class {
                    result.push(card);
                }
            }
            i += 1;
        }
        result
    }

    /// Puts a card in its slot; the slot must be empty.
    pub fn register_card(&mut self, card_def: CardDef)
        requires
            old(self).wf(),
            (card_def.id as usize) < CARDS_SIZE,
            old(self).cards@[card_def.id as int].is_none(),
            card_has_exhausted_face(card_def),
        ensures
            final(self).wf(),
            final(self).cards@ == old(self).cards@.update(card_def.id as int, Some(card_def)),
    {
        let new_card_id = card_def.id as usize;
        self.cards.set(new_card_id, Some(card_def));
    }

    /// The table of every card of the game: the card `spec_card_table`
    /// gives under each id, and no other.
    pub fn new() -> (r: CardDefs)
        ensures
            r.wf(),
            forall|i: int| 0 <= i < CARDS_SIZE ==> (#[trigger] r.cards@[i]).is_some() == spec_card_table(i).is_some(),
            forall|i: int| #[trigger] r.has_card(i) ==> card_view(r.card(i)) == spec_card_table(i).unwrap(),
    {
        let mut cards: Vec<Option<CardDef>> = Vec::new();
        let mut i: usize = 0;
        while i < CARDS_SIZE
            invariant
                i <= CARDS_SIZE,
                cards@.len() == i,
                forall|j: int| 0 <= j < i ==> (#[trigger] cards@[j]).is_none(),
            decreases CARDS_SIZE - i,
        {
            cards.push(None);
            i += 1;
        }
        let mut card_defs = CardDefs { cards };
        crate::card_data::register_warrior_cards(&mut card_defs);
        crate::card_data::register_ogre_cards(&mut card_defs);
        crate::card_data::register_huntress_cards(&mut card_defs);
        crate::card_data::register_vampire_cards(&mut card_defs);
        crate::card_data::register_pyro_cards(&mut card_defs);
        crate::card_data::register_spider_cards(&mut card_defs);
        crate::card_data::register_cursed_cards(&mut card_defs);
        crate::card_data::register_demon_cards(&mut card_defs);
        crate::card_data::register_beastmaster_cards(&mut card_defs);
        crate::card_data::register_flora_cards(&mut card_defs);
        crate::card_data::register_assassin_cards(&mut card_defs);
        crate::card_data::register_wall_cards(&mut card_defs);
        crate::card_data::register_piper_cards(&mut card_defs);
        crate::card_data::register_rat_cards(&mut card_defs);
        assert forall|i: int| 0 <= i < CARDS_SIZE implies (#[trigger] card_defs.cards@[i]).is_some()
            == spec_card_table(i).is_some() && (card_defs.cards@[i].is_some() ==> card_view(card_defs.card(i))
            == spec_card_table(i).unwrap()) by {
            if i < 1 || i > 59 {
            } else if i == 1 {
                } else if i == 2 {
                } else if i == 3 {
                } else if i == 4 {
                } else if i == 5 {
                } else if i == 6 {
                } else if i == 7 {
                } else if i == 8 {
                } else if i == 9 {
                } else if i == 10 {
                } else if i == 11 {
                } else if i == 12 {
                } else if i == 13 {
                } else if i == 14 {
                } else if i == 15 {
                } else if i == 16 {
                } else if i == 17 {
                } else if i == 18 {
                } else if i == 19 {
                } else if i == 20 {
                } else if i == 21 {
                } else if i == 22 {
                } else if i == 23 {
                } else if i == 24 {
                } else if i == 25 {
                } else if i == 26 {
                } else if i == 27 {
                } else if i == 28 {
                } else if i == 29 {
                } else if i == 30 {
                } else if i == 31 {
                } else if i == 32 {
                } else if i == 33 {
                } else if i == 34 {
                } else if i == 35 {
                } else if i == 36 {
                } else if i == 37 {
                } else if i == 38 {
                } else if i == 39 {
                } else if i == 40 {
                } else if i == 41 {
                } else if i == 42 {
                } else if i == 43 {
                } else if i == 44 {
                } else if i == 45 {
                } else if i == 46 {
                } else if i == 47 {
                } else if i == 48 {
                } else if i == 49 {
                } else if i == 50 {
                } else if i == 51 {
                } else if i == 52 {
                } else if i == 53 {
                } else if i == 54 {
                } else if i == 55 {
                } else if i == 56 {
                } else if i == 57 {
                } else if i == 58 {
                } else if i == 59 {
                }
        }
        card_defs
    }
}

} // verus!
