//! The cards of the table as mathematical values: rows, faces and cards
//! with sequences in place of vectors, and the same builders on them that
//! describe the cards, so that the table's contents can be stated.
use vstd::prelude::*;
use crate::card_defs::{built_allegiance, CharBuilder};
use crate::primitives::{
    Action, Allegiance, CardDef, CardId, ClawSpaceType, Class, Condition, ConditionCostType,
    ConditionCountType, FaceDef, FaceMap, Features, FEATURE_ENERGY, Health, Modifier, ModifierAmount,
    ProvideAssistReaction, Range, Reaction, ReactionTrigger, RequestAssistReaction, Row, SelfAction,
    StandardReaction, Target, TroupeType, WhenHitRow, WrappedAction,
};

verus! {

/// A row as a value: its condition, its actions in order, and its self
/// action.
pub struct RowView {
    pub is_mandatory: bool,
    pub condition: Option<Condition>,
    pub actions: Seq<WrappedAction>,
    pub mandatory: Option<SelfAction>,
}

/// A face as a value.
pub struct FaceView {
    pub allegiance: Allegiance,
    pub health: Health,
    pub features: Features,
    pub reaction: Option<Reaction>,
    pub reaction_assist: Option<ProvideAssistReaction>,
    pub swarm: Option<RowView>,
    pub rows: Seq<RowView>,
    pub assists: Seq<RowView>,
    pub rage: ConditionCountType,
    pub modifier: Option<Modifier>,
}

/// The four faces of a card as values.
pub struct FaceMapView {
    pub a: FaceView,
    pub b: FaceView,
    pub c: FaceView,
    pub d: FaceView,
}

/// A card as a value.
pub struct CardView {
    pub id: CardId,
    pub class: Class,
    pub faces: FaceMapView,
    pub is_back_start: bool,
    pub troupe_type: Option<TroupeType>,
}

/// The value of a row.
pub open spec fn row_view(r: Row) -> RowView {
    RowView { is_mandatory: r.is_mandatory, condition: r.condition, actions: r.actions@, mandatory: r.mandatory }
}

/// The values of rows, in order.
pub open spec fn rows_view(rows: Seq<Row>) -> Seq<RowView> {
    Seq::new(rows.len(), |i: int| row_view(rows[i]))
}

/// The value of an optional row.
pub open spec fn opt_row_view(r: Option<Row>) -> Option<RowView> {
    match r {
        Some(x) => Some(row_view(x)),
        None => None,
    }
}

/// The value of a face.
pub open spec fn face_view(f: FaceDef) -> FaceView {
    FaceView {
        allegiance: f.allegiance,
        health: f.health,
        features: f.features,
        reaction: f.reaction,
        reaction_assist: f.reaction_assist,
        swarm: opt_row_view(f.swarm),
        rows: rows_view(f.rows@),
        assists: rows_view(f.assists@),
        rage: f.rage,
        modifier: f.modifier,
    }
}

/// The values of a card's four faces.
pub open spec fn face_map_view(m: FaceMap) -> FaceMapView {
    FaceMapView { a: face_view(m.a), b: face_view(m.b), c: face_view(m.c), d: face_view(m.d) }
}

/// The value of a card.
pub open spec fn card_view(c: CardDef) -> CardView {
    CardView {
        id: c.id,
        class: c.class,
        faces: face_map_view(c.faces),
        is_back_start: c.is_back_start,
        troupe_type: c.troupe_type,
    }
}

/// A row with no condition, no action and no self action.
pub open spec fn spec_row() -> RowView {
    RowView { is_mandatory: false, condition: None, actions: Seq::empty(), mandatory: None }
}

impl RowView {
    #[verifier::opaque]
    pub open spec fn with_action(self, wrapped: WrappedAction) -> RowView {
        RowView { actions: self.actions.push(wrapped), ..self }
    }

    #[verifier::opaque]
    pub open spec fn add_condition(self, condition: Condition) -> RowView {
        RowView { condition: Some(condition), ..self }
    }

    #[verifier::opaque]
    pub open spec fn rage_condition(self, rage: ConditionCountType) -> RowView {
        self.add_condition(Condition::Rage(rage))
    }

    #[verifier::opaque]
    pub open spec fn energy_cost(self, cost: ConditionCountType) -> RowView {
        self.add_condition(Condition::Cost(ConditionCostType::Energy, cost))
    }

    #[verifier::opaque]
    pub open spec fn dodge_cost(self, cost: ConditionCountType) -> RowView {
        self.add_condition(Condition::Cost(ConditionCostType::Dodge, cost))
    }

    #[verifier::opaque]
    pub open spec fn add_mandatory(self, mandatory: SelfAction) -> RowView {
        RowView { mandatory: Some(mandatory), ..self }
    }

    #[verifier::opaque]
    pub open spec fn rotate(self) -> RowView {
        self.add_mandatory(SelfAction::Rotate)
    }

    #[verifier::opaque]
    pub open spec fn flip(self) -> RowView {
        self.add_mandatory(SelfAction::Flip)
    }

    #[verifier::opaque]
    pub open spec fn is_mandatory(self) -> RowView {
        RowView { is_mandatory: true, ..self }
    }

    #[verifier::opaque]
    pub open spec fn manouver(self) -> RowView {
        self.with_action(WrappedAction { action: Action::Maneuver, target: Target::Ally })
    }

    #[verifier::opaque]
    pub open spec fn arrow_any(self) -> RowView {
        self.with_action(WrappedAction { action: Action::Arrow, target: Target::Any })
    }

    #[verifier::opaque]
    pub open spec fn double_arrow_any(self) -> RowView {
        self.with_action(WrappedAction { action: Action::ArrowTwice, target: Target::Any })
    }

    #[verifier::opaque]
    pub open spec fn delay_ally(self, amount: usize) -> RowView {
        self.with_action(WrappedAction { action: Action::Delay(Range::Int(amount)), target: Target::Ally })
    }

    #[verifier::opaque]
    pub open spec fn delay_any(self, range: usize) -> RowView {
        self.with_action(WrappedAction { action: Action::Delay(Range::Int(range)), target: Target::Any })
    }

    #[verifier::opaque]
    pub open spec fn delay_enemy(self, range: usize) -> RowView {
        self.with_action(WrappedAction { action: Action::Delay(Range::Int(range)), target: Target::Enemy })
    }

    #[verifier::opaque]
    pub open spec fn quicken_any(self, range: usize) -> RowView {
        self.with_action(WrappedAction { action: Action::Quicken(Range::Int(range)), target: Target::Any })
    }

    #[verifier::opaque]
    pub open spec fn quicken_enemy(self, range: usize) -> RowView {
        self.with_action(WrappedAction { action: Action::Quicken(Range::Int(range)), target: Target::Enemy })
    }

    #[verifier::opaque]
    pub open spec fn quicken_ally(self, range: usize) -> RowView {
        self.with_action(WrappedAction { action: Action::Quicken(Range::Int(range)), target: Target::Ally })
    }

    #[verifier::opaque]
    pub open spec fn hit_any(self, range: usize) -> RowView {
        self.with_action(WrappedAction { action: Action::Hit(Range::Int(range)), target: Target::Any })
    }

    #[verifier::opaque]
    pub open spec fn hit_any_inf(self) -> RowView {
        self.with_action(WrappedAction { action: Action::Hit(Range::Inf), target: Target::Any })
    }

    #[verifier::opaque]
    pub open spec fn hit_ally(self, range: usize) -> RowView {
        self.with_action(WrappedAction { action: Action::Hit(Range::Int(range)), target: Target::Ally })
    }

    #[verifier::opaque]
    pub open spec fn hit_ally_inf(self) -> RowView {
        self.with_action(WrappedAction { action: Action::Hit(Range::Inf), target: Target::Ally })
    }

    #[verifier::opaque]
    pub open spec fn heal_any(self) -> RowView {
        self.with_action(WrappedAction { action: Action::Heal, target: Target::Any })
    }

    #[verifier::opaque]
    pub open spec fn heal_ally(self) -> RowView {
        self.with_action(WrappedAction { action: Action::Heal, target: Target::Ally })
    }

    #[verifier::opaque]
    pub open spec fn heal_enemy(self) -> RowView {
        self.with_action(WrappedAction { action: Action::Heal, target: Target::Enemy })
    }

    #[verifier::opaque]
    pub open spec fn revive_ally(self) -> RowView {
        self.with_action(WrappedAction { action: Action::Revive, target: Target::Ally })
    }

    #[verifier::opaque]
    pub open spec fn revive_any(self) -> RowView {
        self.with_action(WrappedAction { action: Action::Revive, target: Target::Any })
    }

    #[verifier::opaque]
    pub open spec fn hit_enemy(self, range: usize) -> RowView {
        self.with_action(WrappedAction { action: Action::Hit(Range::Int(range)), target: Target::Enemy })
    }

    #[verifier::opaque]
    pub open spec fn hit_enemy_inf(self) -> RowView {
        self.with_action(WrappedAction { action: Action::Hit(Range::Inf), target: Target::Enemy })
    }

    #[verifier::opaque]
    pub open spec fn pull_enemy(self, range: usize) -> RowView {
        self.with_action(WrappedAction { action: Action::Pull(Range::Int(range)), target: Target::Enemy })
    }

    #[verifier::opaque]
    pub open spec fn pull_enemy_inf(self) -> RowView {
        self.with_action(WrappedAction { action: Action::Pull(Range::Inf), target: Target::Enemy })
    }

    #[verifier::opaque]
    pub open spec fn pull_ally(self, range: usize) -> RowView {
        self.with_action(WrappedAction { action: Action::Pull(Range::Int(range)), target: Target::Ally })
    }

    #[verifier::opaque]
    pub open spec fn pull_ally_inf(self) -> RowView {
        self.with_action(WrappedAction { action: Action::Pull(Range::Inf), target: Target::Ally })
    }

    #[verifier::opaque]
    pub open spec fn push_enemy(self, range: usize) -> RowView {
        self.with_action(WrappedAction { action: Action::Push(Range::Int(range)), target: Target::Enemy })
    }

    #[verifier::opaque]
    pub open spec fn push_enemy_inf(self) -> RowView {
        self.with_action(WrappedAction { action: Action::Push(Range::Inf), target: Target::Enemy })
    }

    #[verifier::opaque]
    pub open spec fn push_ally_inf(self) -> RowView {
        self.with_action(WrappedAction { action: Action::Push(Range::Inf), target: Target::Ally })
    }

    #[verifier::opaque]
    pub open spec fn inspire_ally(self) -> RowView {
        self.with_action(WrappedAction { action: Action::Inspire, target: Target::Ally })
    }

    #[verifier::opaque]
    pub open spec fn inspire_enemy(self) -> RowView {
        self.with_action(WrappedAction { action: Action::Inspire, target: Target::Enemy })
    }

    #[verifier::opaque]
    pub open spec fn void(self) -> RowView {
        self.with_action(WrappedAction { action: Action::Void, target: Target::Enemy })
    }

    #[verifier::opaque]
    pub open spec fn death(self) -> RowView {
        self.with_action(WrappedAction { action: Action::Death, target: Target::Enemy })
    }

    #[verifier::opaque]
    pub open spec fn claw_enemy(self, range: usize) -> RowView {
        self.with_action(WrappedAction { action: Action::Claws(Range::Int(range)), target: Target::Enemy })
    }

    #[verifier::opaque]
    pub open spec fn claw_enemy_inf(self) -> RowView {
        self.with_action(WrappedAction { action: Action::Claws(Range::Inf), target: Target::Enemy })
    }

    #[verifier::opaque]
    pub open spec fn claw_odd_enemies(self) -> RowView {
        self.with_action(WrappedAction { action: Action::SpacedClaws(ClawSpaceType::Odd), target: Target::Enemy })
    }

    #[verifier::opaque]
    pub open spec fn claw_even_enemies(self) -> RowView {
        self.with_action(WrappedAction { action: Action::SpacedClaws(ClawSpaceType::Even), target: Target::Enemy })
    }

    #[verifier::opaque]
    pub open spec fn fireball(self) -> RowView {
        self.with_action(WrappedAction { action: Action::Fireball, target: Target::Any })
    }

    #[verifier::opaque]
    pub open spec fn ablaze(self) -> RowView {
        self.with_action(WrappedAction { action: Action::Ablaze, target: Target::Any })
    }

    #[verifier::opaque]
    pub open spec fn teleport_ally(self) -> RowView {
        self.with_action(WrappedAction { action: Action::Teleport, target: Target::Ally })
    }

    #[verifier::opaque]
    pub open spec fn teleport_enemy(self) -> RowView {
        self.with_action(WrappedAction { action: Action::Teleport, target: Target::Enemy })
    }

    #[verifier::opaque]
    pub open spec fn teleport_each(self) -> RowView {
        self.with_action(WrappedAction { action: Action::Teleport, target: Target::Any })
    }

    #[verifier::opaque]
    pub open spec fn call_assist(self) -> RowView {
        self.with_action(WrappedAction { action: Action::CallAssist, target: Target::Any })
    }

    #[verifier::opaque]
    pub open spec fn call_assist_twice(self) -> RowView {
        self.with_action(WrappedAction { action: Action::CallAssistTwice, target: Target::Any })
    }

    #[verifier::opaque]
    pub open spec fn backstab_any(self) -> RowView {
        self.with_action(WrappedAction { action: Action::Backstab, target: Target::Any })
    }

    #[verifier::opaque]
    pub open spec fn backstab_any_twice(self) -> RowView {
        self.with_action(WrappedAction { action: Action::BackstabTwice, target: Target::Any })
    }

    #[verifier::opaque]
    pub open spec fn poison_any(self) -> RowView {
        self.with_action(WrappedAction { action: Action::Poison, target: Target::Any })
    }

    #[verifier::opaque]
    pub open spec fn rats(self) -> RowView {
        self.with_action(WrappedAction { action: Action::Rats, target: Target::Any })
    }

    #[verifier::opaque]
    pub open spec fn hypnosis_enemy(self) -> RowView {
        self.with_action(WrappedAction { action: Action::Hypnosis, target: Target::Enemy })
    }
}

/// A face with the given health, hero allegiance and nothing else.
pub open spec fn spec_side(health: Health) -> FaceView {
    FaceView {
        health,
        allegiance: Allegiance::Hero,
        features: Features { bits: 0 },
        reaction: None,
        reaction_assist: None,
        rows: Seq::empty(),
        assists: Seq::empty(),
        swarm: None,
        rage: 0,
        modifier: None,
    }
}

impl FaceView {
    #[verifier::opaque]
    pub open spec fn feature(self, features: Features) -> FaceView {
        FaceView { features: Features { bits: self.features.bits | features.bits }, ..self }
    }

    #[verifier::opaque]
    pub open spec fn energy(self) -> FaceView {
        FaceView { features: Features { bits: self.features.bits | FEATURE_ENERGY }, ..self }
    }

    #[verifier::opaque]
    pub open spec fn werewolf(self) -> FaceView {
        FaceView { allegiance: Allegiance::Werewolf, ..self }
    }

    #[verifier::opaque]
    pub open spec fn reaction(self, reaction: Reaction) -> FaceView {
        FaceView { reaction: Some(reaction), ..self }
    }

    #[verifier::opaque]
    pub open spec fn block_to_rotate(self) -> FaceView {
        FaceView { reaction: Some(Reaction::Standard(None, StandardReaction { trigger: ReactionTrigger::Block, outcome: Some(SelfAction::Rotate) })), ..self }
    }

    #[verifier::opaque]
    pub open spec fn block_to_flip(self) -> FaceView {
        FaceView { reaction: Some(Reaction::Standard(None, StandardReaction { trigger: ReactionTrigger::Block, outcome: Some(SelfAction::Flip) })), ..self }
    }

    #[verifier::opaque]
    pub open spec fn block_perm(self) -> FaceView {
        FaceView { reaction: Some(Reaction::Standard(None, StandardReaction { trigger: ReactionTrigger::Block, outcome: None })), ..self }
    }

    #[verifier::opaque]
    pub open spec fn dodge_to_rotate(self) -> FaceView {
        FaceView { reaction: Some(Reaction::Standard(None, StandardReaction { trigger: ReactionTrigger::Dodge, outcome: Some(SelfAction::Rotate) })), ..self }
    }

    #[verifier::opaque]
    pub open spec fn call_assist_to_turn(self) -> FaceView {
        FaceView { reaction: Some(Reaction::Assist(RequestAssistReaction { outcome: Some(SelfAction::Rotate) })), ..self }
    }

    #[verifier::opaque]
    pub open spec fn call_assist_perm(self) -> FaceView {
        FaceView { reaction: Some(Reaction::Assist(RequestAssistReaction { outcome: None })), ..self }
    }

    #[verifier::opaque]
    pub open spec fn on_hit_reaction(self, actions: WhenHitRow) -> FaceView {
        FaceView { reaction: Some(Reaction::WhenHit(actions)), ..self }
    }

    #[verifier::opaque]
    pub open spec fn provide_assist_block_rotate(self) -> FaceView {
        FaceView { reaction_assist: Some(ProvideAssistReaction { trigger: ReactionTrigger::Block, assist_cost: SelfAction::Rotate }), ..self }
    }

    #[verifier::opaque]
    pub open spec fn provide_assist_block_flip(self) -> FaceView {
        FaceView { reaction_assist: Some(ProvideAssistReaction { trigger: ReactionTrigger::Block, assist_cost: SelfAction::Flip }), ..self }
    }

    #[verifier::opaque]
    pub open spec fn provide_assist_dodge_rotate(self) -> FaceView {
        FaceView { reaction_assist: Some(ProvideAssistReaction { trigger: ReactionTrigger::Dodge, assist_cost: SelfAction::Rotate }), ..self }
    }

    #[verifier::opaque]
    pub open spec fn provide_assist_dodge_flip(self) -> FaceView {
        FaceView { reaction_assist: Some(ProvideAssistReaction { trigger: ReactionTrigger::Dodge, assist_cost: SelfAction::Flip }), ..self }
    }

    #[verifier::opaque]
    pub open spec fn roll(self) -> FaceView {
        FaceView { reaction: Some(Reaction::Roll(None)), ..self }
    }

    #[verifier::opaque]
    pub open spec fn rage(self, rage: ConditionCountType) -> FaceView {
        FaceView { rage: rage, ..self }
    }

    #[verifier::opaque]
    pub open spec fn modifier_no_mandatory(self, amount: ModifierAmount) -> FaceView {
        FaceView { modifier: Some(Modifier { amount, mandatory: None }), ..self }
    }

    #[verifier::opaque]
    pub open spec fn modifier_rotate(self, amount: ModifierAmount) -> FaceView {
        FaceView { modifier: Some(Modifier { amount, mandatory: Some(SelfAction::Rotate) }), ..self }
    }

    #[verifier::opaque]
    pub open spec fn add_row(self, row: RowView) -> FaceView {
        FaceView { rows: self.rows.push(row), ..self }
    }

    #[verifier::opaque]
    pub open spec fn add_assist(self, row: RowView) -> FaceView {
        FaceView { assists: self.assists.push(row), ..self }
    }

    #[verifier::opaque]
    pub open spec fn swarm(self, row: RowView) -> FaceView {
        FaceView { swarm: Some(row), ..self }
    }

    /// The face with the allegiance that a card's builder gives it.
    #[verifier::opaque]
    pub open spec fn built(self, builder: Allegiance, is_back: bool) -> FaceView {
        FaceView { allegiance: built_allegiance(self.allegiance, builder, is_back), ..self }
    }
}

/// The four faces of a card, in key order.
pub open spec fn spec_faces(a: FaceView, b: FaceView, c: FaceView, d: FaceView) -> FaceMapView {
    FaceMapView { a, b, c, d }
}

impl CharBuilder {
    /// The card that `card` builds.
    pub open spec fn spec_card(self, id: CardId, faces: FaceMapView) -> CardView {
        CardView {
            id,
            class: self.class,
            faces: FaceMapView {
                a: faces.a.built(self.allegiance, false),
                b: faces.b.built(self.allegiance, false),
                c: faces.c.built(self.allegiance, false),
                d: faces.d.built(self.allegiance, false),
            },
            is_back_start: false,
            troupe_type: None,
        }
    }

    /// The card that `back_card` builds.
    pub open spec fn spec_back_card(self, id: CardId, faces: FaceMapView) -> CardView {
        CardView {
            id,
            class: self.class,
            faces: FaceMapView {
                a: faces.a.built(self.allegiance, true),
                b: faces.b.built(self.allegiance, true),
                c: faces.c.built(self.allegiance, true),
                d: faces.d.built(self.allegiance, true),
            },
            is_back_start: true,
            troupe_type: None,
        }
    }
}

} // verus!
