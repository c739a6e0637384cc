//! The vocabulary of the game: health, allegiances, actions, rows, faces,
//! classes and the events that the engine reports.
use vstd::prelude::*;
use crate::card_ptr::CardPtr;
use crate::used_cards::{CostArr, ModifierArr};

verus! {

pub type CardId = u8;

pub type ConditionCountType = u8;

pub type TargetId = usize;

pub type RangeType = usize;

pub type ModifierAmount = i8;

/// The largest number of cards that a pile can hold.
pub const MAX_PILE_LEN: usize = 12;

/// Health of a card face. The order is `Empty < Half < Full`.
#[derive(Copy, Clone, Debug, PartialEq, Eq, Hash, Ord, PartialOrd, Structural)]
pub enum Health {
    Empty,
    Half,
    Full,
}

/// The rank of a health value: `Empty` is 0, `Half` is 1 and `Full` is 2.
pub open spec fn health_rank(h: Health) -> int {
    match h {
        Health::Empty => 0,
        Health::Half => 1,
        Health::Full => 2,
    }
}

/// The rank of a health value, as used to compare two healths.
pub fn health_value(h: Health) -> (r: u8)
    ensures
        r == health_rank(h),
{
    match h {
        Health::Empty => 0,
        Health::Half => 1,
        Health::Full => 2,
    }
}

#[derive(Copy, Clone, Debug, PartialEq, Eq, Hash, Structural)]
pub enum Target {
    Ally,
    Enemy,
    Any,
}

#[derive(Copy, Clone, Debug, PartialEq, Eq, Hash, Structural)]
pub enum StanceType {
    Open,
    Fist,
}

#[derive(Copy, Clone, Debug, PartialEq, Eq, Hash, Structural)]
pub enum Range {
    Inf,
    Int(RangeType),
    Stance(StanceType),
}

#[derive(Copy, Clone, Debug, PartialEq, Eq, Hash, Structural)]
pub enum Allegiance {
    Hero,
    Baddie,
    Werewolf,
    Rat,
}

#[derive(Copy, Clone, Debug, PartialEq, Eq, Hash, Structural)]
pub enum ClawSpaceType {
    Odd,
    Even,
}

#[derive(Copy, Clone, Debug, PartialEq, Eq, Hash, Structural)]
pub enum Action {
    // Enemy only
    Pull(Range),
    Push(Range),
    Death,
    Void,
    SpacedClaws(ClawSpaceType),
    // Player only
    Arrow,
    ArrowTwice,
    Quicken(Range),
    Delay(Range),
    Fireball,
    FireballTwice,
    Ablaze,
    Teleport,
    CallAssist,
    CallAssistTwice,
    Backstab,
    BackstabTwice,
    Poison,
    Rats,
    Hypnosis,
    // Both
    Hit(Range),
    Inspire,
    Heal,
    Maneuver,
    Revive,
    Claws(Range),
}

#[derive(Copy, Clone, Debug, PartialEq, Eq, Hash, Structural)]
pub struct WrappedAction {
    pub action: Action,
    pub target: Target,
}

impl WrappedAction {
    /// An action aimed at a target.
    pub fn new(action: Action, target: Target) -> (r: Self)
        ensures
            r.action == action,
            r.target == target,
    {
        Self { action, target }
    }
}

#[derive(Copy, Clone, Debug, PartialEq, Eq, Hash, Structural)]
pub enum SelfAction {
    Rotate,
    Flip,
}

#[derive(Copy, Clone, Debug, PartialEq, Eq, Hash, Structural)]
pub enum ConditionCostType {
    Energy,
    Dodge,
}

#[derive(Copy, Clone, Debug, PartialEq, Eq, Hash, Structural)]
pub enum TroupeType {
    Spade,
    Club,
    Diamond,
    Heart,
}

#[derive(Copy, Clone, Debug, PartialEq, Eq, Hash, Structural)]
pub enum Condition {
    Cost(ConditionCostType, ConditionCountType),
    Rage(ConditionCountType),
    Troupe(TroupeType),
    Stance(StanceType, ConditionCountType),
    ExhaustedAllies(usize),
}

#[derive(Copy, Clone, Debug, PartialEq, Eq, Hash, Structural)]
pub enum ReactionTrigger {
    Block,
    Dodge,
}

#[derive(Copy, Clone, Debug, PartialEq, Eq, Hash, Structural)]
pub struct ProvideAssistReaction {
    pub trigger: ReactionTrigger,
    pub assist_cost: SelfAction,
}

#[derive(Copy, Clone, Debug, PartialEq, Eq, Hash, Structural)]
pub struct StandardReaction {
    pub trigger: ReactionTrigger,
    pub outcome: Option<SelfAction>,
}

#[derive(Copy, Clone, Debug, PartialEq, Eq, Hash, Structural)]
pub struct RequestAssistReaction {
    pub outcome: Option<SelfAction>,
}

/// The shared rows that a card performs when it is hit.
#[derive(Copy, Clone, Debug, PartialEq, Eq, Hash, Structural)]
pub enum WhenHitRow {
    PushAllyInfPullAllyInf,
    ReviveAlly,
    ClawOddEnemies,
    ClawEvenEnemies,
    PushEnemyInfPushEnemyInf,
    ClawEnemy4,
    HealAlly,
    HealAllyClawEnemy3,
}

#[derive(Copy, Clone, Debug, PartialEq, Eq, Hash, Structural)]
pub enum Reaction {
    Standard(Option<Condition>, StandardReaction),
    Assist(RequestAssistReaction),
    WhenHit(WhenHitRow),
    Roll(Option<SelfAction>),
}

pub const FEATURE_WEIGHT: u16 = 0b00000000001;
pub const FEATURE_TRAP: u16 = 0b00000000010;
pub const FEATURE_WEB: u16 = 0b00000000100;
pub const FEATURE_VENOM: u16 = 0b00000001000;
pub const FEATURE_ENERGY: u16 = 0b00000010000;
pub const FEATURE_WALL: u16 = 0b00000100000;
pub const FEATURE_INVULNERABLE: u16 = 0b00001000000;
pub const FEATURE_OPEN: u16 = 0b00010000000;
pub const FEATURE_FIST: u16 = 0b00100000000;
pub const FEATURE_UNITED: u16 = 0b01000000000;
pub const FEATURE_WISP: u16 = 0b10000000000;

/// A set of card features, one bit per feature.
#[derive(Copy, Clone, Debug, PartialEq, Eq, Hash, Structural)]
pub struct Features {
    pub bits: u16,
}

/// Whether two feature sets share a feature.
pub open spec fn features_intersect(a: Features, b: Features) -> bool {
    a.bits & b.bits != 0
}

impl Features {
    /// No features.
    pub fn empty() -> (r: Features)
        ensures
            r.bits == 0,
    {
        Features { bits: 0 }
    }

    /// The features whose bits are set.
    pub fn from_bits(bits: u16) -> (r: Features)
        ensures
            r.bits == bits,
    {
        Features { bits }
    }

    /// The card cannot be moved.
    pub fn weight() -> (r: Features)
        ensures
            r.bits == FEATURE_WEIGHT,
    {
        Features { bits: FEATURE_WEIGHT }
    }

    /// Baddies moved across the card are attacked.
    pub fn trap() -> (r: Features)
        ensures
            r.bits == FEATURE_TRAP,
    {
        Features { bits: FEATURE_TRAP }
    }

    /// The card directly above it cannot move cards.
    pub fn web() -> (r: Features)
        ensures
            r.bits == FEATURE_WEB,
    {
        Features { bits: FEATURE_WEB }
    }

    /// The card directly above it cannot attack or heal.
    pub fn venom() -> (r: Features)
        ensures
            r.bits == FEATURE_VENOM,
    {
        Features { bits: FEATURE_VENOM }
    }

    /// The card can pay an energy cost.
    pub fn energy() -> (r: Features)
        ensures
            r.bits == FEATURE_ENERGY,
    {
        Features { bits: FEATURE_ENERGY }
    }

    /// The wall feature.
    pub fn wall() -> (r: Features)
        ensures
            r.bits == FEATURE_WALL,
    {
        Features { bits: FEATURE_WALL }
    }

    /// The invulnerable feature.
    pub fn invulnerable() -> (r: Features)
        ensures
            r.bits == FEATURE_INVULNERABLE,
    {
        Features { bits: FEATURE_INVULNERABLE }
    }

    /// Whether the two sets share a feature.
    pub fn intersects(&self, other: Features) -> (r: bool)
        ensures
            r == features_intersect(*self, other),
    {
        self.bits & other.bits != 0
    }

    /// The features of both sets.
    pub fn union(&self, other: Features) -> (r: Features)
        ensures
            r.bits == self.bits | other.bits,
    {
        Features { bits: self.bits | other.bits }
    }
}

#[derive(Clone, Debug)]
pub struct Row {
    pub is_mandatory: bool,
    pub condition: Option<Condition>,
    pub actions: Vec<WrappedAction>,
    pub mandatory: Option<SelfAction>,
}

#[derive(Copy, Clone, Debug, PartialEq, Eq, Hash, Structural)]
pub struct Modifier {
    pub amount: ModifierAmount,
    pub mandatory: Option<SelfAction>,
}

#[derive(Clone, Debug)]
pub struct FaceDef {
    pub allegiance: Allegiance,
    pub health: Health,
    pub features: Features,
    pub reaction: Option<Reaction>,
    pub reaction_assist: Option<ProvideAssistReaction>,
    pub swarm: Option<Row>,
    pub rows: Vec<Row>,
    pub assists: Vec<Row>,
    pub rage: ConditionCountType,
    pub modifier: Option<Modifier>,
}

#[derive(Copy, Clone, Debug, PartialEq, Eq, Hash, Ord, PartialOrd, Structural)]
pub enum FaceKey {
    A,
    B,
    C,
    D,
}

/// The four faces of a card, one per face key.
#[derive(Clone, Debug)]
pub struct FaceMap {
    pub a: FaceDef,
    pub b: FaceDef,
    pub c: FaceDef,
    pub d: FaceDef,
}

impl FaceMap {
    /// The face under a key.
    pub open spec fn spec_get(&self, key: FaceKey) -> FaceDef {
        match key {
            FaceKey::A => self.a,
            FaceKey::B => self.b,
            FaceKey::C => self.c,
            FaceKey::D => self.d,
        }
    }

    /// The face under a key.
    pub fn get(&self, key: FaceKey) -> (r: &FaceDef)
        ensures
            *r == self.spec_get(key),
    {
        match key {
            FaceKey::A => &self.a,
            FaceKey::B => &self.b,
            FaceKey::C => &self.c,
            FaceKey::D => &self.d,
        }
    }
}

#[derive(Copy, Clone, PartialEq, Eq, Hash, Debug, Structural)]
pub enum Class {
    Dummy,
    Warrior,
    Huntress,
    Pyro,
    Cursed,
    Beastmaster,
    Assassin,
    Monk,
    Ogre,
    Vampire,
    Spider,
    Demon,
    Flora,
    Wall,
    Piper,
    Troupe,
    Ooze,
}

/// The hero classes: the eight classes listed in `HEROS`.
pub open spec fn spec_is_hero(c: Class) -> bool {
    c == Class::Warrior || c == Class::Huntress || c == Class::Pyro || c == Class::Cursed
        || c == Class::Beastmaster || c == Class::Assassin || c == Class::Piper
        || c == Class::Monk
}

/// The baddie classes: the eight classes listed in `BADDIES`.
pub open spec fn spec_is_baddie(c: Class) -> bool {
    c == Class::Ogre || c == Class::Vampire || c == Class::Spider || c == Class::Demon
        || c == Class::Flora || c == Class::Wall || c == Class::Troupe || c == Class::Ooze
}

/// The hero classes, in the order in which the game lists them.
pub open spec fn spec_heros() -> Seq<Class> {
    seq![
        Class::Warrior,
        Class::Huntress,
        Class::Pyro,
        Class::Cursed,
        Class::Beastmaster,
        Class::Assassin,
        Class::Piper,
        Class::Monk,
    ]
}

/// The baddie classes, in the order in which the game lists them.
pub open spec fn spec_baddies() -> Seq<Class> {
    seq![
        Class::Ogre,
        Class::Vampire,
        Class::Spider,
        Class::Demon,
        Class::Flora,
        Class::Wall,
        Class::Troupe,
        Class::Ooze,
    ]
}

/// The hero classes.
pub fn heros() -> (r: Vec<Class>)
    ensures
        r@ == spec_heros(),
{
    vec![
        Class::Warrior,
        Class::Huntress,
        Class::Pyro,
        Class::Cursed,
        Class::Beastmaster,
        Class::Assassin,
        Class::Piper,
        Class::Monk,
    ]
}

/// The baddie classes.
pub fn baddies() -> (r: Vec<Class>)
    ensures
        r@ == spec_baddies(),
{
    vec![
        Class::Ogre,
        Class::Vampire,
        Class::Spider,
        Class::Demon,
        Class::Flora,
        Class::Wall,
        Class::Troupe,
        Class::Ooze,
    ]
}

/// A class is a hero class exactly when `HEROS` lists it, and a baddie class
/// exactly when `BADDIES` lists it; no class is both.
pub proof fn lemma_class_lists(c: Class)
    ensures
        spec_heros().contains(c) <==> spec_is_hero(c),
        spec_baddies().contains(c) <==> spec_is_baddie(c),
        !(spec_is_hero(c) && spec_is_baddie(c)),
{
    if spec_is_hero(c) {
        let i: int = match c {
            Class::Warrior => 0,
            Class::Huntress => 1,
            Class::Pyro => 2,
            Class::Cursed => 3,
            Class::Beastmaster => 4,
            Class::Assassin => 5,
            Class::Piper => 6,
            _ => 7,
        };
        assert(spec_heros()[i] == c);
    }
    if spec_is_baddie(c) {
        let i: int = match c {
            Class::Ogre => 0,
            Class::Vampire => 1,
            Class::Spider => 2,
            Class::Demon => 3,
            Class::Flora => 4,
            Class::Wall => 5,
            Class::Troupe => 6,
            _ => 7,
        };
        assert(spec_baddies()[i] == c);
    }
}

impl Class {
    /// Whether this is one of the hero classes.
    pub fn is_hero(self) -> (r: bool)
        ensures
            r == spec_is_hero(self),
    {
        match self {
            Class::Warrior
            | Class::Huntress
            | Class::Pyro
            | Class::Cursed
            | Class::Beastmaster
            | Class::Assassin
            | Class::Piper
            | Class::Monk => true,
            Class::Dummy
            | Class::Ogre
            | Class::Vampire
            | Class::Spider
            | Class::Demon
            | Class::Flora
            | Class::Wall
            | Class::Troupe
            | Class::Ooze => false,
        }
    }
}

#[derive(Clone, Debug)]
pub struct CardDef {
    pub id: CardId,
    pub class: Class,
    pub faces: FaceMap,
    pub is_back_start: bool,
    pub troupe_type: Option<TroupeType>,
}

#[derive(Copy, Clone, Debug, PartialEq, Eq, Hash, Structural)]
pub enum HitType {
    Hit,
    Arrow,
    Trap,
    Claw,
    Ablaze,
    Fireball,
    Backstab,
    Poison,
    Roll,
}

#[derive(Copy, Clone, Debug, PartialEq, Eq, Hash, Structural)]
pub enum MoveType {
    Quicken,
    Delay,
}

#[derive(Copy, Clone, Debug, PartialEq, Eq, Hash, Structural)]
pub enum EndPileMoveType {
    Pull,
    Push,
}

#[derive(Copy, Clone, Debug, PartialEq, Eq, Hash, Structural)]
pub enum SkipActionReason {
    Web,
    Venom,
    NoOption,
    Choice,
}

#[derive(Copy, Clone, Debug, PartialEq, Eq, Hash, Structural)]
pub enum Event {
    // Control flow
    PickRow(usize, usize, CardPtr),
    SkipTurn(CardPtr),
    SkipHit(HitType),
    BottomCard,
    SkipAction(CardPtr, WrappedAction, SkipActionReason),
    StartAction(CardPtr, WrappedAction),
    AttackCard(usize, CardPtr, HitType),
    Damage(usize, CardPtr, HitType, FaceKey),
    WhiffHit(usize, CardPtr, HitType),
    // Special attacks
    Death,
    Void(usize, CardPtr, FaceKey),
    Inspire(usize, CardPtr),
    Hypnosis(usize, CardPtr),
    // Moves
    MoveTarget(usize, CardPtr, MoveType),
    MoveBy(usize, CardPtr, MoveType, usize),
    MoveResult(MoveType, usize),
    Pull(usize, CardPtr),
    Push(usize, CardPtr),
    EndPileMoveResult(EndPileMoveType),
    Teleport(usize, CardPtr, usize, CardPtr),
    // Reported after the event
    Mandatory(CardPtr, SelfAction),
    // Targets
    FireballTarget(usize, CardPtr),
    Ablaze(usize, CardPtr, usize, CardPtr),
    ReactAssistUsed(usize, CardPtr, ReactionTrigger, SelfAction),
    // Heals
    Heal(usize, CardPtr),
    Revive(usize, CardPtr),
    Rat(usize, CardPtr),
    // Reactions
    Block(usize, CardPtr, Option<SelfAction>, FaceKey),
    Dodge(usize, CardPtr, Option<SelfAction>, FaceKey),
    OnHurt(usize, CardPtr),
    // Other
    PayRowConditionCosts(ConditionCostType, CostArr),
    UseCardModifiers(ModifierArr, ModifierAmount, WrappedAction),
    Maneuver(usize, CardPtr),
    Swarm(usize, CardPtr),
    UseActionAssistCard(usize, CardPtr),
    UseActionAssistRow(usize, CardPtr, usize),
    SkipReactActionAssist,
}

#[derive(Copy, Clone, Debug, PartialEq, Eq, Hash, Structural)]
pub enum WinType {
    Win,
    Lose,
    Unresolved,
}

impl WinType {
    /// Whether the game has ended.
    pub fn is_over(&self) -> (r: bool)
        ensures
            r == (*self != WinType::Unresolved),
    {
        match self {
            WinType::Unresolved => false,
            _ => true,
        }
    }
}

} // verus!
