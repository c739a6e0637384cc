//! What the card table holds: each card of the game as a value, built with
//! the same builders that register it.
use vstd::prelude::*;
use crate::card_defs::CharBuilder;
use crate::card_views::{spec_faces, spec_row, spec_side, CardView};
use crate::primitives::{
    Allegiance, Class, Condition, Features, Health, WhenHitRow, FEATURE_INVULNERABLE, FEATURE_TRAP,
    FEATURE_VENOM, FEATURE_WALL, FEATURE_WEB, FEATURE_WEIGHT,
};

verus! {

/// The warrior cards, by id: ids 1 to 5.
#[verifier::opaque]
pub open spec fn warrior_card(id: int) -> CardView {
    let warrior = CharBuilder { class: Class::Warrior, allegiance: Allegiance::Hero };
    if id == 1 {
        warrior.spec_card(
            1,
            spec_faces(
                spec_side(Health::Full)
                    .add_row(spec_row().hit_any(2))
                    .add_row(spec_row().delay_any(2).rotate()),
                spec_side(Health::Full)
                    .add_row(spec_row().delay_any(1).hit_any(2))
                    .add_row(spec_row().delay_any(2))
                    .block_to_rotate(),
                spec_side(Health::Empty)
                    .add_row(spec_row().hit_any(2))
                    .add_row(spec_row().delay_any(2)),
                spec_side(Health::Half)
                    .add_row(spec_row().hit_any(4))
                    .add_row(spec_row().quicken_any(2)),
            ),
        )
    } else if id == 2 {
        warrior.spec_card(
            2,
            spec_faces(
                spec_side(Health::Full)
                    .add_row(spec_row().hit_any(2).rotate())
                    .add_row(spec_row().delay_any(2)),
                spec_side(Health::Full)
                    .add_row(spec_row().heal_any().rotate())
                    .add_row(spec_row().quicken_any(2))
                    .block_to_rotate(),
                spec_side(Health::Empty)
                    .add_row(spec_row().quicken_any(2))
                    .add_row(spec_row().delay_any(2)),
                spec_side(Health::Half)
                    .add_row(spec_row().heal_any().rotate())
                    .add_row(spec_row().delay_any(3)),
            ),
        )
    } else if id == 3 {
        warrior.spec_card(
            3,
            spec_faces(
                spec_side(Health::Full)
                    .add_row(spec_row().quicken_any(2).rotate())
                    .add_row(spec_row().delay_any(2).rotate()),
                spec_side(Health::Full)
                    .add_row(spec_row().hit_any(4).hit_any(4).rotate()),
                spec_side(Health::Empty)
                    .add_row(spec_row().quicken_any(2))
                    .add_row(spec_row().delay_any(2)),
                spec_side(Health::Half)
                    .add_row(spec_row().hit_any(4))
                    .add_row(spec_row().delay_any(1)),
            ),
        )
    } else if id == 4 {
        warrior.spec_card(
            4,
            spec_faces(
                spec_side(Health::Full)
                    .add_row(spec_row().hit_any(4))
                    .add_row(spec_row().quicken_any(2))
                    .block_to_rotate(),
                spec_side(Health::Full)
                    .add_row(spec_row().hit_any(2))
                    .add_row(spec_row().delay_any(1).quicken_any(1).rotate()),
                spec_side(Health::Half)
                    .add_row(spec_row().hit_any(4))
                    .add_row(spec_row().quicken_any(1)),
                spec_side(Health::Empty)
                    .add_row(spec_row().hit_any(2))
                    .add_row(spec_row().heal_any()),
            ),
        )
    } else {
        warrior.spec_card(
            5,
            spec_faces(
                spec_side(Health::Full)
                    .add_row(spec_row().quicken_any(2).hit_any(2))
                    .block_to_rotate(),
                spec_side(Health::Full)
                    .add_row(spec_row().hit_any(2).rotate())
                    .add_row(spec_row().quicken_any(2).rotate()),
                spec_side(Health::Half)
                    .add_row(spec_row().delay_any(3).hit_any(2).hit_any(2).rotate())
                    .add_row(spec_row().quicken_any(2)),
                spec_side(Health::Empty)
                    .add_row(spec_row().hit_any(4))
                    .add_row(spec_row().quicken_any(1)),
            ),
        )
    }
}

/// The ogre cards, by id: ids 6 to 9.
#[verifier::opaque]
pub open spec fn ogre_card(id: int) -> CardView {
    let ogre = CharBuilder { class: Class::Ogre, allegiance: Allegiance::Baddie };
    if id == 6 {
        ogre.spec_card(
            6,
            spec_faces(
                spec_side(Health::Full)
                    .add_row(spec_row().pull_enemy(5).hit_enemy(1).rotate()),
                spec_side(Health::Full)
                    .add_row(spec_row().hit_enemy(4).push_enemy(3))
                    .block_to_rotate(),
                spec_side(Health::Empty)
                    .add_row(spec_row().hit_enemy(5)),
                spec_side(Health::Half)
                    .feature(Features { bits: FEATURE_WEIGHT })
                    .add_row(spec_row().hit_enemy_inf().hit_enemy_inf().rotate())
                    .block_perm(),
            ),
        )
    } else if id == 7 {
        ogre.spec_card(
            7,
            spec_faces(
                spec_side(Health::Full)
                    .feature(Features { bits: FEATURE_WEIGHT })
                    .add_row(spec_row().hit_enemy(4).rotate()),
                spec_side(Health::Full)
                    .add_row(spec_row().heal_ally().rotate())
                    .add_row(spec_row().hit_enemy(7).rotate())
                    .block_to_rotate(),
                spec_side(Health::Empty)
                    .add_row(spec_row().hit_enemy(5).pull_ally(4)),
                spec_side(Health::Half)
                    .add_row(spec_row().push_enemy(3).hit_enemy(5)),
            ),
        )
    } else if id == 8 {
        ogre.spec_card(
            8,
            spec_faces(
                spec_side(Health::Full)
                    .add_row(spec_row().hit_enemy(4).rotate()),
                spec_side(Health::Full)
                    .feature(Features { bits: FEATURE_WEIGHT })
                    .add_row(spec_row().heal_ally().rotate())
                    .add_row(spec_row().hit_enemy(5).rotate()),
                spec_side(Health::Empty)
                    .add_row(spec_row().pull_enemy(6).hit_enemy(1)),
                spec_side(Health::Half)
                    .add_row(spec_row().pull_enemy(4).hit_enemy(1)),
            ),
        )
    } else {
        ogre.spec_card(
            9,
            spec_faces(
                spec_side(Health::Full)
                    .add_row(spec_row().push_enemy(3).push_enemy(3).rotate()),
                spec_side(Health::Full)
                    .add_row(spec_row().hit_enemy(5).rotate())
                    .block_to_rotate(),
                spec_side(Health::Empty)
                    .feature(Features { bits: FEATURE_WEIGHT })
                    .add_row(spec_row().hit_enemy_inf()),
                spec_side(Health::Half)
                    .add_row(spec_row().heal_ally().heal_ally().heal_ally().rotate())
                    .add_row(spec_row().pull_ally(5)),
            ),
        )
    }
}

/// The huntress cards, by id: ids 10 to 14.
#[verifier::opaque]
pub open spec fn huntress_card(id: int) -> CardView {
    let huntress = CharBuilder { class: Class::Huntress, allegiance: Allegiance::Hero };
    if id == 10 {
        huntress.spec_card(
            10,
            spec_faces(
                spec_side(Health::Full)
                    .feature(Features { bits: FEATURE_TRAP })
                    .add_row(spec_row().arrow_any().rotate())
                    .add_row(spec_row().delay_ally(2).manouver()),
                spec_side(Health::Full)
                    .feature(Features { bits: FEATURE_TRAP })
                    .add_row(spec_row().quicken_enemy(2).manouver().rotate())
                    .add_row(spec_row().heal_any()),
                spec_side(Health::Empty)
                    .feature(Features { bits: FEATURE_TRAP })
                    .add_row(spec_row().manouver())
                    .add_row(spec_row().hit_any(1))
                    .add_row(spec_row().delay_any(1)),
                spec_side(Health::Half)
                    .feature(Features { bits: FEATURE_TRAP })
                    .add_row(spec_row().double_arrow_any())
                    .add_row(spec_row().manouver())
                    .add_row(spec_row().quicken_any(1)),
            ),
        )
    } else if id == 11 {
        huntress.spec_card(
            11,
            spec_faces(
                spec_side(Health::Full)
                    .dodge_to_rotate()
                    .add_row(spec_row().arrow_any().rotate())
                    .add_row(spec_row().quicken_enemy(2).manouver().rotate())
                    .add_row(spec_row().hit_any(1).rotate()),
                spec_side(Health::Full)
                    .add_row(spec_row().delay_ally(2))
                    .add_row(spec_row().quicken_enemy(2))
                    .add_row(spec_row().manouver().manouver()),
                spec_side(Health::Half)
                    .add_row(spec_row().hit_any(1).hit_any(1).rotate())
                    .add_row(spec_row().quicken_enemy(2).manouver()),
                spec_side(Health::Empty)
                    .add_row(spec_row().hit_any(1).manouver().delay_ally(2)),
            ),
        )
    } else if id == 12 {
        huntress.spec_card(
            12,
            spec_faces(
                spec_side(Health::Full)
                    .dodge_to_rotate()
                    .add_row(spec_row().manouver().quicken_enemy(2).rotate())
                    .add_row(spec_row().delay_any(1).rotate()),
                spec_side(Health::Full)
                    .feature(Features { bits: FEATURE_TRAP })
                    .add_row(spec_row().double_arrow_any())
                    .add_row(spec_row().delay_ally(2).manouver()),
                spec_side(Health::Half)
                    .feature(Features { bits: FEATURE_TRAP })
                    .add_row(spec_row().delay_ally(2).arrow_any())
                    .add_row(spec_row().manouver()),
                spec_side(Health::Empty)
                    .feature(Features { bits: FEATURE_TRAP })
                    .add_row(spec_row().delay_ally(2).quicken_enemy(2))
                    .add_row(spec_row().manouver().hit_any(1)),
            ),
        )
    } else if id == 13 {
        huntress.spec_card(
            13,
            spec_faces(
                spec_side(Health::Full)
                    .feature(Features { bits: FEATURE_TRAP })
                    .add_row(spec_row().manouver().rotate())
                    .add_row(spec_row().hit_any(1))
                    .add_row(spec_row().delay_any(1)),
                spec_side(Health::Full)
                    .add_row(spec_row().arrow_any().rotate())
                    .add_row(spec_row().manouver().hit_any(1).rotate())
                    .add_row(spec_row().quicken_enemy(2)),
                spec_side(Health::Empty)
                    .feature(Features { bits: FEATURE_TRAP })
                    .add_row(spec_row().arrow_any())
                    .add_row(spec_row().manouver())
                    .add_row(spec_row().delay_any(1)),
                spec_side(Health::Half)
                    .add_row(spec_row().arrow_any())
                    .add_row(spec_row().quicken_enemy(2).manouver()),
            ),
        )
    } else {
        huntress.spec_card(
            14,
            spec_faces(
                spec_side(Health::Full)
                    .dodge_to_rotate()
                    .add_row(spec_row().arrow_any().rotate())
                    .add_row(spec_row().quicken_enemy(2).rotate()),
                spec_side(Health::Full)
                    .add_row(spec_row().double_arrow_any())
                    .add_row(spec_row().delay_ally(2).manouver())
                    .add_row(spec_row().heal_any()),
                spec_side(Health::Half)
                    .feature(Features { bits: FEATURE_TRAP })
                    .add_row(spec_row().delay_ally(2).quicken_enemy(2))
                    .add_row(spec_row().manouver().hit_any(1)),
                spec_side(Health::Empty)
                    .add_row(spec_row().arrow_any())
                    .add_row(spec_row().delay_ally(2))
                    .add_row(spec_row().heal_any()),
            ),
        )
    }
}

/// The vampire cards, by id: ids 15 to 18.
#[verifier::opaque]
pub open spec fn vampire_card(id: int) -> CardView {
    let vampire = CharBuilder { class: Class::Vampire, allegiance: Allegiance::Baddie };
    if id == 15 {
        vampire.spec_card(
            15,
            spec_faces(
                spec_side(Health::Full)
                    .add_row(spec_row().hit_enemy(1).hit_enemy(1).flip())
                    .add_row(spec_row().hit_enemy(6).rotate()),
                spec_side(Health::Full)
                    .add_row(spec_row().pull_ally(3).pull_ally(3))
                    .add_row(spec_row().hit_enemy(3).hit_enemy(3).hit_enemy(3).flip()),
                spec_side(Health::Half)
                    .add_row(spec_row().hit_enemy(1).hit_enemy(1).rotate())
                    .add_row(spec_row().hit_enemy(5)),
                spec_side(Health::Empty)
                    .add_row(spec_row().push_enemy(3))
                    .add_row(spec_row().hit_enemy(5)),
            ),
        )
    } else if id == 16 {
        vampire.spec_card(
            16,
            spec_faces(
                spec_side(Health::Full)
                    .add_row(spec_row().inspire_ally().rotate()),
                spec_side(Health::Full)
                    .add_row(spec_row().inspire_ally().inspire_ally().rotate()),
                spec_side(Health::Half)
                    .add_row(spec_row().push_enemy(2))
                    .add_row(spec_row().hit_enemy(5)),
                spec_side(Health::Empty)
                    .add_row(spec_row().inspire_ally()),
            ),
        )
    } else if id == 17 {
        vampire.spec_card(
            17,
            spec_faces(
                spec_side(Health::Full)
                    .add_row(spec_row().pull_enemy(3).hit_enemy(1).push_enemy(3).rotate())
                    .add_row(spec_row().pull_ally(5).rotate()),
                spec_side(Health::Full)
                    .add_row(spec_row().hit_enemy_inf().hit_enemy_inf().flip()),
                spec_side(Health::Empty)
                    .add_row(spec_row().hit_enemy(5))
                    .add_row(spec_row().pull_ally(5)),
                spec_side(Health::Half)
                    .add_row(spec_row().pull_ally(5).flip())
                    .add_row(spec_row().pull_ally_inf()),
            ),
        )
    } else {
        vampire.spec_card(
            18,
            spec_faces(
                spec_side(Health::Full)
                    .feature(Features { bits: FEATURE_WEIGHT })
                    .add_row(spec_row().add_condition(Condition::ExhaustedAllies(2)).revive_ally().revive_ally().revive_ally().rotate())
                    .add_row(spec_row().hit_enemy_inf().push_enemy(5))
                    .block_perm(),
                spec_side(Health::Full)
                    .feature(Features { bits: FEATURE_WEIGHT })
                    .add_row(spec_row().add_condition(Condition::ExhaustedAllies(2)).revive_ally().revive_ally().revive_ally().flip())
                    .add_row(spec_row().push_enemy_inf().push_enemy_inf())
                    .block_perm(),
                spec_side(Health::Empty)
                    .add_row(spec_row().push_enemy_inf().push_enemy_inf()),
                spec_side(Health::Half)
                    .feature(Features { bits: FEATURE_WEIGHT })
                    .add_row(spec_row().add_condition(Condition::ExhaustedAllies(2)).revive_ally().revive_ally().revive_ally().rotate())
                    .add_row(spec_row().hit_enemy_inf())
                    .block_perm(),
            ),
        )
    }
}

/// The pyro cards, by id: ids 19 to 23.
#[verifier::opaque]
pub open spec fn pyro_card(id: int) -> CardView {
    let pyro = CharBuilder { class: Class::Pyro, allegiance: Allegiance::Hero };
    if id == 19 {
        pyro.spec_card(
            19,
            spec_faces(
                spec_side(Health::Full)
                    .energy()
                    .add_row(spec_row().energy_cost(2).heal_any().heal_any().rotate())
                    .add_row(spec_row().energy_cost(1).manouver().manouver().delay_any(2).rotate())
                    .add_row(spec_row().delay_any(1).quicken_any(1)),
                spec_side(Health::Half)
                    .add_row(spec_row().energy_cost(3).ablaze().rotate())
                    .add_row(spec_row().energy_cost(2).hit_any(3).hit_any(3))
                    .add_row(spec_row().delay_any(1).quicken_any(1).rotate()),
                spec_side(Health::Empty)
                    .add_row(spec_row().energy_cost(3).teleport_enemy().hit_enemy(2))
                    .add_row(spec_row().energy_cost(2).teleport_each().rotate())
                    .add_row(spec_row().teleport_ally().rotate()),
                spec_side(Health::Empty)
                    .energy()
                    .add_row(spec_row().energy_cost(4).revive_any().flip())
                    .add_row(spec_row().manouver().delay_any(2)),
            ),
        )
    } else if id == 20 {
        pyro.spec_card(
            20,
            spec_faces(
                spec_side(Health::Full)
                    .add_row(spec_row().energy_cost(2).ablaze())
                    .add_row(spec_row().energy_cost(1).hit_enemy(4))
                    .add_row(spec_row().heal_any().manouver().rotate()),
                spec_side(Health::Half)
                    .energy()
                    .add_row(spec_row().energy_cost(2).ablaze().rotate())
                    .add_row(spec_row().energy_cost(1).fireball())
                    .add_row(spec_row().delay_any(1).quicken_any(1)),
                spec_side(Health::Empty)
                    .energy()
                    .add_row(spec_row().energy_cost(4).hit_enemy(6).hit_enemy(6).hit_enemy(6))
                    .add_row(spec_row().energy_cost(2).revive_any().heal_any().rotate())
                    .add_row(spec_row().delay_any(1).quicken_any(1)),
                spec_side(Health::Empty)
                    .add_row(spec_row().energy_cost(2).fireball().rotate())
                    .add_row(spec_row().energy_cost(1).hit_enemy(3))
                    .add_row(spec_row().heal_any().manouver()),
            ),
        )
    } else if id == 21 {
        pyro.spec_card(
            21,
            spec_faces(
                spec_side(Health::Full)
                    .add_row(spec_row().energy_cost(2).fireball().rotate())
                    .add_row(spec_row().energy_cost(1).heal_any().heal_any().rotate())
                    .add_row(spec_row().heal_any().manouver().rotate()),
                spec_side(Health::Half)
                    .energy()
                    .add_row(spec_row().energy_cost(2).revive_any().rotate())
                    .add_row(spec_row().energy_cost(1).delay_any(2).quicken_any(2))
                    .add_row(spec_row().heal_any().manouver()),
                spec_side(Health::Empty)
                    .add_row(spec_row().energy_cost(3).flip())
                    .add_row(spec_row().energy_cost(2).teleport_each())
                    .add_row(spec_row().delay_any(2).manouver().rotate()),
                spec_side(Health::Empty)
                    .energy()
                    .add_row(spec_row().energy_cost(3).revive_any())
                    .add_row(spec_row().energy_cost(2).ablaze())
                    .add_row(spec_row().heal_any().rotate()),
            ),
        )
    } else if id == 22 {
        pyro.spec_card(
            22,
            spec_faces(
                spec_side(Health::Full)
                    .energy()
                    .add_row(spec_row().energy_cost(2).teleport_each())
                    .add_row(spec_row().energy_cost(1).teleport_ally())
                    .add_row(spec_row().delay_any(1).quicken_any(1)),
                spec_side(Health::Half)
                    .add_row(spec_row().energy_cost(2).hit_any(5).heal_any())
                    .add_row(spec_row().energy_cost(1).teleport_enemy().rotate())
                    .add_row(spec_row().manouver().heal_any()),
                spec_side(Health::Empty)
                    .energy()
                    .add_row(spec_row().energy_cost(2).fireball().manouver().rotate())
                    .add_row(spec_row().energy_cost(1).hit_any_inf().rotate())
                    .add_row(spec_row().manouver().manouver()),
                spec_side(Health::Empty)
                    .add_row(spec_row().energy_cost(2).ablaze())
                    .add_row(spec_row().energy_cost(1).delay_any(2).quicken_any(2))
                    .add_row(spec_row().delay_any(1).quicken_any(1).rotate()),
            ),
        )
    } else {
        pyro.spec_card(
            23,
            spec_faces(
                spec_side(Health::Full)
                    .energy()
                    .add_row(spec_row().energy_cost(3).fireball().fireball())
                    .add_row(spec_row().energy_cost(2).ablaze().heal_any().flip())
                    .add_row(spec_row().delay_any(1).manouver()),
                spec_side(Health::Half)
                    .add_row(spec_row().energy_cost(2).revive_any().rotate())
                    .add_row(spec_row().energy_cost(2).hit_any(5).rotate())
                    .add_row(spec_row().teleport_ally()),
                spec_side(Health::Empty)
                    .energy()
                    .add_row(spec_row().energy_cost(2).ablaze())
                    .add_row(spec_row().energy_cost(1).heal_any().delay_any(1).rotate())
                    .add_row(spec_row().quicken_any(1).manouver()),
                spec_side(Health::Empty)
                    .add_row(spec_row().energy_cost(2).hit_any(3).flip())
                    .add_row(spec_row().teleport_ally().rotate()),
            ),
        )
    }
}

/// The spider cards, by id: ids 24 to 27.
#[verifier::opaque]
pub open spec fn spider_card(id: int) -> CardView {
    let spider = CharBuilder { class: Class::Spider, allegiance: Allegiance::Baddie };
    if id == 24 {
        spider.spec_card(
            24,
            spec_faces(
                spec_side(Health::Full)
                    .feature(Features { bits: FEATURE_VENOM })
                    .swarm(spec_row().hit_enemy(3).pull_ally(3))
                    .add_row(spec_row().hit_enemy(5).rotate()),
                spec_side(Health::Full)
                    .feature(Features { bits: FEATURE_VENOM })
                    .swarm(spec_row().hit_enemy(2).push_enemy(3))
                    .add_row(spec_row().push_enemy(3).hit_enemy(2)),
                spec_side(Health::Empty)
                    .feature(Features { bits: FEATURE_WEB })
                    .swarm(spec_row().heal_ally())
                    .add_row(spec_row().hit_enemy_inf()),
                spec_side(Health::Half)
                    .feature(Features { bits: FEATURE_VENOM })
                    .swarm(spec_row().pull_ally(4).push_enemy(3))
                    .add_row(spec_row().hit_enemy(3))
                    .add_row(spec_row().revive_ally()),
            ),
        )
    } else if id == 25 {
        spider.spec_card(
            25,
            spec_faces(
                spec_side(Health::Full)
                    .feature(Features { bits: FEATURE_VENOM })
                    .swarm(spec_row().heal_ally().rotate())
                    .add_row(spec_row().push_enemy(3).hit_enemy(3)),
                spec_side(Health::Full)
                    .feature(Features { bits: FEATURE_VENOM })
                    .swarm(spec_row().hit_enemy(3).push_enemy(2))
                    .add_row(spec_row().hit_enemy(5).rotate()),
                spec_side(Health::Empty)
                    .feature(Features { bits: FEATURE_VENOM })
                    .swarm(spec_row().push_enemy(3).pull_ally(5))
                    .add_row(spec_row().push_enemy(5).hit_enemy(2)),
                spec_side(Health::Half)
                    .feature(Features { bits: FEATURE_WEB })
                    .swarm(spec_row().hit_enemy(5))
                    .add_row(spec_row().hit_enemy(5)),
            ),
        )
    } else if id == 26 {
        spider.spec_card(
            26,
            spec_faces(
                spec_side(Health::Full)
                    .feature(Features { bits: FEATURE_VENOM })
                    .swarm(spec_row().hit_enemy_inf())
                    .add_row(spec_row().pull_ally(4).hit_enemy(2).rotate())
                    .add_row(spec_row().hit_enemy(5)),
                spec_side(Health::Full)
                    .feature(Features { bits: FEATURE_WEB })
                    .swarm(spec_row().hit_enemy(4))
                    .add_row(spec_row().push_enemy_inf().push_enemy_inf().push_ally_inf().rotate()),
                spec_side(Health::Empty)
                    .feature(Features { bits: FEATURE_WEB })
                    .swarm(spec_row().revive_ally())
                    .add_row(spec_row().heal_ally().push_enemy(2))
                    .add_row(spec_row().hit_enemy(4).push_enemy(4)),
                spec_side(Health::Half)
                    .feature(Features { bits: FEATURE_VENOM })
                    .swarm(spec_row().hit_enemy(3))
                    .add_row(spec_row().pull_ally(6).pull_ally(6)),
            ),
        )
    } else {
        spider.spec_card(
            27,
            spec_faces(
                spec_side(Health::Full)
                    .feature(Features { bits: FEATURE_WEB })
                    .swarm(spec_row().hit_enemy(5))
                    .add_row(spec_row().hit_enemy(3).rotate())
                    .add_row(spec_row().push_enemy(3).push_enemy(3))
                    .add_row(spec_row().revive_ally()),
                spec_side(Health::Full)
                    .feature(Features { bits: FEATURE_VENOM })
                    .block_to_rotate()
                    .swarm(spec_row().hit_enemy(5).hit_enemy(5)),
                spec_side(Health::Empty)
                    .feature(Features { bits: FEATURE_VENOM })
                    .swarm(spec_row().hit_enemy_inf())
                    .add_row(spec_row().hit_enemy(5).pull_ally(5)),
                spec_side(Health::Half)
                    .feature(Features { bits: FEATURE_WEB })
                    .swarm(spec_row().hit_enemy_inf())
                    .add_row(spec_row().hit_enemy(5).pull_ally(5)),
            ),
        )
    }
}

/// The cursed cards, by id: ids 28 to 32.
#[verifier::opaque]
pub open spec fn cursed_card(id: int) -> CardView {
    let werewolf = CharBuilder { class: Class::Cursed, allegiance: Allegiance::Hero };
    if id == 28 {
        werewolf.spec_card(
            28,
            spec_faces(
                spec_side(Health::Full)
                    .add_row(spec_row().delay_ally(1).heal_enemy())
                    .add_row(spec_row().manouver().inspire_enemy().manouver())
                    .add_row(spec_row().hit_ally_inf().quicken_enemy(1)),
                spec_side(Health::Empty)
                    .add_row(spec_row().inspire_enemy().heal_ally())
                    .add_row(spec_row().teleport_enemy()),
                spec_side(Health::Half)
                    .werewolf()
                    .block_to_rotate()
                    .add_row(spec_row().claw_enemy(3).rotate()),
                spec_side(Health::Half)
                    .add_row(spec_row().delay_ally(2).rotate())
                    .add_row(spec_row().quicken_enemy(2))
                    .add_row(spec_row().manouver()),
            ),
        )
    } else if id == 29 {
        werewolf.spec_card(
            29,
            spec_faces(
                spec_side(Health::Full)
                    .add_row(spec_row().hit_ally_inf().quicken_enemy(1))
                    .add_row(spec_row().delay_any(1).quicken_any(1).manouver())
                    .add_row(spec_row().inspire_enemy().quicken_any(2)),
                spec_side(Health::Empty)
                    .add_row(spec_row().manouver().quicken_enemy(2).inspire_enemy())
                    .add_row(spec_row().heal_any()),
                spec_side(Health::Half)
                    .werewolf()
                    .block_to_rotate()
                    .add_row(spec_row().claw_enemy(3).rotate())
                    .add_row(spec_row().pull_enemy_inf().hit_enemy(1).hit_enemy(1).hit_enemy(1)),
                spec_side(Health::Half)
                    .add_row(spec_row().inspire_enemy().manouver().rotate())
                    .add_row(spec_row().delay_ally(2).quicken_enemy(2)),
            ),
        )
    } else if id == 30 {
        werewolf.spec_card(
            30,
            spec_faces(
                spec_side(Health::Full)
                    .add_row(spec_row().quicken_enemy(2).quicken_enemy(2).inspire_enemy())
                    .add_row(spec_row().delay_ally(1).hit_ally_inf()),
                spec_side(Health::Empty)
                    .add_row(spec_row().manouver().quicken_enemy(2).inspire_enemy())
                    .add_row(spec_row().heal_any().inspire_enemy()),
                spec_side(Health::Half)
                    .werewolf()
                    .block_to_rotate()
                    .add_row(spec_row().hit_enemy(2).hit_enemy(2).rotate())
                    .add_row(spec_row().claw_enemy(4)),
                spec_side(Health::Half)
                    .add_row(spec_row().manouver().heal_any().rotate())
                    .add_row(spec_row().delay_ally(1).quicken_enemy(1))
                    .add_row(spec_row().teleport_each()),
            ),
        )
    } else if id == 31 {
        werewolf.spec_card(
            31,
            spec_faces(
                spec_side(Health::Full)
                    .add_row(spec_row().heal_enemy().manouver())
                    .add_row(spec_row().quicken_enemy(2).delay_ally(2).inspire_enemy())
                    .add_row(spec_row().hit_ally_inf().quicken_enemy(1)),
                spec_side(Health::Empty)
                    .add_row(spec_row().teleport_enemy().inspire_enemy())
                    .add_row(spec_row().teleport_each().manouver()),
                spec_side(Health::Half)
                    .werewolf()
                    .block_to_rotate()
                    .add_row(spec_row().hit_enemy(2).hit_enemy(2).push_enemy(2).rotate())
                    .add_row(spec_row().hit_enemy_inf().hit_enemy_inf()),
                spec_side(Health::Half)
                    .add_row(spec_row().heal_enemy().rotate())
                    .add_row(spec_row().teleport_each().manouver())
                    .add_row(spec_row().hit_ally_inf().delay_enemy(1)),
            ),
        )
    } else {
        werewolf.spec_card(
            32,
            spec_faces(
                spec_side(Health::Full)
                    .add_row(spec_row().teleport_enemy().inspire_enemy())
                    .add_row(spec_row().manouver().heal_enemy().flip())
                    .add_row(spec_row().hit_ally_inf().delay_enemy(1)),
                spec_side(Health::Empty)
                    .add_row(spec_row().hit_ally_inf().inspire_enemy().manouver())
                    .add_row(spec_row().quicken_any(1).delay_any(1)),
                spec_side(Health::Half)
                    .werewolf()
                    .block_to_rotate()
                    .add_row(spec_row().pull_enemy(6).hit_enemy(3).hit_enemy(3).hit_enemy(3).rotate())
                    .add_row(spec_row().hit_enemy_inf()),
                spec_side(Health::Half)
                    .add_row(spec_row().inspire_enemy().inspire_enemy().delay_any(1))
                    .add_row(spec_row().teleport_enemy().manouver())
                    .add_row(spec_row().heal_enemy().rotate()),
            ),
        )
    }
}

/// The demon cards, by id: ids 33 to 36.
#[verifier::opaque]
pub open spec fn demon_card(id: int) -> CardView {
    let demon = CharBuilder { class: Class::Demon, allegiance: Allegiance::Baddie };
    if id == 33 {
        demon.spec_card(
            33,
            spec_faces(
                spec_side(Health::Full)
                    .add_row(spec_row().rage_condition(3).pull_enemy_inf().hit_enemy(1).hit_enemy(1))
                    .add_row(spec_row().rage_condition(2).pull_enemy_inf().hit_enemy(1))
                    .add_row(spec_row().push_enemy(3).push_enemy(3)),
                spec_side(Health::Half)
                    .rage(2)
                    .add_row(spec_row().rage_condition(3).pull_ally(5).rotate())
                    .add_row(spec_row().rage_condition(2).pull_ally(5).push_enemy(5))
                    .add_row(spec_row().hit_enemy(3).push_enemy(3)),
                spec_side(Health::Empty)
                    .rage(2)
                    .block_to_rotate()
                    .add_row(spec_row().rage_condition(4).void())
                    .add_row(spec_row().rage_condition(2).hit_enemy(1).hit_enemy(2).hit_enemy(3))
                    .add_row(spec_row().hit_enemy(2).hit_enemy(2).rotate()),
                spec_side(Health::Empty)
                    .rage(1)
                    .block_to_rotate()
                    .add_row(spec_row().rage_condition(4).death())
                    .add_row(spec_row().rage_condition(3).claw_enemy(4).rotate())
                    .add_row(spec_row().pull_ally(5).rotate()),
            ),
        )
    } else if id == 34 {
        demon.spec_card(
            34,
            spec_faces(
                spec_side(Health::Full)
                    .add_row(spec_row().rage_condition(5).death())
                    .add_row(spec_row().rage_condition(3).void())
                    .add_row(spec_row().hit_enemy_inf()),
                spec_side(Health::Half)
                    .rage(1)
                    .add_row(spec_row().rage_condition(4).void().rotate())
                    .add_row(spec_row().rage_condition(2).hit_enemy_inf())
                    .add_row(spec_row().claw_enemy(2)),
                spec_side(Health::Empty)
                    .rage(2)
                    .block_to_rotate()
                    .add_row(spec_row().rage_condition(4).death())
                    .add_row(spec_row().rage_condition(3).pull_enemy(5).hit_enemy(1).hit_enemy(2).push_enemy(1))
                    .add_row(spec_row().pull_enemy(5).hit_enemy(1).hit_enemy(1)),
                spec_side(Health::Empty)
                    .rage(1)
                    .block_to_rotate()
                    .add_row(spec_row().rage_condition(4).death())
                    .add_row(spec_row().rage_condition(2).hit_enemy_inf().push_enemy_inf().rotate())
                    .add_row(spec_row().hit_enemy_inf().rotate()),
            ),
        )
    } else if id == 35 {
        demon.spec_card(
            35,
            spec_faces(
                spec_side(Health::Full)
                    .add_row(spec_row().rage_condition(5).claw_enemy_inf())
                    .add_row(spec_row().rage_condition(2).claw_enemy(4))
                    .add_row(spec_row().claw_enemy(2)),
                spec_side(Health::Half)
                    .rage(2)
                    .add_row(spec_row().rage_condition(4).claw_enemy(6).rotate())
                    .add_row(spec_row().rage_condition(3).claw_enemy(4).rotate())
                    .add_row(spec_row().hit_enemy_inf()),
                spec_side(Health::Empty)
                    .rage(2)
                    .block_to_rotate()
                    .add_row(spec_row().rage_condition(4).death())
                    .add_row(spec_row().claw_enemy(3).rotate()),
                spec_side(Health::Empty)
                    .rage(1)
                    .block_to_rotate()
                    .add_row(spec_row().rage_condition(5).death())
                    .add_row(spec_row().rage_condition(3).hit_enemy_inf().hit_enemy_inf().rotate())
                    .add_row(spec_row().hit_enemy_inf().rotate()),
            ),
        )
    } else {
        demon.spec_card(
            36,
            spec_faces(
                spec_side(Health::Full)
                    .add_row(spec_row().rage_condition(3).void())
                    .add_row(spec_row().rage_condition(2).hit_enemy(4).hit_enemy(4))
                    .add_row(spec_row().hit_enemy_inf()),
                spec_side(Health::Half)
                    .rage(1)
                    .add_row(spec_row().rage_condition(4).hit_enemy_inf().hit_enemy_inf().rotate())
                    .add_row(spec_row().rage_condition(3).hit_enemy_inf().rotate())
                    .add_row(spec_row().hit_enemy(4)),
                spec_side(Health::Empty)
                    .rage(2)
                    .block_to_rotate()
                    .add_row(spec_row().rage_condition(5).death())
                    .add_row(spec_row().rage_condition(3).void())
                    .add_row(spec_row().pull_ally(5).rotate()),
                spec_side(Health::Empty)
                    .rage(1)
                    .block_to_rotate()
                    .add_row(spec_row().rage_condition(4).void())
                    .add_row(spec_row().rage_condition(3).pull_enemy(5).hit_enemy(1).pull_enemy(5).hit_enemy(1).rotate())
                    .add_row(spec_row().pull_enemy(5).hit_enemy(1).rotate()),
            ),
        )
    }
}

/// The beastmaster cards, by id: ids 37 to 41.
#[verifier::opaque]
pub open spec fn beastmaster_card(id: int) -> CardView {
    let beastmaster = CharBuilder { class: Class::Beastmaster, allegiance: Allegiance::Hero };
    if id == 37 {
        beastmaster.spec_card(
            37,
            spec_faces(
                spec_side(Health::Full)
                    .call_assist_to_turn()
                    .add_row(spec_row().call_assist_twice().rotate())
                    .add_row(spec_row().teleport_enemy().call_assist())
                    .add_row(spec_row().teleport_ally().call_assist()),
                spec_side(Health::Full)
                    .add_row(spec_row().call_assist_twice().rotate())
                    .add_row(spec_row().hit_any(2).call_assist())
                    .add_row(spec_row().manouver().arrow_any()),
                spec_side(Health::Half)
                    .call_assist_perm()
                    .add_row(spec_row().call_assist().hit_any(2))
                    .add_row(spec_row().quicken_any(2).call_assist())
                    .add_row(spec_row().manouver().call_assist()),
                spec_side(Health::Empty)
                    .add_row(spec_row().hit_any(2).call_assist())
                    .add_row(spec_row().call_assist_twice())
                    .add_row(spec_row().manouver().manouver()),
            ),
        )
    } else if id == 38 {
        beastmaster.spec_card(
            38,
            spec_faces(
                spec_side(Health::Full)
                    .call_assist_to_turn()
                    .add_row(spec_row().call_assist_twice().rotate())
                    .add_row(spec_row().call_assist().hit_any(2))
                    .add_row(spec_row().delay_any(2).call_assist()),
                spec_side(Health::Full)
                    .add_row(spec_row().call_assist().quicken_any(2))
                    .add_row(spec_row().hit_any(2).call_assist())
                    .add_row(spec_row().manouver().rotate()),
                spec_side(Health::Half)
                    .call_assist_perm()
                    .add_row(spec_row().call_assist().hit_any(1))
                    .add_row(spec_row().call_assist_twice())
                    .add_row(spec_row().teleport_ally()),
                spec_side(Health::Empty)
                    .add_row(spec_row().quicken_any(1).delay_any(1))
                    .add_row(spec_row().call_assist_twice())
                    .add_row(spec_row().teleport_enemy().call_assist()),
            ),
        )
    } else if id == 39 {
        beastmaster.spec_card(
            39,
            spec_faces(
                spec_side(Health::Full)
                    .call_assist_to_turn()
                    .add_row(spec_row().hit_any(2).call_assist().rotate())
                    .add_row(spec_row().teleport_enemy().call_assist())
                    .add_row(spec_row().call_assist().manouver()),
                spec_side(Health::Full)
                    .add_row(spec_row().manouver().teleport_ally().rotate())
                    .add_row(spec_row().teleport_enemy().call_assist())
                    .add_row(spec_row().call_assist_twice()),
                spec_side(Health::Half)
                    .call_assist_perm()
                    .add_row(spec_row().call_assist().manouver())
                    .add_row(spec_row().arrow_any().call_assist())
                    .add_row(spec_row().call_assist().teleport_ally()),
                spec_side(Health::Empty)
                    .add_row(spec_row().quicken_enemy(2).call_assist().delay_enemy(2))
                    .add_row(spec_row().call_assist_twice())
                    .add_row(spec_row().teleport_enemy().call_assist()),
            ),
        )
    } else if id == 40 {
        beastmaster.spec_card(
            40,
            spec_faces(
                spec_side(Health::Empty)
                    .provide_assist_block_rotate()
                    .add_assist(spec_row().claw_enemy(2).rotate())
                    .add_assist(spec_row().hit_any(1))
                    .add_assist(spec_row().quicken_ally(2))
                    .add_row(spec_row().quicken_ally(2).flip()),
                spec_side(Health::Empty)
                    .add_assist(spec_row().hit_any(1))
                    .add_assist(spec_row().quicken_ally(1))
                    .add_row(spec_row().rotate()),
                spec_side(Health::Empty)
                    .provide_assist_block_flip()
                    .add_assist(spec_row().claw_enemy(3).flip())
                    .add_assist(spec_row().hit_any(2))
                    .add_assist(spec_row().teleport_ally())
                    .add_row(spec_row().quicken_ally(3).rotate()),
                spec_side(Health::Empty)
                    .provide_assist_block_rotate()
                    .add_assist(spec_row().claw_enemy(4).rotate())
                    .add_assist(spec_row().teleport_each().rotate())
                    .add_assist(spec_row().hit_any(3))
                    .add_row(spec_row().teleport_each()),
            ),
        )
    } else {
        beastmaster.spec_card(
            41,
            spec_faces(
                spec_side(Health::Empty)
                    .provide_assist_dodge_rotate()
                    .add_assist(spec_row().arrow_any().rotate())
                    .add_assist(spec_row().delay_enemy(2))
                    .add_row(spec_row().delay_enemy(2).flip()),
                spec_side(Health::Empty)
                    .add_assist(spec_row().delay_enemy(1))
                    .add_row(spec_row().rotate()),
                spec_side(Health::Empty)
                    .provide_assist_dodge_flip()
                    .add_assist(spec_row().arrow_any().flip())
                    .add_assist(spec_row().heal_any().flip())
                    .add_assist(spec_row().teleport_enemy())
                    .add_row(spec_row().delay_enemy(3).rotate()),
                spec_side(Health::Empty)
                    .provide_assist_dodge_rotate()
                    .feature(Features { bits: FEATURE_TRAP })
                    .add_assist(spec_row().arrow_any().rotate())
                    .add_assist(spec_row().revive_any().flip())
                    .add_assist(spec_row().teleport_enemy())
                    .add_row(spec_row().delay_enemy(2).quicken_ally(2)),
            ),
        )
    }
}

/// The flora cards, by id: ids 42 to 45.
#[verifier::opaque]
pub open spec fn flora_card(id: int) -> CardView {
    let verdant = CharBuilder { class: Class::Flora, allegiance: Allegiance::Baddie };
    if id == 42 {
        verdant.spec_card(
            42,
            spec_faces(
                spec_side(Health::Full)
                    .on_hit_reaction(WhenHitRow::PushEnemyInfPushEnemyInf)
                    .add_row(spec_row().hit_ally(2).pull_ally(6))
                    .add_row(spec_row().hit_ally_inf().heal_ally()),
                spec_side(Health::Empty)
                    .add_row(spec_row().heal_ally())
                    .add_row(spec_row().hit_ally(3).pull_ally(5))
                    .add_row(spec_row().revive_ally()),
                spec_side(Health::Half)
                    .feature(Features { bits: FEATURE_WEIGHT })
                    .on_hit_reaction(WhenHitRow::PushAllyInfPullAllyInf)
                    .add_row(spec_row().heal_ally())
                    .add_row(spec_row().push_enemy(3).hit_enemy(3).push_enemy(2)),
                spec_side(Health::Half)
                    .feature(Features { bits: FEATURE_WEIGHT })
                    .on_hit_reaction(WhenHitRow::ClawOddEnemies)
                    .add_row(spec_row().push_enemy(2).push_enemy(3)),
            ),
        )
    } else if id == 43 {
        verdant.spec_card(
            43,
            spec_faces(
                spec_side(Health::Full)
                    .on_hit_reaction(WhenHitRow::ClawEnemy4)
                    .add_row(spec_row().claw_enemy(2))
                    .add_row(spec_row().hit_enemy(4)),
                spec_side(Health::Empty)
                    .add_row(spec_row().hit_enemy(3))
                    .add_row(spec_row().heal_ally())
                    .add_row(spec_row().hit_ally_inf().heal_ally()),
                spec_side(Health::Half)
                    .feature(Features { bits: FEATURE_WEIGHT })
                    .on_hit_reaction(WhenHitRow::ClawEvenEnemies)
                    .add_row(spec_row().inspire_ally()),
                spec_side(Health::Half)
                    .feature(Features { bits: FEATURE_WEIGHT })
                    .on_hit_reaction(WhenHitRow::ClawOddEnemies)
                    .add_row(spec_row().hit_enemy(3).push_enemy(2)),
            ),
        )
    } else if id == 44 {
        verdant.spec_card(
            44,
            spec_faces(
                spec_side(Health::Full)
                    .on_hit_reaction(WhenHitRow::ClawEnemy4)
                    .add_row(spec_row().hit_enemy(4)),
                spec_side(Health::Empty)
                    .add_row(spec_row().hit_enemy(3))
                    .add_row(spec_row().heal_ally())
                    .add_row(spec_row().hit_ally_inf().heal_ally()),
                spec_side(Health::Half)
                    .feature(Features { bits: FEATURE_WEIGHT })
                    .on_hit_reaction(WhenHitRow::ClawOddEnemies)
                    .add_row(spec_row().hit_enemy(3)),
                spec_side(Health::Half)
                    .feature(Features { bits: FEATURE_WEIGHT })
                    .on_hit_reaction(WhenHitRow::ClawEvenEnemies)
                    .add_row(spec_row().hit_enemy(3)),
            ),
        )
    } else {
        verdant.spec_card(
            45,
            spec_faces(
                spec_side(Health::Full)
                    .on_hit_reaction(WhenHitRow::HealAlly)
                    .add_row(spec_row().hit_enemy(2).push_enemy(2))
                    .add_row(spec_row().revive_ally())
                    .add_row(spec_row().hit_ally(4).pull_ally(5)),
                spec_side(Health::Empty)
                    .add_row(spec_row().heal_ally().hit_enemy(3))
                    .add_row(spec_row().hit_enemy(6)),
                spec_side(Health::Half)
                    .feature(Features { bits: FEATURE_WEIGHT })
                    .on_hit_reaction(WhenHitRow::ReviveAlly)
                    .add_row(spec_row().push_enemy(2)),
                spec_side(Health::Half)
                    .feature(Features { bits: FEATURE_WEIGHT })
                    .on_hit_reaction(WhenHitRow::HealAllyClawEnemy3)
                    .add_row(spec_row().push_enemy(2).push_enemy(2)),
            ),
        )
    }
}

/// The assassin cards, by id: ids 46 to 50.
#[verifier::opaque]
pub open spec fn assassin_card(id: int) -> CardView {
    let assassin = CharBuilder { class: Class::Assassin, allegiance: Allegiance::Hero };
    if id == 46 {
        assassin.spec_card(
            46,
            spec_faces(
                spec_side(Health::Half)
                    .dodge_to_rotate()
                    .add_row(spec_row().dodge_cost(3).backstab_any_twice().rotate())
                    .add_row(spec_row().dodge_cost(1).quicken_ally(2))
                    .add_row(spec_row().manouver()),
                spec_side(Health::Half)
                    .add_row(spec_row().dodge_cost(2).backstab_any())
                    .add_row(spec_row().dodge_cost(1).poison_any())
                    .add_row(spec_row().delay_ally(2)),
                spec_side(Health::Empty)
                    .roll()
                    .add_row(spec_row().dodge_cost(2).poison_any())
                    .add_row(spec_row().dodge_cost(2).delay_ally(1).manouver())
                    .add_row(spec_row().quicken_ally(1)),
                spec_side(Health::Empty)
                    .dodge_to_rotate()
                    .add_row(spec_row().dodge_cost(3).flip())
                    .add_row(spec_row().dodge_cost(2).backstab_any())
                    .add_row(spec_row().manouver().manouver()),
            ),
        )
    } else if id == 47 {
        assassin.spec_card(
            47,
            spec_faces(
                spec_side(Health::Half)
                    .dodge_to_rotate()
                    .add_row(spec_row().dodge_cost(2).backstab_any())
                    .add_row(spec_row().dodge_cost(1).poison_any())
                    .add_row(spec_row().delay_ally(1)),
                spec_side(Health::Half)
                    .roll()
                    .add_row(spec_row().dodge_cost(2).poison_any().poison_any())
                    .add_row(spec_row().dodge_cost(2).backstab_any())
                    .add_row(spec_row().delay_ally(1)),
                spec_side(Health::Empty)
                    .dodge_to_rotate()
                    .add_row(spec_row().dodge_cost(4).revive_any().rotate())
                    .add_row(spec_row().dodge_cost(3).backstab_any_twice())
                    .add_row(spec_row().delay_ally(1).delay_enemy(1)),
                spec_side(Health::Empty)
                    .add_row(spec_row().dodge_cost(2).backstab_any())
                    .add_row(spec_row().dodge_cost(1).poison_any())
                    .add_row(spec_row().manouver().delay_ally(1)),
            ),
        )
    } else if id == 48 {
        assassin.spec_card(
            48,
            spec_faces(
                spec_side(Health::Half)
                    .dodge_to_rotate()
                    .add_row(spec_row().dodge_cost(2).backstab_any())
                    .add_row(spec_row().dodge_cost(2).poison_any())
                    .add_row(spec_row().delay_enemy(1).manouver()),
                spec_side(Health::Half)
                    .add_row(spec_row().dodge_cost(3).backstab_any())
                    .add_row(spec_row().dodge_cost(1).poison_any())
                    .add_row(spec_row().delay_ally(1).delay_enemy(1)),
                spec_side(Health::Empty)
                    .dodge_to_rotate()
                    .add_row(spec_row().dodge_cost(3).teleport_ally().teleport_enemy())
                    .add_row(spec_row().dodge_cost(2).poison_any())
                    .add_row(spec_row().quicken_enemy(1).delay_enemy(1)),
                spec_side(Health::Empty)
                    .roll()
                    .add_row(spec_row().dodge_cost(4).revive_any())
                    .add_row(spec_row().dodge_cost(2).backstab_any().rotate())
                    .add_row(spec_row().manouver().delay_enemy(1)),
            ),
        )
    } else if id == 49 {
        assassin.spec_card(
            49,
            spec_faces(
                spec_side(Health::Half)
                    .roll()
                    .add_row(spec_row().dodge_cost(2).backstab_any())
                    .add_row(spec_row().dodge_cost(1).quicken_ally(2).delay_enemy(2))
                    .add_row(spec_row().manouver().manouver()),
                spec_side(Health::Half)
                    .dodge_to_rotate()
                    .add_row(spec_row().dodge_cost(3).delay_ally(2).manouver().quicken_ally(2))
                    .add_row(spec_row().dodge_cost(1).poison_any().rotate())
                    .add_row(spec_row().delay_enemy(1).manouver()),
                spec_side(Health::Empty)
                    .add_row(spec_row().dodge_cost(2).poison_any().rotate())
                    .add_row(spec_row().dodge_cost(1).delay_enemy(2))
                    .add_row(spec_row().manouver()),
                spec_side(Health::Empty)
                    .dodge_to_rotate()
                    .add_row(spec_row().dodge_cost(4).revive_any().rotate())
                    .add_row(spec_row().dodge_cost(1).backstab_any().rotate())
                    .add_row(spec_row().delay_ally(1)),
            ),
        )
    } else {
        assassin.spec_card(
            50,
            spec_faces(
                spec_side(Health::Half)
                    .dodge_to_rotate()
                    .add_row(spec_row().dodge_cost(2).backstab_any())
                    .add_row(spec_row().dodge_cost(2).poison_any())
                    .add_row(spec_row().delay_enemy(1).manouver()),
                spec_side(Health::Half)
                    .add_row(spec_row().dodge_cost(3).poison_any().poison_any())
                    .add_row(spec_row().dodge_cost(2).backstab_any().rotate())
                    .add_row(spec_row().quicken_enemy(1).delay_ally(1).rotate()),
                spec_side(Health::Empty)
                    .roll()
                    .add_row(spec_row().dodge_cost(3).flip())
                    .add_row(spec_row().dodge_cost(1).quicken_ally(2))
                    .add_row(spec_row().manouver()),
                spec_side(Health::Empty)
                    .dodge_to_rotate()
                    .add_row(spec_row().dodge_cost(2).backstab_any())
                    .add_row(spec_row().dodge_cost(2).poison_any())
                    .add_row(spec_row().manouver()),
            ),
        )
    }
}

/// The wall cards, by id: ids 51 to 54.
#[verifier::opaque]
pub open spec fn wall_card(id: int) -> CardView {
    let wall = CharBuilder { class: Class::Wall, allegiance: Allegiance::Baddie };
    if id == 51 {
        wall.spec_back_card(
            51,
            spec_faces(
                spec_side(Health::Empty)
                    .feature(Features { bits: FEATURE_WALL })
                    .feature(Features { bits: FEATURE_INVULNERABLE })
                    .add_row(spec_row().pull_ally_inf().rotate()),
                spec_side(Health::Empty)
                    .feature(Features { bits: FEATURE_WALL })
                    .feature(Features { bits: FEATURE_INVULNERABLE })
                    .block_perm()
                    .add_row(spec_row().heal_ally().flip().is_mandatory()),
                spec_side(Health::Empty)
                    .feature(Features { bits: FEATURE_WALL })
                    .feature(Features { bits: FEATURE_INVULNERABLE })
                    .add_row(spec_row().death()),
                spec_side(Health::Empty)
                    .feature(Features { bits: FEATURE_WALL })
                    .feature(Features { bits: FEATURE_INVULNERABLE })
                    .block_perm()
                    .add_row(spec_row().push_enemy_inf().pull_ally_inf().rotate()),
            ),
        )
    } else if id == 52 {
        wall.spec_card(
            52,
            spec_faces(
                spec_side(Health::Full)
                    .feature(Features { bits: FEATURE_WEIGHT })
                    .block_to_rotate(),
                spec_side(Health::Full)
                    .block_to_flip()
                    .add_row(spec_row().rotate().is_mandatory()),
                spec_side(Health::Empty),
                spec_side(Health::Half)
                    .feature(Features { bits: FEATURE_WEIGHT })
                    .block_to_rotate()
                    .add_row(spec_row().flip().is_mandatory()),
            ),
        )
    } else if id == 53 {
        wall.spec_card(
            53,
            spec_faces(
                spec_side(Health::Full)
                    .feature(Features { bits: FEATURE_WEIGHT })
                    .block_to_rotate(),
                spec_side(Health::Full)
                    .block_to_flip(),
                spec_side(Health::Empty)
                    .add_row(spec_row().rotate().is_mandatory()),
                spec_side(Health::Half)
                    .feature(Features { bits: FEATURE_WEIGHT })
                    .block_to_rotate()
                    .add_row(spec_row().flip().is_mandatory()),
            ),
        )
    } else {
        wall.spec_card(
            54,
            spec_faces(
                spec_side(Health::Full)
                    .block_to_rotate(),
                spec_side(Health::Full)
                    .feature(Features { bits: FEATURE_WEIGHT })
                    .block_to_flip()
                    .add_row(spec_row().rotate().is_mandatory()),
                spec_side(Health::Empty)
                    .add_row(spec_row().rotate().is_mandatory()),
                spec_side(Health::Half)
                    .block_to_rotate(),
            ),
        )
    }
}

/// The piper cards, by id: ids 55 to 58.
#[verifier::opaque]
pub open spec fn piper_card(id: int) -> CardView {
    let piper = CharBuilder { class: Class::Piper, allegiance: Allegiance::Hero };
    if id == 55 {
        piper.spec_card(
            55,
            spec_faces(
                spec_side(Health::Full)
                    .modifier_rotate(-2i8)
                    .add_row(spec_row().arrow_any().quicken_enemy(2))
                    .add_row(spec_row().teleport_enemy().manouver()),
                spec_side(Health::Full)
                    .modifier_rotate(1i8)
                    .add_row(spec_row().hypnosis_enemy().rotate())
                    .add_row(spec_row().hit_any(0).rotate())
                    .add_row(spec_row().delay_enemy(2).quicken_ally(2)),
                spec_side(Health::Empty)
                    .modifier_no_mandatory(1i8)
                    .add_row(spec_row().hypnosis_enemy())
                    .add_row(spec_row().rats())
                    .add_row(spec_row().teleport_enemy().manouver()),
                spec_side(Health::Half)
                    .modifier_rotate(4i8)
                    .add_row(spec_row().hypnosis_enemy())
                    .add_row(spec_row().arrow_any().teleport_enemy())
                    .add_row(spec_row().delay_enemy(2).manouver()),
            ),
        )
    } else if id == 56 {
        piper.spec_card(
            56,
            spec_faces(
                spec_side(Health::Full)
                    .modifier_rotate(-2i8)
                    .add_row(spec_row().hypnosis_enemy().rotate())
                    .add_row(spec_row().rats().teleport_enemy())
                    .add_row(spec_row().manouver().quicken_any(1)),
                spec_side(Health::Full)
                    .modifier_rotate(1i8)
                    .add_row(spec_row().arrow_any().delay_ally(1))
                    .add_row(spec_row().hit_any(0).quicken_any(1))
                    .add_row(spec_row().manouver().manouver().rotate()),
                spec_side(Health::Empty)
                    .modifier_no_mandatory(-1i8)
                    .add_row(spec_row().arrow_any().quicken_enemy(1))
                    .add_row(spec_row().teleport_enemy().manouver()),
                spec_side(Health::Half)
                    .modifier_rotate(-4i8)
                    .add_row(spec_row().hypnosis_enemy())
                    .add_row(spec_row().rats())
                    .add_row(spec_row().teleport_each()),
            ),
        )
    } else if id == 57 {
        piper.spec_card(
            57,
            spec_faces(
                spec_side(Health::Full)
                    .modifier_rotate(1i8)
                    .add_row(spec_row().hit_any(0).quicken_enemy(1))
                    .add_row(spec_row().teleport_each().rotate()),
                spec_side(Health::Full)
                    .modifier_rotate(-1i8)
                    .add_row(spec_row().arrow_any().teleport_enemy())
                    .add_row(spec_row().quicken_ally(1).quicken_ally(1)),
                spec_side(Health::Empty)
                    .modifier_no_mandatory(1i8)
                    .add_row(spec_row().arrow_any().quicken_enemy(1))
                    .add_row(spec_row().hit_any(0).manouver()),
                spec_side(Health::Half)
                    .modifier_rotate(4i8)
                    .add_row(spec_row().hypnosis_enemy())
                    .add_row(spec_row().rats())
                    .add_row(spec_row().hit_any(0).teleport_each()),
            ),
        )
    } else {
        piper.spec_card(
            58,
            spec_faces(
                spec_side(Health::Full)
                    .modifier_rotate(1i8)
                    .add_row(spec_row().hypnosis_enemy().quicken_enemy(2))
                    .add_row(spec_row().rats().delay_ally(2))
                    .add_row(spec_row().quicken_enemy(1).quicken_enemy(1).manouver()),
                spec_side(Health::Full)
                    .modifier_rotate(-1i8)
                    .add_row(spec_row().teleport_enemy().arrow_any().rotate())
                    .add_row(spec_row().delay_ally(1).delay_enemy(1).manouver()),
                spec_side(Health::Empty)
                    .modifier_no_mandatory(-1i8)
                    .add_row(spec_row().hypnosis_enemy())
                    .add_row(spec_row().rats())
                    .add_row(spec_row().hit_any(0).delay_enemy(1)),
                spec_side(Health::Half)
                    .modifier_rotate(-4i8)
                    .add_row(spec_row().arrow_any().teleport_enemy())
                    .add_row(spec_row().quicken_enemy(2).manouver()),
            ),
        )
    }
}

/// The rat cards, by id: ids 59 to 59.
#[verifier::opaque]
pub open spec fn rat_card(id: int) -> CardView {
    let rat = CharBuilder { class: Class::Piper, allegiance: Allegiance::Rat };
    {
        rat.spec_card(
            59,
            spec_faces(
                spec_side(Health::Empty)
                    .add_row(spec_row().claw_enemy(0).is_mandatory()),
                spec_side(Health::Full)
                    .add_row(spec_row().death()),
                spec_side(Health::Half)
                    .add_row(spec_row().claw_enemy(2)),
                spec_side(Health::Half)
                    .add_row(spec_row().hit_enemy(2).hit_enemy(2)),
            ),
        )
    }
}

/// The card of the table with this id, for an id from 1 to 59.
#[verifier::opaque]
pub open spec fn spec_card(id: int) -> CardView {
    if id <= 5 {
        warrior_card(id)
    } else if id <= 9 {
        ogre_card(id)
    } else if id <= 14 {
        huntress_card(id)
    } else if id <= 18 {
        vampire_card(id)
    } else if id <= 23 {
        pyro_card(id)
    } else if id <= 27 {
        spider_card(id)
    } else if id <= 32 {
        cursed_card(id)
    } else if id <= 36 {
        demon_card(id)
    } else if id <= 41 {
        beastmaster_card(id)
    } else if id <= 45 {
        flora_card(id)
    } else if id <= 50 {
        assassin_card(id)
    } else if id <= 54 {
        wall_card(id)
    } else if id <= 58 {
        piper_card(id)
    } else {
        rat_card(id)
    }
}

/// The card table: the card with each id from 1 to 59, and nothing under
/// any other id.
pub open spec fn spec_card_table(id: int) -> Option<CardView> {
    if 1 <= id <= 59 {
        Some(spec_card(id))
    } else {
        None
    }
}

} // verus!
