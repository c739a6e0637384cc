//! The cards of the game, class by class.
use vstd::prelude::*;
use crate::primitives::{Allegiance, Class, Condition, Features, Health, WhenHitRow};
use crate::card_defs::{faces, row, side, CardDefs, CharBuilder};

use crate::card_table::{
    assassin_card, beastmaster_card, cursed_card, demon_card, flora_card, huntress_card, ogre_card, piper_card,
    pyro_card, rat_card, spec_card, spider_card, vampire_card, wall_card, warrior_card,
};
use crate::card_views::card_view;

verus! {

/// Registers the warrior cards: ids 1, 2, 3, 4, 5.
pub fn register_warrior_cards(card_defs: &mut CardDefs)
    requires
        old(card_defs).wf(),
        old(card_defs).cards@[1].is_none(),
        old(card_defs).cards@[2].is_none(),
        old(card_defs).cards@[3].is_none(),
        old(card_defs).cards@[4].is_none(),
        old(card_defs).cards@[5].is_none(),
    ensures
        card_view(final(card_defs).card(1)) == spec_card(1),
        card_view(final(card_defs).card(2)) == spec_card(2),
        card_view(final(card_defs).card(3)) == spec_card(3),
        card_view(final(card_defs).card(4)) == spec_card(4),
        card_view(final(card_defs).card(5)) == spec_card(5),
        final(card_defs).wf(),
        final(card_defs).has_card(1) && final(card_defs).card(1).class == Class::Warrior,
        final(card_defs).has_card(2) && final(card_defs).card(2).class == Class::Warrior,
        final(card_defs).has_card(3) && final(card_defs).card(3).class == Class::Warrior,
        final(card_defs).has_card(4) && final(card_defs).card(4).class == Class::Warrior,
        final(card_defs).has_card(5) && final(card_defs).card(5).class == Class::Warrior,
        forall|i: int| 0 <= i < 128 && i != 1 && i != 2 && i != 3 && i != 4 && i != 5 ==> final(card_defs).cards@[i] == old(card_defs).cards@[i],
{
    proof {
        reveal(spec_card);
        reveal(warrior_card);
    }
    let warrior = CharBuilder::new(Class::Warrior, Allegiance::Hero);
    card_defs.register_card(
        warrior.card(
            1,
            faces(
                side(Health::Full)
                    .add_row(row().hit_any(2))
                    .add_row(row().delay_any(2).rotate()),
                side(Health::Full)
                    .add_row(row().delay_any(1).hit_any(2))
                    .add_row(row().delay_any(2))
                    .block_to_rotate(),
                side(Health::Empty)
                    .add_row(row().hit_any(2))
                    .add_row(row().delay_any(2)),
                side(Health::Half)
                    .add_row(row().hit_any(4))
                    .add_row(row().quicken_any(2)),
            ),
        ),
    );
    card_defs.register_card(
        warrior.card(
            2,
            faces(
                side(Health::Full)
                    .add_row(row().hit_any(2).rotate())
                    .add_row(row().delay_any(2)),
                side(Health::Full)
                    .add_row(row().heal_any().rotate())
                    .add_row(row().quicken_any(2))
                    .block_to_rotate(),
                side(Health::Empty)
                    .add_row(row().quicken_any(2))
                    .add_row(row().delay_any(2)),
                side(Health::Half)
                    .add_row(row().heal_any().rotate())
                    .add_row(row().delay_any(3)),
            ),
        ),
    );
    card_defs.register_card(
        warrior.card(
            3,
            faces(
                side(Health::Full)
                    .add_row(row().quicken_any(2).rotate())
                    .add_row(row().delay_any(2).rotate()),
                side(Health::Full)
                    .add_row(row().hit_any(4).hit_any(4).rotate()),
                side(Health::Empty)
                    .add_row(row().quicken_any(2))
                    .add_row(row().delay_any(2)),
                side(Health::Half)
                    .add_row(row().hit_any(4))
                    .add_row(row().delay_any(1)),
            ),
        ),
    );
    card_defs.register_card(
        warrior.card(
            4,
            faces(
                side(Health::Full)
                    .add_row(row().hit_any(4))
                    .add_row(row().quicken_any(2))
                    .block_to_rotate(),
                side(Health::Full)
                    .add_row(row().hit_any(2))
                    .add_row(row().delay_any(1).quicken_any(1).rotate()),
                side(Health::Half)
                    .add_row(row().hit_any(4))
                    .add_row(row().quicken_any(1)),
                side(Health::Empty)
                    .add_row(row().hit_any(2))
                    .add_row(row().heal_any()),
            ),
        ),
    );
    card_defs.register_card(
        warrior.card(
            5,
            faces(
                side(Health::Full)
                    .add_row(row().quicken_any(2).hit_any(2))
                    .block_to_rotate(),
                side(Health::Full)
                    .add_row(row().hit_any(2).rotate())
                    .add_row(row().quicken_any(2).rotate()),
                side(Health::Half)
                    .add_row(row().delay_any(3).hit_any(2).hit_any(2).rotate())
                    .add_row(row().quicken_any(2)),
                side(Health::Empty)
                    .add_row(row().hit_any(4))
                    .add_row(row().quicken_any(1)),
            ),
        ),
    );
}

/// Registers the ogre cards: ids 6, 7, 8, 9.
pub fn register_ogre_cards(card_defs: &mut CardDefs)
    requires
        old(card_defs).wf(),
        old(card_defs).cards@[6].is_none(),
        old(card_defs).cards@[7].is_none(),
        old(card_defs).cards@[8].is_none(),
        old(card_defs).cards@[9].is_none(),
    ensures
        card_view(final(card_defs).card(6)) == spec_card(6),
        card_view(final(card_defs).card(7)) == spec_card(7),
        card_view(final(card_defs).card(8)) == spec_card(8),
        card_view(final(card_defs).card(9)) == spec_card(9),
        final(card_defs).wf(),
        final(card_defs).has_card(6) && final(card_defs).card(6).class == Class::Ogre,
        final(card_defs).has_card(7) && final(card_defs).card(7).class == Class::Ogre,
        final(card_defs).has_card(8) && final(card_defs).card(8).class == Class::Ogre,
        final(card_defs).has_card(9) && final(card_defs).card(9).class == Class::Ogre,
        forall|i: int| 0 <= i < 128 && i != 6 && i != 7 && i != 8 && i != 9 ==> final(card_defs).cards@[i] == old(card_defs).cards@[i],
{
    proof {
        reveal(spec_card);
        reveal(ogre_card);
    }
    let ogre = CharBuilder::new(Class::Ogre, Allegiance::Baddie);
    card_defs.register_card(
        ogre.card(
            6,
            faces(
                side(Health::Full)
                    .add_row(row().pull_enemy(5).hit_enemy(1).rotate()),
                side(Health::Full)
                    .add_row(row().hit_enemy(4).push_enemy(3))
                    .block_to_rotate(),
                side(Health::Empty)
                    .add_row(row().hit_enemy(5)),
                side(Health::Half)
                    .feature(Features::weight())
                    .add_row(row().hit_enemy_inf().hit_enemy_inf().rotate())
                    .block_perm(),
            ),
        ),
    );
    card_defs.register_card(
        ogre.card(
            7,
            faces(
                side(Health::Full)
                    .feature(Features::weight())
                    .add_row(row().hit_enemy(4).rotate()),
                side(Health::Full)
                    .add_row(row().heal_ally().rotate())
                    .add_row(row().hit_enemy(7).rotate())
                    .block_to_rotate(),
                side(Health::Empty)
                    .add_row(row().hit_enemy(5).pull_ally(4)),
                side(Health::Half)
                    .add_row(row().push_enemy(3).hit_enemy(5)),
            ),
        ),
    );
    card_defs.register_card(
        ogre.card(
            8,
            faces(
                side(Health::Full)
                    .add_row(row().hit_enemy(4).rotate()),
                side(Health::Full)
                    .feature(Features::weight())
                    .add_row(row().heal_ally().rotate())
                    .add_row(row().hit_enemy(5).rotate()),
                side(Health::Empty)
                    .add_row(row().pull_enemy(6).hit_enemy(1)),
                side(Health::Half)
                    .add_row(row().pull_enemy(4).hit_enemy(1)),
            ),
        ),
    );
    card_defs.register_card(
        ogre.card(
            9,
            faces(
                side(Health::Full)
                    .add_row(row().push_enemy(3).push_enemy(3).rotate()),
                side(Health::Full)
                    .add_row(row().hit_enemy(5).rotate())
                    .block_to_rotate(),
                side(Health::Empty)
                    .feature(Features::weight())
                    .add_row(row().hit_enemy_inf()),
                side(Health::Half)
                    .add_row(row().heal_ally().heal_ally().heal_ally().rotate())
                    .add_row(row().pull_ally(5)),
            ),
        ),
    );
}

/// Registers the huntress cards: ids 10, 11, 12, 13, 14.
pub fn register_huntress_cards(card_defs: &mut CardDefs)
    requires
        old(card_defs).wf(),
        old(card_defs).cards@[10].is_none(),
        old(card_defs).cards@[11].is_none(),
        old(card_defs).cards@[12].is_none(),
        old(card_defs).cards@[13].is_none(),
        old(card_defs).cards@[14].is_none(),
    ensures
        card_view(final(card_defs).card(10)) == spec_card(10),
        card_view(final(card_defs).card(11)) == spec_card(11),
        card_view(final(card_defs).card(12)) == spec_card(12),
        card_view(final(card_defs).card(13)) == spec_card(13),
        card_view(final(card_defs).card(14)) == spec_card(14),
        final(card_defs).wf(),
        final(card_defs).has_card(10) && final(card_defs).card(10).class == Class::Huntress,
        final(card_defs).has_card(11) && final(card_defs).card(11).class == Class::Huntress,
        final(card_defs).has_card(12) && final(card_defs).card(12).class == Class::Huntress,
        final(card_defs).has_card(13) && final(card_defs).card(13).class == Class::Huntress,
        final(card_defs).has_card(14) && final(card_defs).card(14).class == Class::Huntress,
        forall|i: int| 0 <= i < 128 && i != 10 && i != 11 && i != 12 && i != 13 && i != 14 ==> final(card_defs).cards@[i] == old(card_defs).cards@[i],
{
    proof {
        reveal(spec_card);
        reveal(huntress_card);
    }
    let huntress = CharBuilder::new(Class::Huntress, Allegiance::Hero);
    card_defs.register_card(
        huntress.card(
            10,
            faces(
                side(Health::Full)
                    .feature(Features::trap())
                    .add_row(row().arrow_any().rotate())
                    .add_row(row().delay_ally(2).manouver()),
                side(Health::Full)
                    .feature(Features::trap())
                    .add_row(row().quicken_enemy(2).manouver().rotate())
                    .add_row(row().heal_any()),
                side(Health::Empty)
                    .feature(Features::trap())
                    .add_row(row().manouver())
                    .add_row(row().hit_any(1))
                    .add_row(row().delay_any(1)),
                side(Health::Half)
                    .feature(Features::trap())
                    .add_row(row().double_arrow_any())
                    .add_row(row().manouver())
                    .add_row(row().quicken_any(1)),
            ),
        ),
    );
    card_defs.register_card(
        huntress.card(
            11,
            faces(
                side(Health::Full)
                    .dodge_to_rotate()
                    .add_row(row().arrow_any().rotate())
                    .add_row(row().quicken_enemy(2).manouver().rotate())
                    .add_row(row().hit_any(1).rotate()),
                side(Health::Full)
                    .add_row(row().delay_ally(2))
                    .add_row(row().quicken_enemy(2))
                    .add_row(row().manouver().manouver()),
                side(Health::Half)
                    .add_row(row().hit_any(1).hit_any(1).rotate())
                    .add_row(row().quicken_enemy(2).manouver()),
                side(Health::Empty)
                    .add_row(row().hit_any(1).manouver().delay_ally(2)),
            ),
        ),
    );
    card_defs.register_card(
        huntress.card(
            12,
            faces(
                side(Health::Full)
                    .dodge_to_rotate()
                    .add_row(row().manouver().quicken_enemy(2).rotate())
                    .add_row(row().delay_any(1).rotate()),
                side(Health::Full)
                    .feature(Features::trap())
                    .add_row(row().double_arrow_any())
                    .add_row(row().delay_ally(2).manouver()),
                side(Health::Half)
                    .feature(Features::trap())
                    .add_row(row().delay_ally(2).arrow_any())
                    .add_row(row().manouver()),
                side(Health::Empty)
                    .feature(Features::trap())
                    .add_row(row().delay_ally(2).quicken_enemy(2))
                    .add_row(row().manouver().hit_any(1)),
            ),
        ),
    );
    card_defs.register_card(
        huntress.card(
            13,
            faces(
                side(Health::Full)
                    .feature(Features::trap())
                    .add_row(row().manouver().rotate())
                    .add_row(row().hit_any(1))
                    .add_row(row().delay_any(1)),
                side(Health::Full)
                    .add_row(row().arrow_any().rotate())
                    .add_row(row().manouver().hit_any(1).rotate())
                    .add_row(row().quicken_enemy(2)),
                side(Health::Empty)
                    .feature(Features::trap())
                    .add_row(row().arrow_any())
                    .add_row(row().manouver())
                    .add_row(row().delay_any(1)),
                side(Health::Half)
                    .add_row(row().arrow_any())
                    .add_row(row().quicken_enemy(2).manouver()),
            ),
        ),
    );
    card_defs.register_card(
        huntress.card(
            14,
            faces(
                side(Health::Full)
                    .dodge_to_rotate()
                    .add_row(row().arrow_any().rotate())
                    .add_row(row().quicken_enemy(2).rotate()),
                side(Health::Full)
                    .add_row(row().double_arrow_any())
                    .add_row(row().delay_ally(2).manouver())
                    .add_row(row().heal_any()),
                side(Health::Half)
                    .feature(Features::trap())
                    .add_row(row().delay_ally(2).quicken_enemy(2))
                    .add_row(row().manouver().hit_any(1)),
                side(Health::Empty)
                    .add_row(row().arrow_any())
                    .add_row(row().delay_ally(2))
                    .add_row(row().heal_any()),
            ),
        ),
    );
}

/// Registers the vampire cards: ids 15, 16, 17, 18.
pub fn register_vampire_cards(card_defs: &mut CardDefs)
    requires
        old(card_defs).wf(),
        old(card_defs).cards@[15].is_none(),
        old(card_defs).cards@[16].is_none(),
        old(card_defs).cards@[17].is_none(),
        old(card_defs).cards@[18].is_none(),
    ensures
        card_view(final(card_defs).card(15)) == spec_card(15),
        card_view(final(card_defs).card(16)) == spec_card(16),
        card_view(final(card_defs).card(17)) == spec_card(17),
        card_view(final(card_defs).card(18)) == spec_card(18),
        final(card_defs).wf(),
        final(card_defs).has_card(15) && final(card_defs).card(15).class == Class::Vampire,
        final(card_defs).has_card(16) && final(card_defs).card(16).class == Class::Vampire,
        final(card_defs).has_card(17) && final(card_defs).card(17).class == Class::Vampire,
        final(card_defs).has_card(18) && final(card_defs).card(18).class == Class::Vampire,
        forall|i: int| 0 <= i < 128 && i != 15 && i != 16 && i != 17 && i != 18 ==> final(card_defs).cards@[i] == old(card_defs).cards@[i],
{
    proof {
        reveal(spec_card);
        reveal(vampire_card);
    }
    let vampire = CharBuilder::new(Class::Vampire, Allegiance::Baddie);
    card_defs.register_card(
        vampire.card(
            15,
            faces(
                side(Health::Full)
                    .add_row(row().hit_enemy(1).hit_enemy(1).flip())
                    .add_row(row().hit_enemy(6).rotate()),
                side(Health::Full)
                    .add_row(row().pull_ally(3).pull_ally(3))
                    .add_row(row().hit_enemy(3).hit_enemy(3).hit_enemy(3).flip()),
                side(Health::Half)
                    .add_row(row().hit_enemy(1).hit_enemy(1).rotate())
                    .add_row(row().hit_enemy(5)),
                side(Health::Empty)
                    .add_row(row().push_enemy(3))
                    .add_row(row().hit_enemy(5)),
            ),
        ),
    );
    card_defs.register_card(
        vampire.card(
            16,
            faces(
                side(Health::Full)
                    .add_row(row().inspire_ally().rotate()),
                side(Health::Full)
                    .add_row(row().inspire_ally().inspire_ally().rotate()),
                side(Health::Half)
                    .add_row(row().push_enemy(2))
                    .add_row(row().hit_enemy(5)),
                side(Health::Empty)
                    .add_row(row().inspire_ally()),
            ),
        ),
    );
    card_defs.register_card(
        vampire.card(
            17,
            faces(
                side(Health::Full)
                    .add_row(row().pull_enemy(3).hit_enemy(1).push_enemy(3).rotate())
                    .add_row(row().pull_ally(5).rotate()),
                side(Health::Full)
                    .add_row(row().hit_enemy_inf().hit_enemy_inf().flip()),
                side(Health::Empty)
                    .add_row(row().hit_enemy(5))
                    .add_row(row().pull_ally(5)),
                side(Health::Half)
                    .add_row(row().pull_ally(5).flip())
                    .add_row(row().pull_ally_inf()),
            ),
        ),
    );
    card_defs.register_card(
        vampire.card(
            18,
            faces(
                side(Health::Full)
                    .feature(Features::weight())
                    .add_row(row().add_condition(Condition::ExhaustedAllies(2)).revive_ally().revive_ally().revive_ally().rotate())
                    .add_row(row().hit_enemy_inf().push_enemy(5))
                    .block_perm(),
                side(Health::Full)
                    .feature(Features::weight())
                    .add_row(row().add_condition(Condition::ExhaustedAllies(2)).revive_ally().revive_ally().revive_ally().flip())
                    .add_row(row().push_enemy_inf().push_enemy_inf())
                    .block_perm(),
                side(Health::Empty)
                    .add_row(row().push_enemy_inf().push_enemy_inf()),
                side(Health::Half)
                    .feature(Features::weight())
                    .add_row(row().add_condition(Condition::ExhaustedAllies(2)).revive_ally().revive_ally().revive_ally().rotate())
                    .add_row(row().hit_enemy_inf())
                    .block_perm(),
            ),
        ),
    );
}

/// Registers the pyro cards: ids 19, 20, 21, 22, 23.
pub fn register_pyro_cards(card_defs: &mut CardDefs)
    requires
        old(card_defs).wf(),
        old(card_defs).cards@[19].is_none(),
        old(card_defs).cards@[20].is_none(),
        old(card_defs).cards@[21].is_none(),
        old(card_defs).cards@[22].is_none(),
        old(card_defs).cards@[23].is_none(),
    ensures
        card_view(final(card_defs).card(19)) == spec_card(19),
        card_view(final(card_defs).card(20)) == spec_card(20),
        card_view(final(card_defs).card(21)) == spec_card(21),
        card_view(final(card_defs).card(22)) == spec_card(22),
        card_view(final(card_defs).card(23)) == spec_card(23),
        final(card_defs).wf(),
        final(card_defs).has_card(19) && final(card_defs).card(19).class == Class::Pyro,
        final(card_defs).has_card(20) && final(card_defs).card(20).class == Class::Pyro,
        final(card_defs).has_card(21) && final(card_defs).card(21).class == Class::Pyro,
        final(card_defs).has_card(22) && final(card_defs).card(22).class == Class::Pyro,
        final(card_defs).has_card(23) && final(card_defs).card(23).class == Class::Pyro,
        forall|i: int| 0 <= i < 128 && i != 19 && i != 20 && i != 21 && i != 22 && i != 23 ==> final(card_defs).cards@[i] == old(card_defs).cards@[i],
{
    proof {
        reveal(spec_card);
        reveal(pyro_card);
    }
    let pyro = CharBuilder::new(Class::Pyro, Allegiance::Hero);
    card_defs.register_card(
        pyro.card(
            19,
            faces(
                side(Health::Full)
                    .energy()
                    .add_row(row().energy_cost(2).heal_any().heal_any().rotate())
                    .add_row(row().energy_cost(1).manouver().manouver().delay_any(2).rotate())
                    .add_row(row().delay_any(1).quicken_any(1)),
                side(Health::Half)
                    .add_row(row().energy_cost(3).ablaze().rotate())
                    .add_row(row().energy_cost(2).hit_any(3).hit_any(3))
                    .add_row(row().delay_any(1).quicken_any(1).rotate()),
                side(Health::Empty)
                    .add_row(row().energy_cost(3).teleport_enemy().hit_enemy(2))
                    .add_row(row().energy_cost(2).teleport_each().rotate())
                    .add_row(row().teleport_ally().rotate()),
                side(Health::Empty)
                    .energy()
                    .add_row(row().energy_cost(4).revive_any().flip())
                    .add_row(row().manouver().delay_any(2)),
            ),
        ),
    );
    card_defs.register_card(
        pyro.card(
            20,
            faces(
                side(Health::Full)
                    .add_row(row().energy_cost(2).ablaze())
                    .add_row(row().energy_cost(1).hit_enemy(4))
                    .add_row(row().heal_any().manouver().rotate()),
                side(Health::Half)
                    .energy()
                    .add_row(row().energy_cost(2).ablaze().rotate())
                    .add_row(row().energy_cost(1).fireball())
                    .add_row(row().delay_any(1).quicken_any(1)),
                side(Health::Empty)
                    .energy()
                    .add_row(row().energy_cost(4).hit_enemy(6).hit_enemy(6).hit_enemy(6))
                    .add_row(row().energy_cost(2).revive_any().heal_any().rotate())
                    .add_row(row().delay_any(1).quicken_any(1)),
                side(Health::Empty)
                    .add_row(row().energy_cost(2).fireball().rotate())
                    .add_row(row().energy_cost(1).hit_enemy(3))
                    .add_row(row().heal_any().manouver()),
            ),
        ),
    );
    card_defs.register_card(
        pyro.card(
            21,
            faces(
                side(Health::Full)
                    .add_row(row().energy_cost(2).fireball().rotate())
                    .add_row(row().energy_cost(1).heal_any().heal_any().rotate())
                    .add_row(row().heal_any().manouver().rotate()),
                side(Health::Half)
                    .energy()
                    .add_row(row().energy_cost(2).revive_any().rotate())
                    .add_row(row().energy_cost(1).delay_any(2).quicken_any(2))
                    .add_row(row().heal_any().manouver()),
                side(Health::Empty)
                    .add_row(row().energy_cost(3).flip())
                    .add_row(row().energy_cost(2).teleport_each())
                    .add_row(row().delay_any(2).manouver().rotate()),
                side(Health::Empty)
                    .energy()
                    .add_row(row().energy_cost(3).revive_any())
                    .add_row(row().energy_cost(2).ablaze())
                    .add_row(row().heal_any().rotate()),
            ),
        ),
    );
    card_defs.register_card(
        pyro.card(
            22,
            faces(
                side(Health::Full)
                    .energy()
                    .add_row(row().energy_cost(2).teleport_each())
                    .add_row(row().energy_cost(1).teleport_ally())
                    .add_row(row().delay_any(1).quicken_any(1)),
                side(Health::Half)
                    .add_row(row().energy_cost(2).hit_any(5).heal_any())
                    .add_row(row().energy_cost(1).teleport_enemy().rotate())
                    .add_row(row().manouver().heal_any()),
                side(Health::Empty)
                    .energy()
                    .add_row(row().energy_cost(2).fireball().manouver().rotate())
                    .add_row(row().energy_cost(1).hit_any_inf().rotate())
                    .add_row(row().manouver().manouver()),
                side(Health::Empty)
                    .add_row(row().energy_cost(2).ablaze())
                    .add_row(row().energy_cost(1).delay_any(2).quicken_any(2))
                    .add_row(row().delay_any(1).quicken_any(1).rotate()),
            ),
        ),
    );
    card_defs.register_card(
        pyro.card(
            23,
            faces(
                side(Health::Full)
                    .energy()
                    .add_row(row().energy_cost(3).fireball().fireball())
                    .add_row(row().energy_cost(2).ablaze().heal_any().flip())
                    .add_row(row().delay_any(1).manouver()),
                side(Health::Half)
                    .add_row(row().energy_cost(2).revive_any().rotate())
                    .add_row(row().energy_cost(2).hit_any(5).rotate())
                    .add_row(row().teleport_ally()),
                side(Health::Empty)
                    .energy()
                    .add_row(row().energy_cost(2).ablaze())
                    .add_row(row().energy_cost(1).heal_any().delay_any(1).rotate())
                    .add_row(row().quicken_any(1).manouver()),
                side(Health::Empty)
                    .add_row(row().energy_cost(2).hit_any(3).flip())
                    .add_row(row().teleport_ally().rotate()),
            ),
        ),
    );
}

/// Registers the spider cards: ids 24, 25, 26, 27.
pub fn register_spider_cards(card_defs: &mut CardDefs)
    requires
        old(card_defs).wf(),
        old(card_defs).cards@[24].is_none(),
        old(card_defs).cards@[25].is_none(),
        old(card_defs).cards@[26].is_none(),
        old(card_defs).cards@[27].is_none(),
    ensures
        card_view(final(card_defs).card(24)) == spec_card(24),
        card_view(final(card_defs).card(25)) == spec_card(25),
        card_view(final(card_defs).card(26)) == spec_card(26),
        card_view(final(card_defs).card(27)) == spec_card(27),
        final(card_defs).wf(),
        final(card_defs).has_card(24) && final(card_defs).card(24).class == Class::Spider,
        final(card_defs).has_card(25) && final(card_defs).card(25).class == Class::Spider,
        final(card_defs).has_card(26) && final(card_defs).card(26).class == Class::Spider,
        final(card_defs).has_card(27) && final(card_defs).card(27).class == Class::Spider,
        forall|i: int| 0 <= i < 128 && i != 24 && i != 25 && i != 26 && i != 27 ==> final(card_defs).cards@[i] == old(card_defs).cards@[i],
{
    proof {
        reveal(spec_card);
        reveal(spider_card);
    }
    let spider = CharBuilder::new(Class::Spider, Allegiance::Baddie);
    card_defs.register_card(
        spider.card(
            24,
            faces(
                side(Health::Full)
                    .feature(Features::venom())
                    .swarm(row().hit_enemy(3).pull_ally(3))
                    .add_row(row().hit_enemy(5).rotate()),
                side(Health::Full)
                    .feature(Features::venom())
                    .swarm(row().hit_enemy(2).push_enemy(3))
                    .add_row(row().push_enemy(3).hit_enemy(2)),
                side(Health::Empty)
                    .feature(Features::web())
                    .swarm(row().heal_ally())
                    .add_row(row().hit_enemy_inf()),
                side(Health::Half)
                    .feature(Features::venom())
                    .swarm(row().pull_ally(4).push_enemy(3))
                    .add_row(row().hit_enemy(3))
                    .add_row(row().revive_ally()),
            ),
        ),
    );
    card_defs.register_card(
        spider.card(
            25,
            faces(
                side(Health::Full)
                    .feature(Features::venom())
                    .swarm(row().heal_ally().rotate())
                    .add_row(row().push_enemy(3).hit_enemy(3)),
                side(Health::Full)
                    .feature(Features::venom())
                    .swarm(row().hit_enemy(3).push_enemy(2))
                    .add_row(row().hit_enemy(5).rotate()),
                side(Health::Empty)
                    .feature(Features::venom())
                    .swarm(row().push_enemy(3).pull_ally(5))
                    .add_row(row().push_enemy(5).hit_enemy(2)),
                side(Health::Half)
                    .feature(Features::web())
                    .swarm(row().hit_enemy(5))
                    .add_row(row().hit_enemy(5)),
            ),
        ),
    );
    card_defs.register_card(
        spider.card(
            26,
            faces(
                side(Health::Full)
                    .feature(Features::venom())
                    .swarm(row().hit_enemy_inf())
                    .add_row(row().pull_ally(4).hit_enemy(2).rotate())
                    .add_row(row().hit_enemy(5)),
                side(Health::Full)
                    .feature(Features::web())
                    .swarm(row().hit_enemy(4))
                    .add_row(row().push_enemy_inf().push_enemy_inf().push_ally_inf().rotate()),
                side(Health::Empty)
                    .feature(Features::web())
                    .swarm(row().revive_ally())
                    .add_row(row().heal_ally().push_enemy(2))
                    .add_row(row().hit_enemy(4).push_enemy(4)),
                side(Health::Half)
                    .feature(Features::venom())
                    .swarm(row().hit_enemy(3))
                    .add_row(row().pull_ally(6).pull_ally(6)),
            ),
        ),
    );
    card_defs.register_card(
        spider.card(
            27,
            faces(
                side(Health::Full)
                    .feature(Features::web())
                    .swarm(row().hit_enemy(5))
                    .add_row(row().hit_enemy(3).rotate())
                    .add_row(row().push_enemy(3).push_enemy(3))
                    .add_row(row().revive_ally()),
                side(Health::Full)
                    .feature(Features::venom())
                    .block_to_rotate()
                    .swarm(row().hit_enemy(5).hit_enemy(5)),
                side(Health::Empty)
                    .feature(Features::venom())
                    .swarm(row().hit_enemy_inf())
                    .add_row(row().hit_enemy(5).pull_ally(5)),
                side(Health::Half)
                    .feature(Features::web())
                    .swarm(row().hit_enemy_inf())
                    .add_row(row().hit_enemy(5).pull_ally(5)),
            ),
        ),
    );
}

/// Registers the cursed cards: ids 28, 29, 30, 31, 32.
pub fn register_cursed_cards(card_defs: &mut CardDefs)
    requires
        old(card_defs).wf(),
        old(card_defs).cards@[28].is_none(),
        old(card_defs).cards@[29].is_none(),
        old(card_defs).cards@[30].is_none(),
        old(card_defs).cards@[31].is_none(),
        old(card_defs).cards@[32].is_none(),
    ensures
        card_view(final(card_defs).card(28)) == spec_card(28),
        card_view(final(card_defs).card(29)) == spec_card(29),
        card_view(final(card_defs).card(30)) == spec_card(30),
        card_view(final(card_defs).card(31)) == spec_card(31),
        card_view(final(card_defs).card(32)) == spec_card(32),
        final(card_defs).wf(),
        final(card_defs).has_card(28) && final(card_defs).card(28).class == Class::Cursed,
        final(card_defs).has_card(29) && final(card_defs).card(29).class == Class::Cursed,
        final(card_defs).has_card(30) && final(card_defs).card(30).class == Class::Cursed,
        final(card_defs).has_card(31) && final(card_defs).card(31).class == Class::Cursed,
        final(card_defs).has_card(32) && final(card_defs).card(32).class == Class::Cursed,
        forall|i: int| 0 <= i < 128 && i != 28 && i != 29 && i != 30 && i != 31 && i != 32 ==> final(card_defs).cards@[i] == old(card_defs).cards@[i],
{
    proof {
        reveal(spec_card);
        reveal(cursed_card);
    }
    let werewolf = CharBuilder::new(Class::Cursed, Allegiance::Hero);
    card_defs.register_card(
        werewolf.card(
            28,
            faces(
                side(Health::Full)
                    .add_row(row().delay_ally(1).heal_enemy())
                    .add_row(row().manouver().inspire_enemy().manouver())
                    .add_row(row().hit_ally_inf().quicken_enemy(1)),
                side(Health::Empty)
                    .add_row(row().inspire_enemy().heal_ally())
                    .add_row(row().teleport_enemy()),
                side(Health::Half)
                    .werewolf()
                    .block_to_rotate()
                    .add_row(row().claw_enemy(3).rotate()),
                side(Health::Half)
                    .add_row(row().delay_ally(2).rotate())
                    .add_row(row().quicken_enemy(2))
                    .add_row(row().manouver()),
            ),
        ),
    );
    card_defs.register_card(
        werewolf.card(
            29,
            faces(
                side(Health::Full)
                    .add_row(row().hit_ally_inf().quicken_enemy(1))
                    .add_row(row().delay_any(1).quicken_any(1).manouver())
                    .add_row(row().inspire_enemy().quicken_any(2)),
                side(Health::Empty)
                    .add_row(row().manouver().quicken_enemy(2).inspire_enemy())
                    .add_row(row().heal_any()),
                side(Health::Half)
                    .werewolf()
                    .block_to_rotate()
                    .add_row(row().claw_enemy(3).rotate())
                    .add_row(row().pull_enemy_inf().hit_enemy(1).hit_enemy(1).hit_enemy(1)),
                side(Health::Half)
                    .add_row(row().inspire_enemy().manouver().rotate())
                    .add_row(row().delay_ally(2).quicken_enemy(2)),
            ),
        ),
    );
    card_defs.register_card(
        werewolf.card(
            30,
            faces(
                side(Health::Full)
                    .add_row(row().quicken_enemy(2).quicken_enemy(2).inspire_enemy())
                    .add_row(row().delay_ally(1).hit_ally_inf()),
                side(Health::Empty)
                    .add_row(row().manouver().quicken_enemy(2).inspire_enemy())
                    .add_row(row().heal_any().inspire_enemy()),
                side(Health::Half)
                    .werewolf()
                    .block_to_rotate()
                    .add_row(row().hit_enemy(2).hit_enemy(2).rotate())
                    .add_row(row().claw_enemy(4)),
                side(Health::Half)
                    .add_row(row().manouver().heal_any().rotate())
                    .add_row(row().delay_ally(1).quicken_enemy(1))
                    .add_row(row().teleport_each()),
            ),
        ),
    );
    card_defs.register_card(
        werewolf.card(
            31,
            faces(
                side(Health::Full)
                    .add_row(row().heal_enemy().manouver())
                    .add_row(row().quicken_enemy(2).delay_ally(2).inspire_enemy())
                    .add_row(row().hit_ally_inf().quicken_enemy(1)),
                side(Health::Empty)
                    .add_row(row().teleport_enemy().inspire_enemy())
                    .add_row(row().teleport_each().manouver()),
                side(Health::Half)
                    .werewolf()
                    .block_to_rotate()
                    .add_row(row().hit_enemy(2).hit_enemy(2).push_enemy(2).rotate())
                    .add_row(row().hit_enemy_inf().hit_enemy_inf()),
                side(Health::Half)
                    .add_row(row().heal_enemy().rotate())
                    .add_row(row().teleport_each().manouver())
                    .add_row(row().hit_ally_inf().delay_enemy(1)),
            ),
        ),
    );
    card_defs.register_card(
        werewolf.card(
            32,
            faces(
                side(Health::Full)
                    .add_row(row().teleport_enemy().inspire_enemy())
                    .add_row(row().manouver().heal_enemy().flip())
                    .add_row(row().hit_ally_inf().delay_enemy(1)),
                side(Health::Empty)
                    .add_row(row().hit_ally_inf().inspire_enemy().manouver())
                    .add_row(row().quicken_any(1).delay_any(1)),
                side(Health::Half)
                    .werewolf()
                    .block_to_rotate()
                    .add_row(row().pull_enemy(6).hit_enemy(3).hit_enemy(3).hit_enemy(3).rotate())
                    .add_row(row().hit_enemy_inf()),
                side(Health::Half)
                    .add_row(row().inspire_enemy().inspire_enemy().delay_any(1))
                    .add_row(row().teleport_enemy().manouver())
                    .add_row(row().heal_enemy().rotate()),
            ),
        ),
    );
}

/// Registers the demon cards: ids 33, 34, 35, 36.
pub fn register_demon_cards(card_defs: &mut CardDefs)
    requires
        old(card_defs).wf(),
        old(card_defs).cards@[33].is_none(),
        old(card_defs).cards@[34].is_none(),
        old(card_defs).cards@[35].is_none(),
        old(card_defs).cards@[36].is_none(),
    ensures
        card_view(final(card_defs).card(33)) == spec_card(33),
        card_view(final(card_defs).card(34)) == spec_card(34),
        card_view(final(card_defs).card(35)) == spec_card(35),
        card_view(final(card_defs).card(36)) == spec_card(36),
        final(card_defs).wf(),
        final(card_defs).has_card(33) && final(card_defs).card(33).class == Class::Demon,
        final(card_defs).has_card(34) && final(card_defs).card(34).class == Class::Demon,
        final(card_defs).has_card(35) && final(card_defs).card(35).class == Class::Demon,
        final(card_defs).has_card(36) && final(card_defs).card(36).class == Class::Demon,
        forall|i: int| 0 <= i < 128 && i != 33 && i != 34 && i != 35 && i != 36 ==> final(card_defs).cards@[i] == old(card_defs).cards@[i],
{
    proof {
        reveal(spec_card);
        reveal(demon_card);
    }
    let demon = CharBuilder::new(Class::Demon, Allegiance::Baddie);
    card_defs.register_card(
        demon.card(
            33,
            faces(
                side(Health::Full)
                    .add_row(row().rage_condition(3).pull_enemy_inf().hit_enemy(1).hit_enemy(1))
                    .add_row(row().rage_condition(2).pull_enemy_inf().hit_enemy(1))
                    .add_row(row().push_enemy(3).push_enemy(3)),
                side(Health::Half)
                    .rage(2)
                    .add_row(row().rage_condition(3).pull_ally(5).rotate())
                    .add_row(row().rage_condition(2).pull_ally(5).push_enemy(5))
                    .add_row(row().hit_enemy(3).push_enemy(3)),
                side(Health::Empty)
                    .rage(2)
                    .block_to_rotate()
                    .add_row(row().rage_condition(4).void())
                    .add_row(row().rage_condition(2).hit_enemy(1).hit_enemy(2).hit_enemy(3))
                    .add_row(row().hit_enemy(2).hit_enemy(2).rotate()),
                side(Health::Empty)
                    .rage(1)
                    .block_to_rotate()
                    .add_row(row().rage_condition(4).death())
                    .add_row(row().rage_condition(3).claw_enemy(4).rotate())
                    .add_row(row().pull_ally(5).rotate()),
            ),
        ),
    );
    card_defs.register_card(
        demon.card(
            34,
            faces(
                side(Health::Full)
                    .add_row(row().rage_condition(5).death())
                    .add_row(row().rage_condition(3).void())
                    .add_row(row().hit_enemy_inf()),
                side(Health::Half)
                    .rage(1)
                    .add_row(row().rage_condition(4).void().rotate())
                    .add_row(row().rage_condition(2).hit_enemy_inf())
                    .add_row(row().claw_enemy(2)),
                side(Health::Empty)
                    .rage(2)
                    .block_to_rotate()
                    .add_row(row().rage_condition(4).death())
                    .add_row(row().rage_condition(3).pull_enemy(5).hit_enemy(1).hit_enemy(2).push_enemy(1))
                    .add_row(row().pull_enemy(5).hit_enemy(1).hit_enemy(1)),
                side(Health::Empty)
                    .rage(1)
                    .block_to_rotate()
                    .add_row(row().rage_condition(4).death())
                    .add_row(row().rage_condition(2).hit_enemy_inf().push_enemy_inf().rotate())
                    .add_row(row().hit_enemy_inf().rotate()),
            ),
        ),
    );
    card_defs.register_card(
        demon.card(
            35,
            faces(
                side(Health::Full)
                    .add_row(row().rage_condition(5).claw_enemy_inf())
                    .add_row(row().rage_condition(2).claw_enemy(4))
                    .add_row(row().claw_enemy(2)),
                side(Health::Half)
                    .rage(2)
                    .add_row(row().rage_condition(4).claw_enemy(6).rotate())
                    .add_row(row().rage_condition(3).claw_enemy(4).rotate())
                    .add_row(row().hit_enemy_inf()),
                side(Health::Empty)
                    .rage(2)
                    .block_to_rotate()
                    .add_row(row().rage_condition(4).death())
                    .add_row(row().claw_enemy(3).rotate()),
                side(Health::Empty)
                    .rage(1)
                    .block_to_rotate()
                    .add_row(row().rage_condition(5).death())
                    .add_row(row().rage_condition(3).hit_enemy_inf().hit_enemy_inf().rotate())
                    .add_row(row().hit_enemy_inf().rotate()),
            ),
        ),
    );
    card_defs.register_card(
        demon.card(
            36,
            faces(
                side(Health::Full)
                    .add_row(row().rage_condition(3).void())
                    .add_row(row().rage_condition(2).hit_enemy(4).hit_enemy(4))
                    .add_row(row().hit_enemy_inf()),
                side(Health::Half)
                    .rage(1)
                    .add_row(row().rage_condition(4).hit_enemy_inf().hit_enemy_inf().rotate())
                    .add_row(row().rage_condition(3).hit_enemy_inf().rotate())
                    .add_row(row().hit_enemy(4)),
                side(Health::Empty)
                    .rage(2)
                    .block_to_rotate()
                    .add_row(row().rage_condition(5).death())
                    .add_row(row().rage_condition(3).void())
                    .add_row(row().pull_ally(5).rotate()),
                side(Health::Empty)
                    .rage(1)
                    .block_to_rotate()
                    .add_row(row().rage_condition(4).void())
                    .add_row(row().rage_condition(3).pull_enemy(5).hit_enemy(1).pull_enemy(5).hit_enemy(1).rotate())
                    .add_row(row().pull_enemy(5).hit_enemy(1).rotate()),
            ),
        ),
    );
}

/// Registers the beastmaster cards: ids 37, 38, 39, 40, 41.
pub fn register_beastmaster_cards(card_defs: &mut CardDefs)
    requires
        old(card_defs).wf(),
        old(card_defs).cards@[37].is_none(),
        old(card_defs).cards@[38].is_none(),
        old(card_defs).cards@[39].is_none(),
        old(card_defs).cards@[40].is_none(),
        old(card_defs).cards@[41].is_none(),
    ensures
        card_view(final(card_defs).card(37)) == spec_card(37),
        card_view(final(card_defs).card(38)) == spec_card(38),
        card_view(final(card_defs).card(39)) == spec_card(39),
        card_view(final(card_defs).card(40)) == spec_card(40),
        card_view(final(card_defs).card(41)) == spec_card(41),
        final(card_defs).wf(),
        final(card_defs).has_card(37) && final(card_defs).card(37).class == Class::Beastmaster,
        final(card_defs).has_card(38) && final(card_defs).card(38).class == Class::Beastmaster,
        final(card_defs).has_card(39) && final(card_defs).card(39).class == Class::Beastmaster,
        final(card_defs).has_card(40) && final(card_defs).card(40).class == Class::Beastmaster,
        final(card_defs).has_card(41) && final(card_defs).card(41).class == Class::Beastmaster,
        forall|i: int| 0 <= i < 128 && i != 37 && i != 38 && i != 39 && i != 40 && i != 41 ==> final(card_defs).cards@[i] == old(card_defs).cards@[i],
{
    proof {
        reveal(spec_card);
        reveal(beastmaster_card);
    }
    let beastmaster = CharBuilder::new(Class::Beastmaster, Allegiance::Hero);
    card_defs.register_card(
        beastmaster.card(
            37,
            faces(
                side(Health::Full)
                    .call_assist_to_turn()
                    .add_row(row().call_assist_twice().rotate())
                    .add_row(row().teleport_enemy().call_assist())
                    .add_row(row().teleport_ally().call_assist()),
                side(Health::Full)
                    .add_row(row().call_assist_twice().rotate())
                    .add_row(row().hit_any(2).call_assist())
                    .add_row(row().manouver().arrow_any()),
                side(Health::Half)
                    .call_assist_perm()
                    .add_row(row().call_assist().hit_any(2))
                    .add_row(row().quicken_any(2).call_assist())
                    .add_row(row().manouver().call_assist()),
                side(Health::Empty)
                    .add_row(row().hit_any(2).call_assist())
                    .add_row(row().call_assist_twice())
                    .add_row(row().manouver().manouver()),
            ),
        ),
    );
    card_defs.register_card(
        beastmaster.card(
            38,
            faces(
                side(Health::Full)
                    .call_assist_to_turn()
                    .add_row(row().call_assist_twice().rotate())
                    .add_row(row().call_assist().hit_any(2))
                    .add_row(row().delay_any(2).call_assist()),
                side(Health::Full)
                    .add_row(row().call_assist().quicken_any(2))
                    .add_row(row().hit_any(2).call_assist())
                    .add_row(row().manouver().rotate()),
                side(Health::Half)
                    .call_assist_perm()
                    .add_row(row().call_assist().hit_any(1))
                    .add_row(row().call_assist_twice())
                    .add_row(row().teleport_ally()),
                side(Health::Empty)
                    .add_row(row().quicken_any(1).delay_any(1))
                    .add_row(row().call_assist_twice())
                    .add_row(row().teleport_enemy().call_assist()),
            ),
        ),
    );
    card_defs.register_card(
        beastmaster.card(
            39,
            faces(
                side(Health::Full)
                    .call_assist_to_turn()
                    .add_row(row().hit_any(2).call_assist().rotate())
                    .add_row(row().teleport_enemy().call_assist())
                    .add_row(row().call_assist().manouver()),
                side(Health::Full)
                    .add_row(row().manouver().teleport_ally().rotate())
                    .add_row(row().teleport_enemy().call_assist())
                    .add_row(row().call_assist_twice()),
                side(Health::Half)
                    .call_assist_perm()
                    .add_row(row().call_assist().manouver())
                    .add_row(row().arrow_any().call_assist())
                    .add_row(row().call_assist().teleport_ally()),
                side(Health::Empty)
                    .add_row(row().quicken_enemy(2).call_assist().delay_enemy(2))
                    .add_row(row().call_assist_twice())
                    .add_row(row().teleport_enemy().call_assist()),
            ),
        ),
    );
    card_defs.register_card(
        beastmaster.card(
            40,
            faces(
                side(Health::Empty)
                    .provide_assist_block_rotate()
                    .add_assist(row().claw_enemy(2).rotate())
                    .add_assist(row().hit_any(1))
                    .add_assist(row().quicken_ally(2))
                    .add_row(row().quicken_ally(2).flip()),
                side(Health::Empty)
                    .add_assist(row().hit_any(1))
                    .add_assist(row().quicken_ally(1))
                    .add_row(row().rotate()),
                side(Health::Empty)
                    .provide_assist_block_flip()
                    .add_assist(row().claw_enemy(3).flip())
                    .add_assist(row().hit_any(2))
                    .add_assist(row().teleport_ally())
                    .add_row(row().quicken_ally(3).rotate()),
                side(Health::Empty)
                    .provide_assist_block_rotate()
                    .add_assist(row().claw_enemy(4).rotate())
                    .add_assist(row().teleport_each().rotate())
                    .add_assist(row().hit_any(3))
                    .add_row(row().teleport_each()),
            ),
        ),
    );
    card_defs.register_card(
        beastmaster.card(
            41,
            faces(
                side(Health::Empty)
                    .provide_assist_dodge_rotate()
                    .add_assist(row().arrow_any().rotate())
                    .add_assist(row().delay_enemy(2))
                    .add_row(row().delay_enemy(2).flip()),
                side(Health::Empty)
                    .add_assist(row().delay_enemy(1))
                    .add_row(row().rotate()),
                side(Health::Empty)
                    .provide_assist_dodge_flip()
                    .add_assist(row().arrow_any().flip())
                    .add_assist(row().heal_any().flip())
                    .add_assist(row().teleport_enemy())
                    .add_row(row().delay_enemy(3).rotate()),
                side(Health::Empty)
                    .provide_assist_dodge_rotate()
                    .feature(Features::trap())
                    .add_assist(row().arrow_any().rotate())
                    .add_assist(row().revive_any().flip())
                    .add_assist(row().teleport_enemy())
                    .add_row(row().delay_enemy(2).quicken_ally(2)),
            ),
        ),
    );
}

/// Registers the flora cards: ids 42, 43, 44, 45.
pub fn register_flora_cards(card_defs: &mut CardDefs)
    requires
        old(card_defs).wf(),
        old(card_defs).cards@[42].is_none(),
        old(card_defs).cards@[43].is_none(),
        old(card_defs).cards@[44].is_none(),
        old(card_defs).cards@[45].is_none(),
    ensures
        card_view(final(card_defs).card(42)) == spec_card(42),
        card_view(final(card_defs).card(43)) == spec_card(43),
        card_view(final(card_defs).card(44)) == spec_card(44),
        card_view(final(card_defs).card(45)) == spec_card(45),
        final(card_defs).wf(),
        final(card_defs).has_card(42) && final(card_defs).card(42).class == Class::Flora,
        final(card_defs).has_card(43) && final(card_defs).card(43).class == Class::Flora,
        final(card_defs).has_card(44) && final(card_defs).card(44).class == Class::Flora,
        final(card_defs).has_card(45) && final(card_defs).card(45).class == Class::Flora,
        forall|i: int| 0 <= i < 128 && i != 42 && i != 43 && i != 44 && i != 45 ==> final(card_defs).cards@[i] == old(card_defs).cards@[i],
{
    proof {
        reveal(spec_card);
        reveal(flora_card);
    }
    let verdant = CharBuilder::new(Class::Flora, Allegiance::Baddie);
    card_defs.register_card(
        verdant.card(
            42,
            faces(
                side(Health::Full)
                    .on_hit_reaction(WhenHitRow::PushEnemyInfPushEnemyInf)
                    .add_row(row().hit_ally(2).pull_ally(6))
                    .add_row(row().hit_ally_inf().heal_ally()),
                side(Health::Empty)
                    .add_row(row().heal_ally())
                    .add_row(row().hit_ally(3).pull_ally(5))
                    .add_row(row().revive_ally()),
                side(Health::Half)
                    .feature(Features::weight())
                    .on_hit_reaction(WhenHitRow::PushAllyInfPullAllyInf)
                    .add_row(row().heal_ally())
                    .add_row(row().push_enemy(3).hit_enemy(3).push_enemy(2)),
                side(Health::Half)
                    .feature(Features::weight())
                    .on_hit_reaction(WhenHitRow::ClawOddEnemies)
                    .add_row(row().push_enemy(2).push_enemy(3)),
            ),
        ),
    );
    card_defs.register_card(
        verdant.card(
            43,
            faces(
                side(Health::Full)
                    .on_hit_reaction(WhenHitRow::ClawEnemy4)
                    .add_row(row().claw_enemy(2))
                    .add_row(row().hit_enemy(4)),
                side(Health::Empty)
                    .add_row(row().hit_enemy(3))
                    .add_row(row().heal_ally())
                    .add_row(row().hit_ally_inf().heal_ally()),
                side(Health::Half)
                    .feature(Features::weight())
                    .on_hit_reaction(WhenHitRow::ClawEvenEnemies)
                    .add_row(row().inspire_ally()),
                side(Health::Half)
                    .feature(Features::weight())
                    .on_hit_reaction(WhenHitRow::ClawOddEnemies)
                    .add_row(row().hit_enemy(3).push_enemy(2)),
            ),
        ),
    );
    card_defs.register_card(
        verdant.card(
            44,
            faces(
                side(Health::Full)
                    .on_hit_reaction(WhenHitRow::ClawEnemy4)
                    .add_row(row().hit_enemy(4)),
                side(Health::Empty)
                    .add_row(row().hit_enemy(3))
                    .add_row(row().heal_ally())
                    .add_row(row().hit_ally_inf().heal_ally()),
                side(Health::Half)
                    .feature(Features::weight())
                    .on_hit_reaction(WhenHitRow::ClawOddEnemies)
                    .add_row(row().hit_enemy(3)),
                side(Health::Half)
                    .feature(Features::weight())
                    .on_hit_reaction(WhenHitRow::ClawEvenEnemies)
                    .add_row(row().hit_enemy(3)),
            ),
        ),
    );
    card_defs.register_card(
        verdant.card(
            45,
            faces(
                side(Health::Full)
                    .on_hit_reaction(WhenHitRow::HealAlly)
                    .add_row(row().hit_enemy(2).push_enemy(2))
                    .add_row(row().revive_ally())
                    .add_row(row().hit_ally(4).pull_ally(5)),
                side(Health::Empty)
                    .add_row(row().heal_ally().hit_enemy(3))
                    .add_row(row().hit_enemy(6)),
                side(Health::Half)
                    .feature(Features::weight())
                    .on_hit_reaction(WhenHitRow::ReviveAlly)
                    .add_row(row().push_enemy(2)),
                side(Health::Half)
                    .feature(Features::weight())
                    .on_hit_reaction(WhenHitRow::HealAllyClawEnemy3)
                    .add_row(row().push_enemy(2).push_enemy(2)),
            ),
        ),
    );
}

/// Registers the assassin cards: ids 46, 47, 48, 49, 50.
pub fn register_assassin_cards(card_defs: &mut CardDefs)
    requires
        old(card_defs).wf(),
        old(card_defs).cards@[46].is_none(),
        old(card_defs).cards@[47].is_none(),
        old(card_defs).cards@[48].is_none(),
        old(card_defs).cards@[49].is_none(),
        old(card_defs).cards@[50].is_none(),
    ensures
        card_view(final(card_defs).card(46)) == spec_card(46),
        card_view(final(card_defs).card(47)) == spec_card(47),
        card_view(final(card_defs).card(48)) == spec_card(48),
        card_view(final(card_defs).card(49)) == spec_card(49),
        card_view(final(card_defs).card(50)) == spec_card(50),
        final(card_defs).wf(),
        final(card_defs).has_card(46) && final(card_defs).card(46).class == Class::Assassin,
        final(card_defs).has_card(47) && final(card_defs).card(47).class == Class::Assassin,
        final(card_defs).has_card(48) && final(card_defs).card(48).class == Class::Assassin,
        final(card_defs).has_card(49) && final(card_defs).card(49).class == Class::Assassin,
        final(card_defs).has_card(50) && final(card_defs).card(50).class == Class::Assassin,
        forall|i: int| 0 <= i < 128 && i != 46 && i != 47 && i != 48 && i != 49 && i != 50 ==> final(card_defs).cards@[i] == old(card_defs).cards@[i],
{
    proof {
        reveal(spec_card);
        reveal(assassin_card);
    }
    let assassin = CharBuilder::new(Class::Assassin, Allegiance::Hero);
    card_defs.register_card(
        assassin.card(
            46,
            faces(
                side(Health::Half)
                    .dodge_to_rotate()
                    .add_row(row().dodge_cost(3).backstab_any_twice().rotate())
                    .add_row(row().dodge_cost(1).quicken_ally(2))
                    .add_row(row().manouver()),
                side(Health::Half)
                    .add_row(row().dodge_cost(2).backstab_any())
                    .add_row(row().dodge_cost(1).poison_any())
                    .add_row(row().delay_ally(2)),
                side(Health::Empty)
                    .roll()
                    .add_row(row().dodge_cost(2).poison_any())
                    .add_row(row().dodge_cost(2).delay_ally(1).manouver())
                    .add_row(row().quicken_ally(1)),
                side(Health::Empty)
                    .dodge_to_rotate()
                    .add_row(row().dodge_cost(3).flip())
                    .add_row(row().dodge_cost(2).backstab_any())
                    .add_row(row().manouver().manouver()),
            ),
        ),
    );
    card_defs.register_card(
        assassin.card(
            47,
            faces(
                side(Health::Half)
                    .dodge_to_rotate()
                    .add_row(row().dodge_cost(2).backstab_any())
                    .add_row(row().dodge_cost(1).poison_any())
                    .add_row(row().delay_ally(1)),
                side(Health::Half)
                    .roll()
                    .add_row(row().dodge_cost(2).poison_any().poison_any())
                    .add_row(row().dodge_cost(2).backstab_any())
                    .add_row(row().delay_ally(1)),
                side(Health::Empty)
                    .dodge_to_rotate()
                    .add_row(row().dodge_cost(4).revive_any().rotate())
                    .add_row(row().dodge_cost(3).backstab_any_twice())
                    .add_row(row().delay_ally(1).delay_enemy(1)),
                side(Health::Empty)
                    .add_row(row().dodge_cost(2).backstab_any())
                    .add_row(row().dodge_cost(1).poison_any())
                    .add_row(row().manouver().delay_ally(1)),
            ),
        ),
    );
    card_defs.register_card(
        assassin.card(
            48,
            faces(
                side(Health::Half)
                    .dodge_to_rotate()
                    .add_row(row().dodge_cost(2).backstab_any())
                    .add_row(row().dodge_cost(2).poison_any())
                    .add_row(row().delay_enemy(1).manouver()),
                side(Health::Half)
                    .add_row(row().dodge_cost(3).backstab_any())
                    .add_row(row().dodge_cost(1).poison_any())
                    .add_row(row().delay_ally(1).delay_enemy(1)),
                side(Health::Empty)
                    .dodge_to_rotate()
                    .add_row(row().dodge_cost(3).teleport_ally().teleport_enemy())
                    .add_row(row().dodge_cost(2).poison_any())
                    .add_row(row().quicken_enemy(1).delay_enemy(1)),
                side(Health::Empty)
                    .roll()
                    .add_row(row().dodge_cost(4).revive_any())
                    .add_row(row().dodge_cost(2).backstab_any().rotate())
                    .add_row(row().manouver().delay_enemy(1)),
            ),
        ),
    );
    card_defs.register_card(
        assassin.card(
            49,
            faces(
                side(Health::Half)
                    .roll()
                    .add_row(row().dodge_cost(2).backstab_any())
                    .add_row(row().dodge_cost(1).quicken_ally(2).delay_enemy(2))
                    .add_row(row().manouver().manouver()),
                side(Health::Half)
                    .dodge_to_rotate()
                    .add_row(row().dodge_cost(3).delay_ally(2).manouver().quicken_ally(2))
                    .add_row(row().dodge_cost(1).poison_any().rotate())
                    .add_row(row().delay_enemy(1).manouver()),
                side(Health::Empty)
                    .add_row(row().dodge_cost(2).poison_any().rotate())
                    .add_row(row().dodge_cost(1).delay_enemy(2))
                    .add_row(row().manouver()),
                side(Health::Empty)
                    .dodge_to_rotate()
                    .add_row(row().dodge_cost(4).revive_any().rotate())
                    .add_row(row().dodge_cost(1).backstab_any().rotate())
                    .add_row(row().delay_ally(1)),
            ),
        ),
    );
    card_defs.register_card(
        assassin.card(
            50,
            faces(
                side(Health::Half)
                    .dodge_to_rotate()
                    .add_row(row().dodge_cost(2).backstab_any())
                    .add_row(row().dodge_cost(2).poison_any())
                    .add_row(row().delay_enemy(1).manouver()),
                side(Health::Half)
                    .add_row(row().dodge_cost(3).poison_any().poison_any())
                    .add_row(row().dodge_cost(2).backstab_any().rotate())
                    .add_row(row().quicken_enemy(1).delay_ally(1).rotate()),
                side(Health::Empty)
                    .roll()
                    .add_row(row().dodge_cost(3).flip())
                    .add_row(row().dodge_cost(1).quicken_ally(2))
                    .add_row(row().manouver()),
                side(Health::Empty)
                    .dodge_to_rotate()
                    .add_row(row().dodge_cost(2).backstab_any())
                    .add_row(row().dodge_cost(2).poison_any())
                    .add_row(row().manouver()),
            ),
        ),
    );
}

/// Registers the wall cards: ids 51, 52, 53, 54.
pub fn register_wall_cards(card_defs: &mut CardDefs)
    requires
        old(card_defs).wf(),
        old(card_defs).cards@[51].is_none(),
        old(card_defs).cards@[52].is_none(),
        old(card_defs).cards@[53].is_none(),
        old(card_defs).cards@[54].is_none(),
    ensures
        card_view(final(card_defs).card(51)) == spec_card(51),
        card_view(final(card_defs).card(52)) == spec_card(52),
        card_view(final(card_defs).card(53)) == spec_card(53),
        card_view(final(card_defs).card(54)) == spec_card(54),
        final(card_defs).wf(),
        final(card_defs).has_card(51) && final(card_defs).card(51).class == Class::Wall,
        final(card_defs).has_card(52) && final(card_defs).card(52).class == Class::Wall,
        final(card_defs).has_card(53) && final(card_defs).card(53).class == Class::Wall,
        final(card_defs).has_card(54) && final(card_defs).card(54).class == Class::Wall,
        forall|i: int| 0 <= i < 128 && i != 51 && i != 52 && i != 53 && i != 54 ==> final(card_defs).cards@[i] == old(card_defs).cards@[i],
{
    proof {
        reveal(spec_card);
        reveal(wall_card);
    }
    let wall = CharBuilder::new(Class::Wall, Allegiance::Baddie);
    card_defs.register_card(
        wall.back_card(
            51,
            faces(
                side(Health::Empty)
                    .feature(Features::wall())
                    .feature(Features::invulnerable())
                    .add_row(row().pull_ally_inf().rotate()),
                side(Health::Empty)
                    .feature(Features::wall())
                    .feature(Features::invulnerable())
                    .block_perm()
                    .add_row(row().heal_ally().flip().is_mandatory()),
                side(Health::Empty)
                    .feature(Features::wall())
                    .feature(Features::invulnerable())
                    .add_row(row().death()),
                side(Health::Empty)
                    .feature(Features::wall())
                    .feature(Features::invulnerable())
                    .block_perm()
                    .add_row(row().push_enemy_inf().pull_ally_inf().rotate()),
            ),
        ),
    );
    card_defs.register_card(
        wall.card(
            52,
            faces(
                side(Health::Full)
                    .feature(Features::weight())
                    .block_to_rotate(),
                side(Health::Full)
                    .block_to_flip()
                    .add_row(row().rotate().is_mandatory()),
                side(Health::Empty),
                side(Health::Half)
                    .feature(Features::weight())
                    .block_to_rotate()
                    .add_row(row().flip().is_mandatory()),
            ),
        ),
    );
    card_defs.register_card(
        wall.card(
            53,
            faces(
                side(Health::Full)
                    .feature(Features::weight())
                    .block_to_rotate(),
                side(Health::Full)
                    .block_to_flip(),
                side(Health::Empty)
                    .add_row(row().rotate().is_mandatory()),
                side(Health::Half)
                    .feature(Features::weight())
                    .block_to_rotate()
                    .add_row(row().flip().is_mandatory()),
            ),
        ),
    );
    card_defs.register_card(
        wall.card(
            54,
            faces(
                side(Health::Full)
                    .block_to_rotate(),
                side(Health::Full)
                    .feature(Features::weight())
                    .block_to_flip()
                    .add_row(row().rotate().is_mandatory()),
                side(Health::Empty)
                    .add_row(row().rotate().is_mandatory()),
                side(Health::Half)
                    .block_to_rotate(),
            ),
        ),
    );
}

/// Registers the piper cards: ids 55, 56, 57, 58.
pub fn register_piper_cards(card_defs: &mut CardDefs)
    requires
        old(card_defs).wf(),
        old(card_defs).cards@[55].is_none(),
        old(card_defs).cards@[56].is_none(),
        old(card_defs).cards@[57].is_none(),
        old(card_defs).cards@[58].is_none(),
    ensures
        card_view(final(card_defs).card(55)) == spec_card(55),
        card_view(final(card_defs).card(56)) == spec_card(56),
        card_view(final(card_defs).card(57)) == spec_card(57),
        card_view(final(card_defs).card(58)) == spec_card(58),
        final(card_defs).wf(),
        final(card_defs).has_card(55) && final(card_defs).card(55).class == Class::Piper,
        final(card_defs).has_card(56) && final(card_defs).card(56).class == Class::Piper,
        final(card_defs).has_card(57) && final(card_defs).card(57).class == Class::Piper,
        final(card_defs).has_card(58) && final(card_defs).card(58).class == Class::Piper,
        forall|i: int| 0 <= i < 128 && i != 55 && i != 56 && i != 57 && i != 58 ==> final(card_defs).cards@[i] == old(card_defs).cards@[i],
{
    proof {
        reveal(spec_card);
        reveal(piper_card);
    }
    let piper = CharBuilder::new(Class::Piper, Allegiance::Hero);
    card_defs.register_card(
        piper.card(
            55,
            faces(
                side(Health::Full)
                    .modifier_rotate(-2)
                    .add_row(row().arrow_any().quicken_enemy(2))
                    .add_row(row().teleport_enemy().manouver()),
                side(Health::Full)
                    .modifier_rotate(1)
                    .add_row(row().hypnosis_enemy().rotate())
                    .add_row(row().hit_any(0).rotate())
                    .add_row(row().delay_enemy(2).quicken_ally(2)),
                side(Health::Empty)
                    .modifier_no_mandatory(1)
                    .add_row(row().hypnosis_enemy())
                    .add_row(row().rats())
                    .add_row(row().teleport_enemy().manouver()),
                side(Health::Half)
                    .modifier_rotate(4)
                    .add_row(row().hypnosis_enemy())
                    .add_row(row().arrow_any().teleport_enemy())
                    .add_row(row().delay_enemy(2).manouver()),
            ),
        ),
    );
    card_defs.register_card(
        piper.card(
            56,
            faces(
                side(Health::Full)
                    .modifier_rotate(-2)
                    .add_row(row().hypnosis_enemy().rotate())
                    .add_row(row().rats().teleport_enemy())
                    .add_row(row().manouver().quicken_any(1)),
                side(Health::Full)
                    .modifier_rotate(1)
                    .add_row(row().arrow_any().delay_ally(1))
                    .add_row(row().hit_any(0).quicken_any(1))
                    .add_row(row().manouver().manouver().rotate()),
                side(Health::Empty)
                    .modifier_no_mandatory(-1)
                    .add_row(row().arrow_any().quicken_enemy(1))
                    .add_row(row().teleport_enemy().manouver()),
                side(Health::Half)
                    .modifier_rotate(-4)
                    .add_row(row().hypnosis_enemy())
                    .add_row(row().rats())
                    .add_row(row().teleport_each()),
            ),
        ),
    );
    card_defs.register_card(
        piper.card(
            57,
            faces(
                side(Health::Full)
                    .modifier_rotate(1)
                    .add_row(row().hit_any(0).quicken_enemy(1))
                    .add_row(row().teleport_each().rotate()),
                side(Health::Full)
                    .modifier_rotate(-1)
                    .add_row(row().arrow_any().teleport_enemy())
                    .add_row(row().quicken_ally(1).quicken_ally(1)),
                side(Health::Empty)
                    .modifier_no_mandatory(1)
                    .add_row(row().arrow_any().quicken_enemy(1))
                    .add_row(row().hit_any(0).manouver()),
                side(Health::Half)
                    .modifier_rotate(4)
                    .add_row(row().hypnosis_enemy())
                    .add_row(row().rats())
                    .add_row(row().hit_any(0).teleport_each()),
            ),
        ),
    );
    card_defs.register_card(
        piper.card(
            58,
            faces(
                side(Health::Full)
                    .modifier_rotate(1)
                    .add_row(row().hypnosis_enemy().quicken_enemy(2))
                    .add_row(row().rats().delay_ally(2))
                    .add_row(row().quicken_enemy(1).quicken_enemy(1).manouver()),
                side(Health::Full)
                    .modifier_rotate(-1)
                    .add_row(row().teleport_enemy().arrow_any().rotate())
                    .add_row(row().delay_ally(1).delay_enemy(1).manouver()),
                side(Health::Empty)
                    .modifier_no_mandatory(-1)
                    .add_row(row().hypnosis_enemy())
                    .add_row(row().rats())
                    .add_row(row().hit_any(0).delay_enemy(1)),
                side(Health::Half)
                    .modifier_rotate(-4)
                    .add_row(row().arrow_any().teleport_enemy())
                    .add_row(row().quicken_enemy(2).manouver()),
            ),
        ),
    );
}

/// Registers the rat cards: ids 59.
pub fn register_rat_cards(card_defs: &mut CardDefs)
    requires
        old(card_defs).wf(),
        old(card_defs).cards@[59].is_none(),
    ensures
        card_view(final(card_defs).card(59)) == spec_card(59),
        final(card_defs).wf(),
        final(card_defs).has_card(59) && final(card_defs).card(59).class == Class::Piper,
        forall|i: int| 0 <= i < 128 && i != 59 ==> final(card_defs).cards@[i] == old(card_defs).cards@[i],
{
    proof {
        reveal(spec_card);
        reveal(rat_card);
    }
    let rat = CharBuilder::new(Class::Piper, Allegiance::Rat);
    card_defs.register_card(
        rat.card(
            59,
            faces(
                side(Health::Empty)
                    .add_row(row().claw_enemy(0).is_mandatory()),
                side(Health::Full)
                    .add_row(row().death()),
                side(Health::Half)
                    .add_row(row().claw_enemy(2)),
                side(Health::Half)
                    .add_row(row().hit_enemy(2).hit_enemy(2)),
            ),
        ),
    );
}

} // verus!