use vstd::prelude::*;
use crate::backpack::Backpack;
use crate::entity::{
    Entity, MonsterType, Difficulty, entity_wf, spec_max_life, lemma_delta_bounded,
    effective_strength, effective_defense, effective_speed,
};
use crate::fight::{Generator, spec_weapon_range};
use crate::gen_item::generate_item;
use crate::item::{Item, Type, StatsMod, item_wf, first_heal, get_fist, lemma_mods_push,
    new_plain_item, has_damage_implies_first_damage_some, lemma_first_damage_found};
use crate::stats::Stats;
use crate::text::prefixed_name;

verus! {

/// The monster kind a spawn marker's type code stands for.
pub open spec fn spec_monster_type(mn_type: u32) -> MonsterType {
    if mn_type == 1 {
        MonsterType::Zombie
    } else if mn_type == 2 {
        MonsterType::Crab
    } else if mn_type == 3 {
        MonsterType::Goblin
    } else {
        MonsterType::Boss
    }
}

/// The difficulty tier a spawn marker's difficulty code stands for.
pub open spec fn spec_monster_difficulty(diff: u32) -> Difficulty {
    if diff == 1 {
        Difficulty::Easy
    } else if diff == 2 {
        Difficulty::Normal
    } else if diff == 3 {
        Difficulty::Hard
    } else {
        Difficulty::Boss
    }
}

/// The (vitality, strength, defense) multipliers of a difficulty tier, in
/// tenths.
pub open spec fn spec_tier_tenths(diff: u32) -> (int, int, int) {
    if diff == 1 {
        (9int, 9int, 2int)
    } else if diff == 2 {
        (11int, 10int, 9int)
    } else if diff == 3 {
        (20int, 12int, 10int)
    } else {
        (22int, 14int, 11int)
    }
}

/// The heal percentage of a tier's potion drop.
pub open spec fn spec_tier_heal(diff: u32) -> int {
    if diff == 1 {
        10int
    } else if diff == 2 {
        25int
    } else if diff == 3 {
        50int
    } else {
        100int
    }
}

/// Halving rounded toward zero, as integer division does.
pub open spec fn spec_div2(x: int) -> int {
    if x >= 0 {
        x / 2
    } else {
        -((-x) / 2)
    }
}

/// The display name of a monster: the kind's noun, with the tier tag in
/// front on every tier but the boss tier.
pub open spec fn spec_monster_name(mn_type: u32, diff: u32) -> Seq<char> {
    let base: Seq<char> = if mn_type == 1 {
        "Zombie"@
    } else if mn_type == 2 {
        "Crab"@
    } else if mn_type == 3 {
        "Goblin"@
    } else {
        "Boss"@
    };
    if diff == 1 {
        "(Easy) "@ + base
    } else if diff == 2 {
        "(Normal) "@ + base
    } else if diff == 3 {
        "(Hard) "@ + base
    } else {
        base
    }
}

/// The items one optional drop roll contributes.
pub open spec fn spec_opt_seq(o: Option<Item>) -> Seq<Item> {
    match o {
        Option::Some(it) => seq![it],
        Option::None => Seq::empty(),
    }
}

/// An admissible gear drop for one slot: skipped, or one item generated
/// from the player's matching gear at the monster's tier.
pub open spec fn spec_opt_gear(o: Option<Item>, ty: Type, reference: Item, d: Difficulty) -> bool {
    match o {
        Option::Some(it) => item_wf(it) && crate::gen_item::spec_generated_item(
            it,
            ty,
            reference,
            d,
        ),
        Option::None => true,
    }
}

/// An admissible potion drop: skipped, or the healing potion whose single
/// modifier heals the tier's percentage.
pub open spec fn spec_opt_potion(o: Option<Item>, diff: u32) -> bool {
    match o {
        Option::Some(it) => it.item_type == Type::Potion && it.name@ == "Healing Potion"@
            && it.modifications@ == seq![StatsMod::Heal(spec_tier_heal(diff) as i32)],
        Option::None => true,
    }
}

/// The backpack holds its old contents untouched and, in the slots behind
/// them, as long a prefix of the rolled drop list as there were free slots;
/// whatever did not fit was silently ignored.
pub open spec fn spec_holds_drops(pre: Backpack, post: Backpack, rolled: Seq<Item>) -> bool {
    let kept = if pre.spec_size() + rolled.len() <= crate::backpack::BACKPACK_SIZE as int {
        rolled.len() as int
    } else {
        crate::backpack::BACKPACK_SIZE - pre.spec_size()
    };
    &&& post.items@.len() == pre.items@.len()
    &&& post.spec_size() == pre.spec_size() + kept
    &&& (forall|k: int| 0 <= k < pre.spec_size() ==> post.items@[k] == pre.items@[k])
    &&& (forall|k: int| 0 <= k < kept ==> post.items@[pre.spec_size() + k] == rolled[k])
    &&& (forall|k: int|
        pre.spec_size() + kept <= k < post.items@.len() ==> post.items@[k] == pre.items@[k])
}

/// The backpack after the drop rolls: at most one generated item per gear
/// slot — weapon, head, chest, legs, in that order, each derived from the
/// player's matching gear — then at most one tier potion, appended behind
/// the untouched old contents as far as free slots allowed.
#[verifier::opaque]
pub open spec fn spec_drops_ok(pre: Backpack, post: Backpack, player: Entity, diff: u32) -> bool {
    exists|w: Option<Item>, h: Option<Item>, c: Option<Item>, l: Option<Item>, p: Option<Item>|
        #![auto]
        {
            &&& spec_opt_gear(w, Type::Weapon, player.weapon, spec_monster_difficulty(diff))
            &&& spec_opt_gear(h, Type::Head, player.head_item, spec_monster_difficulty(diff))
            &&& spec_opt_gear(c, Type::Chest, player.chest_item, spec_monster_difficulty(diff))
            &&& spec_opt_gear(l, Type::Legs, player.leg_item, spec_monster_difficulty(diff))
            &&& spec_opt_potion(p, diff)
            &&& spec_holds_drops(
                pre,
                post,
                spec_opt_seq(w) + spec_opt_seq(h) + spec_opt_seq(c) + spec_opt_seq(l)
                    + spec_opt_seq(p),
            )
        }
}

/// Appending one more rolled drop extends the kept prefix exactly when a
/// slot was still free, and changes nothing once the backpack is full.
proof fn lemma_holds_drops_step(
    pre: Backpack,
    b1: Backpack,
    b2: Backpack,
    rolled: Seq<Item>,
    it: Item,
)
    requires
        pre.wf(),
        spec_holds_drops(pre, b1, rolled),
        !crate::backpack::slot_free(it),
        b1.spec_size() < crate::backpack::BACKPACK_SIZE ==> b2.items@ =~= b1.items@.update(
            b1.spec_size(),
            it,
        ) && b2.spec_size() == b1.spec_size() + 1,
        b1.spec_size() >= crate::backpack::BACKPACK_SIZE ==> b2 == b1,
    ensures
        spec_holds_drops(pre, b2, rolled.push(it)),
{
    let cap = crate::backpack::BACKPACK_SIZE as int;
    crate::backpack::lemma_count_le_len(pre.items@);
    crate::backpack::lemma_count_le_len(b1.items@);
    let s0 = pre.spec_size();
    let kept = if s0 + rolled.len() <= cap {
        rolled.len() as int
    } else {
        cap - s0
    };
    if b1.spec_size() < cap {
        assert(kept == rolled.len());
        assert forall|k: int| 0 <= k < kept + 1 implies b2.items@[s0 + k] == rolled.push(it)[k] by {
            if k < kept {
                assert(b2.items@[s0 + k] == b1.items@[s0 + k]);
            } else {
                assert(b2.items@[s0 + k] == it);
            }
        }
    } else {
        assert(b1.spec_size() == cap);
        assert(kept == cap - s0);
        assert(rolled.len() >= kept);
        assert forall|k: int| 0 <= k < kept implies b2.items@[s0 + k] == rolled.push(it)[k] by {
            assert(b2.items@[s0 + k] == rolled[k]);
        }
    }
}

/// Scaling of a stat by a multiplier given in tenths, rounded half away
/// from zero.
pub open spec fn spec_scaled(x: int, tenths: int) -> int {
    if x * tenths >= 0 {
        (x * tenths + 5) / 10
    } else {
        -(((-(x * tenths)) + 5) / 10)
    }
}

/// Scales a stat by a multiplier given in tenths, rounding half away from
/// zero.
fn scale_stat(x: i32, tenths: i32) -> (r: i32)
    requires
        -10_000_000 <= x <= 10_000_000,
        0 <= tenths <= 22,
    ensures
        r as int == spec_scaled(x as int, tenths as int),
        -25_000_000 <= r <= 25_000_000,
{
    proof {
        assert(-220_000_000 <= x * tenths <= 220_000_000) by (nonlinear_arith)
            requires
                -10_000_000 <= x <= 10_000_000,
                0 <= tenths <= 22,
        ;
    }
    let p = x * tenths;
    if p >= 0 {
        (p + 5) / 10
    } else {
        -((-p + 5) / 10)
    }
}

/// Sets the monster's base stats as tier-scaled functions of the player's
/// effective stats and mean weapon damage.
fn calculate_monster_stats(
    monster: &mut Entity,
    player_stats: Stats,
    mean_damage: i32,
    vitality_tenths: i32,
    strength_tenths: i32,
    defense_tenths: i32,
)
    requires
        -10_000_000 <= player_stats.vitality <= 10_000_000,
        -10_000_000 <= player_stats.strength <= 10_000_000,
        -10_000_000 <= player_stats.speed <= 10_000_000,
        -10_000_000 <= player_stats.defense <= 10_000_000,
        -10_000_000 <= mean_damage <= 10_000_000,
        0 <= vitality_tenths <= 22,
        0 <= strength_tenths <= 22,
        0 <= defense_tenths <= 22,
    ensures
        final(monster).base_stats.vitality as int == spec_scaled(
            mean_damage as int,
            vitality_tenths as int,
        ),
        final(monster).base_stats.defense as int == spec_scaled(
            player_stats.strength as int,
            defense_tenths as int,
        ),
        final(monster).base_stats.strength as int == spec_scaled(
            player_stats.defense as int,
            strength_tenths as int,
        ),
        final(monster).base_stats.speed == player_stats.speed,
        -25_000_000 <= final(monster).base_stats.vitality <= 25_000_000,
        -25_000_000 <= final(monster).base_stats.strength <= 25_000_000,
        -25_000_000 <= final(monster).base_stats.defense <= 25_000_000,
        *final(monster) == (Entity { base_stats: final(monster).base_stats, ..*old(monster) }),
{
    monster.base_stats.vitality = scale_stat(mean_damage, vitality_tenths);
    monster.base_stats.defense = scale_stat(player_stats.strength, defense_tenths);
    monster.base_stats.strength = scale_stat(player_stats.defense, strength_tenths);
    monster.base_stats.speed = player_stats.speed;
}

/// Populates `monster` in place: name and kind from the spawn type code,
/// base stats as a deterministic tier-scaled function of the player's
/// effective stats and mean weapon damage, full life, and independently
/// rolled equipment and potion drops in its backpack.
#[verifier::rlimit(100)]
pub fn create_monster<T: Generator>(
    gen: &T,
    player: &Entity,
    monster: &mut Entity,
    mn_type: u32,
    diff: u32,
)
    requires
        entity_wf(*player),
        entity_wf(*old(monster)),
        1 <= mn_type <= 4,
        1 <= diff <= 4,
        -1000 <= player.base_stats.vitality <= 1000,
        -1000 <= player.base_stats.strength <= 1000,
        -1000 <= player.base_stats.speed <= 1000,
        -1000 <= player.base_stats.defense <= 1000,
    ensures
        entity_wf(*final(monster)),
        final(monster).id == old(monster).id,
        final(monster).pos_row == old(monster).pos_row,
        final(monster).pos_col == old(monster).pos_col,
        final(monster).monster_type == spec_monster_type(mn_type),
        final(monster).monster_difficulty == spec_monster_difficulty(diff),
        final(monster).current_life as int == spec_max_life(*final(monster)),
        final(monster).head_item == old(monster).head_item,
        final(monster).chest_item == old(monster).chest_item,
        final(monster).leg_item == old(monster).leg_item,
        final(monster).weapon == old(monster).weapon,
        final(monster).base_stats.vitality as int == spec_scaled(
            spec_div2(spec_weapon_range(*player).0 + spec_weapon_range(*player).1),
            spec_tier_tenths(diff).0,
        ),
        final(monster).base_stats.strength as int == spec_scaled(
            effective_defense(*player),
            spec_tier_tenths(diff).1,
        ),
        final(monster).base_stats.defense as int == spec_scaled(
            effective_strength(*player),
            spec_tier_tenths(diff).2,
        ),
        final(monster).base_stats.speed as int == effective_speed(*player),
        final(monster).name@ == spec_monster_name(mn_type, diff),
        spec_drops_ok(old(monster).backpack, final(monster).backpack, *player, diff),
{
    match mn_type {
        1 => {
            monster.name = "Zombie".to_string();
            monster.monster_type = MonsterType::Zombie;
        },
        2 => {
            monster.name = "Crab".to_string();
            monster.monster_type = MonsterType::Crab;
        },
        3 => {
            monster.name = "Goblin".to_string();
            monster.monster_type = MonsterType::Goblin;
        },
        _ => {
            monster.name = "Boss".to_string();
            monster.monster_type = MonsterType::Boss;
        },
    }

    let player_stats = player.calculate_stats();

    proof {
        lemma_delta_bounded(player.head_item.modifications@);
        lemma_delta_bounded(player.chest_item.modifications@);
        lemma_delta_bounded(player.leg_item.modifications@);
        lemma_delta_bounded(player.weapon.modifications@);
        has_damage_implies_first_damage_some(player.weapon.modifications@);
        lemma_first_damage_found(player.weapon.modifications@);
    }

    let player_damage: (i32, i32) = match player.weapon.item_type {
        Type::Nothing => {
            let fist = get_fist();
            fist.get_damage()
        },
        _ => player.weapon.get_damage(),
    };
    let damage_sum = player_damage.0 + player_damage.1;
    let mean_damage = if damage_sum >= 0 {
        damage_sum / 2
    } else {
        -((-damage_sum) / 2)
    };

    match diff {
        1 => {
            calculate_monster_stats(monster, player_stats, mean_damage, 9, 9, 2);

            monster.monster_difficulty = Difficulty::Easy;
            let tagged = prefixed_name("(Easy) ", &monster.name);
            monster.name = tagged;
        },
        2 => {
            calculate_monster_stats(monster, player_stats, mean_damage, 11, 10, 9);

            monster.monster_difficulty = Difficulty::Normal;
            let tagged = prefixed_name("(Normal) ", &monster.name);
            monster.name = tagged;
        },
        3 => {
            calculate_monster_stats(monster, player_stats, mean_damage, 20, 12, 10);

            monster.monster_difficulty = Difficulty::Hard;
            let tagged = prefixed_name("(Hard) ", &monster.name);
            monster.name = tagged;
        },
        _ => {
            calculate_monster_stats(monster, player_stats, mean_damage, 22, 14, 11);

            monster.monster_difficulty = Difficulty::Boss;
        },
    }

    proof {
        lemma_delta_bounded(monster.head_item.modifications@);
        lemma_delta_bounded(monster.chest_item.modifications@);
        lemma_delta_bounded(monster.leg_item.modifications@);
        lemma_delta_bounded(monster.weapon.modifications@);
    }
    monster.current_life = monster.calculate_max_life();

    let ghost bp0 = monster.backpack;
    let ghost mut rolled: Seq<Item> = Seq::empty();
    let ghost mut w_opt: Option<Item> = Option::None;
    let ghost mut h_opt: Option<Item> = Option::None;
    let ghost mut c_opt: Option<Item> = Option::None;
    let ghost mut l_opt: Option<Item> = Option::None;
    let ghost mut p_opt: Option<Item> = Option::None;
    proof {
        crate::backpack::lemma_count_le_len(bp0.items@);
        assert(spec_holds_drops(bp0, monster.backpack, rolled));
    }

    let weapon_drop = gen.generate(0, 100);
    if weapon_drop <= 10 {
        let new_item = generate_item(gen, Type::Weapon, &player.weapon, &monster.monster_difficulty);
        let ghost b_pre = monster.backpack;
        let _ = monster.backpack.add_item(new_item);
        proof {
            crate::backpack::lemma_count_le_len(b_pre.items@);
            lemma_holds_drops_step(bp0, b_pre, monster.backpack, rolled, new_item);
            rolled = rolled.push(new_item);
            w_opt = Option::Some(new_item);
        }
    }

    let head_drop = gen.generate(0, 100);
    if head_drop <= 10 {
        let new_item = generate_item(gen, Type::Head, &player.head_item, &monster.monster_difficulty);
        let ghost b_pre = monster.backpack;
        let _ = monster.backpack.add_item(new_item);
        proof {
            crate::backpack::lemma_count_le_len(b_pre.items@);
            lemma_holds_drops_step(bp0, b_pre, monster.backpack, rolled, new_item);
            rolled = rolled.push(new_item);
            h_opt = Option::Some(new_item);
        }
    }

    let chest_drop = gen.generate(0, 100);
    if chest_drop <= 10 {
        let new_item = generate_item(gen, Type::Chest, &player.chest_item, &monster.monster_difficulty);
        let ghost b_pre = monster.backpack;
        let _ = monster.backpack.add_item(new_item);
        proof {
            crate::backpack::lemma_count_le_len(b_pre.items@);
            lemma_holds_drops_step(bp0, b_pre, monster.backpack, rolled, new_item);
            rolled = rolled.push(new_item);
            c_opt = Option::Some(new_item);
        }
    }

    let legs_drop = gen.generate(0, 100);
    if legs_drop <= 10 {
        let new_item = generate_item(gen, Type::Legs, &player.leg_item, &monster.monster_difficulty);
        let ghost b_pre = monster.backpack;
        let _ = monster.backpack.add_item(new_item);
        proof {
            crate::backpack::lemma_count_le_len(b_pre.items@);
            lemma_holds_drops_step(bp0, b_pre, monster.backpack, rolled, new_item);
            rolled = rolled.push(new_item);
            l_opt = Option::Some(new_item);
        }
    }

    let potion_drop = gen.generate(0, 100);
    if potion_drop <= 10 {
        let healing_percentage: i32 = match monster.monster_difficulty {
            Difficulty::Easy => 10,
            Difficulty::Normal => 25,
            Difficulty::Hard => 50,
            Difficulty::Boss => 100,
        };
        let mut potion = new_plain_item(Type::Potion, "Healing Potion".to_string());

        proof {
            lemma_mods_push(potion.modifications@, StatsMod::Heal(healing_percentage));
        }
        potion.modifications.push(StatsMod::Heal(healing_percentage));

        let ghost b_pre = monster.backpack;
        let _ = monster.backpack.add_item(potion);
        proof {
            assert(first_heal(potion.modifications@) == Option::Some(healing_percentage));
            assert(potion.modifications@ =~= seq![StatsMod::Heal(spec_tier_heal(diff) as i32)]);
            crate::backpack::lemma_count_le_len(b_pre.items@);
            lemma_holds_drops_step(bp0, b_pre, monster.backpack, rolled, potion);
            rolled = rolled.push(potion);
            p_opt = Option::Some(potion);
        }
    }

    proof {
        assert(rolled =~= spec_opt_seq(w_opt) + spec_opt_seq(h_opt) + spec_opt_seq(c_opt)
            + spec_opt_seq(l_opt) + spec_opt_seq(p_opt));
        assert(spec_opt_gear(w_opt, Type::Weapon, player.weapon, spec_monster_difficulty(diff)));
        assert(spec_opt_gear(h_opt, Type::Head, player.head_item, spec_monster_difficulty(diff)));
        assert(spec_opt_gear(c_opt, Type::Chest, player.chest_item, spec_monster_difficulty(diff)));
        assert(spec_opt_gear(l_opt, Type::Legs, player.leg_item, spec_monster_difficulty(diff)));
        assert(spec_opt_potion(p_opt, diff));
        reveal(spec_drops_ok);
        assert(spec_holds_drops(
            bp0,
            monster.backpack,
            spec_opt_seq(w_opt) + spec_opt_seq(h_opt) + spec_opt_seq(c_opt) + spec_opt_seq(l_opt)
                + spec_opt_seq(p_opt),
        ));
        assert(spec_drops_ok(bp0, monster.backpack, *player, diff));
    }
}

} // verus!
