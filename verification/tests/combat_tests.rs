use std::cell::RefCell;
use rogue_core::entity::Entity;
use rogue_core::fight::{Fight, Generator, RndGenerator};
use rogue_core::item::{Item, Type, StatsMod, get_fist};
use rogue_core::log::Log;
use rogue_core::stats::Stat;

#[test]
fn test_damage() {
    let mut log = Log { messages: Vec::new() };
    let me = Entity::new(0);
    let mut enemy = Entity::new(1);

    assert_eq!(enemy.calculate_max_life(), enemy.current_life);

    Fight::weapon_hit(&mut log, RndGenerator, &me, &mut enemy, 0);

    assert!(enemy.current_life < enemy.calculate_max_life());
}

#[test]
fn test_death() {
    let mut log = Log { messages: Vec::new() };
    let me = Entity::new(0);
    let mut enemy = Entity::new(1);

    enemy.current_life = 1;

    assert!(!enemy.is_death());

    Fight::weapon_hit(&mut log, RndGenerator, &me, &mut enemy, 0);

    assert!(enemy.is_death());
}

/// Hands out a scripted sequence of rolls, clamped into the requested
/// range; repeats the last value when the script runs out.
struct ScriptedGenerator {
    rolls: RefCell<Vec<i32>>,
}

impl ScriptedGenerator {
    fn new(mut rolls: Vec<i32>) -> ScriptedGenerator {
        rolls.reverse();
        ScriptedGenerator { rolls: RefCell::new(rolls) }
    }
}

impl Generator for ScriptedGenerator {
    fn generate(&self, min_inclusive: i32, max_inclusive: i32) -> i32 {
        let v = self.rolls.borrow_mut().pop().unwrap_or(min_inclusive);
        if v < min_inclusive {
            min_inclusive
        } else if v > max_inclusive {
            max_inclusive
        } else {
            v
        }
    }
}

fn sword_1_to_5() -> Item {
    let modifications = vec![StatsMod::Damage { min: 1, max: 5 }, StatsMod::AttackSpeed(1)];
    Item { item_type: Type::Weapon, name: "Training Sword".to_string(), modifications }
}

#[test]
fn scenario_damage_roll_in_weapon_range() {
    // Attacker strength 10 against defender defense 10: zero net bonus, so
    // the pre-crit roll lands inside the weapon range [1, 5].
    for roll in 1..=5 {
        let mut log = Log { messages: Vec::new() };
        let mut me = Entity::new(0);
        let _ = me.equip(sword_1_to_5());
        let mut enemy = Entity::new(1);
        let start_life = enemy.current_life;

        // First roll is the damage, second decides the crit (well above a
        // crit chance of zero, so no crit).
        let gen = ScriptedGenerator::new(vec![roll, 90]);
        Fight::weapon_hit(&mut log, &gen, &me, &mut enemy, 0);

        assert_eq!(start_life - roll, enemy.current_life);
        assert_eq!(1, log.messages.len());
    }
}

#[test]
fn scenario_full_crit_chance_doubles() {
    // With a crit chance of 100 every roll is doubled.
    let mut log = Log { messages: Vec::new() };
    let mut me = Entity::new(0);
    let _ = me.equip(sword_1_to_5());
    let mut enemy = Entity::new(1);
    let start_life = enemy.current_life;

    let gen = ScriptedGenerator::new(vec![4, 100]);
    Fight::weapon_hit(&mut log, &gen, &me, &mut enemy, 100);

    assert_eq!(start_life - 8, enemy.current_life);
    assert!(log.messages[0].starts_with("CRIT!"));
}

#[test]
fn miss_changes_nothing() {
    // An overwhelming defense makes even the best roll non-positive: the
    // hit misses and the defender's life does not change.
    let mut log = Log { messages: Vec::new() };
    let me = Entity::new(0);
    let mut enemy = Entity::new(1);
    let mut armor_mods: Vec<StatsMod> = Vec::new();
    armor_mods.push(StatsMod::Add(Stat::Defense(1000)));
    let armor = Item { item_type: Type::Chest, name: "Bulwark".to_string(), modifications: armor_mods };
    let _ = enemy.equip(armor);
    let start_life = enemy.current_life;

    Fight::weapon_hit(&mut log, RndGenerator, &me, &mut enemy, 100);

    assert_eq!(start_life, enemy.current_life);
    assert_eq!(1, log.messages.len());
}

#[test]
fn dead_defender_is_left_alone() {
    // A dead entity is never the target of a new combat resolution.
    let mut log = Log { messages: Vec::new() };
    let me = Entity::new(0);
    let mut enemy = Entity::new(1);
    enemy.current_life = 0;

    Fight::weapon_hit(&mut log, RndGenerator, &me, &mut enemy, 100);

    assert_eq!(0, enemy.current_life);
    assert_eq!(0, log.messages.len());
}

#[test]
fn unarmed_attacker_uses_fists() {
    // An empty weapon slot falls back to the unarmed default, which has the
    // same damage range as the fist item.
    let fist = get_fist();
    assert_eq!((1, 5), fist.get_damage());

    let mut log = Log { messages: Vec::new() };
    let me = Entity::new(0);
    assert_eq!(Type::Nothing, me.weapon.item_type);
    let mut enemy = Entity::new(1);
    let start_life = enemy.current_life;

    let gen = ScriptedGenerator::new(vec![5, 90]);
    Fight::weapon_hit(&mut log, &gen, &me, &mut enemy, 0);

    assert_eq!(start_life - 5, enemy.current_life);
}
