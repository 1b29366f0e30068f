use std::cell::Cell;
use rogue_core::entity::{Entity, Difficulty, MonsterType};
use rogue_core::fight::Generator;
use rogue_core::gen_item::{generate_item, calculate_min_difficulty_bonus, calculate_max_difficulty_bonus};
use rogue_core::gen_monster::create_monster;
use rogue_core::item::{Type, StatsMod, item_is_weapon, get_fist};
use rogue_core::stats::Stat;
use std::cell::RefCell;

struct Lcg {
    state: Cell<u64>,
}

impl Lcg {
    fn new(seed: u64) -> Lcg {
        Lcg { state: Cell::new(seed.wrapping_mul(2862933555777941757).wrapping_add(3037000493)) }
    }
}

impl Generator for Lcg {
    fn generate(&self, min_inclusive: i32, max_inclusive: i32) -> i32 {
        let next = self.state.get().wrapping_mul(6364136223846793005).wrapping_add(1442695040888963407);
        self.state.set(next);
        let span = (max_inclusive - min_inclusive + 1) as u64;
        min_inclusive + ((next >> 16) % span) as i32
    }
}

struct ScriptedRolls {
    rolls: RefCell<Vec<i32>>,
}

impl ScriptedRolls {
    fn new(mut rolls: Vec<i32>) -> ScriptedRolls {
        rolls.reverse();
        ScriptedRolls { rolls: RefCell::new(rolls) }
    }
}

impl Generator for ScriptedRolls {
    fn generate(&self, min_inclusive: i32, max_inclusive: i32) -> i32 {
        let v = self.rolls.borrow_mut().pop().unwrap_or(min_inclusive);
        if v < min_inclusive {
            min_inclusive
        } else if v > max_inclusive {
            max_inclusive
        } else {
            v
        }
    }
}

#[test]
fn difficulty_bonus_values() {
    assert_eq!(-4, calculate_min_difficulty_bonus(&Difficulty::Easy));
    assert_eq!(-2, calculate_min_difficulty_bonus(&Difficulty::Normal));
    assert_eq!(0, calculate_min_difficulty_bonus(&Difficulty::Hard));
    assert_eq!(3, calculate_max_difficulty_bonus(&Difficulty::Easy));
    assert_eq!(5, calculate_max_difficulty_bonus(&Difficulty::Normal));
    assert_eq!(9, calculate_max_difficulty_bonus(&Difficulty::Hard));
}

#[test]
fn generated_weapons_are_never_inverted() {
    // Property sample: whatever the rolls, a generated weapon carries a
    // non-inverted, non-degenerate damage range and an attack speed, and
    // every rolled attribute bonus is positive.
    let fist = get_fist();
    for seed in 0..50u64 {
        let gen = Lcg::new(seed);
        let item = generate_item(&gen, Type::Weapon, &fist, &Difficulty::Hard);

        assert_eq!(Type::Weapon, item.item_type);
        assert!(item_is_weapon(&item));
        let (min, max) = item.get_damage();
        assert!(min < max, "seed {} produced inverted range {}..{}", seed, min, max);

        for modification in &item.modifications {
            if let StatsMod::Add(stat) = modification {
                let value = match stat {
                    Stat::Vitality(v) => *v,
                    Stat::Strength(v) => *v,
                    Stat::Speed(v) => *v,
                    Stat::Defense(v) => *v,
                };
                assert!(value > 0, "seed {} rolled a non-positive bonus", seed);
            }
        }
    }
}

#[test]
fn generated_clothing_keeps_slot_type() {
    let gen = Lcg::new(11);
    let reference = Entity::new(0);
    let item = generate_item(&gen, Type::Head, &reference.head_item, &Difficulty::Easy);
    assert_eq!(Type::Head, item.item_type);
}

#[test]
fn scenario_monster_stats() {
    // An unarmed base player: effective stats 20/10/5/10, fist damage
    // range [1, 5] and thus a mean damage of 3. A hard tier-3 monster
    // scales that with the (2.0, 1.2, 1.0) triple: vitality 6, strength
    // 12, defense 10, and full life of 60. The trailing rolls skip every
    // drop.
    let player = Entity::new(0);
    let mut monster = Entity::new(9);
    let gen = ScriptedRolls::new(vec![50, 50, 50, 50, 50]);

    create_monster(&gen, &player, &mut monster, 3, 3);

    assert_eq!(MonsterType::Goblin, monster.monster_type);
    assert_eq!(Difficulty::Hard, monster.monster_difficulty);
    assert_eq!("(Hard) Goblin", monster.name);
    assert_eq!(6, monster.base_stats.vitality);
    assert_eq!(12, monster.base_stats.strength);
    assert_eq!(10, monster.base_stats.defense);
    assert_eq!(5, monster.base_stats.speed);
    assert_eq!(60, monster.calculate_max_life());
    assert_eq!(60, monster.current_life);
    assert_eq!(0, monster.backpack.size());
}

#[test]
fn monster_drops_land_in_backpack() {
    // A roll of zero on every drop chance grants all four equipment drops
    // and the potion.
    let player = Entity::new(0);
    let mut monster = Entity::new(4);
    // An exhausted script hands out the minimum of every range: all drop
    // rolls are zero and every drop is granted.
    let gen = ScriptedRolls::new(Vec::new());

    create_monster(&gen, &player, &mut monster, 1, 1);

    assert_eq!(MonsterType::Zombie, monster.monster_type);
    assert_eq!(Difficulty::Easy, monster.monster_difficulty);
    assert_eq!("(Easy) Zombie", monster.name);
    assert_eq!(5, monster.backpack.size());

    // The last drop is the healing potion of the easy tier.
    let mut saw_potion = false;
    for slot in &monster.backpack.items {
        if slot.item_type == Type::Potion {
            saw_potion = true;
            assert_eq!(10, slot.get_heal_percentage());
        }
    }
    assert!(saw_potion);
}
