use vstd::prelude::*;
use crate::stats::{Stats, Stat};
use crate::item::{
    Item, Type, StatsMod, get_free, item_wf, add_abs_sum, stat_value, spec_is_weapon,
    assert_item_is_clothing, assert_item_is_weapon, MOD_VALUE_BOUND,
};
use crate::backpack::Backpack;

verus! {

/// Bound on the magnitude of any base stat; together with the item value
/// bound it keeps every stat computation inside `i32`.
pub const STAT_BOUND: i32 = 100_000_000;

/// Bound on the magnitude of current life.
pub const LIFE_BOUND: i32 = 1_500_000_000;

#[derive(Debug, Copy, Clone, PartialEq, Eq, Structural)]
pub enum MonsterType {
    Unknown,
    Crab,
    Zombie,
    Goblin,
    Boss,
}

#[derive(Debug, Copy, Clone, PartialEq, Eq, Structural)]
pub enum Difficulty {
    Easy,
    Normal,
    Hard,
    Boss,
}

/// A character or monster: base stats, four equipment slots, a backpack, a
/// grid position and current life. Effective stats are derived, never
/// stored: base plus the `Add` modifiers of the equipped items.
pub struct Entity {
    pub id: u32,
    pub name: String,
    pub base_stats: Stats,

    pub head_item: Item,
    pub chest_item: Item,
    pub leg_item: Item,
    pub weapon: Item,

    pub backpack: Backpack,

    pub pos_row: i32,
    pub pos_col: i32,
    pub current_life: i32,

    pub monster_type: MonsterType,
    pub monster_difficulty: Difficulty,
}

/// Summed vitality delta of a modifier list.
pub open spec fn delta_vitality(mods: Seq<StatsMod>) -> int
    decreases mods.len(),
{
    if mods.len() == 0 {
        0
    } else {
        delta_vitality(mods.drop_last()) + (match mods.last() {
            StatsMod::Add(Stat::Vitality(v)) => v as int,
            _ => 0,
        })
    }
}

/// Summed strength delta of a modifier list.
pub open spec fn delta_strength(mods: Seq<StatsMod>) -> int
    decreases mods.len(),
{
    if mods.len() == 0 {
        0
    } else {
        delta_strength(mods.drop_last()) + (match mods.last() {
            StatsMod::Add(Stat::Strength(v)) => v as int,
            _ => 0,
        })
    }
}

/// Summed speed delta of a modifier list.
pub open spec fn delta_speed(mods: Seq<StatsMod>) -> int
    decreases mods.len(),
{
    if mods.len() == 0 {
        0
    } else {
        delta_speed(mods.drop_last()) + (match mods.last() {
            StatsMod::Add(Stat::Speed(v)) => v as int,
            _ => 0,
        })
    }
}

/// Summed defense delta of a modifier list.
pub open spec fn delta_defense(mods: Seq<StatsMod>) -> int
    decreases mods.len(),
{
    if mods.len() == 0 {
        0
    } else {
        delta_defense(mods.drop_last()) + (match mods.last() {
            StatsMod::Add(Stat::Defense(v)) => v as int,
            _ => 0,
        })
    }
}

/// The magnitude of the summed `Add` modifiers bounds every per-stat delta.
pub proof fn lemma_delta_bounded(mods: Seq<StatsMod>)
    ensures
        0 <= add_abs_sum(mods),
        -add_abs_sum(mods) <= delta_vitality(mods) <= add_abs_sum(mods),
        -add_abs_sum(mods) <= delta_strength(mods) <= add_abs_sum(mods),
        -add_abs_sum(mods) <= delta_speed(mods) <= add_abs_sum(mods),
        -add_abs_sum(mods) <= delta_defense(mods) <= add_abs_sum(mods),
    decreases mods.len(),
{
    if mods.len() > 0 {
        lemma_delta_bounded(mods.drop_last());
    }
}

/// Effective vitality: base plus the deltas of the four equipped items.
pub open spec fn effective_vitality(e: Entity) -> int {
    e.base_stats.vitality + delta_vitality(e.head_item.modifications@) + delta_vitality(
        e.chest_item.modifications@,
    ) + delta_vitality(e.leg_item.modifications@) + delta_vitality(e.weapon.modifications@)
}

/// Effective strength: base plus the deltas of the four equipped items.
pub open spec fn effective_strength(e: Entity) -> int {
    e.base_stats.strength + delta_strength(e.head_item.modifications@) + delta_strength(
        e.chest_item.modifications@,
    ) + delta_strength(e.leg_item.modifications@) + delta_strength(e.weapon.modifications@)
}

/// Effective speed: base plus the deltas of the four equipped items.
pub open spec fn effective_speed(e: Entity) -> int {
    e.base_stats.speed + delta_speed(e.head_item.modifications@) + delta_speed(
        e.chest_item.modifications@,
    ) + delta_speed(e.leg_item.modifications@) + delta_speed(e.weapon.modifications@)
}

/// Effective defense: base plus the deltas of the four equipped items.
pub open spec fn effective_defense(e: Entity) -> int {
    e.base_stats.defense + delta_defense(e.head_item.modifications@) + delta_defense(
        e.chest_item.modifications@,
    ) + delta_defense(e.leg_item.modifications@) + delta_defense(e.weapon.modifications@)
}

/// Maximum life: ten times the effective vitality.
pub open spec fn spec_max_life(e: Entity) -> int {
    effective_vitality(e) * 10
}

/// Well-formed entity: stats and life in bounds, slots typed for their slot
/// family, a valid weapon (or nothing) in the weapon slot, and a well-formed
/// backpack. This is what keeps every derived-stat computation in `i32`.
pub open spec fn entity_wf(e: Entity) -> bool {
    &&& -STAT_BOUND <= e.base_stats.vitality <= STAT_BOUND
    &&& -STAT_BOUND <= e.base_stats.strength <= STAT_BOUND
    &&& -STAT_BOUND <= e.base_stats.speed <= STAT_BOUND
    &&& -STAT_BOUND <= e.base_stats.defense <= STAT_BOUND
    &&& item_wf(e.head_item)
    &&& item_wf(e.chest_item)
    &&& item_wf(e.leg_item)
    &&& item_wf(e.weapon)
    &&& (e.head_item.item_type == Type::Head || e.head_item.item_type == Type::Nothing)
    &&& (e.chest_item.item_type == Type::Chest || e.chest_item.item_type == Type::Nothing)
    &&& (e.leg_item.item_type == Type::Legs || e.leg_item.item_type == Type::Nothing)
    &&& (e.weapon.item_type == Type::Weapon || e.weapon.item_type == Type::Nothing)
    &&& (e.weapon.item_type == Type::Weapon ==> spec_is_weapon(e.weapon))
    &&& e.backpack.wf()
    &&& -LIFE_BOUND <= e.current_life <= LIFE_BOUND
}

/// What `equip` does, as a value: the updated entity and the item handed
/// back. Equipment kinds swap into their slot and hand back the previous
/// occupant; anything else bounces off unchanged.
pub open spec fn spec_equip(e: Entity, new_item: Item) -> (Entity, Item) {
    match new_item.item_type {
        Type::Head => ((Entity { head_item: new_item, ..e }), e.head_item),
        Type::Chest => ((Entity { chest_item: new_item, ..e }), e.chest_item),
        Type::Legs => ((Entity { leg_item: new_item, ..e }), e.leg_item),
        Type::Weapon => ((Entity { weapon: new_item, ..e }), e.weapon),
        Type::Nothing | Type::Potion => ((e), new_item),
    }
}

impl Entity {
    /// A fresh entity with default base stats, empty gear and full life.
    pub fn new(id: u32) -> (r: Entity)
        ensures
            entity_wf(r),
            r.id == id,
            r.base_stats.vitality == 20,
            r.base_stats.strength == 10,
            r.base_stats.speed == 5,
            r.base_stats.defense == 10,
            r.head_item.item_type == Type::Nothing,
            r.chest_item.item_type == Type::Nothing,
            r.leg_item.item_type == Type::Nothing,
            r.weapon.item_type == Type::Nothing,
            r.backpack.wf(),
            r.backpack.spec_size() == 0,
            r.pos_row == 0,
            r.pos_col == 0,
            r.current_life as int == spec_max_life(r),
            r.current_life == 200,
            r.monster_type == MonsterType::Unknown,
            r.monster_difficulty == Difficulty::Easy,
    {
        let base_stats = Stats { vitality: 20, strength: 10, speed: 5, defense: 10 };

        let mut entity = Entity {
            id,
            name: "Unknown".to_string(),
            base_stats,
            head_item: get_free(),
            chest_item: get_free(),
            leg_item: get_free(),
            weapon: get_free(),
            pos_row: 0,
            pos_col: 0,
            current_life: 0,
            backpack: Backpack::new(),
            monster_type: MonsterType::Unknown,
            monster_difficulty: Difficulty::Easy,
        };

        entity.current_life = entity.calculate_max_life();

        entity
    }

    /// The effective stats: base stats plus every `Add` modifier of the four
    /// equipped items.
    pub fn calculate_stats(&self) -> (r: Stats)
        requires
            entity_wf(*self),
        ensures
            r.vitality as int == effective_vitality(*self),
            r.strength as int == effective_strength(*self),
            r.speed as int == effective_speed(*self),
            r.defense as int == effective_defense(*self),
    {
        let mut dep_stats = Stats {
            vitality: self.base_stats.vitality,
            strength: self.base_stats.strength,
            speed: self.base_stats.speed,
            defense: self.base_stats.defense,
        };

        proof {
            lemma_delta_bounded(self.head_item.modifications@);
            lemma_delta_bounded(self.chest_item.modifications@);
            lemma_delta_bounded(self.leg_item.modifications@);
            lemma_delta_bounded(self.weapon.modifications@);
        }

        add_item(&mut dep_stats, &self.head_item);
        add_item(&mut dep_stats, &self.chest_item);
        add_item(&mut dep_stats, &self.leg_item);
        add_item(&mut dep_stats, &self.weapon);

        dep_stats
    }

    /// Maximum life: ten times the effective vitality.
    pub fn calculate_max_life(&self) -> (r: i32)
        requires
            entity_wf(*self),
        ensures
            r as int == spec_max_life(*self),
    {
        let dep_stats = self.calculate_stats();

        proof {
            lemma_delta_bounded(self.head_item.modifications@);
            lemma_delta_bounded(self.chest_item.modifications@);
            lemma_delta_bounded(self.leg_item.modifications@);
            lemma_delta_bounded(self.weapon.modifications@);
        }

        dep_stats.vitality * 10
    }

    /// Dead means life has reached zero or fallen below it.
    pub fn is_death(&self) -> (r: bool)
        ensures
            r == (self.current_life <= 0),
    {
        self.current_life <= 0
    }

    /// Swaps the item into its slot and hands back the previous occupant.
    /// Potions and the empty sentinel bounce off unchanged. Equipping a
    /// malformed weapon is a fatal content error, ruled out up front.
    pub fn equip(&mut self, new_item: Item) -> (r: Item)
        requires
            item_wf(new_item),
            new_item.item_type == Type::Weapon ==> spec_is_weapon(new_item),
        ensures
            *final(self) == spec_equip(*old(self), new_item).0,
            r == spec_equip(*old(self), new_item).1,
    {
        match new_item.item_type {
            Type::Head => {
                assert_item_is_clothing(&new_item);
                change_item(&mut self.head_item, new_item)
            },
            Type::Chest => {
                assert_item_is_clothing(&new_item);
                change_item(&mut self.chest_item, new_item)
            },
            Type::Legs => {
                assert_item_is_clothing(&new_item);
                change_item(&mut self.leg_item, new_item)
            },
            Type::Weapon => {
                assert_item_is_weapon(&new_item);
                change_item(&mut self.weapon, new_item)
            },
            Type::Nothing | Type::Potion => new_item,
        }
    }
}

/// Swaps a new item into a slot and returns the previous occupant.
pub fn change_item(entity: &mut Item, new_item: Item) -> (old_item: Item)
    ensures
        *final(entity) == new_item,
        old_item == *old(entity),
{
    let mut swapped = new_item;
    core::mem::swap(entity, &mut swapped);
    swapped
}

/// Adds every `Add` modifier of the item onto the running stats.
pub fn add_item(base_stats: &mut Stats, item: &Item)
    requires
        item_wf(*item),
        -110_000_000 <= old(base_stats).vitality <= 110_000_000,
        -110_000_000 <= old(base_stats).strength <= 110_000_000,
        -110_000_000 <= old(base_stats).speed <= 110_000_000,
        -110_000_000 <= old(base_stats).defense <= 110_000_000,
    ensures
        final(base_stats).vitality as int == old(base_stats).vitality + delta_vitality(
            item.modifications@,
        ),
        final(base_stats).strength as int == old(base_stats).strength + delta_strength(
            item.modifications@,
        ),
        final(base_stats).speed as int == old(base_stats).speed + delta_speed(
            item.modifications@,
        ),
        final(base_stats).defense as int == old(base_stats).defense + delta_defense(
            item.modifications@,
        ),
{
    let n = item.modifications.len();
    let mut index: usize = 0;
    proof {
        assert(item.modifications@.take(0) =~= Seq::<StatsMod>::empty());
    }
    while index < n
        invariant
            item_wf(*item),
            n == item.modifications@.len(),
            0 <= index <= n,
            base_stats.vitality as int == old(base_stats).vitality + delta_vitality(
                item.modifications@.take(index as int),
            ),
            base_stats.strength as int == old(base_stats).strength + delta_strength(
                item.modifications@.take(index as int),
            ),
            base_stats.speed as int == old(base_stats).speed + delta_speed(
                item.modifications@.take(index as int),
            ),
            base_stats.defense as int == old(base_stats).defense + delta_defense(
                item.modifications@.take(index as int),
            ),
            -110_000_000 <= old(base_stats).vitality <= 110_000_000,
            -110_000_000 <= old(base_stats).strength <= 110_000_000,
            -110_000_000 <= old(base_stats).speed <= 110_000_000,
            -110_000_000 <= old(base_stats).defense <= 110_000_000,
        decreases n - index,
    {
        proof {
            lemma_abs_take_bounds(item.modifications@, index as int);
            lemma_abs_take_bounds(item.modifications@, index as int + 1);
            assert(item.modifications@.take(index as int + 1).drop_last() =~= item.modifications@.take(
                index as int,
            ));
            assert(item.modifications@.take(index as int + 1).last() == item.modifications@[index as int]);
        }
        match item.modifications[index] {
            StatsMod::Add(value) => add_stat(base_stats, &value),
            _ => {},
        }
        index += 1;
    }
    proof {
        assert(item.modifications@.take(n as int) =~= item.modifications@);
    }
}

/// The summed magnitudes of any modifier-list prefix stay inside the bound
/// of the whole list, and so do the per-stat deltas of the prefix.
pub proof fn lemma_abs_take_bounds(s: Seq<StatsMod>, i: int)
    requires
        0 <= i <= s.len(),
    ensures
        0 <= add_abs_sum(s.take(i)) <= add_abs_sum(s),
        -add_abs_sum(s) <= delta_vitality(s.take(i)) <= add_abs_sum(s),
        -add_abs_sum(s) <= delta_strength(s.take(i)) <= add_abs_sum(s),
        -add_abs_sum(s) <= delta_speed(s.take(i)) <= add_abs_sum(s),
        -add_abs_sum(s) <= delta_defense(s.take(i)) <= add_abs_sum(s),
    decreases s.len() - i,
{
    lemma_delta_bounded(s.take(i));
    if i == s.len() {
        assert(s.take(i) =~= s);
    } else {
        lemma_abs_take_bounds(s, i + 1);
        assert(s.take(i + 1).drop_last() =~= s.take(i));
        lemma_delta_bounded(s.take(i + 1));
    }
}

/// Adds one stat delta onto the running stats.
pub fn add_stat(base_stats: &mut Stats, stat: &Stat)
    requires
        -MOD_VALUE_BOUND <= stat_value(*stat) <= MOD_VALUE_BOUND,
        -112_000_000 <= old(base_stats).vitality <= 112_000_000,
        -112_000_000 <= old(base_stats).strength <= 112_000_000,
        -112_000_000 <= old(base_stats).speed <= 112_000_000,
        -112_000_000 <= old(base_stats).defense <= 112_000_000,
    ensures
        (match *stat {
            Stat::Vitality(v) => *final(base_stats) == (Stats {
                vitality: (old(base_stats).vitality + v) as i32,
                ..*old(base_stats)
            }),
            Stat::Strength(v) => *final(base_stats) == (Stats {
                strength: (old(base_stats).strength + v) as i32,
                ..*old(base_stats)
            }),
            Stat::Speed(v) => *final(base_stats) == (Stats {
                speed: (old(base_stats).speed + v) as i32,
                ..*old(base_stats)
            }),
            Stat::Defense(v) => *final(base_stats) == (Stats {
                defense: (old(base_stats).defense + v) as i32,
                ..*old(base_stats)
            }),
        }),
{
    match stat {
        Stat::Vitality(value) => {
            base_stats.vitality += *value;
        },
        Stat::Strength(value) => {
            base_stats.strength += *value;
        },
        Stat::Speed(value) => {
            base_stats.speed += *value;
        },
        Stat::Defense(value) => {
            base_stats.defense += *value;
        },
    }
}

/// Equipping X into a slot and then equipping Y of the same family hands X
/// back unchanged: the slot held exactly X in between.
pub proof fn lemma_equip_round_trip(e: Entity, x: Item, y: Item)
    requires
        x.item_type == Type::Head || x.item_type == Type::Chest || x.item_type == Type::Legs
            || x.item_type == Type::Weapon,
        y.item_type == x.item_type,
    ensures
        spec_equip(spec_equip(e, x).0, y).1 == x,
{
}

/// Equipping into an occupied slot hands back exactly the previous occupant,
/// never the new item's value.
pub proof fn lemma_equip_returns_previous(e: Entity, y: Item)
    ensures
        y.item_type == Type::Head ==> spec_equip(e, y).1 == e.head_item,
        y.item_type == Type::Chest ==> spec_equip(e, y).1 == e.chest_item,
        y.item_type == Type::Legs ==> spec_equip(e, y).1 == e.leg_item,
        y.item_type == Type::Weapon ==> spec_equip(e, y).1 == e.weapon,
{
}

} // verus!
