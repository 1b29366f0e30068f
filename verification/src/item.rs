use vstd::prelude::*;
use crate::stats::Stat;

verus! {

/// Bound on the magnitude of any numeric value carried by an item modifier,
/// and on the summed magnitude of all `Add` modifiers of one item. Keeping
/// item values inside this bound is what lets every stat computation stay
/// inside `i32` without overflow.
pub const MOD_VALUE_BOUND: i32 = 2_000_000;

/// A piece of equipment, a potion, or the `Nothing` placeholder that marks an
/// empty slot.
#[derive(Debug)]
pub struct Item {
    pub item_type: Type,
    pub name: String,
    pub modifications: Vec<StatsMod>,
}

/// The slot family an item belongs to. `Nothing` is a sentinel value used to
/// keep slot arrays densely typed; it is distinct from an absent `Option`.
#[derive(Debug, Copy, Clone, PartialEq, Eq, Structural)]
pub enum Type {
    Head,
    Chest,
    Legs,
    Weapon,
    Potion,
    Nothing,
}

/// One modifier of an item: a stat delta, a weapon damage range, a weapon
/// attack speed, or a potion heal percentage.
#[derive(Debug, Copy, Clone, PartialEq, Eq, Structural)]
pub enum StatsMod {
    Add(Stat),
    Damage { min: i32, max: i32 },
    AttackSpeed(i32),
    Heal(i32),
}

/// The numeric payload of a stat delta.
pub open spec fn stat_value(s: Stat) -> int {
    match s {
        Stat::Vitality(v) => v as int,
        Stat::Strength(v) => v as int,
        Stat::Speed(v) => v as int,
        Stat::Defense(v) => v as int,
    }
}

/// A single modifier stays inside the value bound; heal percentages are
/// between 0 and 100.
pub open spec fn mod_wf(m: StatsMod) -> bool {
    match m {
        StatsMod::Add(s) => -MOD_VALUE_BOUND <= stat_value(s) <= MOD_VALUE_BOUND,
        StatsMod::Damage { min, max } => -MOD_VALUE_BOUND <= min <= MOD_VALUE_BOUND
            && -MOD_VALUE_BOUND <= max <= MOD_VALUE_BOUND && min <= max,
        StatsMod::AttackSpeed(v) => -MOD_VALUE_BOUND <= v <= MOD_VALUE_BOUND,
        StatsMod::Heal(p) => 0 <= p <= 100,
    }
}

/// The magnitude an `Add` modifier contributes to an item's stat budget.
pub open spec fn mod_abs(m: StatsMod) -> int {
    match m {
        StatsMod::Add(s) => if stat_value(s) >= 0 {
            stat_value(s)
        } else {
            -stat_value(s)
        },
        _ => 0,
    }
}

/// Summed magnitude of all `Add` modifiers in a modifier list.
pub open spec fn add_abs_sum(mods: Seq<StatsMod>) -> int
    decreases mods.len(),
{
    if mods.len() == 0 {
        0
    } else {
        add_abs_sum(mods.drop_last()) + mod_abs(mods.last())
    }
}

/// Appending a modifier adds exactly its own contribution to the summed
/// magnitude, and extends the damage and attack-speed searches naturally.
pub proof fn lemma_mods_push(s: Seq<StatsMod>, m: StatsMod)
    ensures
        add_abs_sum(s.push(m)) == add_abs_sum(s) + mod_abs(m),
        (m matches StatsMod::Damage { .. }) ==> has_damage(s.push(m)),
        (m matches StatsMod::AttackSpeed(..)) ==> has_attack_speed(s.push(m)),
        (m matches StatsMod::Heal(..)) ==> has_heal(s.push(m)),
        has_damage(s) ==> has_damage(s.push(m)),
        has_attack_speed(s) ==> has_attack_speed(s.push(m)),
        has_heal(s) ==> has_heal(s.push(m)),
{
    assert(s.push(m).drop_last() =~= s);
    assert(s.push(m).last() == m);
    assert(s.push(m)[s.len() as int] == m);
    if has_damage(s) {
        let i = choose|i: int| 0 <= i < s.len() && (#[trigger] s[i]) matches StatsMod::Damage { .. };
        assert(s.push(m)[i] matches StatsMod::Damage { .. });
    }
    if has_attack_speed(s) {
        let i = choose|i: int|
            0 <= i < s.len() && (#[trigger] s[i]) matches StatsMod::AttackSpeed(..);
        assert(s.push(m)[i] matches StatsMod::AttackSpeed(..));
    }
    if has_heal(s) {
        let i = choose|i: int| 0 <= i < s.len() && (#[trigger] s[i]) matches StatsMod::Heal(..);
        assert(s.push(m)[i] matches StatsMod::Heal(..));
    }
}

/// Well-formed item: every modifier is in bounds, the summed magnitude of
/// its stat deltas is in bounds, a potion carries a heal modifier and a
/// weapon carries both a damage range and an attack speed.
pub open spec fn item_wf(item: Item) -> bool {
    &&& forall|i: int| 0 <= i < item.modifications@.len() ==> mod_wf(#[trigger] item.modifications@[i])
    &&& add_abs_sum(item.modifications@) <= MOD_VALUE_BOUND
    &&& (item.item_type == Type::Potion ==> has_heal(item.modifications@))
    &&& (item.item_type == Type::Weapon ==> has_damage(item.modifications@) && has_attack_speed(
        item.modifications@,
    ))
}

/// The first damage range in a modifier list, if any; weapon damage is read
/// from this modifier.
pub open spec fn first_damage(mods: Seq<StatsMod>) -> Option<(i32, i32)>
    decreases mods.len(),
{
    if mods.len() == 0 {
        Option::None
    } else {
        match mods[0] {
            StatsMod::Damage { min, max } => Option::Some((min, max)),
            _ => first_damage(mods.drop_first()),
        }
    }
}

/// The first heal percentage in a modifier list, if any.
pub open spec fn first_heal(mods: Seq<StatsMod>) -> Option<i32>
    decreases mods.len(),
{
    if mods.len() == 0 {
        Option::None
    } else {
        match mods[0] {
            StatsMod::Heal(p) => Option::Some(p),
            _ => first_heal(mods.drop_first()),
        }
    }
}

pub open spec fn has_damage(mods: Seq<StatsMod>) -> bool {
    exists|i: int| 0 <= i < mods.len() && (#[trigger] mods[i]) matches StatsMod::Damage { .. }
}

pub open spec fn has_attack_speed(mods: Seq<StatsMod>) -> bool {
    exists|i: int| 0 <= i < mods.len() && (#[trigger] mods[i]) matches StatsMod::AttackSpeed(..)
}

pub open spec fn has_heal(mods: Seq<StatsMod>) -> bool {
    exists|i: int| 0 <= i < mods.len() && (#[trigger] mods[i]) matches StatsMod::Heal(..)
}

/// A heal modifier somewhere in the list means the first-heal search finds
/// one.
pub proof fn has_heal_implies_first_heal_some(mods: Seq<StatsMod>)
    ensures
        has_heal(mods) ==> first_heal(mods) matches Option::Some(_),
    decreases mods.len(),
{
    if mods.len() > 0 && has_heal(mods) {
        match mods[0] {
            StatsMod::Heal(..) => {},
            _ => {
                let i = choose|i: int| 0 <= i < mods.len() && (#[trigger] mods[i]) matches StatsMod::Heal(..);
                assert(mods.drop_first()[i - 1] matches StatsMod::Heal(..));
                assert(has_heal(mods.drop_first()));
                has_heal_implies_first_heal_some(mods.drop_first());
            },
        }
    }
}

/// The full empty-slot sentinel value: `Nothing`-typed, named "Free", with
/// no modifiers.
pub open spec fn is_free_sentinel(it: Item) -> bool {
    &&& it.item_type == Type::Nothing
    &&& it.name@ == "Free"@
    &&& it.modifications@ == Seq::<StatsMod>::empty()
}

/// The clothing slot families.
pub open spec fn spec_is_clothing(t: Type) -> bool {
    t == Type::Head || t == Type::Chest || t == Type::Legs
}

/// A valid weapon: weapon-typed and carrying both a damage range and an
/// attack speed modifier.
pub open spec fn spec_is_weapon(item: Item) -> bool {
    item.item_type == Type::Weapon && has_damage(item.modifications@)
        && has_attack_speed(item.modifications@)
}

/// A heal percentage read by `first_heal` is the payload of some modifier
/// in the list, so the well-formedness of the list bounds it.
pub proof fn lemma_first_heal_found(mods: Seq<StatsMod>)
    ensures
        first_heal(mods) matches Option::Some(p) ==> exists|i: int|
            0 <= i < mods.len() && #[trigger] mods[i] == StatsMod::Heal(p),
    decreases mods.len(),
{
    if mods.len() > 0 {
        match mods[0] {
            StatsMod::Heal(..) => {},
            _ => {
                lemma_first_heal_found(mods.drop_first());
                match first_heal(mods.drop_first()) {
                    Option::Some(p) => {
                        let i = choose|i: int|
                            0 <= i < mods.drop_first().len() && #[trigger] mods.drop_first()[i]
                                == StatsMod::Heal(p);
                        assert(mods[i + 1] == StatsMod::Heal(p));
                    },
                    Option::None => {},
                }
            },
        }
    }
}

/// A damage range read by `first_damage` is the payload of some modifier in
/// the list, so the well-formedness of the list bounds it.
pub proof fn lemma_first_damage_found(mods: Seq<StatsMod>)
    ensures
        first_damage(mods) matches Option::Some(d) ==> exists|i: int|
            0 <= i < mods.len() && #[trigger] mods[i] == (StatsMod::Damage { min: d.0, max: d.1 }),
    decreases mods.len(),
{
    if mods.len() > 0 {
        match mods[0] {
            StatsMod::Damage { .. } => {},
            _ => {
                lemma_first_damage_found(mods.drop_first());
                match first_damage(mods.drop_first()) {
                    Option::Some(d) => {
                        let i = choose|i: int|
                            0 <= i < mods.drop_first().len() && #[trigger] mods.drop_first()[i]
                                == (StatsMod::Damage { min: d.0, max: d.1 });
                        assert(mods[i + 1] == (StatsMod::Damage { min: d.0, max: d.1 }));
                    },
                    Option::None => {},
                }
            },
        }
    }
}

/// A weapon always has a readable damage range.
pub proof fn has_damage_implies_first_damage_some(mods: Seq<StatsMod>)
    ensures
        has_damage(mods) ==> first_damage(mods) matches Option::Some(_),
    decreases mods.len(),
{
    if mods.len() > 0 && has_damage(mods) {
        match mods[0] {
            StatsMod::Damage { .. } => {},
            _ => {
                let i = choose|i: int| 0 <= i < mods.len() && (#[trigger] mods[i]) matches StatsMod::Damage { .. };
                assert(mods.drop_first()[i - 1] matches StatsMod::Damage { .. });
                assert(has_damage(mods.drop_first()));
                has_damage_implies_first_damage_some(mods.drop_first());
            },
        }
    }
}

impl Item {
    /// The weapon's damage range: the first `Damage` modifier. Reading damage
    /// from an item without one is a usage error, ruled out up front.
    pub fn get_damage(&self) -> (r: (i32, i32))
        requires
            has_damage(self.modifications@),
        ensures
            first_damage(self.modifications@) == Option::Some(r),
    {
        let n = self.modifications.len();
        let mut index: usize = 0;
        proof {
            has_damage_implies_first_damage_some(self.modifications@);
            assert(self.modifications@.skip(0) =~= self.modifications@);
        }
        while index < n
            invariant
                n == self.modifications@.len(),
                0 <= index <= n,
                first_damage(self.modifications@) == first_damage(self.modifications@.skip(index as int)),
                first_damage(self.modifications@) matches Option::Some(_),
            decreases n - index,
        {
            match self.modifications[index] {
                StatsMod::Damage { min, max } => {
                    proof {
                        assert(self.modifications@.skip(index as int)[0] == self.modifications@[index as int]);
                    }
                    return (min, max);
                },
                _ => {},
            }
            proof {
                assert(self.modifications@.skip(index as int).drop_first()
                    =~= self.modifications@.skip(index as int + 1));
                assert(self.modifications@.skip(index as int)[0] == self.modifications@[index as int]);
            }
            index += 1;
        }
        proof {
            assert(self.modifications@.skip(n as int).len() == 0);
        }
        // unreachable: a damage modifier exists
        (0, 0)
    }

    /// The potion's heal percentage: the first `Heal` modifier.
    pub fn get_heal_percentage(&self) -> (r: i32)
        requires
            first_heal(self.modifications@) matches Option::Some(_),
        ensures
            first_heal(self.modifications@) == Option::Some(r),
    {
        let n = self.modifications.len();
        let mut index: usize = 0;
        proof {
            assert(self.modifications@.skip(0) =~= self.modifications@);
        }
        while index < n
            invariant
                n == self.modifications@.len(),
                0 <= index <= n,
                first_heal(self.modifications@) == first_heal(self.modifications@.skip(index as int)),
                first_heal(self.modifications@) matches Option::Some(_),
            decreases n - index,
        {
            match self.modifications[index] {
                StatsMod::Heal(p) => {
                    proof {
                        assert(self.modifications@.skip(index as int)[0] == self.modifications@[index as int]);
                    }
                    return p;
                },
                _ => {},
            }
            proof {
                assert(self.modifications@.skip(index as int).drop_first()
                    =~= self.modifications@.skip(index as int + 1));
                assert(self.modifications@.skip(index as int)[0] == self.modifications@[index as int]);
            }
            index += 1;
        }
        proof {
            assert(self.modifications@.skip(n as int).len() == 0);
        }
        // unreachable: a heal modifier exists
        0
    }
}

/// The always-available unarmed fallback weapon.
pub fn get_fist() -> (r: Item)
    ensures
        r.item_type == Type::Weapon,
        r.name@ == "Fists"@,
        r.modifications@ =~= seq![
            StatsMod::Damage { min: 1, max: 5 },
            StatsMod::AttackSpeed(1),
        ],
        spec_is_weapon(r),
        item_wf(r),
        first_damage(r.modifications@) == Option::Some((1i32, 5i32)),
{
    let mut modifications: Vec<StatsMod> = Vec::new();
    modifications.push(StatsMod::Damage { min: 1, max: 5 });
    modifications.push(StatsMod::AttackSpeed(1));
    let r = Item { item_type: Type::Weapon, name: "Fists".to_string(), modifications };
    proof {
        let s = r.modifications@;
        assert(s[0] matches StatsMod::Damage { .. });
        assert(s[1] matches StatsMod::AttackSpeed(..));
        assert(s.drop_last().drop_last() =~= Seq::<StatsMod>::empty());
        assert(add_abs_sum(s.drop_last().drop_last()) == 0);
        assert(s.drop_last().last() == StatsMod::Damage { min: 1, max: 5 });
        assert(add_abs_sum(s.drop_last()) == 0);
        assert(add_abs_sum(s) == 0);
        assert(first_damage(s) == Option::Some((1i32, 5i32)));
    }
    r
}

/// The `Nothing` sentinel that fills empty slots.
pub fn get_free() -> (r: Item)
    ensures
        is_free_sentinel(r),
        r.item_type == Type::Nothing,
        r.modifications@ =~= Seq::<StatsMod>::empty(),
        item_wf(r),
{
    new_plain_item(Type::Nothing, "Free".to_string())
}

/// A bare item of the given type with no modifiers. A bare potion or
/// weapon is not yet well formed: its heal or damage modifiers still have
/// to be pushed.
pub fn new_plain_item(item_type: Type, name: String) -> (r: Item)
    ensures
        r.item_type == item_type,
        r.name == name,
        r.modifications@ =~= Seq::<StatsMod>::empty(),
        add_abs_sum(r.modifications@) == 0,
        (r.item_type != Type::Potion && r.item_type != Type::Weapon) ==> item_wf(r),
{
    let r = Item { item_type, name, modifications: Vec::new() };
    proof {
        assert(add_abs_sum(r.modifications@) == 0);
    }
    r
}

/// Whether the item belongs to one of the clothing slots.
pub fn item_is_clothing(given_item: &Item) -> (r: bool)
    ensures
        r == spec_is_clothing(given_item.item_type),
{
    match given_item.item_type {
        Type::Head | Type::Chest | Type::Legs => true,
        _ => false,
    }
}

/// Guard for equipping clothing; a mismatched kind is a fatal usage error and
/// is ruled out up front.
pub fn assert_item_is_clothing(given_item: &Item)
    requires
        spec_is_clothing(given_item.item_type),
{
    if !item_is_clothing(given_item) {
        // unreachable: the item was checked to be clothing
    }
}

/// Whether the item is a valid weapon: weapon-typed with both a damage range
/// and an attack speed modifier.
pub fn item_is_weapon(given_item: &Item) -> (r: bool)
    ensures
        r == spec_is_weapon(*given_item),
{
    match given_item.item_type {
        Type::Weapon => {},
        _ => {
            return false;
        },
    }

    let mut has_dmg = false;
    let mut has_speed = false;
    let n = given_item.modifications.len();
    let mut index: usize = 0;

    while index < n
        invariant
            n == given_item.modifications@.len(),
            0 <= index <= n,
            has_dmg == exists|i: int| 0 <= i < index && (#[trigger] given_item.modifications@[i]) matches StatsMod::Damage { .. },
            has_speed == exists|i: int| 0 <= i < index && (#[trigger] given_item.modifications@[i]) matches StatsMod::AttackSpeed(..),
        decreases n - index,
    {
        match given_item.modifications[index] {
            StatsMod::Damage { .. } => {
                has_dmg = true;
            },
            StatsMod::AttackSpeed(..) => {
                has_speed = true;
            },
            _ => {},
        }
        index += 1;
    }

    has_dmg && has_speed
}

/// Guard for equipping a weapon; malformed weapons are a fatal content error
/// and are ruled out up front.
pub fn assert_item_is_weapon(given_item: &Item)
    requires
        spec_is_weapon(*given_item),
{
    if !item_is_weapon(given_item) {
        // unreachable: the item was checked to be a weapon
    }
}

} // verus!
