use vstd::prelude::*;
use crate::entity::{
    Difficulty, delta_vitality, delta_strength, delta_defense, lemma_abs_take_bounds,
};
use crate::fight::Generator;
use crate::item::{
    Item, Type, StatsMod, item_wf, mod_wf, add_abs_sum, has_damage, has_attack_speed,
    spec_is_weapon, get_fist, lemma_mods_push, has_damage_implies_first_damage_some,
    lemma_first_damage_found,
};
use crate::stats::Stat;
use crate::text::join_words;

verus! {

/// Cap on the attribute budget of one generated item; it keeps generated
/// loot inside the item value bound however far the gear has ramped up.
pub const ATTRIBUTE_BUDGET_CAP: i32 = 1_000_000;

/// Smallest tier bonus added to the rolled budget; the easy tier can roll a
/// negative bonus.
pub fn calculate_min_difficulty_bonus(monster_difficulty: &Difficulty) -> (r: i32)
    ensures
        r == spec_min_bonus(*monster_difficulty),
{
    match monster_difficulty {
        Difficulty::Easy => -4,
        Difficulty::Normal => -2,
        Difficulty::Hard => 0,
        Difficulty::Boss => 0,
    }
}

/// Largest tier bonus added to the rolled budget (exclusive).
pub fn calculate_max_difficulty_bonus(monster_difficulty: &Difficulty) -> (r: i32)
    ensures
        r == spec_max_bonus(*monster_difficulty),
{
    match monster_difficulty {
        Difficulty::Easy => 3,
        Difficulty::Normal => 5,
        Difficulty::Hard => 9,
        Difficulty::Boss => 9,
    }
}

pub open spec fn spec_min_bonus(d: Difficulty) -> int {
    match d {
        Difficulty::Easy => -4,
        Difficulty::Normal => -2,
        Difficulty::Hard => 0,
        Difficulty::Boss => 0,
    }
}

pub open spec fn spec_max_bonus(d: Difficulty) -> int {
    match d {
        Difficulty::Easy => 3,
        Difficulty::Normal => 5,
        Difficulty::Hard => 9,
        Difficulty::Boss => 9,
    }
}

/// The quality word of a tier, as it appears in generated item names.
pub open spec fn spec_quality_word(d: Difficulty) -> Seq<char> {
    match d {
        Difficulty::Easy => "Lesser"@,
        Difficulty::Normal => "Good"@,
        Difficulty::Hard => "Master"@,
        Difficulty::Boss => "Master"@,
    }
}

/// The noun of a slot type, as it appears in generated item names.
pub open spec fn spec_slot_noun(t: Type) -> Seq<char> {
    match t {
        Type::Head => "Helm"@,
        Type::Chest => "Armor"@,
        Type::Legs => "Trousers"@,
        Type::Weapon => "Sword"@,
        Type::Nothing | Type::Potion => "Blackhole"@,
    }
}

/// The name of a generated item: the tier's quality word, a space, the
/// slot's noun.
pub open spec fn spec_item_name(t: Type, d: Difficulty) -> Seq<char> {
    spec_quality_word(d) + " "@ + spec_slot_noun(t)
}

/// The reference item's summed stat bonus, as the budget roll reads it: the
/// plain sum of its vitality, strength and defense deltas, or zero for an
/// empty slot.
pub open spec fn spec_ref_bonus(it: Item) -> int {
    if it.item_type == Type::Nothing {
        0
    } else {
        delta_vitality(it.modifications@) + delta_strength(it.modifications@) + delta_defense(
            it.modifications@,
        )
    }
}

/// Clamping of the rolled attribute budget into `1 ..= ATTRIBUTE_BUDGET_CAP`.
pub open spec fn spec_clamped_budget(x: int) -> int {
    if x <= 0 {
        1
    } else if x > ATTRIBUTE_BUDGET_CAP as int {
        ATTRIBUTE_BUDGET_CAP as int
    } else {
        x
    }
}

/// An admissible attribute budget for the given reference item and tier:
/// some roll in the tier's bonus window around the reference bonus, clamped.
pub open spec fn spec_budget_ok(budget: int, reference: Item, d: Difficulty) -> bool {
    exists|roll: int|
        spec_ref_bonus(reference) + spec_min_bonus(d) <= roll <= spec_ref_bonus(reference)
            + spec_max_bonus(d) - 1 && budget == #[trigger] spec_clamped_budget(roll)
}

/// Whether the three stat rolls are admissible for the greedy split of the
/// given budget: strength draws from the whole budget, vitality from what is
/// left, defense from what is left after that; a stat is rolled only while
/// more than one point remains, and an unrolled stat counts as a zero roll.
pub open spec fn spec_split_rolls_ok(budget: int, s: int, v: int, d: int) -> bool {
    let b1 = if s > 0 {
        budget - s
    } else {
        budget
    };
    let b2 = if b1 > 1 && v > 0 {
        b1 - v
    } else {
        b1
    };
    &&& 0 <= s <= budget - 1
    &&& (b1 > 1 ==> 0 <= v <= b1 - 1)
    &&& (b1 <= 1 ==> v == 0)
    &&& (b2 > 1 ==> 0 <= d <= b2 - 1)
    &&& (b2 <= 1 ==> d == 0)
}

/// The `Add` modifiers the greedy split emits for the given rolls, in
/// order: a positive strength share first, then vitality, then defense; a
/// zero roll or an exhausted budget skips the stat.
pub open spec fn spec_split_adds(budget: int, s: int, v: int, d: int) -> Seq<StatsMod> {
    let b1 = if s > 0 {
        budget - s
    } else {
        budget
    };
    let b2 = if b1 > 1 && v > 0 {
        b1 - v
    } else {
        b1
    };
    let first: Seq<StatsMod> = if s > 0 {
        seq![StatsMod::Add(Stat::Strength(s as i32))]
    } else {
        Seq::empty()
    };
    let second: Seq<StatsMod> = if b1 > 1 && v > 0 {
        seq![StatsMod::Add(Stat::Vitality(v as i32))]
    } else {
        Seq::empty()
    };
    let third: Seq<StatsMod> = if b2 > 1 && d > 0 {
        seq![StatsMod::Add(Stat::Defense(d as i32))]
    } else {
        Seq::empty()
    };
    first + second + third
}

/// The damage range the weapon jitter starts from: the reference weapon's
/// own first damage range, or the unarmed fallback's for an empty slot.
pub open spec fn spec_ref_damage(reference: Item) -> (int, int) {
    if reference.item_type == Type::Weapon {
        match crate::item::first_damage(reference.modifications@) {
            Option::Some(p) => (p.0 as int, p.1 as int),
            Option::None => (0int, 0int),
        }
    } else {
        (1int, 5int)
    }
}

/// Clamping of a rolled damage bound into the value bound, with head room
/// left above for the de-degeneration bump.
pub open spec fn spec_clamped_damage(x: int) -> int {
    if x > 999_999 {
        999_999
    } else if x < -1_000_000 {
        -1_000_000
    } else {
        x
    }
}

/// A damage bound jittered from its reference bound: rolled somewhere in
/// the tier's bonus window and clamped.
pub open spec fn spec_jittered(v: int, base: int, d: Difficulty) -> bool {
    exists|roll: int|
        base + spec_min_bonus(d) <= roll <= base + spec_max_bonus(d) - 1 && v == #[trigger]
            spec_clamped_damage(roll)
}

/// The repair of the two jittered bounds into a strict range: equal bounds
/// get the top bumped by one, inverted bounds are swapped.
pub open spec fn spec_dedegen(a: int, b: int, dmin: int, dmax: int) -> bool {
    if a == b {
        dmin == a && dmax == a + 1
    } else if a < b {
        dmin == a && dmax == b
    } else {
        dmin == b && dmax == a
    }
}

/// The damage range of a generated weapon: both bounds independently
/// jittered from the reference range, then repaired into a strict range.
pub open spec fn spec_weapon_damage_ok(dmin: int, dmax: int, reference: Item, d: Difficulty) -> bool {
    exists|a: int, b: int|
        #![trigger spec_dedegen(a, b, dmin, dmax)]
        spec_jittered(a, spec_ref_damage(reference).0, d) && spec_jittered(
            b,
            spec_ref_damage(reference).1,
            d,
        ) && spec_dedegen(a, b, dmin, dmax)
}

/// Whether the weapon-attribute pass runs: it does when the reference is a
/// weapon, or when a weapon is generated against an empty reference slot.
pub open spec fn spec_weapon_pass(target_type: Type, reference: Item) -> bool {
    reference.item_type == Type::Weapon || (reference.item_type == Type::Nothing && target_type
        == Type::Weapon)
}

/// The modifier list behind the greedy adds: on the weapon pass one strict
/// jittered damage range followed by the fixed attack speed, otherwise
/// nothing at all.
pub open spec fn spec_tail_ok(
    mods: Seq<StatsMod>,
    adds: Seq<StatsMod>,
    target_type: Type,
    reference: Item,
    d: Difficulty,
) -> bool {
    if spec_weapon_pass(target_type, reference) {
        exists|dmin: int, dmax: int|
            #[trigger] spec_weapon_damage_ok(dmin, dmax, reference, d) && mods == adds + seq![
                StatsMod::Damage { min: dmin as i32, max: dmax as i32 },
                StatsMod::AttackSpeed(1i32),
            ]
    } else {
        mods == adds
    }
}

/// Exactly the modifier lists one generation run can emit: the greedy
/// positive split of an admissible budget, then the weapon tail where the
/// weapon pass runs.
#[verifier::opaque]
pub open spec fn spec_gen_mods_ok(
    mods: Seq<StatsMod>,
    target_type: Type,
    reference: Item,
    d: Difficulty,
) -> bool {
    exists|budget: int, s: int, v: int, dd: int|
        spec_budget_ok(budget, reference, d) && #[trigger] spec_split_rolls_ok(budget, s, v, dd)
            && spec_tail_ok(mods, spec_split_adds(budget, s, v, dd), target_type, reference, d)
}

/// Exactly what one generated item is: target-typed, named by quality and
/// slot noun, its modifiers one admissible generation run's output.
pub open spec fn spec_generated_item(r: Item, target_type: Type, reference: Item, d: Difficulty) -> bool {
    &&& r.item_type == target_type
    &&& r.name@ == spec_item_name(target_type, d)
    &&& spec_gen_mods_ok(r.modifications@, target_type, reference, d)
}

/// Rank of a modifier in the generator's fixed emission order.
pub open spec fn spec_mod_rank(m: StatsMod) -> int {
    match m {
        StatsMod::Add(Stat::Strength(_)) => 0,
        StatsMod::Add(Stat::Vitality(_)) => 1,
        StatsMod::Add(Stat::Defense(_)) => 2,
        StatsMod::Add(Stat::Speed(_)) => 3,
        StatsMod::Damage { .. } => 4,
        StatsMod::AttackSpeed(_) => 5,
        StatsMod::Heal(_) => 6,
    }
}

/// A generated modifier list is strictly rank-ordered: at most one `Add`
/// per stat, strength before vitality before defense, the damage range and
/// the attack speed last.
pub open spec fn spec_mods_ranked(mods: Seq<StatsMod>) -> bool {
    forall|i: int, j: int|
        0 <= i < j < mods.len() ==> spec_mod_rank(#[trigger] mods[i]) < spec_mod_rank(
            #[trigger] mods[j],
        )
}

/// Every modifier a generated item can carry: a strictly positive bonus to
/// strength, vitality or defense, a strict damage range, or the fixed
/// attack speed of one.
pub open spec fn spec_gen_mod_shape(m: StatsMod) -> bool {
    match m {
        StatsMod::Add(st) => crate::item::stat_value(st) > 0 && !(st matches Stat::Speed(_)),
        StatsMod::Damage { min, max } => min < max,
        StatsMod::AttackSpeed(x) => x == 1,
        StatsMod::Heal(_) => false,
    }
}

/// A name from a tier quality prefix and a slot-type noun.
fn generate_random_weapon_name(item_type: &Type, difficulty: &Difficulty) -> (r: String)
    ensures
        r@ == spec_item_name(*item_type, *difficulty),
{
    let quality = match difficulty {
        Difficulty::Easy => "Lesser",
        Difficulty::Normal => "Good",
        Difficulty::Hard => "Master",
        Difficulty::Boss => "Master",
    };

    let part = match item_type {
        Type::Head => "Helm",
        Type::Chest => "Armor",
        Type::Legs => "Trousers",
        Type::Weapon => "Sword",
        Type::Nothing | Type::Potion => "Blackhole",
    };

    join_words(quality, part)
}

/// Synthesizes one piece of loot of the given slot type: a tier-dependent
/// attribute budget derived from the reference item's stat bonus is split
/// greedily across strength, vitality and defense; a weapon additionally
/// gets a damage range jittered from the reference's and a fixed attack
/// speed.
pub fn generate_item<T: Generator>(
    gen: &T,
    target_type: Type,
    player_item: &Item,
    monster_difficulty: &Difficulty,
) -> (r: Item)
    requires
        item_wf(*player_item),
        target_type != Type::Potion,
        player_item.item_type == Type::Weapon ==> has_damage(player_item.modifications@),
        target_type == Type::Weapon ==> (player_item.item_type == Type::Weapon
            || player_item.item_type == Type::Nothing),
    ensures
        item_wf(r),
        r.item_type == target_type,
        spec_generated_item(r, target_type, *player_item, *monster_difficulty),
        spec_mods_ranked(r.modifications@),
        forall|i: int|
            0 <= i < r.modifications@.len() ==> spec_gen_mod_shape(#[trigger] r.modifications@[i]),
        target_type == Type::Weapon ==> spec_is_weapon(r),
{
    let mut item = Item {
        item_type: target_type,
        name: generate_random_weapon_name(&target_type, monster_difficulty),
        modifications: Vec::new(),
    };

    generate_item_attributes(gen, &mut item, player_item, monster_difficulty);

    item
}

/// Rolls the attribute budget and splits it greedily: a strength share
/// first, then vitality from the remainder, then defense.
#[verifier::rlimit(100)]
fn generate_item_attributes<T: Generator>(
    gen: &T,
    new_item: &mut Item,
    current_item: &Item,
    monster_difficulty: &Difficulty,
)
    requires
        old(new_item).modifications@.len() == 0,
        old(new_item).item_type != Type::Potion,
        item_wf(*current_item),
        current_item.item_type == Type::Weapon ==> has_damage(current_item.modifications@),
        old(new_item).item_type == Type::Weapon ==> (current_item.item_type == Type::Weapon
            || current_item.item_type == Type::Nothing),
    ensures
        item_wf(*final(new_item)),
        final(new_item).item_type == old(new_item).item_type,
        final(new_item).name == old(new_item).name,
        spec_gen_mods_ok(
            final(new_item).modifications@,
            old(new_item).item_type,
            *current_item,
            *monster_difficulty,
        ),
        spec_mods_ranked(final(new_item).modifications@),
        forall|i: int|
            0 <= i < final(new_item).modifications@.len() ==> spec_gen_mod_shape(
                #[trigger] final(new_item).modifications@[i],
            ),
        (current_item.item_type == Type::Weapon || (current_item.item_type == Type::Nothing
            && old(new_item).item_type == Type::Weapon)) ==> has_damage(
            final(new_item).modifications@,
        ) && has_attack_speed(final(new_item).modifications@),
{
    let mut first_value_range = calculate_attribute_range(gen, current_item, monster_difficulty);
    let ghost budget = first_value_range as int;

    proof {
        assert(add_abs_sum(old(new_item).modifications@) == 0);
    }

    let value = gen.generate(0, first_value_range - 1);
    let ghost s_roll = value as int;

    if value > 0 {
        first_value_range -= value;

        proof {
            lemma_mods_push(new_item.modifications@, StatsMod::Add(Stat::Strength(value)));
        }
        new_item.modifications.push(StatsMod::Add(Stat::Strength(value)));
    }

    let ghost b1 = if s_roll > 0 { budget - s_roll } else { budget };
    let mut v_roll_val: i32 = 0;
    if first_value_range > 1 {
        let value = gen.generate(0, first_value_range - 1);
        v_roll_val = value;

        if value > 0 {
            first_value_range -= value;

            proof {
                lemma_mods_push(new_item.modifications@, StatsMod::Add(Stat::Vitality(value)));
            }
            new_item.modifications.push(StatsMod::Add(Stat::Vitality(value)));
        }
    }
    let ghost v_roll = v_roll_val as int;

    let ghost b2 = if b1 > 1 && v_roll > 0 { b1 - v_roll } else { b1 };
    let mut d_roll_val: i32 = 0;
    if first_value_range > 1 {
        let value = gen.generate(0, first_value_range - 1);
        d_roll_val = value;

        if value > 0 {
            proof {
                lemma_mods_push(new_item.modifications@, StatsMod::Add(Stat::Defense(value)));
            }
            new_item.modifications.push(StatsMod::Add(Stat::Defense(value)));
        }
    }
    let ghost d_roll = d_roll_val as int;

    let ghost adds = spec_split_adds(budget, s_roll, v_roll, d_roll);
    proof {
        assert(spec_split_rolls_ok(budget, s_roll, v_roll, d_roll));
        assert(new_item.modifications@ =~= adds);
    }

    if current_item.item_type == Type::Weapon || (current_item.item_type == Type::Nothing
        && new_item.item_type == Type::Weapon) {
        calculate_weapon_attributes(gen, new_item, current_item, monster_difficulty);
        proof {
            assert(spec_tail_ok(
                new_item.modifications@,
                adds,
                new_item.item_type,
                *current_item,
                *monster_difficulty,
            ));
        }
    } else {
        proof {
            assert(spec_tail_ok(
                new_item.modifications@,
                adds,
                new_item.item_type,
                *current_item,
                *monster_difficulty,
            ));
        }
    }

    proof {
        reveal(spec_gen_mods_ok);
        assert(spec_gen_mods_ok(
            new_item.modifications@,
            old(new_item).item_type,
            *current_item,
            *monster_difficulty,
        ));
        lemma_split_adds_shape(budget, s_roll, v_roll, d_roll);
        assert forall|i: int, j: int|
            0 <= i < j < new_item.modifications@.len() implies spec_mod_rank(
            #[trigger] new_item.modifications@[i],
        ) < spec_mod_rank(#[trigger] new_item.modifications@[j]) by {
            if j < adds.len() {
                assert(new_item.modifications@[i] == adds[i]);
                assert(new_item.modifications@[j] == adds[j]);
            } else if i < adds.len() {
                assert(new_item.modifications@[i] == adds[i]);
                assert(spec_mod_rank(adds[i]) <= 2);
            }
        }
        assert forall|i: int|
            0 <= i < new_item.modifications@.len() implies spec_gen_mod_shape(
            #[trigger] new_item.modifications@[i],
        ) by {
            if i < adds.len() {
                assert(new_item.modifications@[i] == adds[i]);
            }
        }
    }
}

/// The greedy split's output is strictly rank-ordered and every emitted
/// bonus is strictly positive.
proof fn lemma_split_adds_shape(budget: int, s: int, v: int, d: int)
    requires
        1 <= budget <= ATTRIBUTE_BUDGET_CAP as int,
        spec_split_rolls_ok(budget, s, v, d),
    ensures
        spec_mods_ranked(spec_split_adds(budget, s, v, d)),
        forall|i: int|
            0 <= i < spec_split_adds(budget, s, v, d).len() ==> spec_gen_mod_shape(
                #[trigger] spec_split_adds(budget, s, v, d)[i],
            ) && spec_mod_rank(spec_split_adds(budget, s, v, d)[i]) <= 2,
{
    let adds = spec_split_adds(budget, s, v, d);
    assert(adds.len() <= 3);
    assert forall|i: int| 0 <= i < adds.len() implies spec_gen_mod_shape(#[trigger] adds[i])
        && spec_mod_rank(adds[i]) <= 2 by {
        assert(s <= budget - 1 < ATTRIBUTE_BUDGET_CAP as int);
    }
}

/// Derives a weapon's damage range by independently jittering the
/// reference's bounds by the tier bonus, un-inverting and de-degenerating
/// the result, and adds the fixed attack speed.
fn calculate_weapon_attributes<T: Generator>(
    gen: &T,
    new_item: &mut Item,
    current_item: &Item,
    monster_difficulty: &Difficulty,
)
    requires
        item_wf(*current_item),
        old(new_item).item_type != Type::Potion,
        current_item.item_type == Type::Weapon ==> has_damage(current_item.modifications@),
        forall|i: int|
            0 <= i < old(new_item).modifications@.len() ==> mod_wf(
                #[trigger] old(new_item).modifications@[i],
            ),
        add_abs_sum(old(new_item).modifications@) <= crate::item::MOD_VALUE_BOUND,
    ensures
        item_wf(*final(new_item)),
        has_damage(final(new_item).modifications@),
        has_attack_speed(final(new_item).modifications@),
        final(new_item).item_type == old(new_item).item_type,
        final(new_item).name == old(new_item).name,
        exists|dmin: int, dmax: int|
            #[trigger] spec_weapon_damage_ok(dmin, dmax, *current_item, *monster_difficulty)
                && final(new_item).modifications@ == old(new_item).modifications@ + seq![
                StatsMod::Damage { min: dmin as i32, max: dmax as i32 },
                StatsMod::AttackSpeed(1i32),
            ],
{
    let min_difficulty_bonus = calculate_min_difficulty_bonus(monster_difficulty);
    let max_difficulty_bonus = calculate_max_difficulty_bonus(monster_difficulty);

    proof {
        has_damage_implies_first_damage_some(current_item.modifications@);
        lemma_first_damage_found(current_item.modifications@);
    }

    let min_max_damage: (i32, i32) = match current_item.item_type {
        Type::Weapon => current_item.get_damage(),
        _ => {
            let fist = get_fist();
            fist.get_damage()
        },
    };
    proof {
        assert(min_max_damage.0 as int == spec_ref_damage(*current_item).0);
        assert(min_max_damage.1 as int == spec_ref_damage(*current_item).1);
    }

    let roll_min = gen.generate(
        min_max_damage.0 + min_difficulty_bonus,
        min_max_damage.0 + max_difficulty_bonus - 1,
    );
    let mut rnd_min = clamp_damage(roll_min);
    let roll_max = gen.generate(
        min_max_damage.1 + min_difficulty_bonus,
        min_max_damage.1 + max_difficulty_bonus - 1,
    );
    let mut rnd_max = clamp_damage(roll_max);

    let ghost a = rnd_min as int;
    let ghost b = rnd_max as int;
    proof {
        assert(spec_jittered(a, spec_ref_damage(*current_item).0, *monster_difficulty));
        assert(spec_jittered(b, spec_ref_damage(*current_item).1, *monster_difficulty));
    }

    // Make sure the range is neither degenerate nor inverted.
    if rnd_min == rnd_max {
        rnd_max += 1;
    }
    if rnd_min > rnd_max {
        let tmp = rnd_min;
        rnd_min = rnd_max;
        rnd_max = tmp;
    }

    proof {
        assert(spec_dedegen(a, b, rnd_min as int, rnd_max as int));
        assert(spec_weapon_damage_ok(
            rnd_min as int,
            rnd_max as int,
            *current_item,
            *monster_difficulty,
        ));
        lemma_mods_push(new_item.modifications@, StatsMod::Damage { min: rnd_min, max: rnd_max });
    }
    new_item.modifications.push(StatsMod::Damage { min: rnd_min, max: rnd_max });

    proof {
        lemma_mods_push(new_item.modifications@, StatsMod::AttackSpeed(1));
    }
    new_item.modifications.push(StatsMod::AttackSpeed(1));

    proof {
        assert(new_item.modifications@ =~= old(new_item).modifications@ + seq![
            StatsMod::Damage { min: rnd_min, max: rnd_max },
            StatsMod::AttackSpeed(1i32),
        ]);
    }
}

/// Keeps a rolled damage bound inside the item value bound, leaving head
/// room for the de-degeneration bump.
fn clamp_damage(x: i32) -> (r: i32)
    ensures
        -1_000_000 <= r <= 999_999,
        -1_000_000 <= x <= 999_999 ==> r == x,
        r as int == spec_clamped_damage(x as int),
{
    if x > 999_999 {
        999_999
    } else if x < -1_000_000 {
        -1_000_000
    } else {
        x
    }
}

/// The attribute budget: the reference item's summed stat bonus plus a
/// tier-dependent roll, clamped to at least one and at most the budget cap.
fn calculate_attribute_range<T: Generator>(
    gen: &T,
    current_item: &Item,
    monster_difficulty: &Difficulty,
) -> (r: i32)
    requires
        item_wf(*current_item),
    ensures
        1 <= r <= ATTRIBUTE_BUDGET_CAP,
        spec_budget_ok(r as int, *current_item, *monster_difficulty),
{
    let min_difficulty_bonus = calculate_min_difficulty_bonus(monster_difficulty);
    let max_difficulty_bonus = calculate_max_difficulty_bonus(monster_difficulty);

    let current_bonus: i32 = match current_item.item_type {
        Type::Nothing => 0,
        _ => {
            let mut sum: i32 = 0;
            let n = current_item.modifications.len();
            let mut index: usize = 0;
            proof {
                assert(current_item.modifications@.take(0) =~= Seq::<StatsMod>::empty());
            }
            while index < n
                invariant
                    item_wf(*current_item),
                    n == current_item.modifications@.len(),
                    0 <= index <= n,
                    sum as int == delta_vitality(current_item.modifications@.take(index as int))
                        + delta_strength(current_item.modifications@.take(index as int))
                        + delta_defense(current_item.modifications@.take(index as int)),
                    -6_000_000 <= sum <= 6_000_000,
                decreases n - index,
            {
                proof {
                    lemma_abs_take_bounds(current_item.modifications@, index as int);
                    lemma_abs_take_bounds(current_item.modifications@, index as int + 1);
                    assert(current_item.modifications@.take(index as int + 1).drop_last()
                        =~= current_item.modifications@.take(index as int));
                    assert(current_item.modifications@.take(index as int + 1).last()
                        == current_item.modifications@[index as int]);
                }
                match current_item.modifications[index] {
                    StatsMod::Add(value) => {
                        match value {
                            Stat::Vitality(val) => {
                                sum += val;
                            },
                            Stat::Defense(val) => {
                                sum += val;
                            },
                            Stat::Strength(val) => {
                                sum += val;
                            },
                            _ => {},
                        }
                    },
                    _ => {},
                }
                index += 1;
            }
            proof {
                assert(current_item.modifications@.take(n as int) =~= current_item.modifications@);
            }
            sum
        },
    };

    proof {
        assert(current_bonus as int == spec_ref_bonus(*current_item));
    }

    let attributes_count = gen.generate(
        current_bonus + min_difficulty_bonus,
        current_bonus + max_difficulty_bonus - 1,
    );

    let r = if attributes_count <= 0 {
        1
    } else if attributes_count > ATTRIBUTE_BUDGET_CAP {
        ATTRIBUTE_BUDGET_CAP
    } else {
        attributes_count
    };
    proof {
        assert(r as int == spec_clamped_budget(attributes_count as int));
        assert(spec_budget_ok(r as int, *current_item, *monster_difficulty));
    }
    r
}

} // verus!
