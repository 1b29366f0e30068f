use vstd::prelude::*;
use rand::Rng;
use crate::entity::{
    Entity, entity_wf, effective_strength, effective_defense, lemma_delta_bounded,
};
use crate::item::{Type, first_damage, get_fist, lemma_first_damage_found};
use crate::log::Log;
use crate::text::{kill_message, hit_message, miss_message};

verus! {

/// The injectable source of uniform random integers; combat and generation
/// draw through it so both are testable with fixed sequences.
pub trait Generator {
    /// A uniformly distributed integer between the two bounds, both
    /// inclusive.
    fn generate(&self, min_inclusive: i32, max_inclusive: i32) -> (r: i32)
        requires
            min_inclusive <= max_inclusive,
        ensures
            min_inclusive <= r <= max_inclusive,
    ;
}

/// The production generator, backed by the process-wide rng.
pub struct RndGenerator;

/// Relies on rand's `thread_rng` and `Rng::gen_range`: a sample of a
/// non-empty inclusive range lies within that range; an empty range would
/// panic and is ruled out up front.
#[verifier::external_body]
fn rand_range(min_inclusive: i32, max_inclusive: i32) -> (r: i32)
    requires
        min_inclusive <= max_inclusive,
    ensures
        min_inclusive <= r <= max_inclusive,
{
    rand::thread_rng().gen_range(min_inclusive..=max_inclusive)
}

impl Generator for RndGenerator {
    fn generate(&self, min_inclusive: i32, max_inclusive: i32) -> (r: i32) {
        rand_range(min_inclusive, max_inclusive)
    }
}

impl<T: Generator> Generator for &T {
    fn generate(&self, min_inclusive: i32, max_inclusive: i32) -> (r: i32) {
        (*self).generate(min_inclusive, max_inclusive)
    }
}

/// The damage range the attacker swings with: the weapon's own range, or the
/// unarmed fallback when the weapon slot is empty.
pub open spec fn spec_weapon_range(me: Entity) -> (int, int) {
    if me.weapon.item_type == Type::Nothing {
        (1int, 5int)
    } else {
        match first_damage(me.weapon.modifications@) {
            Option::Some(d) => (d.0 as int, d.1 as int),
            Option::None => (0int, 0int),
        }
    }
}

/// Flat damage bonus: attacker's effective strength minus defender's
/// effective defense.
pub open spec fn spec_attack_bonus(me: Entity, enemy: Entity) -> int {
    effective_strength(me) - effective_defense(enemy)
}

/// The most life one resolution can take: twice the top of the damage roll,
/// or nothing when even the top roll cannot hurt.
pub open spec fn spec_max_single_hit(me: Entity, enemy: Entity) -> int {
    if spec_weapon_range(me).1 + spec_attack_bonus(me, enemy) > 0 {
        2 * (spec_weapon_range(me).1 + spec_attack_bonus(me, enemy))
    } else {
        0
    }
}

/// One admissible outcome of a single combat resolution, witnessed by the
/// damage roll `d` and the crit decision `crit`: the applied damage is the
/// roll, doubled on a crit, and only applied when positive; the log gains
/// exactly the matching miss, hit or kill message, with the crit prefix
/// exactly on crits.
pub open spec fn spec_hit_witness(
    me: Entity,
    enemy0: Entity,
    enemy1: Entity,
    log0: Log,
    log1: Log,
    crit_chance: int,
    d: int,
    crit: bool,
) -> bool {
    let lo = spec_weapon_range(me).0 + spec_attack_bonus(me, enemy0);
    let hi = spec_weapon_range(me).1 + spec_attack_bonus(me, enemy0);
    let dmg = if crit {
        2 * d
    } else {
        d
    };
    let prefix = if crit {
        "CRIT! "@
    } else {
        ""@
    };
    &&& lo <= d <= hi
    &&& (crit_chance >= 100 ==> crit)
    &&& (crit_chance < 0 ==> !crit)
    &&& log1.messages@.len() == log0.messages@.len() + 1
    &&& (forall|i: int| 0 <= i < log0.messages@.len() ==> log1.messages@[i] == log0.messages@[i])
    &&& (dmg > 0 ==> enemy1.current_life == enemy0.current_life - dmg)
    &&& (dmg > 0 && enemy1.current_life <= 0 ==> log1.messages@.last()@ == prefix + me.name@
        + " killed "@ + enemy0.name@ + "!"@)
    &&& (dmg > 0 && enemy1.current_life > 0 ==> log1.messages@.last()@ == prefix
        + crate::text::hit_body_of(me.name@, enemy0.name@, dmg))
    &&& (dmg <= 0 ==> {
        &&& enemy1.current_life == enemy0.current_life
        &&& log1.messages@.last()@ == me.name@ + " missed "@ + enemy0.name@
    })
}

/// What one combat resolution against a living defender does: only the
/// defender's life changes, by an amount some admissible roll explains.
pub open spec fn spec_hit_outcome(
    me: Entity,
    enemy0: Entity,
    enemy1: Entity,
    log0: Log,
    log1: Log,
    crit_chance: int,
) -> bool {
    &&& enemy1 == (Entity { current_life: enemy1.current_life, ..enemy0 })
    &&& enemy1.current_life <= enemy0.current_life
    &&& exists|d: int, crit: bool|
        #[trigger] spec_hit_witness(me, enemy0, enemy1, log0, log1, crit_chance, d, crit)
}

pub struct Fight;

impl Fight {
    /// Resolves one weapon hit of `me` against `enemy` with the given crit
    /// chance (0 to 100). A dead defender is never touched. Damage applied
    /// is never negative, bounded by twice the top roll, and a miss changes
    /// nothing; exactly one message is logged per resolution.
    pub fn weapon_hit<T: Generator>(
        log: &mut Log,
        generator: T,
        me: &Entity,
        enemy: &mut Entity,
        crit_chance: i32,
    )
        requires
            entity_wf(*me),
            entity_wf(*old(enemy)),
        ensures
            entity_wf(*final(enemy)),
            old(enemy).current_life <= 0 ==> {
                &&& *final(enemy) == *old(enemy)
                &&& *final(log) == *old(log)
            },
            old(enemy).current_life > 0 ==> {
                &&& spec_hit_outcome(
                    *me,
                    *old(enemy),
                    *final(enemy),
                    *old(log),
                    *final(log),
                    crit_chance as int,
                )
                &&& final(enemy).current_life <= old(enemy).current_life
                &&& old(enemy).current_life - final(enemy).current_life <= spec_max_single_hit(
                    *me,
                    *old(enemy),
                )
                &&& (spec_weapon_range(*me).1 + spec_attack_bonus(*me, *old(enemy)) <= 0
                    ==> final(enemy).current_life == old(enemy).current_life)
                &&& (spec_weapon_range(*me).0 + spec_attack_bonus(*me, *old(enemy)) > 0
                    ==> final(enemy).current_life < old(enemy).current_life)
                &&& *final(enemy) == (Entity {
                    current_life: final(enemy).current_life,
                    ..*old(enemy)
                })
                &&& final(log).messages@.len() == old(log).messages@.len() + 1
            },
    {
        if enemy.is_death() {
            return;
        }

        let my_dep_stats = me.calculate_stats();
        let enemy_dep_stats = enemy.calculate_stats();

        proof {
            lemma_delta_bounded(me.head_item.modifications@);
            lemma_delta_bounded(me.chest_item.modifications@);
            lemma_delta_bounded(me.leg_item.modifications@);
            lemma_delta_bounded(me.weapon.modifications@);
            lemma_delta_bounded(enemy.head_item.modifications@);
            lemma_delta_bounded(enemy.chest_item.modifications@);
            lemma_delta_bounded(enemy.leg_item.modifications@);
            lemma_delta_bounded(enemy.weapon.modifications@);
            lemma_first_damage_found(me.weapon.modifications@);
            crate::item::has_damage_implies_first_damage_some(me.weapon.modifications@);
        }

        let weapon_damage: (i32, i32) = match me.weapon.item_type {
            Type::Nothing => {
                let fist = get_fist();
                fist.get_damage()
            },
            _ => me.weapon.get_damage(),
        };

        let attack_bonus = my_dep_stats.strength - enemy_dep_stats.defense;

        let actual_damage = generator.generate(
            weapon_damage.0 + attack_bonus,
            weapon_damage.1 + attack_bonus,
        );

        let crit = generator.generate(0, 100) <= crit_chance;
        let actual_damage = if crit {
            actual_damage * 2
        } else {
            actual_damage
        };

        let ghost base_roll = if crit {
            actual_damage as int / 2
        } else {
            actual_damage as int
        };

        if actual_damage > 0 {
            enemy.current_life -= actual_damage;

            let crit_prefix = if crit {
                "CRIT! "
            } else {
                ""
            };

            if enemy.is_death() {
                log.add_message(kill_message(crit_prefix, &me.name, &enemy.name));
            } else {
                log.add_message(hit_message(crit_prefix, &me.name, &enemy.name, actual_damage));
            }
        } else {
            log.add_message(miss_message(&me.name, &enemy.name));
        }

        proof {
            assert(spec_hit_witness(
                *me,
                *old(enemy),
                *enemy,
                *old(log),
                *log,
                crit_chance as int,
                base_roll,
                crit,
            ));
        }
    }
}

} // verus!
