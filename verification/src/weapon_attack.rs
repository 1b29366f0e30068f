use vstd::prelude::*;
use crate::entity::Entity;
use crate::effect;

verus! {

/// A compass facing for a plain melee swing.
#[derive(Debug, Copy, Clone, PartialEq, Eq, Structural)]
pub enum AttackDirection {
    North,
    NorthEast,
    East,
    SouthEast,
    South,
    SouthWest,
    West,
    NorthWest,
}

/// The same facing in the effect system's vocabulary.
pub open spec fn spec_facing(d: AttackDirection) -> effect::AttackDirection {
    match d {
        AttackDirection::North => effect::AttackDirection::North,
        AttackDirection::NorthEast => effect::AttackDirection::NorthEast,
        AttackDirection::East => effect::AttackDirection::East,
        AttackDirection::SouthEast => effect::AttackDirection::SouthEast,
        AttackDirection::South => effect::AttackDirection::South,
        AttackDirection::SouthWest => effect::AttackDirection::SouthWest,
        AttackDirection::West => effect::AttackDirection::West,
        AttackDirection::NorthWest => effect::AttackDirection::NorthWest,
    }
}

/// The tile set one directional swing covers, computed once from the
/// attacker's position.
pub struct WeaponAttack {
    pub area: Vec<(i32, i32)>,
}

impl WeaponAttack {
    /// The three tiles ahead of the actor in the given facing, as literal
    /// per-direction offsets.
    pub fn new(actor: &Entity, dir: AttackDirection) -> (r: WeaponAttack)
        requires
            -1_000_000 <= actor.pos_row <= 1_000_000,
            -1_000_000 <= actor.pos_col <= 1_000_000,
        ensures
            r.area@ =~= effect::spec_attack_area(spec_facing(dir), actor.pos_row, actor.pos_col),
    {
        let mut attack_area: Vec<(i32, i32)> = Vec::new();

        match dir {
            AttackDirection::North => {
                attack_area.push((actor.pos_row - 1, actor.pos_col - 1));
                attack_area.push((actor.pos_row - 1, actor.pos_col));
                attack_area.push((actor.pos_row - 1, actor.pos_col + 1));
            },
            AttackDirection::NorthEast => {
                attack_area.push((actor.pos_row - 1, actor.pos_col));
                attack_area.push((actor.pos_row - 1, actor.pos_col + 1));
                attack_area.push((actor.pos_row, actor.pos_col + 1));
            },
            AttackDirection::East => {
                attack_area.push((actor.pos_row - 1, actor.pos_col + 1));
                attack_area.push((actor.pos_row, actor.pos_col + 1));
                attack_area.push((actor.pos_row + 1, actor.pos_col + 1));
            },
            AttackDirection::SouthEast => {
                attack_area.push((actor.pos_row, actor.pos_col + 1));
                attack_area.push((actor.pos_row + 1, actor.pos_col + 1));
                attack_area.push((actor.pos_row + 1, actor.pos_col));
            },
            AttackDirection::South => {
                attack_area.push((actor.pos_row + 1, actor.pos_col + 1));
                attack_area.push((actor.pos_row + 1, actor.pos_col));
                attack_area.push((actor.pos_row + 1, actor.pos_col - 1));
            },
            AttackDirection::SouthWest => {
                attack_area.push((actor.pos_row + 1, actor.pos_col));
                attack_area.push((actor.pos_row + 1, actor.pos_col - 1));
                attack_area.push((actor.pos_row, actor.pos_col - 1));
            },
            AttackDirection::West => {
                attack_area.push((actor.pos_row + 1, actor.pos_col - 1));
                attack_area.push((actor.pos_row, actor.pos_col - 1));
                attack_area.push((actor.pos_row - 1, actor.pos_col - 1));
            },
            AttackDirection::NorthWest => {
                attack_area.push((actor.pos_row, actor.pos_col - 1));
                attack_area.push((actor.pos_row - 1, actor.pos_col - 1));
                attack_area.push((actor.pos_row - 1, actor.pos_col));
            },
        }

        WeaponAttack { area: attack_area }
    }
}

} // verus!
