use vstd::prelude::*;
use crate::entity::{Entity, MonsterType, Difficulty};

verus! {

/// A monster: its kind and difficulty tier together with the entity that
/// carries its stats, gear and position.
pub struct Monster {
    pub monster_type: MonsterType,
    pub monster_difficulty: Difficulty,
    pub entity: Entity,
}

impl Monster {
    pub fn new(mon_type: MonsterType, mon_diff: Difficulty, entity: Entity) -> (r: Monster)
        ensures
            r.monster_type == mon_type,
            r.monster_difficulty == mon_diff,
            r.entity == entity,
    {
        Monster { monster_type: mon_type, monster_difficulty: mon_diff, entity }
    }
}

} // verus!
