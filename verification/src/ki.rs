use vstd::prelude::*;
use crate::entity::{Entity, entity_wf};
use crate::effect::{Effect, WeaponHit, AttackDirection, on_floor};
use crate::game::Input;
use crate::level::{Level, Tile, level_wf, tile_at, interior, is_terrain};

verus! {

/// The attack facing from a monster standing one orthogonal tile away,
/// given the player-minus-monster position difference.
pub open spec fn spec_ki_attack_direction(row_diff: int, col_diff: int) -> AttackDirection {
    if row_diff == 1 {
        AttackDirection::South
    } else if row_diff == -1 {
        AttackDirection::North
    } else if col_diff == 1 {
        AttackDirection::East
    } else {
        AttackDirection::West
    }
}

/// The one-tile greedy step toward the player: the axis with the larger
/// gap closes by one, a tie favouring the column step.
pub open spec fn spec_ki_step_delta(row_diff: int, col_diff: int) -> (int, int) {
    if row_diff >= 0 && col_diff >= 0 {
        if row_diff > col_diff {
            (1int, 0int)
        } else {
            (0int, 1int)
        }
    } else if row_diff > 0 && col_diff < 0 {
        if row_diff > -col_diff {
            (1int, 0int)
        } else {
            (0int, -1int)
        }
    } else if row_diff <= 0 && col_diff <= 0 {
        if row_diff < col_diff {
            (-1int, 0int)
        } else {
            (0int, -1int)
        }
    } else {
        if -row_diff > col_diff {
            (-1int, 0int)
        } else {
            (0int, 1int)
        }
    }
}

/// Whether the step's target cell is blocked for the monster at `index`: a
/// wall, the player's tile, or another living monster's tile.
pub open spec fn spec_ki_blocked(
    map: Level,
    player: Entity,
    enemies: Seq<Entity>,
    index: int,
    target_row: int,
    target_col: int,
) -> bool {
    ||| tile_at(map, target_row, target_col) == Tile::Wall
    ||| (player.pos_row == target_row && player.pos_col == target_col)
    ||| exists|j: int|
        0 <= j < enemies.len() && j != index && (#[trigger] enemies[j]).current_life > 0
            && enemies[j].pos_row == target_row && enemies[j].pos_col == target_col
}

/// A pending weapon-hit effect of the given actor.
pub open spec fn spec_ki_has_pending_hit(effects: Seq<Effect>, actor: u32) -> bool {
    exists|i: int|
        0 <= i < effects.len() && (#[trigger] effects[i]).spec_actor_id() == actor
            && effects[i].spec_effect_id() == 1
}

/// What the monster at `index` does, given the state its predecessors left:
/// a dead monster does nothing; an orthogonally adjacent one queues a
/// directional weapon hit unless one of its own is already pending; one
/// within the approach radius takes the greedy step unless blocked; a
/// distant one idles.
pub open spec fn spec_ki_act(
    map: Level,
    player: Entity,
    enemies: Seq<Entity>,
    effects: Seq<Effect>,
    index: int,
) -> (Entity, Seq<Effect>) {
    let m = enemies[index];
    let row_diff = player.pos_row - m.pos_row;
    let col_diff = player.pos_col - m.pos_col;
    let q_sum = row_diff * row_diff + col_diff * col_diff;
    if m.current_life <= 0 {
        (m, effects)
    } else if q_sum == 1 {
        if spec_ki_has_pending_hit(effects, m.id) {
            (m, effects)
        } else {
            (
                m,
                effects.push(
                    Effect::WeaponHit(
                        WeaponHit {
                            direction: spec_ki_attack_direction(row_diff, col_diff),
                            id: m.id,
                        },
                    ),
                ),
            )
        }
    } else if q_sum <= 16 {
        let d = spec_ki_step_delta(row_diff, col_diff);
        let target_row = m.pos_row + d.0;
        let target_col = m.pos_col + d.1;
        if spec_ki_blocked(map, player, enemies, index, target_row, target_col) {
            (m, effects)
        } else {
            ((Entity { pos_row: target_row as i32, pos_col: target_col as i32, ..m }), effects)
        }
    } else {
        (m, effects)
    }
}

/// The whole monster tick: each of the first `n` monsters acts in index
/// order on the state its predecessors left behind.
pub open spec fn spec_ki_tick(
    map: Level,
    player: Entity,
    enemies: Seq<Entity>,
    effects: Seq<Effect>,
    n: int,
) -> (Seq<Entity>, Seq<Effect>)
    decreases n,
{
    if n <= 0 {
        (enemies, effects)
    } else {
        let prev = spec_ki_tick(map, player, enemies, effects, n - 1);
        let acted = spec_ki_act(map, player, prev.0, prev.1, n - 1);
        (prev.0.update(n - 1, acted.0), acted.1)
    }
}

/// One tick of monster behaviour, each living monster in index order: an
/// enemy standing orthogonally next to the player queues a directional
/// weapon hit; one within a short radius takes one greedy step toward the
/// player, blocked by walls, the player and other living monsters; anything
/// farther away idles. Later monsters see earlier monsters' already updated
/// positions. The result is exactly the `spec_ki_tick` fold of that rule.
pub fn handle_ki(
    map: &Level,
    player: &Entity,
    enemies: &mut Vec<Entity>,
    effects: &mut Vec<Effect>,
)
    requires
        level_wf(*map),
        on_floor(*map, *player),
        forall|k: int|
            0 <= k < old(enemies)@.len() ==> entity_wf(#[trigger] old(enemies)@[k]) && on_floor(
                *map,
                old(enemies)@[k],
            ),
    ensures
        final(enemies)@ == spec_ki_tick(
            *map,
            *player,
            old(enemies)@,
            old(effects)@,
            old(enemies)@.len() as int,
        ).0,
        final(effects)@ == spec_ki_tick(
            *map,
            *player,
            old(enemies)@,
            old(effects)@,
            old(enemies)@.len() as int,
        ).1,
        final(enemies)@.len() == old(enemies)@.len(),
        forall|k: int|
            0 <= k < final(enemies)@.len() ==> #[trigger] final(enemies)@[k] == (Entity {
                pos_row: final(enemies)@[k].pos_row,
                pos_col: final(enemies)@[k].pos_col,
                ..old(enemies)@[k]
            }),
        forall|k: int|
            0 <= k < final(enemies)@.len() ==> entity_wf(#[trigger] final(enemies)@[k]) && on_floor(
                *map,
                final(enemies)@[k],
            ),
        final(effects)@.len() >= old(effects)@.len(),
        forall|i: int| 0 <= i < old(effects)@.len() ==> final(effects)@[i] == old(effects)@[i],
        forall|i: int|
            old(effects)@.len() <= i < final(effects)@.len() ==> {
                &&& (#[trigger] final(effects)@[i]).spec_effect_id() == 1
                &&& final(effects)@[i].wf()
                &&& exists|k: int|
                    0 <= k < final(enemies)@.len() && final(enemies)@[k].id == final(
                        effects
                    )@[i].spec_actor_id() && final(enemies)@[k].current_life > 0
            },
{
    let size = enemies.len();
    let mut index: usize = 0;

    while index < size
        invariant
            level_wf(*map),
            on_floor(*map, *player),
            size == enemies@.len(),
            enemies@.len() == old(enemies)@.len(),
            0 <= index <= size,
            enemies@ == spec_ki_tick(
                *map,
                *player,
                old(enemies)@,
                old(effects)@,
                index as int,
            ).0,
            effects@ == spec_ki_tick(
                *map,
                *player,
                old(enemies)@,
                old(effects)@,
                index as int,
            ).1,
            forall|k: int|
                0 <= k < enemies@.len() ==> #[trigger] enemies@[k] == (Entity {
                    pos_row: enemies@[k].pos_row,
                    pos_col: enemies@[k].pos_col,
                    ..old(enemies)@[k]
                }),
            forall|k: int|
                0 <= k < enemies@.len() ==> entity_wf(#[trigger] enemies@[k]) && on_floor(
                    *map,
                    enemies@[k],
                ),
            effects@.len() >= old(effects)@.len(),
            forall|i: int| 0 <= i < old(effects)@.len() ==> effects@[i] == old(effects)@[i],
            forall|i: int|
                old(effects)@.len() <= i < effects@.len() ==> {
                    &&& (#[trigger] effects@[i]).spec_effect_id() == 1
                    &&& effects@[i].wf()
                    &&& exists|k: int|
                        0 <= k < enemies@.len() && enemies@[k].id == effects@[i].spec_actor_id()
                            && enemies@[k].current_life > 0
                },
        decreases size - index,
    {
        let ghost pre_enemies = enemies@;
        let ghost pre_effects = effects@;
        let ghost act = spec_ki_act(*map, *player, pre_enemies, pre_effects, index as int);

        if enemies[index].is_death() {
            proof {
                assert(pre_enemies.update(index as int, act.0) =~= pre_enemies);
            }
        } else {
            let row_diff = player.pos_row - enemies[index].pos_row;
            let col_diff = player.pos_col - enemies[index].pos_col;

            proof {
                assert(0 <= row_diff * row_diff <= 1_000_000 && 0 <= col_diff * col_diff
                    <= 1_000_000) by (nonlinear_arith)
                    requires
                        -1000 <= row_diff <= 1000,
                        -1000 <= col_diff <= 1000,
                ;
            }
            let q_sum = row_diff * row_diff + col_diff * col_diff;

            if q_sum == 1 {
                proof {
                    assert(row_diff == 1 || row_diff == -1 || col_diff == 1 || col_diff == -1)
                        by (nonlinear_arith)
                        requires
                            row_diff * row_diff + col_diff * col_diff == 1,
                    ;
                }
                let direction = if row_diff == 1 {
                    AttackDirection::South
                } else if row_diff == -1 {
                    AttackDirection::North
                } else if col_diff == 1 {
                    AttackDirection::East
                } else {
                    AttackDirection::West
                };

                let hit = Effect::WeaponHit(WeaponHit::new(enemies[index].id, direction));
                if hit.valid(effects) {
                    effects.push(hit);
                }
                proof {
                    assert(pre_enemies.update(index as int, act.0) =~= pre_enemies);
                }
            } else if q_sum <= 16 {
                proof {
                    assert(-1000 <= row_diff <= 1000 && -1000 <= col_diff <= 1000);
                }
                let direction = if row_diff >= 0 && col_diff >= 0 {
                    if row_diff > col_diff {
                        Input::MoveDown
                    } else {
                        Input::MoveRight
                    }
                } else if row_diff > 0 && col_diff < 0 {
                    if row_diff > -col_diff {
                        Input::MoveDown
                    } else {
                        Input::MoveLeft
                    }
                } else if row_diff <= 0 && col_diff <= 0 {
                    if row_diff < col_diff {
                        Input::MoveUp
                    } else {
                        Input::MoveLeft
                    }
                } else if row_diff < 0 && col_diff > 0 {
                    if -row_diff > col_diff {
                        Input::MoveUp
                    } else {
                        Input::MoveRight
                    }
                } else {
                    Input::Nothing
                };

                let mut target_row = enemies[index].pos_row;
                let mut target_col = enemies[index].pos_col;

                proof {
                    assert(interior(*map, target_row as int, target_col as int));
                }

                match direction {
                    Input::MoveUp => {
                        target_row -= 1;
                    },
                    Input::MoveDown => {
                        target_row += 1;
                    },
                    Input::MoveLeft => {
                        target_col -= 1;
                    },
                    Input::MoveRight => {
                        target_col += 1;
                    },
                    _ => {},
                }

                proof {
                    let d = spec_ki_step_delta(row_diff as int, col_diff as int);
                    assert(target_row as int == pre_enemies[index as int].pos_row + d.0);
                    assert(target_col as int == pre_enemies[index as int].pos_col + d.1);
                }

                // A wall, the player or another living monster blocks the
                // step.
                let wall = map.map[target_row as usize][target_col as usize] == Tile::Wall;
                let on_player = player.pos_row == target_row && player.pos_col == target_col;

                let mut collision_with_other_enemy = false;
                let mut inner_index: usize = 0;
                while inner_index < size && !collision_with_other_enemy
                    invariant
                        size == enemies@.len(),
                        0 <= inner_index <= size,
                        0 <= index < size,
                        !collision_with_other_enemy ==> forall|j: int|
                            0 <= j < inner_index ==> !(j != index && (#[trigger] enemies@[j]).current_life
                                > 0 && enemies@[j].pos_row == target_row && enemies@[j].pos_col
                                == target_col),
                        collision_with_other_enemy ==> exists|j: int|
                            0 <= j < enemies@.len() && j != index && (#[trigger] enemies@[j]).current_life
                                > 0 && enemies@[j].pos_row == target_row && enemies@[j].pos_col
                                == target_col,
                    decreases size - inner_index, (if collision_with_other_enemy { 0int } else { 1int }),
                {
                    if inner_index != index && !enemies[inner_index].is_death() && target_row
                        == enemies[inner_index].pos_row && target_col
                        == enemies[inner_index].pos_col {
                        collision_with_other_enemy = true;
                    } else {
                        inner_index += 1;
                    }
                }

                if !wall && !on_player && !collision_with_other_enemy {
                    proof {
                        let r = enemies@[index as int].pos_row as int;
                        let c = enemies@[index as int].pos_col as int;
                        assert(crate::level::floor_closed_at(*map, r, c));
                        assert(is_terrain(tile_at(*map, target_row as int, target_col as int)));
                    }
                    let mut_enemy = vstd::std_specs::vec::vec_index_mut(enemies, index);
                    mut_enemy.pos_row = target_row;
                    mut_enemy.pos_col = target_col;
                    proof {
                        assert(!spec_ki_blocked(
                            *map,
                            *player,
                            pre_enemies,
                            index as int,
                            target_row as int,
                            target_col as int,
                        ));
                        assert(enemies@ =~= pre_enemies.update(index as int, act.0));
                    }
                } else {
                    proof {
                        assert(spec_ki_blocked(
                            *map,
                            *player,
                            pre_enemies,
                            index as int,
                            target_row as int,
                            target_col as int,
                        ));
                        assert(pre_enemies.update(index as int, act.0) =~= pre_enemies);
                    }
                }
            } else {
                proof {
                    assert(pre_enemies.update(index as int, act.0) =~= pre_enemies);
                }
            }
        }

        proof {
            assert(spec_ki_tick(
                *map,
                *player,
                old(enemies)@,
                old(effects)@,
                index as int + 1,
            ).0 =~= enemies@);
            assert(spec_ki_tick(
                *map,
                *player,
                old(enemies)@,
                old(effects)@,
                index as int + 1,
            ).1 =~= effects@);
        }
        index += 1;
    }
}

} // verus!
