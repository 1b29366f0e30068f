use vstd::prelude::*;
use crate::backpack::BACKPACK_SIZE;
use crate::effect::{Effect, WeaponHit, Storm, RoundHouse, AttackDirection, on_floor};
use crate::entity::{Entity, entity_wf, spec_max_life};
use crate::fight::Generator;
use crate::gen_monster::create_monster;
use crate::item::{Type, first_heal, item_wf, has_heal_implies_first_heal_some};
use crate::ki::handle_ki;
use crate::level::{
    Level, Tile, level_wf, tile_at, meta_at, rows, cols, interior, is_terrain, has_player_spawn,
};
use crate::level_gen::LevelGenerator;
use crate::log::Log;

verus! {

/// The abstract command vocabulary the state machine consumes; mapping raw
/// key codes onto it is the input provider's concern.
#[derive(Debug, Copy, Clone, PartialEq, Eq, Structural)]
pub enum Input {
    Nothing,
    MoveUp,
    MoveDown,
    MoveLeft,
    MoveRight,
    AttackUp,
    AttackDown,
    AttackLeft,
    AttackRight,
    SpecialOne,
    SpecialTwo,
    SpecialThree,
    Use,
    Drop,
    Quit,
}

/// Which pane of the inventory screen the cursor is in.
#[derive(Debug, Copy, Clone, PartialEq, Eq, Structural)]
pub enum InventoryPointer {
    Backpack,
    Character,
}

/// The top-level mode of the game: exploring, looting a fallen enemy,
/// browsing the inventory, sitting in the menu, dead, or quitting.
#[derive(Debug, Copy, Clone, PartialEq, Eq, Structural)]
pub enum Action {
    Game,
    GameOver,
    Loot,
    Inventory,
    Menu,
    Quit,
}

/// Every pending effect is internally consistent.
pub open spec fn effects_wf(effects: Seq<Effect>) -> bool {
    forall|i: int| 0 <= i < effects.len() ==> (#[trigger] effects[i]).wf()
}

/// Every enemy is well formed and stands on floor.
pub open spec fn enemies_wf(map: Level, enemies: Seq<Entity>) -> bool {
    forall|k: int|
        0 <= k < enemies.len() ==> entity_wf(#[trigger] enemies[k]) && on_floor(map, enemies[k])
}

/// The whole game session: level, player, enemies, pending effects, message
/// log, the current mode with its cursors, and the injected randomness
/// source. One tick consumes one abstract command.
pub struct Game<G: Generator> {
    pub log: Log,
    pub map: Level,
    pub player: Entity,

    pub entity_count: u32,
    pub enemies: Vec<Entity>,
    pub effects: Vec<Effect>,

    pub game_state: Action,
    pub backpack_index: usize,
    pub inventory_pointer: InventoryPointer,
    pub character_pointer: Type,
    pub enemy_loot_index: usize,

    pub player_special_one: bool,
    pub player_special_two: bool,
    pub player_special_three: bool,

    pub gen: G,
}

/// A pending effect of the given actor and kind.
pub open spec fn spec_has_pending(effects: Seq<Effect>, actor: u32, kind: u32) -> bool {
    exists|i: int|
        0 <= i < effects.len() && (#[trigger] effects[i]).spec_actor_id() == actor && effects[
            i
        ].spec_effect_id() == kind
}

/// The facing an attack command stands for.
pub open spec fn spec_attack_facing(direction: Input) -> AttackDirection {
    if direction == Input::AttackUp {
        AttackDirection::North
    } else if direction == Input::AttackDown {
        AttackDirection::South
    } else if direction == Input::AttackLeft {
        AttackDirection::West
    } else {
        AttackDirection::East
    }
}

/// The cell one step from the player in the direction of a move command.
pub open spec fn spec_move_target(player: Entity, direction: Input) -> (int, int) {
    if direction == Input::MoveUp {
        (player.pos_row - 1, player.pos_col as int)
    } else if direction == Input::MoveDown {
        (player.pos_row + 1, player.pos_col as int)
    } else if direction == Input::MoveLeft {
        (player.pos_row as int, player.pos_col - 1)
    } else {
        (player.pos_row as int, player.pos_col + 1)
    }
}

/// Whether a step onto the cell is blocked: wall terrain, or a living
/// enemy standing there.
pub open spec fn spec_move_blocked(map: Level, enemies: Seq<Entity>, tr: int, tc: int) -> bool {
    ||| tile_at(map, tr, tc) == Tile::Wall
    ||| exists|k: int|
        0 <= k < enemies.len() && (#[trigger] enemies[k]).current_life > 0 && enemies[k].pos_row
            == tr && enemies[k].pos_col == tc
}

/// The backpack shifted left at `i` with the tail refilled by a free slot:
/// the shape compacting removal leaves behind.
pub open spec fn spec_compacted(pre: Seq<crate::item::Item>, post: Seq<crate::item::Item>, i: int) -> bool {
    &&& (forall|k: int| 0 <= k < i ==> post[k] == pre[k])
    &&& (forall|k: int| i <= k < BACKPACK_SIZE - 1 ==> post[k] == pre[k + 1])
    &&& crate::backpack::slot_free(post[BACKPACK_SIZE - 1])
}

/// What confirming on the indexed backpack slot does: a potion heals by its
/// percentage of maximum life, clamped at the maximum, and is consumed by
/// compacting removal; anything else goes through `equip`, the previous
/// occupant of the slot returning to the same backpack index (compacting
/// instead when the slot was empty); exactly one message is logged. Only
/// the player and the log change.
pub open spec fn spec_inventory_use<G: Generator>(pre: Game<G>, post: Game<G>) -> bool {
    let bpi = pre.backpack_index as int;
    let used = pre.player.backpack.items@[bpi];
    let pre_items = pre.player.backpack.items@;
    let post_items = post.player.backpack.items@;
    &&& post == (Game { log: post.log, player: post.player, ..pre })
    &&& post.log.messages@.len() == pre.log.messages@.len() + 1
    &&& (forall|i: int| 0 <= i < pre.log.messages@.len() ==> post.log.messages@[i] == pre.log.messages@[i])
    &&& (used.item_type == Type::Potion ==> {
        let max = spec_max_life(pre.player);
        let pct = (match first_heal(used.modifications@) {
            Option::Some(p) => p as int,
            Option::None => 0int,
        });
        let healed = pre.player.current_life + spec_percent_of(max, pct);
        &&& post.player == (Entity {
            current_life: post.player.current_life,
            backpack: post.player.backpack,
            ..pre.player
        })
        &&& post.player.current_life as int == (if healed > max {
            max
        } else if healed < -(crate::entity::LIFE_BOUND as int) {
            -(crate::entity::LIFE_BOUND as int)
        } else {
            healed
        })
        &&& spec_compacted(pre_items, post_items, bpi)
        &&& post.log.messages@.last()@ == "Player "@ + pre.player.name@ + " have been healed."@
    })
    &&& (used.item_type != Type::Potion ==> {
        let prev = crate::entity::spec_equip(pre.player, used).1;
        &&& post.player == (Entity {
            backpack: post.player.backpack,
            ..crate::entity::spec_equip(pre.player, used).0
        })
        &&& (prev.item_type != Type::Nothing ==> post_items =~= pre_items.update(bpi, prev))
        &&& (prev.item_type == Type::Nothing ==> spec_compacted(pre_items, post_items, bpi))
        &&& post.log.messages@.last()@ == "Player "@ + pre.player.name@ + " equipped "@
            + used.name@
    })
}

/// What dropping the indexed backpack slot does: compacting removal, and a
/// message naming the item unless the slot was already empty. Only the
/// player's backpack and the log change.
pub open spec fn spec_inventory_drop<G: Generator>(pre: Game<G>, post: Game<G>) -> bool {
    let bpi = pre.backpack_index as int;
    let dropped = pre.player.backpack.items@[bpi];
    &&& post == (Game { log: post.log, player: post.player, ..pre })
    &&& post.player == (Entity { backpack: post.player.backpack, ..pre.player })
    &&& spec_compacted(pre.player.backpack.items@, post.player.backpack.items@, bpi)
    &&& (!crate::backpack::slot_free(dropped) ==> {
        &&& post.log.messages@.len() == pre.log.messages@.len() + 1
        &&& (forall|i: int| 0 <= i < pre.log.messages@.len() ==> post.log.messages@[i] == pre.log.messages@[i])
        &&& post.log.messages@.last()@ == "Player "@ + pre.player.name@ + " dropped "@
            + dropped.name@ + "."@
    })
    &&& (crate::backpack::slot_free(dropped) ==> post.log == pre.log)
}

impl<G: Generator> Game<G> {
    /// Everything of the session invariant that does not mention the
    /// player's position: a well-formed level, a well-formed player with
    /// modest base stats, well-formed enemies on floor, consistent pending
    /// effects, and cursors inside their bounds.
    pub open spec fn base_wf(&self) -> bool {
        &&& level_wf(self.map)
        &&& entity_wf(self.player)
        &&& self.player.id == 0
        &&& -1000 <= self.player.base_stats.vitality <= 1000
        &&& -1000 <= self.player.base_stats.strength <= 1000
        &&& -1000 <= self.player.base_stats.speed <= 1000
        &&& -1000 <= self.player.base_stats.defense <= 1000
        &&& enemies_wf(self.map, self.enemies@)
        &&& self.entity_count >= 1
        &&& (forall|k: int|
            0 <= k < self.enemies@.len() ==> 1 <= (#[trigger] self.enemies@[k]).id
                < self.entity_count)
        &&& (forall|k: int, l: int|
            0 <= k < l < self.enemies@.len() ==> (#[trigger] self.enemies@[k]).id != (
            #[trigger] self.enemies@[l]).id)
        &&& effects_wf(self.effects@)
        &&& self.backpack_index < BACKPACK_SIZE
        &&& (self.game_state == Action::Loot ==> self.enemy_loot_index < self.enemies@.len())
    }

    /// The full session invariant: besides `base_wf`, the player stands on
    /// floor. Established by `init` and preserved by every tick.
    pub open spec fn wf(&self) -> bool {
        &&& self.base_wf()
        &&& on_floor(self.map, self.player)
    }

    /// A fresh session in the starter level, not yet placed: `init` must
    /// run before the first tick.
    pub fn new(gen: G) -> (r: Game<G>)
        ensures
            r.base_wf(),
            r.enemies@.len() == 0,
            r.effects@.len() == 0,
            r.game_state == Action::Game,
    {
        Game {
            log: Log::new(),
            map: Level::new(),
            player: Entity::new(0),

            entity_count: 1,
            enemies: Vec::new(),
            effects: Vec::new(),

            game_state: Action::Game,
            backpack_index: 0,
            inventory_pointer: InventoryPointer::Backpack,
            character_pointer: Type::Head,
            enemy_loot_index: 0,

            player_special_one: false,
            player_special_two: false,
            player_special_three: false,

            gen,
        }
    }

    /// Generates the first level and places the player and its monsters.
    pub fn init(&mut self)
        requires
            old(self).base_wf(),
            old(self).enemies@.len() == 0,
        ensures
            final(self).wf(),
    {
        self.player.name = "TamaNu".to_string();

        let generator = LevelGenerator::new(&self.gen);
        self.map = generator.generate_level(0);

        self.set_player_and_monsters();
    }

    /// Reads the spawn markers of the current level once: the player moves
    /// to the player spawn, and a freshly created monster appears on every
    /// monster marker, appended to the enemy list.
    fn set_player_and_monsters(&mut self)
        requires
            level_wf(old(self).map),
            has_player_spawn(old(self).map),
            entity_wf(old(self).player),
            -1000 <= old(self).player.base_stats.vitality <= 1000,
            -1000 <= old(self).player.base_stats.strength <= 1000,
            -1000 <= old(self).player.base_stats.speed <= 1000,
            -1000 <= old(self).player.base_stats.defense <= 1000,
            enemies_wf(old(self).map, old(self).enemies@),
            old(self).entity_count >= 1,
            forall|k: int|
                0 <= k < old(self).enemies@.len() ==> 1 <= (#[trigger] old(self).enemies@[k]).id
                    < old(self).entity_count,
            forall|k: int, l: int|
                0 <= k < l < old(self).enemies@.len() ==> (#[trigger] old(self).enemies@[k]).id
                    != (#[trigger] old(self).enemies@[l]).id,
        ensures
            final(self).entity_count >= old(self).entity_count,
            forall|k: int|
                0 <= k < final(self).enemies@.len() ==> 1 <= (#[trigger] final(self).enemies@[k]).id
                    < final(self).entity_count,
            forall|k: int, l: int|
                0 <= k < l < final(self).enemies@.len() ==> (#[trigger] final(self).enemies@[k]).id
                    != (#[trigger] final(self).enemies@[l]).id,
            final(self).map == old(self).map,
            final(self).log == old(self).log,
            final(self).effects == old(self).effects,
            final(self).game_state == old(self).game_state,
            final(self).backpack_index == old(self).backpack_index,
            final(self).inventory_pointer == old(self).inventory_pointer,
            final(self).character_pointer == old(self).character_pointer,
            final(self).enemy_loot_index == old(self).enemy_loot_index,
            final(self).player_special_one == old(self).player_special_one,
            final(self).player_special_two == old(self).player_special_two,
            final(self).player_special_three == old(self).player_special_three,
            entity_wf(final(self).player),
            on_floor(final(self).map, final(self).player),
            final(self).player == (Entity {
                pos_row: final(self).player.pos_row,
                pos_col: final(self).player.pos_col,
                ..old(self).player
            }),
            enemies_wf(final(self).map, final(self).enemies@),
            final(self).enemies@.len() >= old(self).enemies@.len(),
            forall|k: int|
                0 <= k < old(self).enemies@.len() ==> final(self).enemies@[k] == old(self).enemies@[k],
    {
        let n_rows = self.map.meta.len();

        let mut row_index: usize = 0;
        while row_index < n_rows
            invariant
                level_wf(self.map),
                self.map == old(self).map,
                self.log == old(self).log,
                self.effects == old(self).effects,
                self.game_state == old(self).game_state,
                self.backpack_index == old(self).backpack_index,
                self.inventory_pointer == old(self).inventory_pointer,
                self.character_pointer == old(self).character_pointer,
                self.enemy_loot_index == old(self).enemy_loot_index,
                self.player_special_one == old(self).player_special_one,
                self.player_special_two == old(self).player_special_two,
                self.player_special_three == old(self).player_special_three,
                n_rows == rows(self.map),
                0 <= row_index <= n_rows,
                entity_wf(self.player),
                -1000 <= self.player.base_stats.vitality <= 1000,
                -1000 <= self.player.base_stats.strength <= 1000,
                -1000 <= self.player.base_stats.speed <= 1000,
                -1000 <= self.player.base_stats.defense <= 1000,
                self.player == (Entity {
                    pos_row: self.player.pos_row,
                    pos_col: self.player.pos_col,
                    ..old(self).player
                }),
                enemies_wf(self.map, self.enemies@),
                self.entity_count >= old(self).entity_count,
                self.entity_count >= 1,
                forall|k: int|
                    0 <= k < self.enemies@.len() ==> 1 <= (#[trigger] self.enemies@[k]).id
                        < self.entity_count,
                forall|k: int, l: int|
                    0 <= k < l < self.enemies@.len() ==> (#[trigger] self.enemies@[k]).id != (
                    #[trigger] self.enemies@[l]).id,
                self.enemies@.len() >= old(self).enemies@.len(),
                forall|k: int|
                    0 <= k < old(self).enemies@.len() ==> self.enemies@[k] == old(self).enemies@[k],
                (exists|r: int, c: int|
                    0 <= r < row_index && 0 <= c < cols(self.map) && meta_at(self.map, r, c)
                        == Tile::PlSpawn) ==> on_floor(self.map, self.player),
            decreases n_rows - row_index,
        {
            let n_cols = self.map.meta[row_index].len();
            let mut col_index: usize = 0;
            while col_index < n_cols
                invariant
                    level_wf(self.map),
                    self.map == old(self).map,
                    self.log == old(self).log,
                    self.effects == old(self).effects,
                    self.game_state == old(self).game_state,
                    self.backpack_index == old(self).backpack_index,
                    self.inventory_pointer == old(self).inventory_pointer,
                    self.character_pointer == old(self).character_pointer,
                    self.enemy_loot_index == old(self).enemy_loot_index,
                    self.player_special_one == old(self).player_special_one,
                    self.player_special_two == old(self).player_special_two,
                    self.player_special_three == old(self).player_special_three,
                    0 <= row_index < rows(self.map),
                    n_cols == cols(self.map),
                    0 <= col_index <= n_cols,
                    entity_wf(self.player),
                    -1000 <= self.player.base_stats.vitality <= 1000,
                    -1000 <= self.player.base_stats.strength <= 1000,
                    -1000 <= self.player.base_stats.speed <= 1000,
                    -1000 <= self.player.base_stats.defense <= 1000,
                    self.player == (Entity {
                        pos_row: self.player.pos_row,
                        pos_col: self.player.pos_col,
                        ..old(self).player
                    }),
                    enemies_wf(self.map, self.enemies@),
                    self.entity_count >= old(self).entity_count,
                    self.entity_count >= 1,
                    forall|k: int|
                        0 <= k < self.enemies@.len() ==> 1 <= (#[trigger] self.enemies@[k]).id
                            < self.entity_count,
                    forall|k: int, l: int|
                        0 <= k < l < self.enemies@.len() ==> (#[trigger] self.enemies@[k]).id != (
                        #[trigger] self.enemies@[l]).id,
                    self.enemies@.len() >= old(self).enemies@.len(),
                    forall|k: int|
                        0 <= k < old(self).enemies@.len() ==> self.enemies@[k] == old(self).enemies@[k],
                    (exists|r: int, c: int|
                        0 <= r < rows(self.map) && 0 <= c < cols(self.map) && (r < row_index || (r
                            == row_index && c < col_index)) && meta_at(self.map, r, c)
                            == Tile::PlSpawn) ==> on_floor(self.map, self.player),
                decreases n_cols - col_index,
            {
                proof {
                    assert(crate::level::marker_ok(self.map, row_index as int, col_index as int));
                }
                match self.map.meta[row_index][col_index] {
                    Tile::PlSpawn => {
                        self.player.pos_row = row_index as i32;
                        self.player.pos_col = col_index as i32;
                    },
                    Tile::MnSpawn { mn_type, difficulty } => {
                        // Skipped only once the id space is exhausted, so
                        // every monster keeps a unique id.
                        if self.entity_count < u32::MAX {
                            let mut monster = Entity::new(self.entity_count);
                            self.entity_count += 1;

                            create_monster(&self.gen, &self.player, &mut monster, mn_type, difficulty);

                            monster.pos_row = row_index as i32;
                            monster.pos_col = col_index as i32;

                            self.enemies.push(monster);
                        }
                    },
                    _ => {},
                }

                col_index += 1;
            }

            row_index += 1;
        }
    }

    /// One game-logic tick: dispatches the command to the current mode's
    /// handler and applies the resulting mode transition. A tick after the
    /// session reached `Quit` does nothing.
    pub fn tick(&mut self, input: Input)
        requires
            old(self).wf(),
        ensures
            final(self).wf(),
            old(self).game_state == Action::Menu ==> final(self).game_state == (if input
                == Input::Use {
                Action::Quit
            } else if input == Input::Quit {
                Action::Game
            } else {
                Action::Menu
            }),
            old(self).game_state == Action::GameOver ==> final(self).game_state == (if input
                == Input::Use {
                Action::Game
            } else if input == Input::Quit {
                Action::Quit
            } else {
                Action::GameOver
            }),
            old(self).game_state == Action::Loot ==> final(self).game_state == (if input
                == Input::Quit {
                Action::Game
            } else {
                Action::Loot
            }),
            old(self).game_state == Action::Inventory ==> final(self).game_state == (if input
                == Input::Quit {
                Action::Game
            } else {
                Action::Inventory
            }),
            old(self).game_state == Action::Game ==> (final(self).game_state == Action::Game
                || final(self).game_state == Action::GameOver || final(self).game_state
                == Action::Menu || final(self).game_state == Action::Loot
                || final(self).game_state == Action::Inventory),
            old(self).game_state == Action::Game && old(self).player.current_life <= 0 ==> final(self).game_state == Action::GameOver,
            old(self).game_state == Action::Game && final(self).game_state == Action::Loot
                ==> final(self).backpack_index == 0,
            old(self).game_state == Action::Inventory && old(self).inventory_pointer
                == InventoryPointer::Backpack && input == Input::Use ==> spec_inventory_use(
                *old(self),
                *final(self),
            ),
            old(self).game_state == Action::Inventory && old(self).inventory_pointer
                == InventoryPointer::Backpack && input == Input::Drop ==> spec_inventory_drop(
                *old(self),
                *final(self),
            ),
            old(self).game_state == Action::Quit ==> *final(self) == *old(self),
    {
        let next_game_state = match self.game_state {
            Action::Game => self.handle_game_state(input),
            Action::GameOver => self.handle_game_over_state(input),
            Action::Loot => self.handle_loot_state(input),
            Action::Inventory => self.handle_inventory_state(input),
            Action::Menu => self.handle_menu_state(input),
            Action::Quit => {
                return;
            },
        };

        if self.game_state == Action::Game && next_game_state == Action::Loot {
            self.backpack_index = 0;
        }

        self.game_state = next_game_state;
    }

    /// Menu mode: confirm quits the game, cancel returns to exploration.
    fn handle_menu_state(&self, input: Input) -> (r: Action)
        ensures
            r == (if input == Input::Use {
                Action::Quit
            } else if input == Input::Quit {
                Action::Game
            } else {
                Action::Menu
            }),
    {
        match input {
            Input::Use => Action::Quit,
            Input::Quit => Action::Game,
            _ => Action::Menu,
        }
    }

    /// Game-over mode: confirm starts a fresh run with a fresh player of
    /// the same name from depth zero; cancel quits.
    fn handle_game_over_state(&mut self, input: Input) -> (r: Action)
        requires
            old(self).base_wf(),
            old(self).game_state == Action::GameOver,
        ensures
            final(self).game_state == old(self).game_state,
            final(self).base_wf(),
            r == (if input == Input::Use {
                Action::Game
            } else if input == Input::Quit {
                Action::Quit
            } else {
                Action::GameOver
            }),
            input == Input::Use ==> {
                &&& on_floor(final(self).map, final(self).player)
                &&& final(self).player.name == old(self).player.name
                &&& final(self).player.current_life == 200
                &&& final(self).player.base_stats.vitality == 20
                &&& final(self).player.backpack.spec_size() == 0
            },
            input != Input::Use ==> *final(self) == *old(self),
    {
        match input {
            Input::Use => {
                let mut fresh_player = Entity::new(0);
                core::mem::swap(&mut fresh_player.name, &mut self.player.name);
                self.player = fresh_player;

                self.enemies.clear();
                let generator = LevelGenerator::new(&self.gen);
                self.map = generator.generate_level(0);
                self.set_player_and_monsters();

                Action::Game
            },
            Input::Quit => Action::Quit,
            _ => Action::GameOver,
        }
    }

    /// Loot mode: a bounded cursor over the fallen enemy's occupied slots;
    /// confirm transfers the indexed item into the player's backpack if
    /// there is room, else it only complains; cancel returns to
    /// exploration.
    fn handle_loot_state(&mut self, input: Input) -> (r: Action)
        requires
            old(self).wf(),
            old(self).game_state == Action::Loot,
            old(self).enemy_loot_index < old(self).enemies@.len(),
        ensures
            final(self).wf(),
            final(self).enemy_loot_index < final(self).enemies@.len(),
            final(self).game_state == old(self).game_state,
            final(self).enemies@.len() == old(self).enemies@.len(),
            r == (if input == Input::Quit {
                Action::Game
            } else {
                Action::Loot
            }),
            input == Input::MoveUp ==> final(self).backpack_index as int == (if old(self).backpack_index > 0 {
                old(self).backpack_index - 1
            } else {
                0int
            }),
            input == Input::MoveDown ==> final(self).backpack_index as int == (if old(self).backpack_index + 1 < BACKPACK_SIZE && !crate::backpack::slot_free(
                old(self).enemies@[old(self).enemy_loot_index as int].backpack.items@[old(self).backpack_index + 1],
            ) {
                old(self).backpack_index + 1
            } else {
                old(self).backpack_index as int
            }),
            input == Input::Use && old(self).player.backpack.spec_size() < BACKPACK_SIZE as int
                ==> ({
                let eli = old(self).enemy_loot_index as int;
                let bpi = old(self).backpack_index as int;
                let moved = old(self).enemies@[eli].backpack.items@[bpi];
                &&& final(self).player.backpack.items@ =~= old(self).player.backpack.items@.update(old(self).player.backpack.spec_size(), moved)
                &&& (bpi < old(self).enemies@[eli].backpack.spec_size() ==> final(self).enemies@[eli].backpack.spec_size() == old(self).enemies@[eli].backpack.spec_size()
                    - 1)
            }),
            input == Input::Use && old(self).player.backpack.spec_size() == BACKPACK_SIZE as int
                ==> {
                &&& final(self).player == old(self).player
                &&& final(self).enemies == old(self).enemies
            },
    {
        match input {
            Input::MoveUp => {
                if self.backpack_index > 0 {
                    self.backpack_index -= 1;
                }
            },
            Input::MoveDown => {
                if self.backpack_index + 1 < BACKPACK_SIZE && !self.enemies[self.enemy_loot_index]
                    .backpack.empty_slot(self.backpack_index + 1) {
                    self.backpack_index += 1;
                }
            },
            Input::Use => {
                if self.player.backpack.has_space() {
                    let eli = self.enemy_loot_index;
                    let bpi = self.backpack_index;
                    let enemy = vstd::std_specs::vec::vec_index_mut(&mut self.enemies, eli);
                    let item = enemy.backpack.take_item(bpi);
                    self.log.add_message(crate::text::item_added_message(&item.name));

                    match self.player.backpack.add_item(item) {
                        Result::Err(..) => {
                            // unreachable: space was just checked
                        },
                        _ => {},
                    }
                    proof {
                        assert forall|k: int|
                            0 <= k < self.enemies@.len() implies entity_wf(
                            #[trigger] self.enemies@[k],
                        ) && on_floor(self.map, self.enemies@[k]) by {
                            if k != eli {
                                assert(self.enemies@[k] == old(self).enemies@[k]);
                            }
                        }
                    }
                } else {
                    self.log.add_message("Backpack ist full!".to_string());
                }
            },
            Input::Quit => {
                return Action::Game;
            },
            _ => {},
        }

        Action::Loot
    }

    /// Inventory mode with two panes. In the backpack pane the cursor walks
    /// the occupied slots; confirm drinks a potion (healing a percentage of
    /// maximum life, clamped at the maximum) or equips gear, putting the
    /// previously equipped piece back at the same slot; drop discards the
    /// indexed item. The character pane only cycles through the four
    /// equipment slots. Cancel returns to exploration.
    fn handle_inventory_state(&mut self, input: Input) -> (r: Action)
        requires
            old(self).wf(),
            old(self).game_state == Action::Inventory,
        ensures
            final(self).wf(),
            final(self).game_state == old(self).game_state,
            r == (if input == Input::Quit {
                Action::Game
            } else {
                Action::Inventory
            }),
            old(self).inventory_pointer == InventoryPointer::Backpack && input == Input::MoveUp
                ==> final(self).backpack_index as int == (if old(self).backpack_index > 0 {
                old(self).backpack_index - 1
            } else {
                0int
            }),
            old(self).inventory_pointer == InventoryPointer::Backpack && input == Input::MoveDown
                ==> final(self).backpack_index as int == (if old(self).backpack_index + 1
                < BACKPACK_SIZE && !crate::backpack::slot_free(
                old(self).player.backpack.items@[old(self).backpack_index + 1],
            ) {
                old(self).backpack_index + 1
            } else {
                old(self).backpack_index as int
            }),
            old(self).inventory_pointer == InventoryPointer::Backpack && input == Input::Use
                ==> spec_inventory_use(*old(self), *final(self)),
            old(self).inventory_pointer == InventoryPointer::Backpack && input == Input::Drop
                ==> spec_inventory_drop(*old(self), *final(self)),
    {
        match self.inventory_pointer {
            InventoryPointer::Backpack => {
                match input {
                    Input::MoveUp => {
                        if self.backpack_index > 0 {
                            self.backpack_index -= 1;
                        }
                    },
                    Input::MoveDown => {
                        if self.backpack_index + 1 < BACKPACK_SIZE && !self.player.backpack
                            .empty_slot(self.backpack_index + 1) {
                            self.backpack_index += 1;
                        }
                    },
                    Input::Use => {
                        self.use_backpack_item();
                    },
                    Input::Drop => {
                        self.drop_backpack_item();
                    },
                    Input::MoveLeft => {
                        self.inventory_pointer = InventoryPointer::Character;
                    },
                    Input::Quit => {
                        return Action::Game;
                    },
                    _ => {},
                }
            },
            InventoryPointer::Character => {
                match input {
                    Input::MoveUp => {
                        match self.character_pointer {
                            Type::Chest => {
                                self.character_pointer = Type::Head;
                            },
                            Type::Legs => {
                                self.character_pointer = Type::Chest;
                            },
                            Type::Weapon => {
                                self.character_pointer = Type::Legs;
                            },
                            _ => {},
                        }
                    },
                    Input::MoveDown => {
                        match self.character_pointer {
                            Type::Head => {
                                self.character_pointer = Type::Chest;
                            },
                            Type::Chest => {
                                self.character_pointer = Type::Legs;
                            },
                            Type::Legs => {
                                self.character_pointer = Type::Weapon;
                            },
                            _ => {},
                        }
                    },
                    Input::MoveRight => {
                        self.inventory_pointer = InventoryPointer::Backpack;
                    },
                    Input::Quit => {
                        return Action::Game;
                    },
                    _ => {},
                }
            },
        }

        Action::Inventory
    }

    /// Confirms on the indexed backpack item: drinks a potion or equips a
    /// piece of gear, re-inserting the previously equipped piece at the
    /// same slot.
    fn use_backpack_item(&mut self)
        requires
            old(self).wf(),
            old(self).game_state == Action::Inventory,
        ensures
            final(self).wf(),
            final(self).game_state == old(self).game_state,
            spec_inventory_use(*old(self), *final(self)),
    {
        let bpi = self.backpack_index;
        let ghost taken = self.player.backpack.items@[bpi as int];
        let new_item = self.player.backpack.take_item(bpi);

        if new_item.item_type == Type::Potion {
            proof {
                has_heal_implies_first_heal_some(new_item.modifications@);
                crate::item::lemma_first_heal_found(new_item.modifications@);
                assert(item_wf(new_item));
                crate::entity::lemma_delta_bounded(self.player.head_item.modifications@);
                crate::entity::lemma_delta_bounded(self.player.chest_item.modifications@);
                crate::entity::lemma_delta_bounded(self.player.leg_item.modifications@);
                crate::entity::lemma_delta_bounded(self.player.weapon.modifications@);
            }
            let max_life = self.player.calculate_max_life();
            let heal_percentage = new_item.get_heal_percentage();
            let actual_heal = scale_percent(max_life, heal_percentage);

            let healed = self.player.current_life as i64 + actual_heal as i64;
            self.player.current_life = if healed > max_life as i64 {
                max_life
            } else if healed < -(crate::entity::LIFE_BOUND as i64) {
                -crate::entity::LIFE_BOUND
            } else {
                healed as i32
            };

            self.log.add_message(crate::text::healed_message(&self.player.name));
        } else {
            let is_free = match new_item.item_type {
                Type::Nothing => true,
                _ => false,
            };
            proof {
                assert(item_wf(new_item));
            }
            let equip_message = crate::text::equipped_message(&self.player.name, &new_item.name);
            let old_item = self.player.equip(new_item);

            let old_is_free = match old_item.item_type {
                Type::Nothing => true,
                _ => false,
            };
            if !old_is_free {
                proof {
                    if !crate::backpack::slot_free(taken) {
                        crate::backpack::lemma_occupied_below_count(
                            old(self).player.backpack.items@,
                            bpi as int,
                        );
                    }
                }
                self.player.backpack.insert_item(bpi, old_item);
                proof {
                    assert(self.player.backpack.items@ =~= old(self).player.backpack.items@.update(bpi as int, old_item));
                }
            }
            if is_free {
                proof {
                    crate::backpack::lemma_free_at_or_after_count(
                        old(self).player.backpack.items@,
                        bpi as int,
                    );
                }
            }

            self.log.add_message(equip_message);
        }
    }

    /// Drops the indexed backpack item outright, logging it unless the slot
    /// was already empty.
    fn drop_backpack_item(&mut self)
        requires
            old(self).wf(),
            old(self).game_state == Action::Inventory,
        ensures
            final(self).wf(),
            final(self).game_state == old(self).game_state,
            spec_inventory_drop(*old(self), *final(self)),
    {
        let bpi = self.backpack_index;
        let dropped = self.player.backpack.take_item(bpi);

        if match dropped.item_type {
            Type::Nothing => false,
            _ => true,
        } {
            self.log.add_message(crate::text::dropped_message(&self.player.name, &dropped.name));
        }
    }

    /// Exploration mode: a dead player falls to game over before anything
    /// else; movement and attacks resolve, confirm loots, descends or opens
    /// the inventory depending on the tile, cancel opens the menu; then the
    /// monsters act and the pending effects run and expire.
    fn handle_game_state(&mut self, input: Input) -> (r: Action)
        requires
            old(self).wf(),
            old(self).game_state == Action::Game,
        ensures
            final(self).wf(),
            r == Action::Game || r == Action::GameOver || r == Action::Menu || r == Action::Loot
                || r == Action::Inventory,
            old(self).player.current_life <= 0 ==> r == Action::GameOver,
            r == Action::Loot ==> final(self).enemy_loot_index < final(self).enemies@.len(),
            final(self).game_state == old(self).game_state,
            (input == Input::Use && old(self).player.current_life > 0 && !(exists|k: int|
                0 <= k < old(self).enemies@.len() && (#[trigger] old(self).enemies@[k]).pos_row
                    == old(self).player.pos_row && old(self).enemies@[k].pos_col == old(self).player.pos_col) && meta_at(
                old(self).map,
                old(self).player.pos_row as int,
                old(self).player.pos_col as int,
            ) == Tile::Next) ==> ({
                let next = if old(self).map.level == i32::MAX {
                    i32::MAX as int
                } else {
                    old(self).map.level + 1
                };
                final(self).map.level as int == (if next != 0 && next % 10 == 0 {
                    0int
                } else {
                    next
                })
            }),
            ((input == Input::MoveUp || input == Input::MoveDown || input == Input::MoveLeft
                || input == Input::MoveRight) && old(self).player.current_life > 0
                && !spec_has_pending(old(self).effects@, old(self).player.id, 2)) ==> ({
                let t = spec_move_target(old(self).player, input);
                &&& (spec_move_blocked(old(self).map, old(self).enemies@, t.0, t.1) ==> final(self).player.pos_row == old(self).player.pos_row && final(self).player.pos_col == old(self).player.pos_col)
                &&& (!spec_move_blocked(old(self).map, old(self).enemies@, t.0, t.1) ==> final(self).player.pos_row as int == t.0 && final(self).player.pos_col as int == t.1)
            }),
    {
        if self.player.is_death() {
            return Action::GameOver;
        }

        match input {
            Input::MoveUp | Input::MoveDown | Input::MoveLeft | Input::MoveRight => {
                self.handle_move(input);
                proof {
                    if !spec_has_pending(old(self).effects@, old(self).player.id, 2) {
                        assert(self.effects@ == old(self).effects@);
                    }
                }
            },
            Input::AttackUp | Input::AttackDown | Input::AttackLeft | Input::AttackRight
                | Input::SpecialOne | Input::SpecialTwo | Input::SpecialThree => {
                self.handle_attack(input);
            },
            Input::Use => {
                let mut player_on_enemy = false;
                let mut enemy_with_loot: usize = 0;
                let mut found_loot = false;

                let n = self.enemies.len();
                let mut k: usize = 0;
                while k < n
                    invariant
                        self.wf(),
                        *self == *old(self),
                        n == self.enemies@.len(),
                        0 <= k <= n,
                        found_loot ==> enemy_with_loot < n,
                        player_on_enemy == (exists|i: int|
                            0 <= i < k && (#[trigger] self.enemies@[i]).pos_row
                                == self.player.pos_row && self.enemies@[i].pos_col
                                == self.player.pos_col),
                    decreases n - k,
                {
                    if self.enemies[k].pos_row == self.player.pos_row && self.enemies[k].pos_col
                        == self.player.pos_col {
                        player_on_enemy = true;
                        if !found_loot && self.enemies[k].backpack.size() > 0 {
                            enemy_with_loot = k;
                            found_loot = true;
                        }
                    }
                    k += 1;
                }

                if player_on_enemy {
                    if found_loot {
                        self.enemy_loot_index = enemy_with_loot;
                        return Action::Loot;
                    } else {
                        self.log.add_message("Nothing to loot here.".to_string());
                        return Action::Game;
                    }
                } else {
                    proof {
                        assert(interior(
                            self.map,
                            self.player.pos_row as int,
                            self.player.pos_col as int,
                        ));
                    }
                    let pr = self.player.pos_row as usize;
                    let pc = self.player.pos_col as usize;
                    if self.map.meta[pr][pc] == Tile::Next {
                        self.enemies.clear();
                        let next_depth = if self.map.level == i32::MAX {
                            i32::MAX
                        } else {
                            self.map.level + 1
                        };
                        let generator = LevelGenerator::new(&self.gen);
                        self.map = generator.generate_level(next_depth);
                        self.set_player_and_monsters();

                        return Action::Game;
                    } else if self.map.meta[pr][pc] == Tile::PlSpawn {
                        self.log.add_message("There is no way up.".to_string());

                        return Action::Game;
                    }

                    return Action::Inventory;
                }
            },
            Input::Quit => {
                return Action::Menu;
            },
            Input::Nothing | Input::Drop => {},
        }

        let ghost moved = *self;
        handle_ki(&self.map, &self.player, &mut self.enemies, &mut self.effects);

        proof {
            // The monsters only queue plain weapon hits, so a tick that
            // started without a pending player storm still has none.
            if !spec_has_pending(moved.effects@, self.player.id, 2) {
                if spec_has_pending(self.effects@, self.player.id, 2) {
                    let i = choose|i: int|
                        0 <= i < self.effects@.len() && (#[trigger] self.effects@[i]).spec_actor_id()
                            == self.player.id && self.effects@[i].spec_effect_id() == 2;
                    if i < moved.effects@.len() {
                        assert(self.effects@[i] == moved.effects@[i]);
                    }
                }
            }
        }

        self.handle_player_effects();
        self.handle_enemy_effects();

        Action::Game
    }

    /// One movement step: a wall or a living enemy on the target tile
    /// blocks it and nothing changes; otherwise the player walks exactly
    /// one tile in the commanded direction.
    fn handle_move(&mut self, direction: Input)
        requires
            old(self).wf(),
            direction == Input::MoveUp || direction == Input::MoveDown || direction
                == Input::MoveLeft || direction == Input::MoveRight,
        ensures
            final(self).wf(),
            *final(self) == (Game {
                player: final(self).player,
                ..*old(self)
            }),
            final(self).player == (Entity {
                pos_row: final(self).player.pos_row,
                pos_col: final(self).player.pos_col,
                ..old(self).player
            }),
            final(self).game_state == old(self).game_state,
            ({
                let t = spec_move_target(old(self).player, direction);
                &&& (spec_move_blocked(old(self).map, old(self).enemies@, t.0, t.1)
                    ==> *final(self) == *old(self))
                &&& (!spec_move_blocked(old(self).map, old(self).enemies@, t.0, t.1) ==> final(self).player == (Entity {
                    pos_row: t.0 as i32,
                    pos_col: t.1 as i32,
                    ..old(self).player
                }))
            }),
    {
        proof {
            assert(interior(self.map, self.player.pos_row as int, self.player.pos_col as int));
        }

        let mut target_row = self.player.pos_row;
        let mut target_col = self.player.pos_col;

        match direction {
            Input::MoveUp => target_row -= 1,
            Input::MoveDown => target_row += 1,
            Input::MoveLeft => target_col -= 1,
            Input::MoveRight => target_col += 1,
            _ => {},
        }

        // A wall blocks the step.
        if self.map.map[target_row as usize][target_col as usize] == Tile::Wall {
            return;
        }

        // A living enemy blocks the step.
        let n = self.enemies.len();
        let mut k: usize = 0;
        let mut occupied = false;
        while k < n && !occupied
            invariant
                *self == *old(self),
                self.wf(),
                n == self.enemies@.len(),
                0 <= k <= n,
                !occupied ==> forall|j: int|
                    0 <= j < k ==> !((#[trigger] self.enemies@[j]).current_life > 0
                        && self.enemies@[j].pos_row == target_row && self.enemies@[j].pos_col
                        == target_col),
                occupied ==> exists|j: int|
                    0 <= j < n && (#[trigger] self.enemies@[j]).current_life > 0
                        && self.enemies@[j].pos_row == target_row && self.enemies@[j].pos_col
                        == target_col,
            decreases n - k, (if occupied { 0int } else { 1int }),
        {
            if !self.enemies[k].is_death() && target_row == self.enemies[k].pos_row && target_col
                == self.enemies[k].pos_col {
                occupied = true;
            } else {
                k += 1;
            }
        }
        if occupied {
            return;
        }

        proof {
            assert(crate::level::floor_closed_at(
                self.map,
                self.player.pos_row as int,
                self.player.pos_col as int,
            ));
            assert(is_terrain(tile_at(self.map, target_row as int, target_col as int)));
        }

        self.player.pos_row = target_row;
        self.player.pos_col = target_col;
    }

    /// Queues an attack or special effect. A directional special needs a
    /// follow-up direction command: the first press only arms it, the next
    /// directional command builds the correctly directed effect. The
    /// de-duplication rule silently drops an effect whose kind is already
    /// pending for the player.
    fn handle_attack(&mut self, direction: Input)
        requires
            old(self).wf(),
            direction == Input::AttackUp || direction == Input::AttackDown || direction
                == Input::AttackLeft || direction == Input::AttackRight || direction
                == Input::SpecialOne || direction == Input::SpecialTwo || direction
                == Input::SpecialThree,
        ensures
            final(self).wf(),
            final(self).game_state == old(self).game_state,
            final(self).player == old(self).player,
            final(self).enemies == old(self).enemies,
            final(self).map == old(self).map,
            direction == Input::SpecialOne ==> *final(self) == (Game {
                player_special_one: true,
                ..*old(self)
            }),
            direction == Input::SpecialThree ==> *final(self) == (Game {
                player_special_three: true,
                ..*old(self)
            }),
            direction == Input::SpecialTwo ==> ({
                let kick = Effect::RoundHouse(
                    RoundHouse { id: old(self).player.id, activated: false, cool_down: 4 },
                );
                &&& (spec_has_pending(old(self).effects@, old(self).player.id, 3)
                    ==> *final(self) == *old(self))
                &&& (!spec_has_pending(old(self).effects@, old(self).player.id, 3) ==> {
                    &&& *final(self) == (Game { effects: final(self).effects, ..*old(self) })
                    &&& final(self).effects@ == old(self).effects@.push(kick)
                })
            }),
            (direction == Input::AttackUp || direction == Input::AttackDown || direction
                == Input::AttackLeft || direction == Input::AttackRight) ==> ({
                let facing = spec_attack_facing(direction);
                let queued = if old(self).player_special_one {
                    Effect::Storm(
                        Storm {
                            direction: facing,
                            id: old(self).player.id,
                            activated: false,
                            cool_down: 10,
                        },
                    )
                } else {
                    Effect::WeaponHit(WeaponHit { direction: facing, id: old(self).player.id })
                };
                let dup = spec_has_pending(
                    old(self).effects@,
                    old(self).player.id,
                    queued.spec_effect_id(),
                );
                &&& *final(self) == (Game {
                    effects: final(self).effects,
                    player_special_one: false,
                    player_special_two: false,
                    player_special_three: false,
                    ..*old(self)
                })
                &&& (dup ==> final(self).effects@ == old(self).effects@)
                &&& (!dup ==> final(self).effects@ == old(self).effects@.push(queued))
            }),
    {
        match direction {
            Input::SpecialOne => {
                self.player_special_one = true;
            },
            Input::SpecialTwo => {
                // The round-house kick is directionless and queues at once.
                let effect = Effect::RoundHouse(RoundHouse::new(self.player.id));
                if effect.valid(&self.effects) {
                    self.effects.push(effect);
                }
            },
            Input::SpecialThree => {
                self.player_special_three = true;
            },
            _ => {
                let attack_direction = match direction {
                    Input::AttackUp => AttackDirection::North,
                    Input::AttackDown => AttackDirection::South,
                    Input::AttackLeft => AttackDirection::West,
                    _ => AttackDirection::East,
                };

                let hit: Effect = if self.player_special_one {
                    Effect::Storm(Storm::new(self.player.id, attack_direction))
                } else if self.player_special_three {
                    Effect::WeaponHit(WeaponHit::new(self.player.id, attack_direction))
                } else {
                    Effect::WeaponHit(WeaponHit::new(self.player.id, attack_direction))
                };

                if hit.valid(&self.effects) {
                    self.effects.push(hit);
                }

                self.player_special_one = false;
                self.player_special_two = false;
                self.player_special_three = false;
            },
        }
    }

    /// Runs every pending effect of the player against every enemy, then
    /// advances each and drops the finished ones, walking the indices in
    /// reverse to keep them valid during removal.
    fn handle_player_effects(&mut self)
        requires
            old(self).wf(),
        ensures
            final(self).wf(),
            *final(self) == (Game {
                log: final(self).log,
                player: final(self).player,
                enemies: final(self).enemies,
                effects: final(self).effects,
                ..*old(self)
            }),
            final(self).enemies@.len() == old(self).enemies@.len(),
            final(self).game_state == old(self).game_state,
            !spec_has_pending(old(self).effects@, old(self).player.id, 2) ==> {
                &&& final(self).player.pos_row == old(self).player.pos_row
                &&& final(self).player.pos_col == old(self).player.pos_col
            },
    {
        let mut player_effects: Vec<usize> = Vec::new();
        let n = self.effects.len();
        let mut index: usize = 0;

        while index < n
            invariant
                self.effects == old(self).effects,
                self.player == old(self).player,
                n == self.effects@.len(),
                0 <= index <= n,
                forall|k: int|
                    0 <= k < player_effects@.len() ==> (#[trigger] player_effects@[k]) < index,
                forall|k: int, l: int|
                    0 <= k < l < player_effects@.len() ==> (#[trigger] player_effects@[k])
                        < (#[trigger] player_effects@[l]),
                forall|k: int|
                    0 <= k < player_effects@.len() ==> old(self).effects@[(
                    #[trigger] player_effects@[k]) as int].spec_actor_id() == old(self).player.id,
            decreases n - index,
        {
            if self.effects[index].actor_id() == self.player.id {
                player_effects.push(index);
            }
            index += 1;
        }

        let m = player_effects.len();
        let mut j: usize = 0;
        while j < m
            invariant
                self.wf(),
                self.map == old(self).map,
                self.effects == old(self).effects,
                self.player == old(self).player,
                self.game_state == old(self).game_state,
                *self == (Game {
                    log: self.log,
                    enemies: self.enemies,
                    ..*old(self)
                }),
                self.enemies@.len() == old(self).enemies@.len(),
                m == player_effects@.len(),
                0 <= j <= m,
                forall|k: int|
                    0 <= k < player_effects@.len() ==> (#[trigger] player_effects@[k])
                        < self.effects@.len(),
            decreases m - j,
        {
            let effect_index = player_effects[j];
            let n_enemies = self.enemies.len();
            let mut enemy_index: usize = 0;
            while enemy_index < n_enemies
                invariant
                    self.wf(),
                    self.map == old(self).map,
                    self.effects == old(self).effects,
                    self.player == old(self).player,
                    self.game_state == old(self).game_state,
                    *self == (Game {
                        log: self.log,
                        enemies: self.enemies,
                        ..*old(self)
                    }),
                    n_enemies == self.enemies@.len(),
                    self.enemies@.len() == old(self).enemies@.len(),
                    0 <= enemy_index <= n_enemies,
                    effect_index < self.effects@.len(),
                decreases n_enemies - enemy_index,
            {
                let eff = &self.effects[effect_index];
                let ghost pre_enemies = self.enemies@;
                let enemy = vstd::std_specs::vec::vec_index_mut(&mut self.enemies, enemy_index);
                eff.execute(&self.gen, &mut self.log, &self.map, &self.player, enemy);
                proof {
                    assert forall|k: int|
                        0 <= k < self.enemies@.len() implies entity_wf(#[trigger] self.enemies@[k])
                        && on_floor(self.map, self.enemies@[k]) by {
                        if k != enemy_index {
                            assert(self.enemies@[k] == pre_enemies[k]);
                        }
                    }
                }
                enemy_index += 1;
            }
            j += 1;
        }

        let mut j: usize = m;
        while j > 0
            invariant
                self.wf(),
                self.map == old(self).map,
                self.player == (Entity {
                    pos_row: self.player.pos_row,
                    pos_col: self.player.pos_col,
                    ..old(self).player
                }),
                self.game_state == old(self).game_state,
                *self == (Game {
                    log: self.log,
                    player: self.player,
                    enemies: self.enemies,
                    effects: self.effects,
                    ..*old(self)
                }),
                self.enemies@.len() == old(self).enemies@.len(),
                m == player_effects@.len(),
                0 <= j <= m,
                forall|k: int, l: int|
                    0 <= k < l < player_effects@.len() ==> (#[trigger] player_effects@[k])
                        < (#[trigger] player_effects@[l]),
                forall|k: int| 0 <= k < j ==> (#[trigger] player_effects@[k]) < self.effects@.len(),
                self.effects@.len() <= old(self).effects@.len(),
                forall|k: int|
                    0 <= k < player_effects@.len() ==> (#[trigger] player_effects@[k]) < old(self).effects@.len(),
                forall|k: int|
                    0 <= k < player_effects@.len() ==> old(self).effects@[(
                    #[trigger] player_effects@[k]) as int].spec_actor_id() == old(self).player.id,
                forall|k: int|
                    0 <= k < j ==> self.effects@[(#[trigger] player_effects@[k]) as int] == old(self).effects@[player_effects@[k] as int],
                !spec_has_pending(old(self).effects@, old(self).player.id, 2) ==> {
                    &&& self.player.pos_row == old(self).player.pos_row
                    &&& self.player.pos_col == old(self).player.pos_col
                },
            decreases j,
        {
            j -= 1;
            let effect_index = player_effects[j];
            let ghost pre_effects = self.effects@;
            let ghost pre_player = self.player;
            proof {
                if !spec_has_pending(old(self).effects@, old(self).player.id, 2) {
                    // The processed effect is the player's and, with no storm
                    // pending, not a storm: advancing it cannot move anyone.
                    assert(self.effects@[effect_index as int] == old(self).effects@[effect_index as int]);
                    assert(old(self).effects@[effect_index as int].spec_actor_id() == old(self).player.id);
                    if old(self).effects@[effect_index as int].spec_effect_id() == 2 {
                        assert(spec_has_pending(old(self).effects@, old(self).player.id, 2));
                    }
                }
            }
            let finished = {
                let eff = vstd::std_specs::vec::vec_index_mut(&mut self.effects, effect_index);
                eff.done(&mut self.player, &self.map)
            };
            proof {
                assert forall|k: int|
                    0 <= k < self.effects@.len() && k != effect_index implies (
                #[trigger] self.effects@[k]) == pre_effects[k] by {}
            }
            if finished {
                let _ = self.effects.remove(effect_index);
            }
            proof {
                assert forall|i: int|
                    0 <= i < self.effects@.len() implies (#[trigger] self.effects@[i]).wf() by {
                    if finished && i >= effect_index {
                        assert(self.effects@[i] == pre_effects[i + 1]);
                    }
                }
                assert(self.player == (Entity {
                    pos_row: self.player.pos_row,
                    pos_col: self.player.pos_col,
                    ..pre_player
                }));
            }
        }
    }

    /// Runs every pending enemy effect against the player, then advances
    /// and expires them the same way. An effect whose actor is gone or dead
    /// is skipped; only the player's own lingering cooldowns outlive a
    /// level.
    fn handle_enemy_effects(&mut self)
        requires
            old(self).wf(),
        ensures
            final(self).wf(),
            *final(self) == (Game {
                log: final(self).log,
                player: final(self).player,
                enemies: final(self).enemies,
                effects: final(self).effects,
                ..*old(self)
            }),
            final(self).player == (Entity {
                current_life: final(self).player.current_life,
                ..old(self).player
            }),
            final(self).enemies@.len() == old(self).enemies@.len(),
            final(self).game_state == old(self).game_state,
    {
        let mut enemy_effects: Vec<usize> = Vec::new();
        let n = self.effects.len();
        let mut index: usize = 0;

        while index < n
            invariant
                n == self.effects@.len(),
                0 <= index <= n,
                forall|k: int|
                    0 <= k < enemy_effects@.len() ==> (#[trigger] enemy_effects@[k]) < index,
                forall|k: int, l: int|
                    0 <= k < l < enemy_effects@.len() ==> (#[trigger] enemy_effects@[k])
                        < (#[trigger] enemy_effects@[l]),
            decreases n - index,
        {
            if self.effects[index].actor_id() != self.player.id {
                enemy_effects.push(index);
            }
            index += 1;
        }

        let m = enemy_effects.len();
        let mut j: usize = 0;
        while j < m
            invariant
                self.wf(),
                self.map == old(self).map,
                self.effects == old(self).effects,
                self.enemies == old(self).enemies,
                self.game_state == old(self).game_state,
                *self == (Game {
                    log: self.log,
                    player: self.player,
                    ..*old(self)
                }),
                self.player == (Entity {
                    current_life: self.player.current_life,
                    ..old(self).player
                }),
                m == enemy_effects@.len(),
                0 <= j <= m,
                forall|k: int|
                    0 <= k < enemy_effects@.len() ==> (#[trigger] enemy_effects@[k])
                        < self.effects@.len(),
            decreases m - j,
        {
            let effect_index = enemy_effects[j];

            let actor = self.effects[effect_index].actor_id();
            let n_enemies = self.enemies.len();
            let mut enemy_index: usize = 0;
            let mut found = false;
            while enemy_index < n_enemies && !found
                invariant
                    n_enemies == self.enemies@.len(),
                    0 <= enemy_index <= n_enemies,
                    found ==> enemy_index < n_enemies,
                decreases n_enemies - enemy_index, (if found { 0int } else { 1int }),
            {
                if self.enemies[enemy_index].id == actor {
                    found = true;
                } else {
                    enemy_index += 1;
                }
            }

            if found && !self.enemies[enemy_index].is_death() {
                // A dead monster is never the source of a new combat
                // resolution, even through its still-pending effect.
                let eff = &self.effects[effect_index];
                let me = &self.enemies[enemy_index];
                eff.execute(&self.gen, &mut self.log, &self.map, me, &mut self.player);
            }
            j += 1;
        }

        let mut j: usize = m;
        while j > 0
            invariant
                self.wf(),
                self.map == old(self).map,
                self.game_state == old(self).game_state,
                *self == (Game {
                    log: self.log,
                    player: self.player,
                    enemies: self.enemies,
                    effects: self.effects,
                    ..*old(self)
                }),
                self.player == (Entity {
                    current_life: self.player.current_life,
                    ..old(self).player
                }),
                self.enemies@.len() == old(self).enemies@.len(),
                m == enemy_effects@.len(),
                0 <= j <= m,
                forall|k: int, l: int|
                    0 <= k < l < enemy_effects@.len() ==> (#[trigger] enemy_effects@[k])
                        < (#[trigger] enemy_effects@[l]),
                forall|k: int| 0 <= k < j ==> (#[trigger] enemy_effects@[k]) < self.effects@.len(),
            decreases j,
        {
            j -= 1;
            let effect_index = enemy_effects[j];

            let actor = self.effects[effect_index].actor_id();
            let n_enemies = self.enemies.len();
            let mut enemy_index: usize = 0;
            let mut found = false;
            while enemy_index < n_enemies && !found
                invariant
                    n_enemies == self.enemies@.len(),
                    0 <= enemy_index <= n_enemies,
                    found ==> enemy_index < n_enemies,
                decreases n_enemies - enemy_index, (if found { 0int } else { 1int }),
            {
                if self.enemies[enemy_index].id == actor {
                    found = true;
                } else {
                    enemy_index += 1;
                }
            }

            if found {
                let ghost pre_effects = self.effects@;
                let ghost pre_enemies = self.enemies@;
                let finished = {
                    let eff = vstd::std_specs::vec::vec_index_mut(&mut self.effects, effect_index);
                    let me = vstd::std_specs::vec::vec_index_mut(&mut self.enemies, enemy_index);
                    eff.done(me, &self.map)
                };
                proof {
                    assert forall|k: int|
                        0 <= k < self.enemies@.len() implies entity_wf(#[trigger] self.enemies@[k])
                        && on_floor(self.map, self.enemies@[k]) by {
                        if k != enemy_index {
                            assert(self.enemies@[k] == pre_enemies[k]);
                        }
                    }
                }
                if finished {
                    let _ = self.effects.remove(effect_index);
                }
                proof {
                    assert forall|i: int|
                        0 <= i < self.effects@.len() implies (#[trigger] self.effects@[i]).wf() by {
                        if finished && i >= effect_index {
                            assert(self.effects@[i] == pre_effects[i + 1]);
                        } else if !finished && i != effect_index {
                            assert(self.effects@[i] == pre_effects[i]);
                        }
                    }
                }
            }
        }
    }
}

/// A percentage of a maximum, rounded half away from zero: the heal amount
/// of a potion.
pub open spec fn spec_percent_of(max_life: int, pct: int) -> int {
    if max_life * pct >= 0 {
        (max_life * pct + 50) / 100
    } else {
        -(((-(max_life * pct)) + 50) / 100)
    }
}

/// Computes a percentage of a maximum, rounded half away from zero.
fn scale_percent(max_life: i32, pct: i32) -> (r: i32)
    requires
        -2_000_000_000 <= max_life <= 2_000_000_000,
        0 <= pct <= 100,
    ensures
        r as int == spec_percent_of(max_life as int, pct as int),
        -2_000_000_000 <= r <= 2_000_000_000,
{
    proof {
        assert(-200_000_000_000i64 <= (max_life as i64) * (pct as i64) <= 200_000_000_000i64
            && (max_life as i64) * (pct as i64) == max_life as int * pct as int)
            by (nonlinear_arith)
            requires
                -2_000_000_000 <= max_life as i64 <= 2_000_000_000,
                0 <= pct as i64 <= 100,
        ;
    }
    let p: i64 = max_life as i64 * pct as i64;
    let r: i64 = if p >= 0 {
        (p + 50) / 100
    } else {
        -((-p + 50) / 100)
    };
    r as i32
}

} // verus!
