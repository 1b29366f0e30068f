use std::cell::Cell;
use rogue_core::backpack::Backpack;
use rogue_core::effect::Effect;
use rogue_core::entity::Entity;
use rogue_core::fight::Generator;
use rogue_core::game::{Game, Action, Input, InventoryPointer};
use rogue_core::item::{Item, Type, StatsMod};
use rogue_core::ki::handle_ki;
use rogue_core::level::Level;
use rogue_core::log::Log;

struct Lcg {
    state: Cell<u64>,
}

impl Lcg {
    fn new(seed: u64) -> Lcg {
        Lcg { state: Cell::new(seed.wrapping_mul(2862933555777941757).wrapping_add(3037000493)) }
    }
}

impl Generator for Lcg {
    fn generate(&self, min_inclusive: i32, max_inclusive: i32) -> i32 {
        let next = self.state.get().wrapping_mul(6364136223846793005).wrapping_add(1442695040888963407);
        self.state.set(next);
        let span = (max_inclusive - min_inclusive + 1) as u64;
        min_inclusive + ((next >> 16) % span) as i32
    }
}

/// A session on the fixed starter level with no monsters, the player in
/// the room's upper-left corner.
fn quiet_game(state: Action) -> Game<Lcg> {
    let mut player = Entity::new(0);
    player.pos_row = 2;
    player.pos_col = 2;
    Game {
        log: Log { messages: Vec::new() },
        map: Level::new(),
        player,
        entity_count: 1,
        enemies: Vec::new(),
        effects: Vec::new(),
        game_state: state,
        backpack_index: 0,
        inventory_pointer: InventoryPointer::Backpack,
        character_pointer: Type::Head,
        enemy_loot_index: 0,
        player_special_one: false,
        player_special_two: false,
        player_special_three: false,
        gen: Lcg::new(99),
    }
}

#[test]
fn menu_and_quit_transitions() {
    let mut game = Game::new(Lcg::new(1));
    game.init();
    assert_eq!(Action::Game, game.game_state);

    game.tick(Input::Quit);
    assert_eq!(Action::Menu, game.game_state);

    game.tick(Input::Nothing);
    assert_eq!(Action::Menu, game.game_state);

    game.tick(Input::Quit);
    assert_eq!(Action::Game, game.game_state);

    game.tick(Input::Quit);
    game.tick(Input::Use);
    assert_eq!(Action::Quit, game.game_state);

    // A tick after quitting changes nothing.
    game.tick(Input::Use);
    assert_eq!(Action::Quit, game.game_state);
}

#[test]
fn game_over_and_reset() {
    let mut game = Game::new(Lcg::new(2));
    game.init();
    let name_before = game.player.name.clone();

    game.player.current_life = 0;
    game.tick(Input::Nothing);
    assert_eq!(Action::GameOver, game.game_state);

    // Confirm resets the run: fresh player with the same name, alive again.
    game.tick(Input::Use);
    assert_eq!(Action::Game, game.game_state);
    assert_eq!(name_before, game.player.name);
    assert_eq!(200, game.player.current_life);
    assert!(!game.player.is_death());
}

#[test]
fn movement_blocked_by_walls() {
    let mut game = quiet_game(Action::Game);

    // North of the corner tile is the wall ring.
    game.tick(Input::MoveUp);
    assert_eq!(2, game.player.pos_row);
    assert_eq!(2, game.player.pos_col);

    game.tick(Input::MoveRight);
    assert_eq!(2, game.player.pos_row);
    assert_eq!(3, game.player.pos_col);

    game.tick(Input::MoveDown);
    assert_eq!(3, game.player.pos_row);
    assert_eq!(3, game.player.pos_col);
}

#[test]
fn movement_blocked_by_living_enemy() {
    let mut game = quiet_game(Action::Game);
    let mut blocker = Entity::new(1);
    blocker.pos_row = 2;
    blocker.pos_col = 3;
    game.enemies.push(blocker);

    game.tick(Input::MoveRight);
    assert_eq!(2, game.player.pos_col);

    // A dead enemy no longer blocks.
    game.enemies[0].current_life = 0;
    game.tick(Input::MoveRight);
    assert_eq!(3, game.player.pos_col);
}

#[test]
fn special_attacks_queue_and_deduplicate() {
    let mut game = quiet_game(Action::Game);

    // The round-house kick needs no direction and queues at once; a second
    // press while it is pending is rejected.
    game.tick(Input::SpecialTwo);
    assert_eq!(1, game.effects.len());
    game.tick(Input::SpecialTwo);
    assert_eq!(1, game.effects.len());

    // A directional special arms on the first press and queues on the
    // follow-up direction.
    game.tick(Input::SpecialOne);
    assert_eq!(1, game.effects.len());
    game.tick(Input::AttackUp);
    assert_eq!(2, game.effects.len());
    assert_eq!(2, game.effects[1].effect_id());
}

#[test]
fn scenario_potion_heals_to_cap() {
    let mut game = quiet_game(Action::Inventory);
    game.player.current_life = 50;

    let mut heal_mods: Vec<StatsMod> = Vec::new();
    heal_mods.push(StatsMod::Heal(50));
    let potion = Item { item_type: Type::Potion, name: "Healing Potion".to_string(), modifications: heal_mods };
    let _ = game.player.backpack.add_item(potion);

    // Half of the maximum life of 200 heals one hundred points.
    game.tick(Input::Use);
    assert_eq!(Action::Inventory, game.game_state);
    assert_eq!(150, game.player.current_life);
    assert_eq!(0, game.player.backpack.size());

    // A second potion overshoots and clamps at the maximum.
    let mut big_mods: Vec<StatsMod> = Vec::new();
    big_mods.push(StatsMod::Heal(100));
    let big = Item { item_type: Type::Potion, name: "Healing Potion".to_string(), modifications: big_mods };
    let _ = game.player.backpack.add_item(big);
    game.tick(Input::Use);
    assert_eq!(200, game.player.current_life);
}

#[test]
fn inventory_equip_swaps_back_to_same_slot() {
    let mut game = quiet_game(Action::Inventory);

    let first = Item {
        item_type: Type::Head,
        name: "Old Helm".to_string(),
        modifications: Vec::new(),
    };
    let second = Item {
        item_type: Type::Head,
        name: "New Helm".to_string(),
        modifications: Vec::new(),
    };
    let _ = game.player.backpack.add_item(first);
    let _ = game.player.backpack.add_item(second);

    // Equip the first helm: the slot was empty, nothing comes back.
    game.tick(Input::Use);
    assert_eq!("Old Helm", game.player.head_item.name);
    assert_eq!(1, game.player.backpack.size());

    // Equip the second helm: the first comes back into the same slot.
    game.tick(Input::Use);
    assert_eq!("New Helm", game.player.head_item.name);
    assert_eq!(1, game.player.backpack.size());
    assert_eq!("Old Helm", game.player.backpack.items[0].name);
}

#[test]
fn inventory_drop_discards() {
    let mut game = quiet_game(Action::Inventory);
    let junk = Item { item_type: Type::Legs, name: "Worn Trousers".to_string(), modifications: Vec::new() };
    let _ = game.player.backpack.add_item(junk);
    assert_eq!(1, game.player.backpack.size());

    game.tick(Input::Drop);
    assert_eq!(0, game.player.backpack.size());
    assert_eq!(1, game.log.messages.len());
}

#[test]
fn loot_transfer_from_fallen_enemy() {
    let mut game = quiet_game(Action::Game);

    let mut corpse = Entity::new(1);
    corpse.pos_row = 2;
    corpse.pos_col = 2;
    corpse.current_life = 0;
    let trophy = Item { item_type: Type::Chest, name: "Trophy Armor".to_string(), modifications: Vec::new() };
    let _ = corpse.backpack.add_item(trophy);
    game.enemies.push(corpse);

    // Standing on the corpse, confirm opens the loot screen.
    game.tick(Input::Use);
    assert_eq!(Action::Loot, game.game_state);
    assert_eq!(0, game.backpack_index);

    // Confirm transfers the indexed item into the player's backpack.
    game.tick(Input::Use);
    assert_eq!(1, game.player.backpack.size());
    assert_eq!("Trophy Armor", game.player.backpack.items[0].name);
    assert_eq!(0, game.enemies[0].backpack.size());

    game.tick(Input::Quit);
    assert_eq!(Action::Game, game.game_state);
}

#[test]
fn interact_on_spawn_logs_no_way_up() {
    let mut game = quiet_game(Action::Game);
    // The quiet game's player stands on the starter level's spawn marker.
    game.tick(Input::Use);
    assert_eq!(Action::Game, game.game_state);
    let message = game.log.get_message().expect("a message was logged");
    assert_eq!("There is no way up.", message);
}

#[test]
fn ki_adjacent_enemy_queues_attack() {
    let map = Level::new();
    let mut player = Entity::new(0);
    player.pos_row = 3;
    player.pos_col = 3;
    let mut enemy = Entity::new(5);
    enemy.pos_row = 3;
    enemy.pos_col = 4;
    let mut enemies = vec![enemy];
    let mut effects: Vec<Effect> = Vec::new();

    handle_ki(&map, &player, &mut enemies, &mut effects);
    assert_eq!(1, effects.len());
    assert_eq!(5, effects[0].actor_id());
    assert_eq!(1, effects[0].effect_id());

    // The adjacent enemy does not move, and a second tick queues no
    // duplicate.
    assert_eq!(3, enemies[0].pos_row);
    assert_eq!(4, enemies[0].pos_col);
    handle_ki(&map, &player, &mut enemies, &mut effects);
    assert_eq!(1, effects.len());
}

#[test]
fn ki_nearby_enemy_steps_closer() {
    let map = Level::new();
    let mut player = Entity::new(0);
    player.pos_row = 3;
    player.pos_col = 3;
    let mut enemy = Entity::new(6);
    enemy.pos_row = 3;
    enemy.pos_col = 6;
    let mut enemies = vec![enemy];
    let mut effects: Vec<Effect> = Vec::new();

    handle_ki(&map, &player, &mut enemies, &mut effects);
    assert_eq!(0, effects.len());
    assert_eq!(3, enemies[0].pos_row);
    assert_eq!(5, enemies[0].pos_col);

    // A dead monster no longer acts.
    enemies[0].current_life = 0;
    handle_ki(&map, &player, &mut enemies, &mut effects);
    assert_eq!(5, enemies[0].pos_col);
}

#[test]
fn dead_player_falls_to_game_over_before_anything() {
    let mut game = quiet_game(Action::Game);
    game.player.current_life = -5;
    game.tick(Input::MoveRight);
    assert_eq!(Action::GameOver, game.game_state);
    // The dead player did not move.
    assert_eq!(2, game.player.pos_col);
}

#[test]
fn fresh_backpack_is_empty() {
    let backpack = Backpack::new();
    assert_eq!(0, backpack.size());
    assert!(backpack.has_space());
}
