use rogue_core::entity::{Entity, change_item, add_stat};
use rogue_core::item::{Item, Type, StatsMod};
use rogue_core::stats::{Stats, Stat};

#[test]
fn test_change_item() {
    let mut player_entity = Entity::new(0);

    let mut attributes: Vec<StatsMod> = Vec::new();
    attributes.push(StatsMod::Add(Stat::Strength(5)));
    attributes.push(StatsMod::Add(Stat::Defense(10)));
    let new_item = Item { modifications: attributes, name: "Helm".to_string(), item_type: Type::Head };

    assert_eq!("Free", player_entity.head_item.name);
    assert_eq!("Helm", new_item.name);

    let old_item = change_item(&mut player_entity.head_item, new_item);

    assert_eq!("Helm", player_entity.head_item.name);
    assert_eq!("Free", old_item.name);
}

#[test]
fn test_add_stat() {
    let mut stats = Stats { vitality: 1, strength: 2, speed: 3, defense: 5 };
    let stat = Stat::Vitality(7);

    add_stat(&mut stats, &stat);

    assert_eq!(8, stats.vitality);
}

#[test]
fn scenario_max_life_and_death() {
    // Base vitality 20 with no gear gives an effective vitality of 20 and a
    // maximum life of 200.
    let mut entity = Entity::new(3);
    assert_eq!(20, entity.calculate_stats().vitality);
    assert_eq!(200, entity.calculate_max_life());
    assert_eq!(200, entity.current_life);
    assert!(!entity.is_death());

    entity.current_life = 0;
    assert!(entity.is_death());
}

fn named_head_item(name: &str, strength: i32) -> Item {
    let mut mods: Vec<StatsMod> = Vec::new();
    mods.push(StatsMod::Add(Stat::Strength(strength)));
    Item { item_type: Type::Head, name: name.to_string(), modifications: mods }
}

#[test]
fn scenario_equip_round_trip() {
    let mut entity = Entity::new(0);

    // Equipping into the empty slot hands back the free sentinel.
    let first = entity.equip(named_head_item("First Helm", 2));
    assert_eq!(Type::Nothing, first.item_type);

    // Equipping a second item hands back exactly the first, unchanged.
    let back = entity.equip(named_head_item("Second Helm", 4));
    assert_eq!("First Helm", back.name);
    assert_eq!(Type::Head, back.item_type);
    assert_eq!(1, back.modifications.len());
    assert_eq!(StatsMod::Add(Stat::Strength(2)), back.modifications[0]);
    assert_eq!("Second Helm", entity.head_item.name);
}

#[test]
fn equip_changes_effective_stats() {
    let mut entity = Entity::new(0);
    let _ = entity.equip(named_head_item("Strong Helm", 7));
    assert_eq!(17, entity.calculate_stats().strength);
    assert_eq!(20, entity.calculate_stats().vitality);

    // Potions and the free sentinel bounce off unchanged.
    let mut heal_mods: Vec<StatsMod> = Vec::new();
    heal_mods.push(StatsMod::Heal(50));
    let potion = Item { item_type: Type::Potion, name: "Potion".to_string(), modifications: heal_mods };
    let bounced = entity.equip(potion);
    assert_eq!(Type::Potion, bounced.item_type);
    assert_eq!("Strong Helm", entity.head_item.name);
}
