use rogue_core::item::{Item, Type, StatsMod, item_is_clothing, item_is_weapon, get_fist, get_free};
use rogue_core::stats::Stat;

#[test]
fn test_clothing_check() {
    let legs = Item { item_type: Type::Legs, name: "Legs".to_string(), modifications: Vec::new() };

    assert_eq!(true, item_is_clothing(&legs));

    let modifications: Vec<StatsMod> = vec![
        StatsMod::Damage { min: 1, max: 5 },
        StatsMod::AttackSpeed(1),
    ];
    let weapon = Item { item_type: Type::Weapon, name: "Fists".to_string(), modifications };

    assert_eq!(false, item_is_clothing(&weapon));
}

#[test]
fn test_weapon_check() {
    let modifications: Vec<StatsMod> = vec![
        StatsMod::Damage { min: 1, max: 5 },
        StatsMod::AttackSpeed(1),
    ];
    let fists = Item { item_type: Type::Weapon, name: "Fists".to_string(), modifications };

    assert_eq!(true, item_is_weapon(&fists));

    let legs = Item { item_type: Type::Legs, name: "Legs".to_string(), modifications: Vec::new() };

    assert_eq!(false, item_is_weapon(&legs));
}

#[test]
fn test_malformed_weapon() {
    let modifications = vec![StatsMod::Add(Stat::Strength(5)), StatsMod::Damage { min: 10, max: 20 }];
    let error_weapon = Item { item_type: Type::Weapon, name: "ErrorWeapon".to_string(), modifications };

    assert_eq!(false, item_is_weapon(&error_weapon));
}

#[test]
fn fist_and_free_items() {
    let fist = get_fist();
    assert_eq!(Type::Weapon, fist.item_type);
    assert_eq!((1, 5), fist.get_damage());
    assert!(item_is_weapon(&fist));

    let free = get_free();
    assert_eq!(Type::Nothing, free.item_type);
    assert_eq!("Free", free.name);
    assert!(free.modifications.is_empty());
}

#[test]
fn first_damage_wins() {
    let modifications = vec![
        StatsMod::AttackSpeed(1),
        StatsMod::Damage { min: 3, max: 7 },
        StatsMod::Damage { min: 100, max: 200 },
    ];
    let weapon = Item { item_type: Type::Weapon, name: "Twin Edge".to_string(), modifications };
    assert_eq!((3, 7), weapon.get_damage());
}

#[test]
fn potion_heal_percentage() {
    let modifications = vec![StatsMod::Heal(25)];
    let potion = Item { item_type: Type::Potion, name: "Potion".to_string(), modifications };
    assert_eq!(25, potion.get_heal_percentage());
}
