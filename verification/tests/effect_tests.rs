use rogue_core::effect::{Effect, WeaponHit, Storm, RoundHouse, AttackDirection, resolve_attack_area, resolve_direction};
use rogue_core::entity::Entity;
use rogue_core::level::Level;

#[test]
fn scenario_storm_two_phases() {
    // A storm charge: the first `done` call flings the actor along its
    // direction and is not yet removable; ten further calls count the
    // cooldown off; the twelfth call finally reports the effect finished.
    let map = Level::new();
    let mut me = Entity::new(7);
    me.pos_row = 4;
    me.pos_col = 4;

    let mut effect = Effect::Storm(Storm::new(7, AttackDirection::North));

    assert_eq!(false, effect.done(&mut me, &map));
    // The charge ran north until the wall stopped it.
    assert_eq!(2, me.pos_row);
    assert_eq!(4, me.pos_col);

    for _ in 0..10 {
        assert_eq!(false, effect.done(&mut me, &map));
    }
    assert_eq!(true, effect.done(&mut me, &map));
    // The cooldown phase never moved the actor again.
    assert_eq!(2, me.pos_row);
    assert_eq!(4, me.pos_col);
}

#[test]
fn roundhouse_cooldown_cycle() {
    let map = Level::new();
    let mut me = Entity::new(2);
    me.pos_row = 4;
    me.pos_col = 4;

    let mut effect = Effect::RoundHouse(RoundHouse::new(2));

    // Activation tick, then four cooldown ticks, then removable.
    assert_eq!(false, effect.done(&mut me, &map));
    for _ in 0..4 {
        assert_eq!(false, effect.done(&mut me, &map));
    }
    assert_eq!(true, effect.done(&mut me, &map));
    assert_eq!(4, me.pos_row);
}

#[test]
fn weapon_hit_is_single_tick() {
    let map = Level::new();
    let mut me = Entity::new(3);
    me.pos_row = 4;
    me.pos_col = 4;

    let mut effect = Effect::WeaponHit(WeaponHit::new(3, AttackDirection::East));
    assert_eq!(true, effect.done(&mut me, &map));
}

#[test]
fn scenario_effect_deduplication() {
    // A second effect with the same actor and kind as a pending one is
    // rejected; other kinds and other actors still pass.
    let pending = vec![Effect::Storm(Storm::new(7, AttackDirection::North))];

    let same_pair = Effect::Storm(Storm::new(7, AttackDirection::East));
    assert_eq!(false, same_pair.valid(&pending));

    let other_kind = Effect::RoundHouse(RoundHouse::new(7));
    assert_eq!(true, other_kind.valid(&pending));

    let other_actor = Effect::Storm(Storm::new(8, AttackDirection::North));
    assert_eq!(true, other_actor.valid(&pending));

    let empty: Vec<Effect> = Vec::new();
    assert_eq!(true, same_pair.valid(&empty));
}

#[test]
fn effect_ids_and_direction_need() {
    let hit = Effect::WeaponHit(WeaponHit::new(1, AttackDirection::South));
    let storm = Effect::Storm(Storm::new(1, AttackDirection::South));
    let kick = Effect::RoundHouse(RoundHouse::new(1));

    assert_eq!(1, hit.effect_id());
    assert_eq!(2, storm.effect_id());
    assert_eq!(3, kick.effect_id());
    assert_eq!(1, hit.actor_id());
    assert!(hit.needs_direction());
    assert!(storm.needs_direction());
    assert!(!kick.needs_direction());
}

#[test]
fn attack_area_patterns() {
    let north = resolve_attack_area(&AttackDirection::North, 5, 5);
    assert_eq!(vec![(4, 4), (4, 5), (4, 6)], north);

    let east = resolve_attack_area(&AttackDirection::East, 5, 5);
    assert_eq!(vec![(4, 6), (5, 6), (6, 6)], east);

    let kick = resolve_attack_area(&AttackDirection::RoundHouseKick, 5, 5);
    assert_eq!(8, kick.len());
    assert!(kick.contains(&(4, 4)));
    assert!(kick.contains(&(6, 6)));
    assert!(!kick.contains(&(5, 5)));
}

#[test]
fn cardinal_direction_vectors() {
    assert_eq!((-1, 0), resolve_direction(&AttackDirection::North));
    assert_eq!((1, 0), resolve_direction(&AttackDirection::South));
    assert_eq!((0, 1), resolve_direction(&AttackDirection::East));
    assert_eq!((0, -1), resolve_direction(&AttackDirection::West));
}
