use rogue_core::backpack::{Backpack, BACKPACK_SIZE};
use rogue_core::item::{Item, Type};

fn assert_good_result(result: Result<(), Item>) {
    match result {
        Result::Ok(_) => (),
        Result::Err(item) => panic!("Could not add Item {}, but should have", item.name),
    }
}

fn assert_bad_result(result: Result<(), Item>) -> Item {
    match result {
        Result::Ok(_) => panic!("Could add Item, but should not have"),
        Result::Err(item) => item,
    }
}

fn create_special(name: String) -> Item {
    Item { item_type: Type::Chest, name, modifications: Vec::new() }
}

fn create_shorts(n: usize) -> Item {
    Item { item_type: Type::Legs, name: format!("{} Shorts", n), modifications: Vec::new() }
}

#[test]
fn test_backpack() {
    let mut backpack = Backpack::new();
    let add_index = BACKPACK_SIZE / 2;
    let special_name = "Magic Shirt";

    // At the beginnning Backpack is empty.
    assert_eq!(true, backpack.has_space());

    // Add Items to Backpack.
    for n in 0..BACKPACK_SIZE {
        let result = backpack.add_item(create_shorts(n));

        assert_good_result(result);
    }

    // Backpack is full.
    assert_eq!(false, backpack.has_space());

    let too_much = create_special(special_name.to_string());

    // Try to add something, it has to fail.
    let result = backpack.add_item(too_much);
    let too_much = assert_bad_result(result);

    // Remove item now there is space.
    backpack.remove_item(add_index);
    assert_eq!(true, backpack.has_space());

    // Add "old" item again, backpack is full again.
    let result = backpack.add_item(too_much);
    assert_good_result(result);
    assert_eq!(false, backpack.has_space());

    // New Item is in correct position.
    assert_eq!(special_name, backpack.items[BACKPACK_SIZE - 1].name);
}

#[test]
fn scenario_capacity_reject_then_compact() {
    let mut backpack = Backpack::new();

    for n in 0..BACKPACK_SIZE {
        assert_good_result(backpack.add_item(create_shorts(n)));
    }
    assert_eq!(BACKPACK_SIZE, backpack.size());

    // The 21st distinct item bounces back unchanged.
    let extra = create_shorts(999);
    let rejected = assert_bad_result(backpack.add_item(extra));
    assert_eq!("999 Shorts", rejected.name);
    assert_eq!(Type::Legs, rejected.item_type);

    // After removing the item at index 10 the new item lands at the tail,
    // not in the vacated middle slot: removal compacted the backpack.
    backpack.remove_item(10);
    assert_eq!(BACKPACK_SIZE - 1, backpack.size());
    assert_good_result(backpack.add_item(rejected));
    assert_eq!("999 Shorts", backpack.items[BACKPACK_SIZE - 1].name);

    // Compaction left no gap: every slot is still occupied.
    for n in 0..BACKPACK_SIZE {
        assert!(backpack.items[n].item_type != Type::Nothing);
    }
}

#[test]
fn backpack_insert_drops_overflow() {
    let mut backpack = Backpack::new();
    for n in 0..BACKPACK_SIZE {
        assert_good_result(backpack.add_item(create_shorts(n)));
    }

    // Inserting into a full backpack shifts the tail right and silently
    // drops the last item.
    backpack.insert_item(0, create_shorts(500));
    assert_eq!("500 Shorts", backpack.items[0].name);
    assert_eq!("0 Shorts", backpack.items[1].name);
    assert_eq!("18 Shorts", backpack.items[BACKPACK_SIZE - 1].name);
    assert_eq!(false, backpack.has_space());
}

#[test]
fn backpack_empty_slot_bounds() {
    let mut backpack = Backpack::new();
    assert!(backpack.empty_slot(0));
    assert!(!backpack.empty_slot(BACKPACK_SIZE));
    assert_good_result(backpack.add_item(create_shorts(1)));
    assert!(!backpack.empty_slot(0));
    assert!(backpack.empty_slot(1));
    assert_eq!(1, backpack.size());
}
