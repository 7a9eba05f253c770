//! Tests of item actions: priority, giving, picking up and dropping.

use baobei_needs::collisions::Position;
use baobei_needs::contacts::{Contact, ContactRecord, ContactStore};
use baobei_needs::cooldown::Cooldown;
use baobei_needs::happiness::Happiness;
use baobei_needs::items::{
    different_item, handle_action, item_from_roll, pick_or_drop_system, random_different_item,
    ActionEvent, AskingItem, Carrying, DroppedItem, Item, ItemProducer,
};

fn at(x: i32, y: i32) -> Position {
    Position { x, y, z: 0 }
}

fn store_of(contacts: Vec<Contact>) -> ContactStore {
    let records = contacts
        .into_iter()
        .enumerate()
        .map(|(i, contact)| ContactRecord {
            contact,
            handle: i as u64,
        })
        .collect::<Vec<_>>();
    let next_handle = records.len() as u64;
    ContactStore {
        records,
        next_handle,
    }
}

const DIDI: u64 = 1;

#[test]
fn producer_beats_asker_when_both_are_in_contact() {
    // The player stands at a WaterGlass producer and a WaterGlass asker at
    // once, empty-handed: only Take fires, never Give.
    let store = store_of(vec![Contact(DIDI, 2), Contact(DIDI, 3)]);
    let producers = vec![(2, ItemProducer(Item::WaterGlass))];
    let askers = vec![(3, AskingItem(Item::WaterGlass))];
    let mut cooldown = Cooldown::from_millis(200);

    let action = pick_or_drop_system(
        &mut cooldown,
        16,
        true,
        DIDI,
        &store,
        &producers,
        &askers,
        &Vec::new(),
        &None,
    );

    assert_eq!(action, Some(ActionEvent::Take(Item::WaterGlass)));
    // Firing the action consumed the cooldown.
    assert!(!cooldown.available());
}

#[test]
fn producer_contact_matches_carried_item() {
    let store = store_of(vec![Contact(DIDI, 2)]);
    let producers = vec![(2, ItemProducer(Item::Chips))];

    // Carrying the produced item puts it away.
    let mut cooldown = Cooldown::from_millis(200);
    let action = pick_or_drop_system(
        &mut cooldown,
        16,
        true,
        DIDI,
        &store,
        &producers,
        &Vec::new(),
        &Vec::new(),
        &Some(Carrying(Item::Chips)),
    );
    assert_eq!(action, Some(ActionEvent::PutAway(Item::Chips)));

    // Carrying a different item keeps it.
    let mut cooldown = Cooldown::from_millis(200);
    let action = pick_or_drop_system(
        &mut cooldown,
        16,
        true,
        DIDI,
        &store,
        &producers,
        &Vec::new(),
        &Vec::new(),
        &Some(Carrying(Item::IceCream)),
    );
    assert_eq!(action, Some(ActionEvent::Keep(Item::IceCream)));
}

#[test]
fn no_action_without_cooldown_or_key() {
    let store = store_of(vec![Contact(DIDI, 2)]);
    let producers = vec![(2, ItemProducer(Item::Chips))];

    // Key not pressed: nothing fires.
    let mut cooldown = Cooldown::from_millis(200);
    let action = pick_or_drop_system(
        &mut cooldown,
        16,
        false,
        DIDI,
        &store,
        &producers,
        &Vec::new(),
        &Vec::new(),
        &None,
    );
    assert_eq!(action, None);

    // Cooldown still running: nothing fires either.
    let mut cooldown = Cooldown::from_millis(200);
    cooldown.start();
    let action = pick_or_drop_system(
        &mut cooldown,
        100,
        true,
        DIDI,
        &store,
        &producers,
        &Vec::new(),
        &Vec::new(),
        &None,
    );
    assert_eq!(action, None);

    // Once the ticks reach the duration, the action fires again.
    let action = pick_or_drop_system(
        &mut cooldown,
        100,
        true,
        DIDI,
        &store,
        &producers,
        &Vec::new(),
        &Vec::new(),
        &None,
    );
    assert_eq!(action, Some(ActionEvent::Take(Item::Chips)));
}

#[test]
fn carried_item_is_given_to_the_asker_in_contact() {
    let store = store_of(vec![Contact(DIDI, 3)]);
    let askers = vec![(3, AskingItem(Item::IceCream))];
    let mut cooldown = Cooldown::from_millis(200);

    let action = pick_or_drop_system(
        &mut cooldown,
        16,
        true,
        DIDI,
        &store,
        &Vec::new(),
        &askers,
        &Vec::new(),
        &Some(Carrying(Item::IceCream)),
    );

    assert_eq!(action, Some(ActionEvent::Give(Item::IceCream)));
}

#[test]
fn empty_handed_player_picks_up_the_ground_item_in_contact() {
    let store = store_of(vec![Contact(DIDI, 9)]);
    let ground = vec![(9, Item::Chips)];
    let mut cooldown = Cooldown::from_millis(200);

    let action = pick_or_drop_system(
        &mut cooldown,
        16,
        true,
        DIDI,
        &store,
        &Vec::new(),
        &Vec::new(),
        &ground,
        &None,
    );

    assert_eq!(action, Some(ActionEvent::PickUp(9, Item::Chips)));
}

#[test]
fn no_contact_and_empty_hands_do_nothing() {
    let store = store_of(Vec::new());
    let mut cooldown = Cooldown::from_millis(200);

    let action = pick_or_drop_system(
        &mut cooldown,
        16,
        true,
        DIDI,
        &store,
        &Vec::new(),
        &Vec::new(),
        &Vec::new(),
        &None,
    );

    assert_eq!(action, None);
    // No action fired, so the cooldown is still available.
    assert!(cooldown.available());
}

#[test]
fn give_rolls_a_different_item() {
    // Baobei asks for IceCream and receives it: the new request is one of
    // the other two items, never IceCream again.
    for _ in 0..50 {
        let mut carrying = Some(Carrying(Item::IceCream));
        let mut asker = AskingItem(Item::IceCream);
        let mut happiness = Happiness::happy();
        happiness.sub(50);

        let dropped = handle_action(
            &ActionEvent::Give(Item::IceCream),
            &mut carrying,
            &mut asker,
            &mut happiness,
            &at(640, 260),
        );

        assert_eq!(dropped, None);
        assert_eq!(carrying, None);
        assert!(asker.0 == Item::WaterGlass || asker.0 == Item::Chips);
    }
}

#[test]
fn give_of_matching_item_raises_happiness() {
    let mut carrying = Some(Carrying(Item::Chips));
    let mut asker = AskingItem(Item::Chips);
    let mut happiness = Happiness::happy();
    happiness.sub(50);

    handle_action(
        &ActionEvent::Give(Item::Chips),
        &mut carrying,
        &mut asker,
        &mut happiness,
        &at(0, 0),
    );

    assert_eq!(happiness.value(), 65);
    assert_eq!(carrying, None);
}

#[test]
fn give_of_wrong_item_lowers_happiness_and_keeps_the_item() {
    let mut carrying = Some(Carrying(Item::WaterGlass));
    let mut asker = AskingItem(Item::Chips);
    let mut happiness = Happiness::happy();

    handle_action(
        &ActionEvent::Give(Item::WaterGlass),
        &mut carrying,
        &mut asker,
        &mut happiness,
        &at(0, 0),
    );

    assert_eq!(happiness.value(), 85);
    assert_eq!(carrying, Some(Carrying(Item::WaterGlass)));
    assert_eq!(asker, AskingItem(Item::Chips));
}

#[test]
fn round_trip_pick_up_and_drop() {
    let mut carrying = None;
    let mut asker = AskingItem(Item::IceCream);
    let mut happiness = Happiness::happy();

    // Picking Chips up makes the player carry them.
    let dropped = handle_action(
        &ActionEvent::PickUp(9, Item::Chips),
        &mut carrying,
        &mut asker,
        &mut happiness,
        &at(640, 260),
    );
    assert_eq!(dropped, None);
    assert_eq!(carrying, Some(Carrying(Item::Chips)));

    // Dropping them empties the slot and puts a pickable item back on the
    // ground at the drop position, with a standalone trigger area.
    let dropped = handle_action(
        &ActionEvent::Drop(Item::Chips),
        &mut carrying,
        &mut asker,
        &mut happiness,
        &at(640, 260),
    );
    assert_eq!(carrying, None);
    let dropped = dropped.expect("dropping must put the item down");
    assert_eq!(dropped.item, Item::Chips);
    assert_eq!(dropped.position, at(640 - 51, 260 - 3));
    assert_eq!(dropped.trigger.width, 75);
    assert_eq!(dropped.trigger.height, 100);
}

#[test]
fn take_and_put_away_toggle_the_carried_slot() {
    let mut carrying = None;
    let mut asker = AskingItem(Item::IceCream);
    let mut happiness = Happiness::happy();

    handle_action(
        &ActionEvent::Take(Item::WaterGlass),
        &mut carrying,
        &mut asker,
        &mut happiness,
        &at(0, 0),
    );
    assert_eq!(carrying, Some(Carrying(Item::WaterGlass)));

    handle_action(
        &ActionEvent::PutAway(Item::WaterGlass),
        &mut carrying,
        &mut asker,
        &mut happiness,
        &at(0, 0),
    );
    assert_eq!(carrying, None);

    // Keep leaves everything alone.
    let mut carrying = Some(Carrying(Item::Chips));
    handle_action(
        &ActionEvent::Keep(Item::Chips),
        &mut carrying,
        &mut asker,
        &mut happiness,
        &at(0, 0),
    );
    assert_eq!(carrying, Some(Carrying(Item::Chips)));
}

#[test]
fn different_item_cycles_to_the_other_variants() {
    assert_eq!(different_item(Item::IceCream, 0), Item::WaterGlass);
    assert_eq!(different_item(Item::IceCream, 1), Item::Chips);
    assert_eq!(different_item(Item::WaterGlass, 0), Item::Chips);
    assert_eq!(different_item(Item::WaterGlass, 1), Item::IceCream);
    assert_eq!(different_item(Item::Chips, 0), Item::IceCream);
    assert_eq!(different_item(Item::Chips, 1), Item::WaterGlass);
}

#[test]
fn random_different_item_never_returns_the_given_one() {
    for _ in 0..100 {
        assert_ne!(random_different_item(Item::IceCream), Item::IceCream);
        assert_ne!(random_different_item(Item::WaterGlass), Item::WaterGlass);
        assert_ne!(random_different_item(Item::Chips), Item::Chips);
    }
}

#[test]
fn item_from_roll_maps_onto_the_three_items() {
    assert_eq!(item_from_roll(0), Item::IceCream);
    assert_eq!(item_from_roll(1), Item::WaterGlass);
    assert_eq!(item_from_roll(2), Item::Chips);
    assert_eq!(item_from_roll(3), Item::IceCream);
    assert_eq!(item_from_roll(u64::MAX), item_from_roll(u64::MAX % 3));
}

#[test]
fn drop_stands_in_for_an_absent_asker() {
    // Carrying, no producer and no asker in contact: the item is dropped.
    let store = store_of(Vec::new());
    let mut cooldown = Cooldown::from_millis(200);

    let action = pick_or_drop_system(
        &mut cooldown,
        16,
        true,
        DIDI,
        &store,
        &Vec::new(),
        &Vec::new(),
        &Vec::new(),
        &Some(Carrying(Item::Chips)),
    );

    assert_eq!(action, Some(ActionEvent::Drop(Item::Chips)));
}

#[test]
fn dropped_item_is_a_plain_record() {
    let d = DroppedItem {
        item: Item::IceCream,
        position: at(1, 2),
        trigger: baobei_needs::collisions::TriggerArea::new(75, 100),
    };
    assert_eq!(d, d);
}
