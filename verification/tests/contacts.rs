//! Tests of the contact relation and the contact-diffing engine.

use baobei_needs::collisions::{BoxCollider, Position, TriggerArea};
use baobei_needs::contacts::{
    trigger_area_system, ColliderRow, Contact, ContactEvent, ContactStore, TriggerRow,
};

fn at(x: i32, y: i32) -> Position {
    Position { x, y, z: 0 }
}

fn mover(entity: u64, x: i32, y: i32) -> ColliderRow {
    ColliderRow {
        entity,
        position: at(x, y),
        collider: BoxCollider::new(10, 10),
    }
}

fn area(entity: u64, x: i32, y: i32) -> TriggerRow {
    TriggerRow {
        entity,
        position: at(x, y),
        area: TriggerArea::new(10, 10),
    }
}

#[test]
fn contact_symmetry() {
    // Equal as unordered pairs, whichever entity comes first.
    assert_eq!(Contact(1, 2), Contact(2, 1));
    assert_eq!(Contact(1, 2), Contact(1, 2));
    assert_ne!(Contact(1, 2), Contact(1, 3));
    // The canonical key, which any hashing must be computed from, is
    // identical for both orders.
    assert_eq!(Contact(1, 2).canonical(), Contact(2, 1).canonical());
    assert_eq!(Contact(7, 7).canonical(), (7, 7));
}

#[test]
fn no_self_contact_is_reported() {
    // The same entity appears as a mover and as a trigger area at the same
    // spot: it must not be matched against itself.
    let mut store = ContactStore::new();
    let movers = vec![mover(1, 0, 0)];
    let areas = vec![area(1, 0, 0)];

    let events = trigger_area_system(&mut store, &movers, &areas);

    assert!(events.is_empty());
    assert!(store.records.is_empty());
}

#[test]
fn steady_contact_fires_started_exactly_once() {
    let mut store = ContactStore::new();
    let movers = vec![mover(1, 0, 0)];
    let areas = vec![area(2, 5, 0)];

    // First tick of overlap: exactly one Started event, one record.
    let events = trigger_area_system(&mut store, &movers, &areas);
    assert_eq!(events, vec![ContactEvent::Started(Contact(1, 2))]);
    assert_eq!(store.records.len(), 1);
    let handle = store.records[0].handle;

    // The same overlap across further ticks: no event, the record and its
    // handle stay exactly as they were.
    for _ in 0..10 {
        let events = trigger_area_system(&mut store, &movers, &areas);
        assert!(events.is_empty());
        assert_eq!(store.records.len(), 1);
        assert_eq!(store.records[0].handle, handle);
        assert_eq!(store.records[0].contact, Contact(1, 2));
    }
}

#[test]
fn exit_fires_stopped_exactly_once() {
    let mut store = ContactStore::new();
    let areas = vec![area(2, 5, 0)];

    let events = trigger_area_system(&mut store, &vec![mover(1, 0, 0)], &areas);
    assert_eq!(events, vec![ContactEvent::Started(Contact(1, 2))]);

    // The mover leaves in one tick: a single Stopped event, record removed.
    let events = trigger_area_system(&mut store, &vec![mover(1, 100, 0)], &areas);
    assert_eq!(events, vec![ContactEvent::Stopped(Contact(1, 2))]);
    assert!(store.records.is_empty());

    // Staying away adds nothing.
    let events = trigger_area_system(&mut store, &vec![mover(1, 100, 0)], &areas);
    assert!(events.is_empty());
    assert!(store.records.is_empty());
}

#[test]
fn empty_queries_produce_no_contacts() {
    let mut store = ContactStore::new();
    let events = trigger_area_system(&mut store, &Vec::new(), &Vec::new());
    assert!(events.is_empty());
    assert!(store.records.is_empty());
}

#[test]
fn duplicate_query_rows_yield_one_contact() {
    // The same mover listed twice still makes a single contact and a single
    // Started event.
    let mut store = ContactStore::new();
    let movers = vec![mover(1, 0, 0), mover(1, 0, 0)];
    let areas = vec![area(2, 5, 0)];

    let events = trigger_area_system(&mut store, &movers, &areas);

    assert_eq!(events, vec![ContactEvent::Started(Contact(1, 2))]);
    assert_eq!(store.records.len(), 1);
}

#[test]
fn independent_pairs_get_independent_records() {
    let mut store = ContactStore::new();
    let movers = vec![mover(1, 0, 0)];
    let areas = vec![area(2, 5, 0), area(3, -5, 0), area(4, 100, 100)];

    let events = trigger_area_system(&mut store, &movers, &areas);

    // Two overlapping areas, one distant: two contacts started.
    assert_eq!(events.len(), 2);
    assert!(events.contains(&ContactEvent::Started(Contact(1, 2))));
    assert!(events.contains(&ContactEvent::Started(Contact(1, 3))));
    assert_eq!(store.records.len(), 2);
    assert_ne!(store.records[0].handle, store.records[1].handle);

    // One pair separates: only that one stops.
    let movers = vec![mover(1, 5, 0)];
    let events = trigger_area_system(&mut store, &movers, &areas);
    assert_eq!(events, vec![ContactEvent::Stopped(Contact(1, 3))]);
    assert_eq!(store.records.len(), 1);
    assert_eq!(store.records[0].contact, Contact(1, 2));
}
