use hampter_core::items::{collect_items, str_eq, CollisionEvent, ItemType, Items};

#[test]
fn str_eq_compares_characters() {
    assert!(str_eq("Hampter", "Hampter"));
    assert!(!str_eq("Hampter", "Bluberry"));
    assert!(!str_eq("Hampter", "Hampte"));
    assert!(str_eq("", ""));
}

#[test]
fn item_names_parse_and_print() {
    assert_eq!(ItemType::from_str("Hampter"), Ok(ItemType::Hampter));
    assert_eq!(ItemType::from_str("Bluberry"), Ok(ItemType::Bluberry));
    assert_eq!(ItemType::from_str("None"), Ok(ItemType::NoItem));
    assert!(ItemType::from_str("Wall").is_err());
    assert!(ItemType::from_str("hampter").is_err());

    assert_eq!(ItemType::Hampter.to_str(), "Hampter");
    assert_eq!(ItemType::Bluberry.to_str(), "Bluberry");
    assert_eq!(ItemType::NoItem.to_str(), "None");
    assert_eq!(ItemType::default(), ItemType::NoItem);
}

#[test]
fn ledger_counts_start_at_zero() {
    let ledger = Items::new();
    assert_eq!(ledger.get(ItemType::Hampter), 0);
    assert_eq!(ledger.get(ItemType::Bluberry), 0);
    assert!(!ledger.has(ItemType::Hampter));
}

#[test]
fn ledger_add_set_and_sub() {
    let mut ledger = Items::new();
    ledger.add_one(ItemType::Hampter);
    ledger.add_one(ItemType::Hampter);
    assert_eq!(ledger.get(ItemType::Hampter), 2);
    assert_eq!(ledger.get(ItemType::Bluberry), 0);

    ledger.set_count(ItemType::Bluberry, 7);
    assert_eq!(ledger.get(ItemType::Bluberry), 7);

    ledger.sub_one(ItemType::Bluberry);
    assert_eq!(ledger.get(ItemType::Bluberry), 6);
    assert_eq!(ledger.get(ItemType::Hampter), 2);
}

#[test]
fn from_names_records_kinds_at_zero() {
    let names = vec![
        String::from("Hampter"),
        String::from("Bluberry"),
        String::from("Something"),
    ];
    let ledger = Items::from_names(&names);
    assert!(ledger.has(ItemType::Hampter));
    assert!(ledger.has(ItemType::Bluberry));
    // unknown names fall back to the placeholder kind
    assert!(ledger.has(ItemType::NoItem));
    assert_eq!(ledger.get(ItemType::Hampter), 0);
    assert_eq!(ledger.get(ItemType::Bluberry), 0);
    assert_eq!(ledger.get(ItemType::NoItem), 0);
}

#[test]
fn simultaneous_pickups_both_count() {
    // one batch holding two collision-begin events, one per item
    let bearer: u64 = 1;
    let events = vec![
        CollisionEvent::Started(bearer, 10),
        CollisionEvent::Started(11, bearer),
    ];

    let mut ledger = Items::new();
    let mut world = vec![(10u64, ItemType::Hampter), (11u64, ItemType::Bluberry)];
    collect_items(&mut ledger, &mut world, bearer, &events);
    assert_eq!(ledger.get(ItemType::Hampter), 1);
    assert_eq!(ledger.get(ItemType::Bluberry), 1);
    assert!(world.is_empty());

    // the opposite processing order gives the same ledger
    let events_rev = vec![
        CollisionEvent::Started(11, bearer),
        CollisionEvent::Started(bearer, 10),
    ];
    let mut ledger2 = Items::new();
    let mut world2 = vec![(10u64, ItemType::Hampter), (11u64, ItemType::Bluberry)];
    collect_items(&mut ledger2, &mut world2, bearer, &events_rev);
    assert_eq!(ledger2.get(ItemType::Hampter), 1);
    assert_eq!(ledger2.get(ItemType::Bluberry), 1);
    assert!(world2.is_empty());
}

#[test]
fn duplicate_events_collect_once() {
    let bearer: u64 = 1;
    let events = vec![
        CollisionEvent::Started(bearer, 10),
        CollisionEvent::Started(bearer, 10),
    ];
    let mut ledger = Items::new();
    let mut world = vec![(10u64, ItemType::Hampter)];
    collect_items(&mut ledger, &mut world, bearer, &events);
    assert_eq!(ledger.get(ItemType::Hampter), 1);
    assert!(world.is_empty());
}

#[test]
fn irrelevant_events_are_skipped() {
    let bearer: u64 = 1;
    let events = vec![
        // collision-end events are ignored
        CollisionEvent::Stopped(bearer, 10),
        // an entity that no longer exists is silently skipped
        CollisionEvent::Started(bearer, 99),
        // a collision not involving the bearer is ignored
        CollisionEvent::Started(10, 11),
    ];
    let mut ledger = Items::new();
    let mut world = vec![(10u64, ItemType::Hampter), (11u64, ItemType::Bluberry)];
    collect_items(&mut ledger, &mut world, bearer, &events);
    assert_eq!(ledger.get(ItemType::Hampter), 0);
    assert_eq!(ledger.get(ItemType::Bluberry), 0);
    assert_eq!(world.len(), 2);
}

#[test]
fn from_names_of_nothing_is_empty() {
    let names: Vec<String> = Vec::new();
    let ledger = Items::from_names(&names);
    assert!(!ledger.has(ItemType::Hampter));
    assert!(!ledger.has(ItemType::Bluberry));
    assert!(!ledger.has(ItemType::NoItem));
}

#[test]
fn two_items_of_one_kind_both_count() {
    let bearer: u64 = 1;
    let events = vec![
        CollisionEvent::Started(bearer, 10),
        CollisionEvent::Started(bearer, 11),
    ];
    let mut ledger = Items::new();
    let mut world = vec![(10u64, ItemType::Hampter), (11u64, ItemType::Hampter)];
    collect_items(&mut ledger, &mut world, bearer, &events);
    assert_eq!(ledger.get(ItemType::Hampter), 2);
    assert!(world.is_empty());
}

#[test]
fn collection_accumulates_over_batches() {
    let bearer: u64 = 7;
    let mut ledger = Items::new();
    let mut world = vec![
        (20u64, ItemType::Hampter),
        (21u64, ItemType::Hampter),
        (22u64, ItemType::Bluberry),
    ];
    let first = vec![CollisionEvent::Started(bearer, 20)];
    collect_items(&mut ledger, &mut world, bearer, &first);
    assert_eq!(ledger.get(ItemType::Hampter), 1);
    assert_eq!(world.len(), 2);

    let second = vec![
        CollisionEvent::Started(21, bearer),
        CollisionEvent::Started(22, bearer),
    ];
    collect_items(&mut ledger, &mut world, bearer, &second);
    assert_eq!(ledger.get(ItemType::Hampter), 2);
    assert_eq!(ledger.get(ItemType::Bluberry), 1);
    assert!(world.is_empty());
}
