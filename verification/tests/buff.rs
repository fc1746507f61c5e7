use hampter_core::buff::{boost_stats, temporary_items, BluberryTimer, BLUBERRY_DECAY_MS};
use hampter_core::fixed::Vec2Fx;
use hampter_core::items::{ItemType, Items};
use hampter_core::movement::{
    apply_movement, record_movement_controller, MovementConfig, MovementController, PlayerContact,
};

#[test]
fn timer_default_is_dormant() {
    let t = BluberryTimer::default();
    assert_eq!(t.duration_ms, BLUBERRY_DECAY_MS);
    assert_eq!(t.elapsed_ms, 0);
    assert!(!t.just_finished);
}

#[test]
fn timer_fires_once_when_duration_reached() {
    let mut t = BluberryTimer::default();
    t.tick(1999);
    assert!(!t.just_finished);
    assert_eq!(t.elapsed_ms, 1999);
    t.tick(1);
    assert!(t.just_finished);
    assert_eq!(t.elapsed_ms, 2000);
    // a finished one-shot timer does not fire again
    t.tick(5000);
    assert!(!t.just_finished);
    assert_eq!(t.elapsed_ms, 2000);
    t.reset();
    assert_eq!(t.elapsed_ms, 0);
    assert!(!t.just_finished);
}

#[test]
fn remaining_time_formula() {
    let mut t = BluberryTimer::default();
    t.tick(500);
    // duration times stored count, less elapsed
    assert_eq!(t.remaining_ms(3), 3 * BLUBERRY_DECAY_MS - 500);
    assert_eq!(t.remaining_ms(1), BLUBERRY_DECAY_MS - 500);
}

#[test]
fn three_stored_items_decay_one_per_duration() {
    // start from count = 3 and a dormant timer
    let mut ledger = Items::new();
    ledger.set_count(ItemType::Bluberry, 3);
    let mut timer = BluberryTimer::default();

    // the configured duration elapses with no new pickups
    temporary_items(&mut ledger, &mut timer, BLUBERRY_DECAY_MS);
    assert_eq!(ledger.get(ItemType::Bluberry), 3);
    assert!(timer.just_finished);

    // the fired countdown decrements the count and restarts at zero elapsed
    temporary_items(&mut ledger, &mut timer, 0);
    assert_eq!(ledger.get(ItemType::Bluberry), 2);
    assert_eq!(timer.elapsed_ms, 0);
    assert!(!timer.just_finished);

    // two more full durations empty the stockpile
    temporary_items(&mut ledger, &mut timer, BLUBERRY_DECAY_MS);
    temporary_items(&mut ledger, &mut timer, 0);
    assert_eq!(ledger.get(ItemType::Bluberry), 1);
    assert_eq!(timer.elapsed_ms, 0);
    temporary_items(&mut ledger, &mut timer, BLUBERRY_DECAY_MS);
    temporary_items(&mut ledger, &mut timer, 0);
    assert_eq!(ledger.get(ItemType::Bluberry), 0);

    // at count zero the timer stops advancing
    assert_eq!(timer.elapsed_ms, 0);
    temporary_items(&mut ledger, &mut timer, BLUBERRY_DECAY_MS);
    temporary_items(&mut ledger, &mut timer, BLUBERRY_DECAY_MS);
    assert_eq!(ledger.get(ItemType::Bluberry), 0);
    assert_eq!(timer.elapsed_ms, 0);
    assert!(!timer.just_finished);
}

#[test]
fn decay_ticks_in_small_steps() {
    let mut ledger = Items::new();
    ledger.set_count(ItemType::Bluberry, 1);
    let mut timer = BluberryTimer::default();
    for _ in 0..4 {
        temporary_items(&mut ledger, &mut timer, 500);
    }
    // total elapsed equals the duration: the countdown just fired
    assert_eq!(ledger.get(ItemType::Bluberry), 1);
    assert!(timer.just_finished);
    temporary_items(&mut ledger, &mut timer, 500);
    assert_eq!(ledger.get(ItemType::Bluberry), 0);
    assert_eq!(timer.elapsed_ms, 0);
}

#[test]
fn other_kinds_are_untouched_by_decay() {
    let mut ledger = Items::new();
    ledger.set_count(ItemType::Hampter, 5);
    ledger.set_count(ItemType::Bluberry, 1);
    let mut timer = BluberryTimer::default();
    temporary_items(&mut ledger, &mut timer, BLUBERRY_DECAY_MS);
    temporary_items(&mut ledger, &mut timer, 0);
    assert_eq!(ledger.get(ItemType::Bluberry), 0);
    assert_eq!(ledger.get(ItemType::Hampter), 5);
}

#[test]
fn stockpiled_bluberry_boosts_speed() {
    let mut config = MovementConfig::default();
    let mut ledger = Items::new();
    ledger.set_count(ItemType::Bluberry, 2);
    boost_stats(&ledger, &mut config);
    assert_eq!(config.movement_speed, 20_000);
    assert_eq!(config.jump_impulse, 200_000);
    assert_eq!(config.maximum_vel, 300_000);

    // an empty stockpile entry returns the speed to the default
    ledger.set_count(ItemType::Bluberry, 0);
    boost_stats(&ledger, &mut config);
    assert_eq!(config.movement_speed, 10_000);
}

#[test]
fn boosted_speed_feeds_the_integrator() {
    let mut config = MovementConfig::default();
    let mut ledger = Items::new();
    ledger.set_count(ItemType::Bluberry, 1);
    boost_stats(&ledger, &mut config);

    let contact = PlayerContact::default();
    let mut controller = MovementController::default();
    record_movement_controller(false, true, false, &contact, &mut controller);
    let mut vel = Vec2Fx { x: 0, y: 0 };
    apply_movement(&controller, &config, &mut vel);
    assert_eq!(vel.x, 20_000);
}

#[test]
fn ledger_without_bluberry_entry_leaves_tuning_alone() {
    let mut config = MovementConfig::default();
    config.movement_speed = 12_345;
    let ledger = Items::new();
    boost_stats(&ledger, &mut config);
    assert_eq!(config.movement_speed, 12_345);
}
