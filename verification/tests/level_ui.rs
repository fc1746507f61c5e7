use hampter_core::assets::{
    animation_for_identifier, AsepriteKey, ImageKey, SfxKey, SoundtrackKey,
};
use hampter_core::buff::BluberryTimer;
use hampter_core::items::{ItemType, Items};
use hampter_core::level::{
    collider_for_identifier, ramp_for_cell, sensor_for_identifier, ColliderParams, CurrentLevel,
    LevelTimer, SpawnLevel, FIRST_LEVEL_HAMPTERS,
};
use hampter_core::player::{
    control_hamster_animation_speed, update_hamster_orientation, Facing,
};
use hampter_core::ui::{
    enter_level, update_bluberry_ui, update_hampter_ui, update_level_timer_ui, BluberryUiAction,
    ICON_WIDTH_MILLI_PCT,
};

#[test]
fn level_path_and_targets() {
    let level = CurrentLevel(SpawnLevel::First);
    assert_eq!(level.0.path(), "levels/Test.ldtk");
    assert_eq!(level.hampters(), 15);
    assert_eq!(level.bluberries(), 0);
    let targets = level.items();
    assert_eq!(targets.get(ItemType::Hampter), 15);
    assert_eq!(targets.get(ItemType::Bluberry), 0);
    assert!(targets.has(ItemType::Bluberry));
    assert!(!targets.has(ItemType::NoItem));
}

#[test]
fn level_timer_ticks_and_resets() {
    let mut t = LevelTimer::default();
    t.tick(100);
    t.tick(250);
    assert_eq!(t.elapsed_ms, 350);
    assert_eq!(update_level_timer_ui(&t), 35);
    t.reset();
    assert_eq!(t.elapsed_ms, 0);

    let mut t = LevelTimer { elapsed_ms: u64::MAX - 5 };
    t.tick(10);
    assert_eq!(t.elapsed_ms, u64::MAX);
}

#[test]
fn ramp_recipes_by_cell_value() {
    let r = ramp_for_cell(4).unwrap();
    assert_eq!(
        (r.center_x, r.center_y, r.radius, r.start_quarter_turns, r.segments),
        (-7500, 7500, 15000, 3, 20)
    );
    let r = ramp_for_cell(5).unwrap();
    assert_eq!((r.center_x, r.center_y, r.start_quarter_turns), (7500, 7500, 2));
    let r = ramp_for_cell(6).unwrap();
    assert_eq!((r.center_x, r.center_y, r.start_quarter_turns), (-7500, -7500, 0));
    let r = ramp_for_cell(7).unwrap();
    assert_eq!((r.center_x, r.center_y, r.start_quarter_turns), (7500, -7500, 1));
    assert!(ramp_for_cell(3).is_none());
    assert!(ramp_for_cell(8).is_none());
    assert!(ramp_for_cell(0).is_none());
}

#[test]
fn sensor_recipes_by_identifier() {
    let s = sensor_for_identifier("Hampter").unwrap();
    assert_eq!((s.half_extent_x, s.half_extent_y), (8000, 8000));
    assert!(s.rotation_locked);
    assert!(s.collision_events);
    assert!(sensor_for_identifier("Bluberry").is_ok());
    assert!(sensor_for_identifier("Wall").is_err());
    assert!(sensor_for_identifier("").is_err());
}

#[test]
fn collider_recipes_by_identifier() {
    match collider_for_identifier("Player") {
        ColliderParams::PlayerBall(p) => {
            assert_eq!(p.ball_radius, 24_000);
            assert_eq!(p.restitution, 700);
            assert!(p.restitution_combine_multiply);
            assert_eq!(p.linear_damping, 1500);
            assert_eq!(p.angular_damping, 1000);
        }
        ColliderParams::Plain => panic!("player must get the ball collider"),
    }
    assert_eq!(collider_for_identifier("Wall"), ColliderParams::Plain);
}

#[test]
fn animation_assets_by_identifier() {
    let a = animation_for_identifier("Hampter").unwrap();
    assert_eq!(a.path, "images/hampter.aseprite");
    assert_eq!((a.offset_x, a.offset_y, a.offset_z), (0, 0, 0));
    let a = animation_for_identifier("Bluberry").unwrap();
    assert_eq!(a.path, "images/bluberry.aseprite");
    let a = animation_for_identifier("Player").unwrap();
    assert_eq!(a.path, "images/hamster-animation.aseprite");
    assert_eq!((a.offset_x, a.offset_y, a.offset_z), (0, -10_000, -1000));
    assert!(animation_for_identifier("None").is_err());
    assert!(animation_for_identifier("Wall").is_err());
}

#[test]
fn asset_keys_resolve_paths() {
    assert_eq!(AsepriteKey::Hampter.path(), "aseprite/hampter.aseprite");
    assert_eq!(AsepriteKey::Bluberry.path(), "aseprite/bluberry.aseprite");
    assert_eq!(
        AsepriteKey::HamsterAnimation.path(),
        "aseprite/hamster_animation.aseprite"
    );
    assert_eq!(ImageKey::Hampter.path(), "images/hampter.png");
    assert_eq!(
        ImageKey::NotCollectedHampter.path(),
        "images/not_collected_hampter.png"
    );
    assert_eq!(SfxKey::Step1.path(), "audio/sfx/step1.ogg");
    assert_eq!(
        SoundtrackKey::Gameplay.path(),
        "audio/soundtracks/fluffing_a_duck.ogg"
    );
}

#[test]
fn entering_a_level_lays_out_the_hud() {
    let level = CurrentLevel(SpawnLevel::First);
    let ui = enter_level(&level);
    assert_eq!(
        ui.hampter_row_width_milli_pct,
        ICON_WIDTH_MILLI_PCT * FIRST_LEVEL_HAMPTERS as u64
    );
    assert_eq!(ui.hampter_icon_markers.len(), 15);
    for (i, m) in ui.hampter_icon_markers.iter().enumerate() {
        assert_eq!(*m as usize, i);
    }
    assert_eq!(ui.bluberry_row_width_milli_pct, 0);
    assert!(ui.bluberry_timer_text_centis.is_none());
    assert!(ui.level_timer_text_centis.is_none());
}

#[test]
fn hampter_icons_fill_up_to_the_collected_count() {
    let markers = vec![0u8, 1, 2, 3];
    let mut ledger = Items::new();
    ledger.set_count(ItemType::Hampter, 2);
    let imgs = update_hampter_ui(&markers, &ledger);
    assert_eq!(
        imgs,
        vec![
            ImageKey::Hampter,
            ImageKey::Hampter,
            ImageKey::NotCollectedHampter,
            ImageKey::NotCollectedHampter,
        ]
    );
}

#[test]
fn bluberry_row_spawns_and_despawns_the_difference() {
    let timer = BluberryTimer::default();
    let mut ledger = Items::new();
    ledger.set_count(ItemType::Bluberry, 2);

    let r = update_bluberry_ui(0, &ledger, &timer);
    assert_eq!(r.row_width_milli_pct, 2 * ICON_WIDTH_MILLI_PCT);
    assert_eq!(r.action, BluberryUiAction::SpawnIcons { from: 0, to: 2 });

    let r = update_bluberry_ui(5, &ledger, &timer);
    assert_eq!(r.action, BluberryUiAction::DespawnIcons { from: 2, to: 5 });
}

#[test]
fn matching_bluberry_row_only_refreshes_text() {
    let mut timer = BluberryTimer::default();
    timer.tick(500);
    let mut ledger = Items::new();
    ledger.set_count(ItemType::Bluberry, 2);

    // remaining time: 2 * 2000 - 500 = 3500 ms, shown as centiseconds
    let r = update_bluberry_ui(2, &ledger, &timer);
    assert_eq!(r.action, BluberryUiAction::SetTimerText { centis: Some(350) });

    // empty stockpile: empty text
    ledger.set_count(ItemType::Bluberry, 0);
    let r = update_bluberry_ui(0, &ledger, &timer);
    assert_eq!(r.row_width_milli_pct, 0);
    assert_eq!(r.action, BluberryUiAction::SetTimerText { centis: None });
}

#[test]
fn rerendering_an_unchanged_ledger_changes_no_widget() {
    let timer = BluberryTimer::default();
    let mut ledger = Items::new();
    ledger.set_count(ItemType::Bluberry, 3);

    // first render from an empty row spawns the three icons
    let first = update_bluberry_ui(0, &ledger, &timer);
    let icons = match first.action {
        BluberryUiAction::SpawnIcons { from, to } => to - from,
        _ => panic!("expected spawns on the first render"),
    };
    assert_eq!(icons, 3);

    // re-rendering with the row already matching spawns and despawns nothing
    let second = update_bluberry_ui(icons, &ledger, &timer);
    assert!(matches!(
        second.action,
        BluberryUiAction::SetTimerText { .. }
    ));
    let third = update_bluberry_ui(icons, &ledger, &timer);
    assert_eq!(second.action, third.action);
}

#[test]
fn hamster_facing_follows_movement() {
    assert_eq!(update_hamster_orientation(5, Facing::Left), Facing::Right);
    assert_eq!(update_hamster_orientation(-5, Facing::Right), Facing::Left);
    assert_eq!(update_hamster_orientation(0, Facing::Right), Facing::Right);
    assert_eq!(update_hamster_orientation(0, Facing::Left), Facing::Left);
}

#[test]
fn wheel_animation_speed_is_half_angular_velocity() {
    assert_eq!(control_hamster_animation_speed(4000), 2000);
    assert_eq!(control_hamster_animation_speed(-4000), 2000);
    assert_eq!(control_hamster_animation_speed(-7), 3);
    assert_eq!(control_hamster_animation_speed(0), 0);
}
