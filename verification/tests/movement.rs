use hampter_core::fixed::{isqrt, mul_frac, normalize_or_zero, Vec2Fx, FP_ONE};
use hampter_core::movement::{
    apply_movement, record_movement_controller, update_collisions, MovementConfig,
    MovementController, PlayerContact, DEFAULT_JUMP_IMPULSE, DEFAULT_MAX_VEL,
    DEFAULT_MOVEMENT_SPEED,
};

fn default_config() -> MovementConfig {
    MovementConfig::default()
}

#[test]
fn defaults_match_tuning() {
    let c = default_config();
    assert_eq!(c.movement_speed, 10_000);
    assert_eq!(c.jump_impulse, 200_000);
    assert_eq!(c.maximum_vel, 300_000);
    assert_eq!(DEFAULT_MOVEMENT_SPEED, 10_000);
    assert_eq!(DEFAULT_JUMP_IMPULSE, 200_000);
    assert_eq!(DEFAULT_MAX_VEL, 300_000);
}

#[test]
fn isqrt_exact_values() {
    assert_eq!(isqrt(0), 0);
    assert_eq!(isqrt(1), 1);
    assert_eq!(isqrt(15), 3);
    assert_eq!(isqrt(16), 4);
    assert_eq!(isqrt(24), 4);
    assert_eq!(isqrt(25), 5);
    assert_eq!(isqrt(u64::MAX), 0xFFFF_FFFF);
}

#[test]
fn normalize_three_four_five() {
    let n = normalize_or_zero(Vec2Fx { x: 3, y: 4 });
    assert_eq!(n, Vec2Fx { x: 600, y: 800 });
    let n = normalize_or_zero(Vec2Fx { x: -3, y: 4 });
    assert_eq!(n, Vec2Fx { x: -600, y: 800 });
    let n = normalize_or_zero(Vec2Fx { x: 0, y: 0 });
    assert_eq!(n, Vec2Fx { x: 0, y: 0 });
    let n = normalize_or_zero(Vec2Fx { x: 0, y: -5 });
    assert_eq!(n, Vec2Fx { x: 0, y: -1000 });
}

#[test]
fn normalize_keeps_axis_signs() {
    // fixed-point normalization: a small diagonal keeps both coordinates at
    // full scale (the result is unit length only up to the scale's precision)
    let n = normalize_or_zero(Vec2Fx { x: 1, y: 1 });
    assert_eq!(n, Vec2Fx { x: 1000, y: 1000 });
    let n = normalize_or_zero(Vec2Fx { x: -1, y: -1 });
    assert_eq!(n, Vec2Fx { x: -1000, y: -1000 });
    // a dominated coordinate can round to zero, the dominant one never does
    let n = normalize_or_zero(Vec2Fx { x: 1, y: 1_000_000 });
    assert_eq!(n, Vec2Fx { x: 0, y: 1000 });
}

#[test]
fn mul_frac_scales_exactly() {
    assert_eq!(mul_frac(10_000, FP_ONE), 10_000);
    assert_eq!(mul_frac(10_000, -FP_ONE), -10_000);
    assert_eq!(mul_frac(10_000, 0), 0);
    assert_eq!(mul_frac(10_000, 500), 5_000);
    // magnitudes round toward zero
    assert_eq!(mul_frac(3, 500), 1);
    assert_eq!(mul_frac(3, -500), -1);
}

#[test]
fn componentwise_clamp_not_vector_clamp() {
    // velocity before clamp (400, 500) against a 300 cap clamps each axis
    let controller = MovementController::default();
    let config = default_config();
    let mut vel = Vec2Fx { x: 400_000, y: 500_000 };
    apply_movement(&controller, &config, &mut vel);
    assert_eq!(vel, Vec2Fx { x: 300_000, y: 300_000 });
}

#[test]
fn clamp_applies_to_negative_axis_too() {
    let controller = MovementController::default();
    let config = default_config();
    let mut vel = Vec2Fx { x: -400_000, y: -500_000 };
    apply_movement(&controller, &config, &mut vel);
    assert_eq!(vel, Vec2Fx { x: -300_000, y: -300_000 });
}

#[test]
fn horizontal_step_adds_speed_times_intent() {
    let contact = PlayerContact::default();
    let config = default_config();
    let mut controller = MovementController::default();

    // intent +1
    record_movement_controller(false, true, false, &contact, &mut controller);
    assert_eq!(controller.movement, Vec2Fx { x: FP_ONE, y: 0 });
    let mut vel = Vec2Fx { x: 0, y: 0 };
    apply_movement(&controller, &config, &mut vel);
    assert_eq!(vel, Vec2Fx { x: 10_000, y: 0 });

    // intent -1
    record_movement_controller(true, false, false, &contact, &mut controller);
    assert_eq!(controller.movement, Vec2Fx { x: -FP_ONE, y: 0 });
    let mut vel = Vec2Fx { x: 25_000, y: 0 };
    apply_movement(&controller, &config, &mut vel);
    assert_eq!(vel, Vec2Fx { x: 15_000, y: 0 });

    // opposite keys cancel
    record_movement_controller(true, true, false, &contact, &mut controller);
    assert_eq!(controller.movement, Vec2Fx { x: 0, y: 0 });
    let mut vel = Vec2Fx { x: 42, y: 0 };
    apply_movement(&controller, &config, &mut vel);
    assert_eq!(vel, Vec2Fx { x: 42, y: 0 });

    // the clamp caps an accelerating axis
    record_movement_controller(false, true, false, &contact, &mut controller);
    let mut vel = Vec2Fx { x: 295_000, y: 0 };
    apply_movement(&controller, &config, &mut vel);
    assert_eq!(vel, Vec2Fx { x: 300_000, y: 0 });
}

#[test]
fn jump_intent_zero_without_jump_key() {
    // jump key not held: zero jump intent whatever the contact state
    let contact = PlayerContact(Vec2Fx { x: 123, y: -456 });
    let mut controller = MovementController::default();
    record_movement_controller(false, false, false, &contact, &mut controller);
    assert_eq!(controller.jump, Vec2Fx { x: 0, y: 0 });
}

#[test]
fn jump_intent_is_negated_normalized_contact() {
    // standing on ground below: contact sum points down, jump points up
    let contact = PlayerContact(Vec2Fx { x: 0, y: -5 });
    let mut controller = MovementController::default();
    record_movement_controller(false, false, true, &contact, &mut controller);
    assert_eq!(controller.jump, Vec2Fx { x: 0, y: FP_ONE });

    // a 3-4-5 wall contact
    let contact = PlayerContact(Vec2Fx { x: 3000, y: -4000 });
    record_movement_controller(false, false, true, &contact, &mut controller);
    assert_eq!(controller.jump, Vec2Fx { x: -600, y: 800 });

    // no contact at all: nothing to push away from
    let contact = PlayerContact::default();
    record_movement_controller(false, false, true, &contact, &mut controller);
    assert_eq!(controller.jump, Vec2Fx { x: 0, y: 0 });
}

#[test]
fn jump_impulse_integrates_into_velocity() {
    let contact = PlayerContact(Vec2Fx { x: 0, y: -5 });
    let config = default_config();
    let mut controller = MovementController::default();
    record_movement_controller(false, false, true, &contact, &mut controller);
    let mut vel = Vec2Fx { x: 0, y: 0 };
    apply_movement(&controller, &config, &mut vel);
    assert_eq!(vel, Vec2Fx { x: 0, y: 200_000 });
}

#[test]
fn contact_accumulation_sums_offsets() {
    let pos = Vec2Fx { x: 5, y: 5 };
    let points = vec![Vec2Fx { x: 10, y: 20 }, Vec2Fx { x: 30, y: 40 }];
    let mut controller = MovementController::default();
    let mut contact = PlayerContact::default();
    update_collisions(pos, &points, &mut controller, &mut contact);
    assert!(controller.colliding);
    assert_eq!(contact.0, Vec2Fx { x: 30, y: 50 });

    let no_points: Vec<Vec2Fx> = Vec::new();
    update_collisions(pos, &no_points, &mut controller, &mut contact);
    assert!(!controller.colliding);
    assert_eq!(contact.0, Vec2Fx { x: 0, y: 0 });
}
