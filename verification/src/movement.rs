//! Player movement: intent recording, contact accumulation and velocity
//! integration.
//!
//! Once per input sample the held keys and the current contact-normal sum
//! are turned into a `MovementController`; once per fixed physics step the
//! controller, the tuning constants and the current velocity are combined
//! into a new velocity; once per physics tick the contact points reported
//! against the player are summed into a `PlayerContact`.

use vstd::prelude::*;

verus! {

use vstd::arithmetic::div_mod::lemma_div_basics;
use crate::fixed::clamp_mag;
use crate::fixed::clamp_spec;
use crate::fixed::mul_frac;
use crate::fixed::mul_frac_spec;
use crate::fixed::norm_coord;
use crate::fixed::normalize_or_zero;
use crate::fixed::lemma_sqrt_floor_unique;
use crate::fixed::Vec2Fx;
use crate::fixed::COEFF_LIMIT;
use crate::fixed::CONTACT_BOUND;
use crate::fixed::FP_ONE;

/// Default horizontal acceleration coefficient, in thousandths per step.
pub const DEFAULT_MOVEMENT_SPEED: i64 = 10_000;

/// Default jump impulse magnitude, in thousandths.
pub const DEFAULT_JUMP_IMPULSE: i64 = 200_000;

/// Default componentwise velocity clamp, in thousandths.
pub const DEFAULT_MAX_VEL: i64 = 300_000;

/// Largest velocity coordinate magnitude accepted by the integrator.
pub const VEL_LIMIT: i64 = 1_000_000_000_000;

/// Largest magnitude accepted for one contact-point offset coordinate.
pub const OFFSET_LIMIT: i64 = 0x10_0000;

/// Largest number of contact points accumulated in one physics tick.
pub const MAX_CONTACTS: usize = 1024;

/// The sum of the contact offsets reported against the player this tick.
#[derive(Clone, Copy, Debug, PartialEq, Eq, Structural)]
pub struct PlayerContact(pub Vec2Fx);

impl PlayerContact {
    /// Coordinates stay small enough for normalization and summation.
    pub open spec fn wf(self) -> bool {
        &&& -CONTACT_BOUND <= self.0.x <= CONTACT_BOUND
        &&& -CONTACT_BOUND <= self.0.y <= CONTACT_BOUND
    }
}

impl Default for PlayerContact {
    fn default() -> (r: PlayerContact)
        ensures
            r.0 == Vec2Fx::zero_spec(),
            r.wf(),
    {
        PlayerContact(Vec2Fx::zero())
    }
}

/// The per-entity movement intent: a normalized planar direction, a
/// normalized jump direction, and whether the entity touches a surface.
#[derive(Clone, Copy, Debug, PartialEq, Eq, Structural)]
pub struct MovementController {
    pub movement: Vec2Fx,
    pub jump: Vec2Fx,
    pub colliding: bool,
}

impl MovementController {
    /// Both stored directions are normalized, so each coordinate has
    /// magnitude at most `FP_ONE`.
    pub open spec fn wf(self) -> bool {
        &&& -FP_ONE <= self.movement.x <= FP_ONE
        &&& -FP_ONE <= self.movement.y <= FP_ONE
        &&& -FP_ONE <= self.jump.x <= FP_ONE
        &&& -FP_ONE <= self.jump.y <= FP_ONE
    }
}

impl Default for MovementController {
    fn default() -> (r: MovementController)
        ensures
            r.movement == Vec2Fx::zero_spec(),
            r.jump == Vec2Fx::zero_spec(),
            !r.colliding,
            r.wf(),
    {
        MovementController { movement: Vec2Fx::zero(), jump: Vec2Fx::zero(), colliding: false }
    }
}

/// The per-entity movement tuning constants.
#[derive(Clone, Copy, Debug, PartialEq, Eq, Structural)]
pub struct MovementConfig {
    pub movement_speed: i64,
    pub jump_impulse: i64,
    pub maximum_vel: i64,
}

impl MovementConfig {
    /// All coefficients are non-negative and bounded.
    pub open spec fn wf(self) -> bool {
        &&& 0 <= self.movement_speed <= COEFF_LIMIT
        &&& 0 <= self.jump_impulse <= COEFF_LIMIT
        &&& 0 <= self.maximum_vel <= COEFF_LIMIT
    }
}

impl Default for MovementConfig {
    fn default() -> (r: MovementConfig)
        ensures
            r.movement_speed == DEFAULT_MOVEMENT_SPEED,
            r.jump_impulse == DEFAULT_JUMP_IMPULSE,
            r.maximum_vel == DEFAULT_MAX_VEL,
            r.wf(),
    {
        MovementConfig {
            movement_speed: DEFAULT_MOVEMENT_SPEED,
            jump_impulse: DEFAULT_JUMP_IMPULSE,
            maximum_vel: DEFAULT_MAX_VEL,
        }
    }
}

/// The raw horizontal intent from the held directional keys: opposite keys
/// cancel to zero.
pub open spec fn horizontal_intent(left_held: bool, right_held: bool) -> int {
    (if right_held { 1int } else { 0int }) - (if left_held { 1int } else { 0int })
}

/// Record one input sample into the controller.
///
/// The planar direction becomes the normalized horizontal intent.  The jump
/// direction is the negated normalization of the contact-normal sum while
/// the jump key is held, and exactly zero otherwise, whatever the contact
/// state.  The contact flag is left untouched.
pub fn record_movement_controller(
    left_held: bool,
    right_held: bool,
    jump_held: bool,
    contact: &PlayerContact,
    controller: &mut MovementController,
)
    requires
        contact.wf(),
    ensures
        final(controller).movement.x == norm_coord(horizontal_intent(left_held, right_held), 0),
        final(controller).movement.y == norm_coord(0, horizontal_intent(left_held, right_held)),
        !jump_held ==> final(controller).jump == Vec2Fx::zero_spec(),
        jump_held ==> final(controller).jump.x == -norm_coord(
            contact.0.x as int,
            contact.0.y as int,
        ),
        jump_held ==> final(controller).jump.y == -norm_coord(
            contact.0.y as int,
            contact.0.x as int,
        ),
        final(controller).colliding == old(controller).colliding,
        final(controller).wf(),
{
    let ix: i64 = (if right_held { 1i64 } else { 0i64 }) - (if left_held { 1i64 } else { 0i64 });
    let movement = normalize_or_zero(Vec2Fx { x: ix, y: 0 });
    let jump = if jump_held {
        let n = normalize_or_zero(contact.0);
        Vec2Fx { x: -n.x, y: -n.y }
    } else {
        Vec2Fx::zero()
    };
    controller.movement = movement;
    controller.jump = jump;
}

/// Integrate one fixed physics step into the velocity.
///
/// The horizontal coordinate gains `movement_speed` times the planar intent;
/// both coordinates gain `jump_impulse` times the jump direction; finally
/// each coordinate is clamped to magnitude `maximum_vel` on its own, not by
/// vector length.
pub fn apply_movement(controller: &MovementController, config: &MovementConfig, vel: &mut Vec2Fx)
    requires
        controller.wf(),
        config.wf(),
        -VEL_LIMIT <= old(vel).x <= VEL_LIMIT,
        -VEL_LIMIT <= old(vel).y <= VEL_LIMIT,
    ensures
        final(vel).x == clamp_spec(
            old(vel).x + mul_frac_spec(config.movement_speed as int, controller.movement.x as int)
                + mul_frac_spec(config.jump_impulse as int, controller.jump.x as int),
            config.maximum_vel as int,
        ),
        final(vel).y == clamp_spec(
            old(vel).y + mul_frac_spec(config.jump_impulse as int, controller.jump.y as int),
            config.maximum_vel as int,
        ),
        -COEFF_LIMIT <= final(vel).x <= COEFF_LIMIT,
        -COEFF_LIMIT <= final(vel).y <= COEFF_LIMIT,
{
    let dx_move: i64 = mul_frac(config.movement_speed, controller.movement.x);
    let dx_jump: i64 = mul_frac(config.jump_impulse, controller.jump.x);
    let dy_jump: i64 = mul_frac(config.jump_impulse, controller.jump.y);
    let vx: i64 = vel.x + dx_move + dx_jump;
    let vy: i64 = vel.y + dy_jump;
    vel.x = clamp_mag(vx, config.maximum_vel);
    vel.y = clamp_mag(vy, config.maximum_vel);
}

/// The normalization of a pure horizontal intent in `{-1, 0, +1}` is that
/// intent at full fixed-point scale.
pub proof fn lemma_unit_intent_normalizes(intent: int)
    requires
        intent == -1 || intent == 0 || intent == 1,
    ensures
        norm_coord(intent, 0) == intent * FP_ONE,
        norm_coord(0, intent) == 0,
{
    if intent != 0 {
        assert(intent * intent == 1) by (nonlinear_arith)
            requires
                intent == -1 || intent == 1,
        ;
        lemma_sqrt_floor_unique(1, 1);
        lemma_div_basics(FP_ONE as int);
        lemma_div_basics(0);
        assert((0 * FP_ONE) == 0) by (nonlinear_arith);
    }
}

/// Law: for any horizontal intent in `{-1, 0, +1}` with zero jump intent,
/// one integration step takes `velocity.x` to the previous value plus
/// `movement_speed` times the intent, clamped componentwise to the maximum
/// magnitude, and leaves `velocity.y` at its clamped previous value.
pub proof fn lemma_horizontal_integration(
    intent: int,
    controller: MovementController,
    config: MovementConfig,
    vx: int,
    vy: int,
)
    requires
        intent == -1 || intent == 0 || intent == 1,
        controller.movement.x == norm_coord(intent, 0),
        controller.movement.y == norm_coord(0, intent),
        controller.jump == Vec2Fx::zero_spec(),
        config.wf(),
    ensures
        clamp_spec(
            vx + mul_frac_spec(config.movement_speed as int, controller.movement.x as int)
                + mul_frac_spec(config.jump_impulse as int, controller.jump.x as int),
            config.maximum_vel as int,
        ) == clamp_spec(vx + config.movement_speed * intent, config.maximum_vel as int),
        clamp_spec(
            vy + mul_frac_spec(config.jump_impulse as int, controller.jump.y as int),
            config.maximum_vel as int,
        ) == clamp_spec(vy, config.maximum_vel as int),
{
    lemma_unit_intent_normalizes(intent);
    let s = config.movement_speed as int;
    assert(mul_frac_spec(s, intent * FP_ONE) == s * intent) by {
        lemma_div_basics(s);
        if intent == 1 {
            assert(s * (1 * FP_ONE) == s * FP_ONE) by (nonlinear_arith);
            assert((s * FP_ONE) / (FP_ONE as int) == s) by {
                vstd::arithmetic::div_mod::lemma_div_by_multiple(s, FP_ONE as int);
            }
            assert(s * 1 == s) by (nonlinear_arith);
        } else if intent == -1 {
            assert(-(intent * FP_ONE) == FP_ONE) by (nonlinear_arith)
                requires
                    intent == -1,
            ;
            assert(s * FP_ONE == s * FP_ONE) by (nonlinear_arith);
            assert((s * FP_ONE) / (FP_ONE as int) == s) by {
                vstd::arithmetic::div_mod::lemma_div_by_multiple(s, FP_ONE as int);
            }
            assert(s * -1 == -s) by (nonlinear_arith);
        } else {
            assert(s * 0 == 0) by (nonlinear_arith);
            assert((0int) / (FP_ONE as int) == 0) by {
                lemma_div_basics(FP_ONE as int);
            }
        }
    }
    assert(mul_frac_spec(config.jump_impulse as int, 0) == 0) by {
        assert(config.jump_impulse as int * 0 == 0) by (nonlinear_arith);
        lemma_div_basics(FP_ONE as int);
    }
}

/// The running offset sum of a sequence of contact points relative to a
/// position: horizontal coordinate.
pub open spec fn offs_sum_x(points: Seq<Vec2Fx>, pos: Vec2Fx) -> int
    decreases points.len(),
{
    if points.len() == 0 {
        0
    } else {
        offs_sum_x(points.drop_last(), pos) + (points.last().x - pos.x)
    }
}

/// The running offset sum of a sequence of contact points relative to a
/// position: vertical coordinate.
pub open spec fn offs_sum_y(points: Seq<Vec2Fx>, pos: Vec2Fx) -> int
    decreases points.len(),
{
    if points.len() == 0 {
        0
    } else {
        offs_sum_y(points.drop_last(), pos) + (points.last().y - pos.y)
    }
}

/// Accumulate this tick's contact points into the contact state.
///
/// Every reported contact point is taken relative to the player position and
/// the relative offsets are summed; the controller's contact flag becomes
/// true exactly when at least one contact point exists.  Movement and jump
/// intents are left untouched.
pub fn update_collisions(
    player_pos: Vec2Fx,
    contact_points: &Vec<Vec2Fx>,
    controller: &mut MovementController,
    contact: &mut PlayerContact,
)
    requires
        contact_points@.len() <= MAX_CONTACTS,
        forall|i: int|
            0 <= i < contact_points@.len() ==> -OFFSET_LIMIT <= #[trigger] contact_points@[i].x
                - player_pos.x <= OFFSET_LIMIT,
        forall|i: int|
            0 <= i < contact_points@.len() ==> -OFFSET_LIMIT <= #[trigger] contact_points@[i].y
                - player_pos.y <= OFFSET_LIMIT,
    ensures
        final(controller).colliding == (contact_points@.len() > 0),
        final(controller).movement == old(controller).movement,
        final(controller).jump == old(controller).jump,
        final(contact).0.x == offs_sum_x(contact_points@, player_pos),
        final(contact).0.y == offs_sum_y(contact_points@, player_pos),
        final(contact).wf(),
{
    let n = contact_points.len();
    let mut sx: i64 = 0;
    let mut sy: i64 = 0;
    let mut i: usize = 0;
    while i < n
        invariant
            n == contact_points@.len() <= MAX_CONTACTS,
            0 <= i <= n,
            forall|k: int|
                0 <= k < contact_points@.len() ==> -OFFSET_LIMIT <= #[trigger] contact_points@[k].x
                    - player_pos.x <= OFFSET_LIMIT,
            forall|k: int|
                0 <= k < contact_points@.len() ==> -OFFSET_LIMIT <= #[trigger] contact_points@[k].y
                    - player_pos.y <= OFFSET_LIMIT,
            sx == offs_sum_x(contact_points@.take(i as int), player_pos),
            sy == offs_sum_y(contact_points@.take(i as int), player_pos),
            -(i as int) * OFFSET_LIMIT <= sx <= (i as int) * OFFSET_LIMIT,
            -(i as int) * OFFSET_LIMIT <= sy <= (i as int) * OFFSET_LIMIT,
        decreases n - i,
    {
        let p = contact_points[i];
        proof {
            assert(contact_points@.take(i + 1).drop_last() =~= contact_points@.take(i as int));
            assert(contact_points@.take(i + 1).last() == contact_points@[i as int]);
        }
        sx = sx + (p.x - player_pos.x);
        sy = sy + (p.y - player_pos.y);
        i = i + 1;
    }
    proof {
        assert(contact_points@.take(n as int) =~= contact_points@);
    }
    controller.colliding = n > 0;
    contact.0 = Vec2Fx { x: sx, y: sy };
}

} // verus!
