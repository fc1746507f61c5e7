//! Level selection, the per-level collection targets, the level stopwatch,
//! and the construction recipes keyed by authored identifiers.
//!
//! Authored level data names entities and tiles by identifier; these total
//! lookup functions map each identifier to the typed recipe the engine must
//! build, returning an explicit error for unrecognized names instead of
//! aborting.

use vstd::prelude::*;

verus! {

use crate::items::str_eq;
use crate::items::ItemType;
use crate::items::Items;
use crate::items::UnknownIdentifier;

/// Number of hampters the first level asks for.
pub const FIRST_LEVEL_HAMPTERS: u8 = 15;

/// The levels a spawn request can name.
#[derive(Clone, Copy, Debug, PartialEq, Eq, Structural)]
pub enum SpawnLevel {
    First,
}

impl SpawnLevel {
    /// The authored level file the engine loads for this level.
    pub fn path(&self) -> (r: String)
        ensures
            r@ == "levels/Test.ldtk"@,
    {
        "levels/Test.ldtk".to_owned()
    }
}

/// The currently active level, replaced wholesale on each spawn request.
#[derive(Clone, Copy, Debug, PartialEq, Eq, Structural)]
pub struct CurrentLevel(pub SpawnLevel);

impl CurrentLevel {
    /// The level's fixed collection target: how many items of each kind the
    /// level asks for, sizing the HUD and deciding completion.
    pub fn items(&self) -> (r: Items)
        ensures
            r.wf(),
            r.count(ItemType::Hampter) == FIRST_LEVEL_HAMPTERS as int,
            r.count(ItemType::Bluberry) == 0,
            r.count(ItemType::NoItem) == 0,
            r.has_kind(ItemType::Hampter),
            r.has_kind(ItemType::Bluberry),
            !r.has_kind(ItemType::NoItem),
    {
        match self.0 {
            SpawnLevel::First => {
                let mut r = Items::new();
                r.set_count(ItemType::Hampter, FIRST_LEVEL_HAMPTERS);
                r.set_count(ItemType::Bluberry, 0);
                r
            },
        }
    }

    /// The number of hampters the level asks for.
    pub fn hampters(&self) -> (r: u8)
        ensures
            r == FIRST_LEVEL_HAMPTERS,
    {
        self.items().get(ItemType::Hampter)
    }

    /// The number of bluberries the level asks for.
    pub fn bluberries(&self) -> (r: u8)
        ensures
            r == 0,
    {
        self.items().get(ItemType::Bluberry)
    }
}

/// The stopwatch counting time spent in the running level.
#[derive(Clone, Copy, Debug, PartialEq, Eq, Structural)]
pub struct LevelTimer {
    pub elapsed_ms: u64,
}

impl LevelTimer {
    /// Advance the stopwatch by one frame's delta, saturating at the
    /// representable maximum.
    pub fn tick(&mut self, delta_ms: u64)
        ensures
            final(self).elapsed_ms == (if old(self).elapsed_ms + delta_ms > u64::MAX {
                u64::MAX as int
            } else {
                old(self).elapsed_ms + delta_ms
            }),
    {
        self.elapsed_ms = self.elapsed_ms.saturating_add(delta_ms);
    }

    /// Wind the stopwatch back to zero.
    pub fn reset(&mut self)
        ensures
            final(self).elapsed_ms == 0,
    {
        self.elapsed_ms = 0;
    }
}

impl Default for LevelTimer {
    fn default() -> (r: LevelTimer)
        ensures
            r.elapsed_ms == 0,
    {
        LevelTimer { elapsed_ms: 0 }
    }
}

/// Parameters of a quarter-circle ramp collider: the arc center offsets and
/// radius in thousandths of a tile unit, the starting angle in quarter
/// turns, and how many straight segments approximate the arc.
#[derive(Clone, Copy, Debug, PartialEq, Eq, Structural)]
pub struct RampParams {
    pub center_x: i64,
    pub center_y: i64,
    pub radius: i64,
    pub start_quarter_turns: u8,
    pub segments: u8,
}

/// The ramp recipe an int-grid cell value selects: the four concave
/// quarter-circle tiles, and nothing for every other cell value.
pub open spec fn ramp_spec(value: int) -> Option<RampParams> {
    if value == 4 {
        Option::Some(
            RampParams {
                center_x: -7500i64,
                center_y: 7500,
                radius: 15000,
                start_quarter_turns: 3,
                segments: 20,
            },
        )
    } else if value == 5 {
        Option::Some(
            RampParams {
                center_x: 7500,
                center_y: 7500,
                radius: 15000,
                start_quarter_turns: 2,
                segments: 20,
            },
        )
    } else if value == 6 {
        Option::Some(
            RampParams {
                center_x: -7500i64,
                center_y: -7500i64,
                radius: 15000,
                start_quarter_turns: 0,
                segments: 20,
            },
        )
    } else if value == 7 {
        Option::Some(
            RampParams {
                center_x: 7500,
                center_y: -7500i64,
                radius: 15000,
                start_quarter_turns: 1,
                segments: 20,
            },
        )
    } else {
        Option::None
    }
}

/// Select the ramp recipe for an int-grid cell value.
pub fn ramp_for_cell(value: i32) -> (r: Option<RampParams>)
    ensures
        r == ramp_spec(value as int),
{
    if value == 4 {
        Some(
            RampParams {
                center_x: -7500,
                center_y: 7500,
                radius: 15000,
                start_quarter_turns: 3,
                segments: 20,
            },
        )
    } else if value == 5 {
        Some(
            RampParams {
                center_x: 7500,
                center_y: 7500,
                radius: 15000,
                start_quarter_turns: 2,
                segments: 20,
            },
        )
    } else if value == 6 {
        Some(
            RampParams {
                center_x: -7500,
                center_y: -7500,
                radius: 15000,
                start_quarter_turns: 0,
                segments: 20,
            },
        )
    } else if value == 7 {
        Some(
            RampParams {
                center_x: 7500,
                center_y: -7500,
                radius: 15000,
                start_quarter_turns: 1,
                segments: 20,
            },
        )
    } else {
        None
    }
}

/// Parameters of an item pickup sensor: a solid-free cuboid collider (half
/// extents in thousandths) that reports collision events and cannot rotate.
#[derive(Clone, Copy, Debug, PartialEq, Eq, Structural)]
pub struct SensorParams {
    pub half_extent_x: i64,
    pub half_extent_y: i64,
    pub rotation_locked: bool,
    pub collision_events: bool,
}

/// The sensor recipe an authored entity identifier selects: both item kinds
/// share one pickup sensor shape; any other identifier has none.
pub open spec fn sensor_spec(s: Seq<char>) -> Option<SensorParams> {
    if s == "Hampter"@ || s == "Bluberry"@ {
        Option::Some(
            SensorParams {
                half_extent_x: 8000,
                half_extent_y: 8000,
                rotation_locked: true,
                collision_events: true,
            },
        )
    } else {
        Option::None
    }
}

/// Select the pickup-sensor recipe for an authored entity identifier,
/// surfacing unrecognized names as an error.
pub fn sensor_for_identifier(ident: &str) -> (r: Result<SensorParams, UnknownIdentifier>)
    ensures
        sensor_spec(ident@) matches Some(p) ==> r == Result::<
            SensorParams,
            UnknownIdentifier,
        >::Ok(p),
        sensor_spec(ident@) is None ==> r is Err,
{
    if str_eq(ident, "Hampter") || str_eq(ident, "Bluberry") {
        Ok(
            SensorParams {
                half_extent_x: 8000,
                half_extent_y: 8000,
                rotation_locked: true,
                collision_events: true,
            },
        )
    } else {
        Err(UnknownIdentifier)
    }
}

/// The physical collider recipe for the player: a dynamic ball of radius
/// 24 units with bouncy multiplied restitution and damping (thousandths).
#[derive(Clone, Copy, Debug, PartialEq, Eq, Structural)]
pub struct PlayerColliderParams {
    pub ball_radius: i64,
    pub restitution: i64,
    pub restitution_combine_multiply: bool,
    pub linear_damping: i64,
    pub angular_damping: i64,
}

/// The collider recipe an authored entity identifier selects.
#[derive(Clone, Copy, Debug, PartialEq, Eq, Structural)]
pub enum ColliderParams {
    PlayerBall(PlayerColliderParams),
    Plain,
}

/// The collider recipe keyed by identifier: the player gets the dynamic
/// ball, every other entity the plain default body.
pub open spec fn collider_spec(s: Seq<char>) -> ColliderParams {
    if s == "Player"@ {
        ColliderParams::PlayerBall(
            PlayerColliderParams {
                ball_radius: 24_000,
                restitution: 700,
                restitution_combine_multiply: true,
                linear_damping: 1500,
                angular_damping: 1000,
            },
        )
    } else {
        ColliderParams::Plain
    }
}

/// Select the collider recipe for an authored entity identifier.
pub fn collider_for_identifier(ident: &str) -> (r: ColliderParams)
    ensures
        r == collider_spec(ident@),
{
    if str_eq(ident, "Player") {
        ColliderParams::PlayerBall(
            PlayerColliderParams {
                ball_radius: 24_000,
                restitution: 700,
                restitution_combine_multiply: true,
                linear_damping: 1500,
                angular_damping: 1000,
            },
        )
    } else {
        ColliderParams::Plain
    }
}

} // verus!
