//! HUD decisions: what the widgets must show for a given game state.
//!
//! The HUD owns no gameplay state.  When a level starts it spawns one icon
//! row per item kind; every frame it reconciles the spawned bluberry icons
//! against the ledger and refreshes the timer texts.  All sizing is in
//! thousandths of a percent of the screen; all texts are in centiseconds,
//! matching a two-decimal seconds display.

use vstd::prelude::*;

verus! {

use crate::assets::ImageKey;
use crate::buff::BluberryTimer;
use crate::items::ItemType;
use crate::items::Items;
use crate::level::CurrentLevel;
use crate::level::LevelTimer;
use crate::level::FIRST_LEVEL_HAMPTERS;

/// Width one item icon column takes, in thousandths of a percent.
pub const ICON_WIDTH_MILLI_PCT: u64 = 4500;

/// Height of an icon row, in thousandths of a percent.
pub const ROW_HEIGHT_MILLI_PCT: u64 = 7500;

/// Top offset of the bluberry icon row, in thousandths of a percent.
pub const BLUBERRY_ROW_TOP_MILLI_PCT: u64 = 10_000;

/// Top offset of the bluberry countdown text, in thousandths of a percent.
pub const BLUBERRY_TIMER_TOP_MILLI_PCT: u64 = 17_000;

/// Font size of the HUD timer texts, in points.
pub const HUD_FONT_SIZE: u64 = 24;

/// The widgets the HUD spawns when a level starts.
pub struct LevelUi {
    /// Width of the hampter icon row.
    pub hampter_row_width_milli_pct: u64,
    /// One marker per target hampter, in display order.
    pub hampter_icon_markers: Vec<u8>,
    /// Width of the (initially empty) bluberry icon row.
    pub bluberry_row_width_milli_pct: u64,
    /// The decay countdown text, `None` while empty.
    pub bluberry_timer_text_centis: Option<u64>,
    /// The level stopwatch text, `None` while empty.
    pub level_timer_text_centis: Option<u64>,
}

/// Lay out the HUD for a freshly spawned level: one not-yet-collected icon
/// per target hampter (markers counting up from zero), an empty bluberry
/// row, and blank timer texts.
pub fn enter_level(level: &CurrentLevel) -> (ui: LevelUi)
    ensures
        ui.hampter_row_width_milli_pct == ICON_WIDTH_MILLI_PCT * FIRST_LEVEL_HAMPTERS as u64,
        ui.hampter_icon_markers@.len() == FIRST_LEVEL_HAMPTERS as int,
        forall|i: int|
            0 <= i < ui.hampter_icon_markers@.len() ==> ui.hampter_icon_markers@[i] == i,
        ui.bluberry_row_width_milli_pct == 0,
        ui.bluberry_timer_text_centis is None,
        ui.level_timer_text_centis is None,
{
    let target = level.hampters();
    let mut markers: Vec<u8> = Vec::new();
    let mut i: u8 = 0;
    while i < target
        invariant
            0 <= i <= target,
            markers@.len() == i as int,
            forall|j: int| 0 <= j < markers@.len() ==> markers@[j] == j,
        decreases target - i,
    {
        markers.push(i);
        i = i + 1;
    }
    LevelUi {
        hampter_row_width_milli_pct: ICON_WIDTH_MILLI_PCT * (target as u64),
        hampter_icon_markers: markers,
        bluberry_row_width_milli_pct: 0,
        bluberry_timer_text_centis: None,
        level_timer_text_centis: None,
    }
}

/// The image each hampter icon must show: collected for markers below the
/// collected count, not-yet-collected for the rest.
pub fn update_hampter_ui(markers: &Vec<u8>, items: &Items) -> (imgs: Vec<ImageKey>)
    requires
        items.wf(),
    ensures
        imgs@.len() == markers@.len(),
        forall|i: int|
            0 <= i < imgs@.len() ==> imgs@[i] == (if markers@[i] < items.count(
                ItemType::Hampter,
            ) {
                ImageKey::Hampter
            } else {
                ImageKey::NotCollectedHampter
            }),
{
    let collected = items.get(ItemType::Hampter);
    let mut imgs: Vec<ImageKey> = Vec::new();
    let n = markers.len();
    let mut i: usize = 0;
    while i < n
        invariant
            items.wf(),
            collected as int == items.count(ItemType::Hampter),
            n == markers@.len(),
            0 <= i <= n,
            imgs@.len() == i as int,
            forall|j: int|
                0 <= j < i ==> imgs@[j] == (if markers@[j] < items.count(ItemType::Hampter) {
                    ImageKey::Hampter
                } else {
                    ImageKey::NotCollectedHampter
                }),
        decreases n - i,
    {
        if markers[i] < collected {
            imgs.push(ImageKey::Hampter);
        } else {
            imgs.push(ImageKey::NotCollectedHampter);
        }
        i = i + 1;
    }
    imgs
}

/// One reconciliation step for the bluberry row: spawn the missing icons,
/// despawn the spare ones, or (when the row already matches the ledger)
/// refresh the countdown text.
#[derive(Clone, Copy, Debug, PartialEq, Eq, Structural)]
pub enum BluberryUiAction {
    /// Spawn icons with indices `from..to`.
    SpawnIcons { from: u8, to: u8 },
    /// Despawn the icons with indices `from..to`.
    DespawnIcons { from: u8, to: u8 },
    /// Set the countdown text, `None` meaning empty.
    SetTimerText { centis: Option<u64> },
}

/// The number of spawned icons after applying an action.
pub open spec fn icon_count_after(current: int, act: BluberryUiAction) -> int {
    match act {
        BluberryUiAction::SpawnIcons { from, to } => current + (to - from),
        BluberryUiAction::DespawnIcons { from, to } => current - (to - from),
        BluberryUiAction::SetTimerText { .. } => current,
    }
}

/// The countdown text shown while the row matches the ledger: empty at
/// count zero, else the remaining decay time in centiseconds.
pub open spec fn bluberry_text_spec(c: int, timer: BluberryTimer) -> Option<u64> {
    if c == 0 {
        Option::None
    } else {
        Option::Some((((timer.duration_ms * c - timer.elapsed_ms)) / 10) as u64)
    }
}

/// The reconciliation action for `icon_count` spawned icons against a
/// ledger holding `c` bluberries.
pub open spec fn bluberry_action_spec(icon_count: int, c: int, timer: BluberryTimer) -> BluberryUiAction {
    if icon_count < c {
        BluberryUiAction::SpawnIcons { from: icon_count as u8, to: c as u8 }
    } else if icon_count > c {
        BluberryUiAction::DespawnIcons { from: c as u8, to: icon_count as u8 }
    } else {
        BluberryUiAction::SetTimerText { centis: bluberry_text_spec(c, timer) }
    }
}

/// The frame's HUD update for the bluberry row.
pub struct BluberryUi {
    /// Width of the bluberry icon row.
    pub row_width_milli_pct: u64,
    /// The widget change this frame asks for.
    pub action: BluberryUiAction,
}

/// Reconcile the bluberry icon row with the ledger: size the row to the
/// stored count, spawn or despawn the icon difference, and once the row
/// matches, show the remaining decay time (empty at count zero).
pub fn update_bluberry_ui(icon_count: u8, items: &Items, timer: &BluberryTimer) -> (r: BluberryUi)
    requires
        items.wf(),
        timer.wf(),
    ensures
        r.row_width_milli_pct == ICON_WIDTH_MILLI_PCT * items.count(ItemType::Bluberry),
        r.action == bluberry_action_spec(icon_count as int, items.count(ItemType::Bluberry), *timer),
{
    proof {
        items.lemma_count_in_range(ItemType::Bluberry);
    }
    let c = items.get(ItemType::Bluberry);
    let width: u64 = ICON_WIDTH_MILLI_PCT * (c as u64);
    if icon_count < c {
        BluberryUi { row_width_milli_pct: width, action: BluberryUiAction::SpawnIcons { from: icon_count, to: c } }
    } else if icon_count > c {
        BluberryUi { row_width_milli_pct: width, action: BluberryUiAction::DespawnIcons { from: c, to: icon_count } }
    } else if c == 0 {
        BluberryUi { row_width_milli_pct: width, action: BluberryUiAction::SetTimerText { centis: None } }
    } else {
        let remaining = timer.remaining_ms(c);
        BluberryUi {
            row_width_milli_pct: width,
            action: BluberryUiAction::SetTimerText { centis: Some(remaining / 10) },
        }
    }
}

/// Law: rendering the bluberry row is idempotent on widget counts.  One
/// reconciliation brings the spawned icon count to the ledger count, and a
/// further rendering from an unchanged ledger only refreshes text: it
/// spawns and despawns nothing.
pub proof fn lemma_bluberry_render_idempotent(icon_count: int, c: int, timer: BluberryTimer)
    requires
        0 <= icon_count <= 255,
        0 <= c <= 255,
    ensures
        icon_count_after(icon_count, bluberry_action_spec(icon_count, c, timer)) == c,
        bluberry_action_spec(c, c, timer) matches BluberryUiAction::SetTimerText { .. },
        icon_count_after(c, bluberry_action_spec(c, c, timer)) == c,
{
}

/// The level stopwatch text, in centiseconds.
pub fn update_level_timer_ui(timer: &LevelTimer) -> (centis: u64)
    ensures
        centis == timer.elapsed_ms / 10,
{
    timer.elapsed_ms / 10
}

} // verus!
