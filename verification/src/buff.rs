//! The timed-buff controller and the stat boost read from the ledger.
//!
//! A single one-shot countdown gates the decay of the stockpiled consumable
//! kind: whenever the countdown fires while the stored count is positive,
//! the count drops by one and the countdown restarts; the countdown only
//! advances while the count stays positive, and lies dormant at zero.

use vstd::prelude::*;

verus! {

use crate::items::ItemType;
use crate::items::Items;
use crate::movement::MovementConfig;
use crate::movement::DEFAULT_MOVEMENT_SPEED;

/// Duration of the consumable decay countdown, in milliseconds.
pub const BLUBERRY_DECAY_MS: u64 = 2000;

/// Speed gained while at least one consumable is stockpiled, in thousandths.
pub const BLUBERRY_SPEED_BONUS: i64 = 10_000;

/// Largest countdown duration accepted, in milliseconds.
pub const DURATION_LIMIT_MS: u64 = 0x10_0000_0000;

/// A one-shot countdown timer: fires once when the elapsed time reaches the
/// duration, then stays finished until reset.
#[derive(Clone, Copy, Debug, PartialEq, Eq, Structural)]
pub struct BluberryTimer {
    pub duration_ms: u64,
    pub elapsed_ms: u64,
    pub just_finished: bool,
}

/// The timer after one advance by `delta_ms`: elapsed time accumulates up
/// to the duration, and the fired flag holds exactly on the advance that
/// reaches it.
pub open spec fn spec_tick(t: BluberryTimer, delta_ms: u64) -> BluberryTimer {
    if t.elapsed_ms >= t.duration_ms {
        BluberryTimer { duration_ms: t.duration_ms, elapsed_ms: t.elapsed_ms, just_finished: false }
    } else if t.elapsed_ms + delta_ms >= t.duration_ms {
        BluberryTimer { duration_ms: t.duration_ms, elapsed_ms: t.duration_ms, just_finished: true }
    } else {
        BluberryTimer {
            duration_ms: t.duration_ms,
            elapsed_ms: (t.elapsed_ms + delta_ms) as u64,
            just_finished: false,
        }
    }
}

/// The timer wound back to zero elapsed time, not fired.
pub open spec fn spec_reset(t: BluberryTimer) -> BluberryTimer {
    BluberryTimer { duration_ms: t.duration_ms, elapsed_ms: 0, just_finished: false }
}

impl BluberryTimer {
    /// The elapsed time never exceeds the (positive, bounded) duration.
    pub open spec fn wf(self) -> bool {
        &&& 1 <= self.duration_ms <= DURATION_LIMIT_MS
        &&& self.elapsed_ms <= self.duration_ms
    }

    /// Advance the countdown by `delta_ms`.
    pub fn tick(&mut self, delta_ms: u64)
        requires
            old(self).wf(),
        ensures
            *final(self) == spec_tick(*old(self), delta_ms),
            final(self).wf(),
    {
        if self.elapsed_ms >= self.duration_ms {
            self.just_finished = false;
        } else if delta_ms >= self.duration_ms - self.elapsed_ms {
            self.elapsed_ms = self.duration_ms;
            self.just_finished = true;
        } else {
            self.elapsed_ms = self.elapsed_ms + delta_ms;
            self.just_finished = false;
        }
    }

    /// Wind the countdown back to zero elapsed time.
    pub fn reset(&mut self)
        requires
            old(self).wf(),
        ensures
            *final(self) == spec_reset(*old(self)),
            final(self).wf(),
    {
        self.elapsed_ms = 0;
        self.just_finished = false;
    }

    /// The remaining decay time shown by the HUD while `count` consumables
    /// are stockpiled: the full duration for every stored item, less the
    /// time already elapsed on the running countdown.
    pub fn remaining_ms(&self, count: u8) -> (r: u64)
        requires
            self.wf(),
            count >= 1,
        ensures
            r == self.duration_ms * count - self.elapsed_ms,
    {
        proof {
            assert(self.duration_ms * count >= self.duration_ms * 1) by (nonlinear_arith)
                requires
                    count >= 1,
                    self.duration_ms >= 1,
            ;
            assert(self.duration_ms * count <= DURATION_LIMIT_MS * 255) by (nonlinear_arith)
                requires
                    1 <= count <= 255,
                    self.duration_ms <= DURATION_LIMIT_MS,
            ;
        }
        self.duration_ms * (count as u64) - self.elapsed_ms
    }
}

impl Default for BluberryTimer {
    fn default() -> (r: BluberryTimer)
        ensures
            r.duration_ms == BLUBERRY_DECAY_MS,
            r.elapsed_ms == 0,
            !r.just_finished,
            r.wf(),
    {
        BluberryTimer { duration_ms: BLUBERRY_DECAY_MS, elapsed_ms: 0, just_finished: false }
    }
}

/// The consumable count after one decay step.
pub open spec fn buff_count_after(count: int, t: BluberryTimer) -> int {
    if t.just_finished && count > 0 {
        count - 1
    } else {
        count
    }
}

/// The countdown after one decay step: restarted on a decrement, then
/// advanced only while the remaining count is positive.
pub open spec fn buff_timer_after(count: int, t: BluberryTimer, delta_ms: u64) -> BluberryTimer {
    let t1 = if t.just_finished && count > 0 {
        spec_reset(t)
    } else {
        t
    };
    if buff_count_after(count, t) > 0 {
        spec_tick(t1, delta_ms)
    } else {
        t1
    }
}

/// One frame of the timed-buff controller.
///
/// When the countdown fired on the previous frame and the consumable count
/// is still positive, the count drops by one and the countdown restarts;
/// afterwards the countdown advances by this frame's delta only while the
/// count remains positive.  No other ledger entry is touched.
pub fn temporary_items(items: &mut Items, timer: &mut BluberryTimer, delta_ms: u64)
    requires
        old(items).wf(),
        old(timer).wf(),
    ensures
        final(items).wf(),
        final(timer).wf(),
        final(items).count(ItemType::Bluberry) == buff_count_after(
            old(items).count(ItemType::Bluberry),
            *old(timer),
        ),
        *final(timer) == buff_timer_after(
            old(items).count(ItemType::Bluberry),
            *old(timer),
            delta_ms,
        ),
        forall|k: ItemType|
            k != ItemType::Bluberry ==> final(items).count(k) == old(items).count(k),
        forall|k: ItemType| final(items).has_kind(k) == old(items).has_kind(k),
{
    let c = items.get(ItemType::Bluberry);
    if timer.just_finished && c != 0 {
        items.sub_one(ItemType::Bluberry);
        timer.reset();
    }
    let c2 = items.get(ItemType::Bluberry);
    if c2 > 0 {
        timer.tick(delta_ms);
    }
}

/// Law: a decay step leaves every count unchanged except the consumable
/// kind, which drops by exactly one precisely when the countdown has just
/// fired while the count was positive; and a dormant controller (count
/// zero) neither changes the count nor advances the countdown.
pub proof fn lemma_buff_decrement(count: int, t: BluberryTimer, delta_ms: u64)
    requires
        count >= 0,
    ensures
        t.just_finished && count > 0 ==> buff_count_after(count, t) == count - 1,
        !(t.just_finished && count > 0) ==> buff_count_after(count, t) == count,
        count == 0 ==> buff_timer_after(count, t, delta_ms) == t,
{
}

/// Law: over one frame (pickup collection followed by the decay step) a
/// ledger count never falls below its starting value, with one exception:
/// a decay decrement, which happens only when the countdown has just fired
/// on a positive consumable count, and lowers it by exactly one.
///
/// `before` is a kind's count at the start of the frame and `collected` the
/// count after pickup collection, which never shrinks it; the decay step
/// then yields `buff_count_after(collected, t)` for the consumable kind and
/// leaves every other kind at `collected`.
pub proof fn lemma_ledger_monotonic(before: int, collected: int, t: BluberryTimer)
    requires
        0 <= before <= collected,
    ensures
        buff_count_after(collected, t) >= before || (buff_count_after(collected, t) == before - 1
            && t.just_finished && collected == before && before > 0),
{
}

/// Apply the stat boost the ledger grants: while at least one consumable is
/// stockpiled the movement speed is raised by a fixed bonus over the
/// default, and with an empty stockpile entry it returns to the default.
/// A ledger that never saw the consumable leaves the tuning untouched.
pub fn boost_stats(items: &Items, config: &mut MovementConfig)
    requires
        items.wf(),
        old(config).wf(),
    ensures
        final(config).wf(),
        items.has_kind(ItemType::Bluberry) ==> final(config).movement_speed
            == DEFAULT_MOVEMENT_SPEED + (if items.count(ItemType::Bluberry) >= 1 {
            BLUBERRY_SPEED_BONUS
        } else {
            0
        }),
        !items.has_kind(ItemType::Bluberry) ==> final(config).movement_speed == old(
            config,
        ).movement_speed,
        final(config).jump_impulse == old(config).jump_impulse,
        final(config).maximum_vel == old(config).maximum_vel,
{
    if items.has(ItemType::Bluberry) {
        let c = items.get(ItemType::Bluberry);
        if c >= 1 {
            config.movement_speed = DEFAULT_MOVEMENT_SPEED + BLUBERRY_SPEED_BONUS;
        } else {
            config.movement_speed = DEFAULT_MOVEMENT_SPEED;
        }
    }
}

} // verus!
