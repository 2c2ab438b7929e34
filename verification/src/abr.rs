//! Adapting the stream's bitrate to how full its queue is.
//!
//! The queue is observed at a steady pace. A queue that stays full lowers the
//! bitrate, one that stays empty raises it again.
use vstd::prelude::*;

verus! {

/// When and how far the bitrate moves.
#[derive(Debug, Clone, Copy, PartialEq, Eq, Structural)]
pub struct AbrConfig {
    /// The lowest bitrate to set, in kilobits per second.
    pub floor_kbps: u32,
    /// The highest bitrate, the configured target.
    pub ceiling_kbps: u32,
    /// How full the queue is, in percent, when an observation counts as high.
    pub high_level_percent: u32,
    /// How full the queue is at most when an observation counts as low.
    pub low_level_percent: u32,
    /// High observations in a row before a step down.
    pub high_ticks_to_downstep: u32,
    /// Low observations in a row before a step up.
    pub low_ticks_to_upstep: u32,
    /// What a step down leaves, in percent.
    pub downstep_percent: u32,
    /// What a step up leads to, in percent.
    pub upstep_percent: u32,
}

/// The tuned settings for a configured bitrate.
pub open spec fn tuned(ceiling_kbps: u32) -> AbrConfig {
    AbrConfig {
        floor_kbps: 500,
        ceiling_kbps,
        high_level_percent: 75,
        low_level_percent: 10,
        high_ticks_to_downstep: 3,
        low_ticks_to_upstep: 10,
        downstep_percent: 80,
        upstep_percent: 110,
    }
}

impl AbrConfig {
    pub fn from_ceiling(ceiling_kbps: u32) -> (c: AbrConfig)
        ensures
            c == tuned(ceiling_kbps),
    {
        AbrConfig {
            floor_kbps: 500,
            ceiling_kbps,
            high_level_percent: 75,
            low_level_percent: 10,
            high_ticks_to_downstep: 3,
            low_ticks_to_upstep: 10,
            downstep_percent: 80,
            upstep_percent: 110,
        }
    }
}

/// A percentage of a bitrate, rounded, as far as a 32-bit number holds it.
pub open spec fn percent_of(kbps: u32, percent: u32) -> u32 {
    let exact = (2 * kbps * percent + 100) / 200;
    if exact > u32::MAX {
        u32::MAX
    } else {
        exact as u32
    }
}

fn scale(kbps: u32, percent: u32) -> (r: u32)
    ensures
        r == percent_of(kbps, percent),
{
    assert(2 * kbps * percent + 100 <= 0x1_ffff_ffff_ffff_ffff) by (nonlinear_arith)
        requires
            kbps <= u32::MAX,
            percent <= u32::MAX,
    ;
    let exact: u128 = (2 * (kbps as u128) * (percent as u128) + 100) / 200;
    if exact > u32::MAX as u128 {
        u32::MAX
    } else {
        exact as u32
    }
}

/// How full the queue is, from empty to full.
pub open spec fn clamped(level: i64, capacity: u64) -> int {
    if level < 0 {
        0
    } else if level > capacity {
        capacity as int
    } else {
        level as int
    }
}

/// Decides on the bitrate.
#[derive(Debug, Clone, Copy, PartialEq, Eq, Structural)]
pub struct AbrController {
    pub cfg: AbrConfig,
    pub current_kbps: u32,
    pub consecutive_high: u32,
    pub consecutive_low: u32,
}

pub open spec fn counted(n: u32) -> u32 {
    if n == u32::MAX {
        n
    } else {
        (n + 1) as u32
    }
}

impl AbrController {
    pub open spec fn fresh(cfg: AbrConfig) -> AbrController {
        AbrController {
            cfg,
            current_kbps: cfg.ceiling_kbps,
            consecutive_high: 0,
            consecutive_low: 0,
        }
    }

    pub open spec fn high(self, level: i64, capacity: u64) -> bool {
        clamped(level, capacity) * 100 >= self.cfg.high_level_percent * capacity
    }

    pub open spec fn low(self, level: i64, capacity: u64) -> bool {
        !self.high(level, capacity) && clamped(level, capacity) * 100 <= self.cfg.low_level_percent
            * capacity
    }

    /// The counters after an observation. Anything between high and low starts
    /// both anew.
    pub open spec fn observed(self, level: i64, capacity: u64) -> AbrController {
        if self.high(level, capacity) {
            AbrController {
                consecutive_high: counted(self.consecutive_high),
                consecutive_low: 0,
                ..self
            }
        } else if self.low(level, capacity) {
            AbrController {
                consecutive_high: 0,
                consecutive_low: counted(self.consecutive_low),
                ..self
            }
        } else {
            AbrController { consecutive_high: 0, consecutive_low: 0, ..self }
        }
    }

    /// The bitrate one step down, not below the floor, and never above the
    /// ceiling.
    pub open spec fn lower(self) -> u32 {
        let p = percent_of(self.current_kbps, self.cfg.downstep_percent);
        let kept = if p >= self.cfg.floor_kbps {
            p
        } else {
            self.cfg.floor_kbps
        };
        if kept <= self.cfg.ceiling_kbps {
            kept
        } else {
            self.cfg.ceiling_kbps
        }
    }

    /// The bitrate one step up, not above the ceiling.
    pub open spec fn higher(self) -> u32 {
        let p = percent_of(self.current_kbps, self.cfg.upstep_percent);
        if p <= self.cfg.ceiling_kbps {
            p
        } else {
            self.cfg.ceiling_kbps
        }
    }

    /// The controller after an observation, and the new bitrate if it moved. A
    /// queue without a capacity is not an observation.
    pub open spec fn ticked(self, level: i64, capacity: u64) -> (AbrController, Option<u32>) {
        if capacity == 0 {
            (self, None)
        } else {
            let o = self.observed(level, capacity);
            if o.consecutive_high >= o.cfg.high_ticks_to_downstep {
                (
                    AbrController { current_kbps: o.lower(), consecutive_high: 0, ..o },
                    if o.lower() == o.current_kbps {
                        None
                    } else {
                        Some(o.lower())
                    },
                )
            } else if o.consecutive_low >= o.cfg.low_ticks_to_upstep {
                (
                    AbrController { current_kbps: o.higher(), consecutive_low: 0, ..o },
                    if o.higher() == o.current_kbps {
                        None
                    } else {
                        Some(o.higher())
                    },
                )
            } else {
                (o, None)
            }
        }
    }

    /// Start at the ceiling.
    pub fn new(cfg: AbrConfig) -> (c: AbrController)
        ensures
            c == AbrController::fresh(cfg),
    {
        AbrController {
            cfg,
            current_kbps: cfg.ceiling_kbps,
            consecutive_high: 0,
            consecutive_low: 0,
        }
    }

    pub fn current_kbps(&self) -> (k: u32)
        ensures
            k == self.current_kbps,
    {
        self.current_kbps
    }

    /// Take in one observation: how much of its capacity the queue holds. Gives
    /// the new bitrate when it moved.
    pub fn tick(&mut self, level: i64, capacity: u64) -> (r: Option<u32>)
        ensures
            (*final(self), r) == old(self).ticked(level, capacity),
    {
        if capacity == 0 {
            return None;
        }
        let held: u64 = if level < 0 {
            0
        } else if level as u64 > capacity {
            capacity
        } else {
            level as u64
        };
        let high_mark: u128 = self.high_mark(capacity);
        let low_mark: u128 = self.low_mark(capacity);
        let filled: u128 = (held as u128) * 100;
        if filled >= high_mark {
            self.consecutive_high = if self.consecutive_high == u32::MAX {
                u32::MAX
            } else {
                self.consecutive_high + 1
            };
            self.consecutive_low = 0;
        } else if filled <= low_mark {
            self.consecutive_low = if self.consecutive_low == u32::MAX {
                u32::MAX
            } else {
                self.consecutive_low + 1
            };
            self.consecutive_high = 0;
        } else {
            self.consecutive_high = 0;
            self.consecutive_low = 0;
        }
        if self.consecutive_high >= self.cfg.high_ticks_to_downstep {
            self.consecutive_high = 0;
            return self.try_downstep();
        }
        if self.consecutive_low >= self.cfg.low_ticks_to_upstep {
            self.consecutive_low = 0;
            return self.try_upstep();
        }
        None
    }

    fn high_mark(&self, capacity: u64) -> (m: u128)
        ensures
            m == self.cfg.high_level_percent * capacity,
    {
        assert(self.cfg.high_level_percent * capacity <= 0xffff_ffff_ffff_ffff_ffff_ffff)
            by (nonlinear_arith)
            requires
                self.cfg.high_level_percent <= u32::MAX,
                capacity <= u64::MAX,
        ;
        (self.cfg.high_level_percent as u128) * (capacity as u128)
    }

    fn low_mark(&self, capacity: u64) -> (m: u128)
        ensures
            m == self.cfg.low_level_percent * capacity,
    {
        assert(self.cfg.low_level_percent * capacity <= 0xffff_ffff_ffff_ffff_ffff_ffff)
            by (nonlinear_arith)
            requires
                self.cfg.low_level_percent <= u32::MAX,
                capacity <= u64::MAX,
        ;
        (self.cfg.low_level_percent as u128) * (capacity as u128)
    }

    fn try_downstep(&mut self) -> (r: Option<u32>)
        ensures
            *final(self) == (AbrController { current_kbps: old(self).lower(), ..*old(self) }),
            r == (if old(self).lower() == old(self).current_kbps {
                None::<u32>
            } else {
                Some(old(self).lower())
            }),
    {
        let proposed: u32 = scale(self.current_kbps, self.cfg.downstep_percent);
        let kept: u32 = if proposed >= self.cfg.floor_kbps {
            proposed
        } else {
            self.cfg.floor_kbps
        };
        let new_kbps: u32 = if kept <= self.cfg.ceiling_kbps {
            kept
        } else {
            self.cfg.ceiling_kbps
        };
        if new_kbps == self.current_kbps {
            None
        } else {
            self.current_kbps = new_kbps;
            Some(new_kbps)
        }
    }

    fn try_upstep(&mut self) -> (r: Option<u32>)
        ensures
            *final(self) == (AbrController { current_kbps: old(self).higher(), ..*old(self) }),
            r == (if old(self).higher() == old(self).current_kbps {
                None::<u32>
            } else {
                Some(old(self).higher())
            }),
    {
        let proposed: u32 = scale(self.current_kbps, self.cfg.upstep_percent);
        let new_kbps: u32 = if proposed <= self.cfg.ceiling_kbps {
            proposed
        } else {
            self.cfg.ceiling_kbps
        };
        if new_kbps == self.current_kbps {
            None
        } else {
            self.current_kbps = new_kbps;
            Some(new_kbps)
        }
    }
}

// What holds of every run.

/// A step down does not raise, and a step up does not lower.
proof fn lemma_steps(kbps: u32)
    ensures
        percent_of(kbps, 80) <= kbps,
        percent_of(kbps, 110) >= kbps,
{
    assert(2 * kbps * 80 == 160 * kbps);
    assert(2 * kbps * 110 == 220 * kbps);
}

/// The lowest bitrate of a run: the floor, or the ceiling where that is lower.
pub open spec fn least(cfg: AbrConfig) -> u32 {
    if cfg.floor_kbps <= cfg.ceiling_kbps {
        cfg.floor_kbps
    } else {
        cfg.ceiling_kbps
    }
}

/// The bitrate never passes the ceiling, and does not fall below the floor
/// unless the ceiling lies below it. A tick tells of a bitrate exactly when it
/// changed it.
pub proof fn law_bitrate_bounded(c: AbrController, level: i64, capacity: u64)
    requires
        c.cfg == tuned(c.cfg.ceiling_kbps),
        least(c.cfg) <= c.current_kbps <= c.cfg.ceiling_kbps,
    ensures
        least(c.cfg) <= c.ticked(level, capacity).0.current_kbps <= c.cfg.ceiling_kbps,
        c.ticked(level, capacity).0.cfg == c.cfg,
        c.ticked(level, capacity).1 == (if c.ticked(level, capacity).0.current_kbps
            == c.current_kbps {
            None
        } else {
            Some(c.ticked(level, capacity).0.current_kbps)
        }),
{
    lemma_steps(c.current_kbps);
}

/// The bitrate only falls on a high observation, and only rises on a low one.
pub proof fn law_bitrate_follows_queue(c: AbrController, level: i64, capacity: u64)
    requires
        c.cfg == tuned(c.cfg.ceiling_kbps),
        least(c.cfg) <= c.current_kbps <= c.cfg.ceiling_kbps,
        c.consecutive_high < 3,
        c.consecutive_low < 10,
    ensures
        c.ticked(level, capacity).0.current_kbps < c.current_kbps ==> c.high(level, capacity),
        c.ticked(level, capacity).0.current_kbps > c.current_kbps ==> c.low(level, capacity),
        c.ticked(level, capacity).0.consecutive_high < 3,
        c.ticked(level, capacity).0.consecutive_low < 10,
{
    lemma_steps(c.current_kbps);
}

/// The state after a series of observations.
pub open spec fn run(c: AbrController, levels: Seq<(i64, u64)>) -> AbrController
    decreases levels.len(),
{
    if levels.len() == 0 {
        c
    } else {
        run(c, levels.drop_last()).ticked(levels.last().0, levels.last().1).0
    }
}

/// However the queue behaves, the bitrate never passes the ceiling, and stays at
/// 500 or above where the ceiling does.
pub proof fn law_every_run_bounded(ceiling_kbps: u32, levels: Seq<(i64, u64)>)
    ensures
        run(AbrController::fresh(tuned(ceiling_kbps)), levels).current_kbps <= ceiling_kbps,
        ceiling_kbps >= 500 ==> run(
            AbrController::fresh(tuned(ceiling_kbps)),
            levels,
        ).current_kbps >= 500,
        least(tuned(ceiling_kbps)) <= run(
            AbrController::fresh(tuned(ceiling_kbps)),
            levels,
        ).current_kbps,
        run(AbrController::fresh(tuned(ceiling_kbps)), levels).cfg == tuned(ceiling_kbps),
    decreases levels.len(),
{
    if levels.len() > 0 {
        law_every_run_bounded(ceiling_kbps, levels.drop_last());
        law_bitrate_bounded(
            run(AbrController::fresh(tuned(ceiling_kbps)), levels.drop_last()),
            levels.last().0,
            levels.last().1,
        );
    }
}

/// A queue that is never high twice in a row and never low twice in a row
/// leaves the bitrate alone: only sustained extremes move it.
pub proof fn law_only_sustained_extremes_move(
    c: AbrController,
    first: (i64, u64),
    second: (i64, u64),
)
    requires
        c.cfg == tuned(c.cfg.ceiling_kbps),
        first.1 > 0,
        second.1 > 0,
        c.consecutive_high == 0,
        c.consecutive_low == 0,
    ensures
        c.ticked(first.0, first.1).1 is None,
        !(c.high(first.0, first.1) && c.high(second.0, second.1)) && !(c.low(first.0, first.1)
            && c.low(second.0, second.1)) ==> {
            let after = c.ticked(first.0, first.1).0.ticked(second.0, second.1);
            &&& after.1 is None
            &&& after.0.current_kbps == c.current_kbps
            &&& after.0.consecutive_high <= 1
            &&& after.0.consecutive_low <= 1
        },
{
}

} // verus!
