//! Render performance statistics: per-frame counters of pixel writes,
//! character draws and clears, their totals over all frames, and frame
//! timing with running minimum, maximum and average.
//!
//! The counters live in a `RenderStatsGlobal` value that the caller owns
//! and hands to each recording function.

use vstd::prelude::*;
use vstd::wrapping::u64_specs::wrapping_add;

verus! {

/// Counters of the render statistics.
#[derive(Debug, Clone, Copy, PartialEq, Eq, Structural)]
pub struct RenderStatsGlobal {
    /// Pixel writes this frame
    pub pixel_writes: u64,
    /// Character draws this frame
    pub char_draws: u64,
    /// Full screen clears this frame
    pub full_clears: u64,
    /// Line clears this frame
    pub line_clears: u64,
    /// Tick at which the current frame started
    pub frame_start_tick: u64,
    /// Duration of the last frame, in ticks
    pub last_frame_ticks: u64,
    /// Running sum of frame durations
    pub total_frame_ticks: u64,
    /// Number of frames ended
    pub frame_count: u64,
    /// Shortest frame observed
    pub min_frame_ticks: u64,
    /// Longest frame observed
    pub max_frame_ticks: u64,
    /// Pixel writes over all frames since the last reset (wrapping)
    pub total_pixel_writes: u64,
    /// Character draws over all frames since the last reset (wrapping)
    pub total_char_draws: u64,
}

impl RenderStatsGlobal {
    /// The counters of a fresh or reset statistics store.
    pub open spec fn initial() -> RenderStatsGlobal {
        RenderStatsGlobal {
            pixel_writes: 0,
            char_draws: 0,
            full_clears: 0,
            line_clears: 0,
            frame_start_tick: 0,
            last_frame_ticks: 0,
            total_frame_ticks: 0,
            frame_count: 0,
            min_frame_ticks: u64::MAX,
            max_frame_ticks: 0,
            total_pixel_writes: 0,
            total_char_draws: 0,
        }
    }

    /// Creates a statistics store with every counter reset.
    pub fn new() -> (r: Self)
        ensures
            r == Self::initial(),
    {
        RenderStatsGlobal {
            pixel_writes: 0,
            char_draws: 0,
            full_clears: 0,
            line_clears: 0,
            frame_start_tick: 0,
            last_frame_ticks: 0,
            total_frame_ticks: 0,
            frame_count: 0,
            min_frame_ticks: u64::MAX,
            max_frame_ticks: 0,
            total_pixel_writes: 0,
            total_char_draws: 0,
        }
    }
}

/// Snapshot of the statistics of one frame.
#[derive(Debug, Clone, Copy, Default, PartialEq, Eq, Structural)]
pub struct RenderFrameStats {
    pub pixel_writes: u64,
    pub char_draws: u64,
    pub full_clears: u64,
    pub line_clears: u64,
    pub frame_ticks: u64,
}

/// Cumulative statistics over all frames.
#[derive(Debug, Clone, Copy, Default, PartialEq, Eq, Structural)]
pub struct RenderCumulativeStats {
    pub frame_count: u64,
    pub avg_frame_ticks: u64,
    pub min_frame_ticks: u64,
    pub max_frame_ticks: u64,
    pub total_pixel_writes: u64,
    pub total_char_draws: u64,
}

/// Starts timing a frame: resets the per-frame counters and remembers the
/// start tick; the totals over all frames go on.
pub fn frame_begin(stats: &mut RenderStatsGlobal, current_tick: u64)
    ensures
        *final(stats) == (RenderStatsGlobal {
            pixel_writes: 0,
            char_draws: 0,
            full_clears: 0,
            line_clears: 0,
            frame_start_tick: current_tick,
            ..*old(stats)
        }),
{
    stats.pixel_writes = 0;
    stats.char_draws = 0;
    stats.full_clears = 0;
    stats.line_clears = 0;
    stats.frame_start_tick = current_tick;
}

/// The duration of a frame that ends at `tick`: ticks since its start,
/// zero when the clock went backwards.
pub open spec fn frame_duration(stats: RenderStatsGlobal, tick: u64) -> u64 {
    if tick >= stats.frame_start_tick {
        (tick - stats.frame_start_tick) as u64
    } else {
        0
    }
}

/// Ends the frame at `current_tick`: records its duration in the running
/// totals, minimum and maximum, and returns the frame's counters.
pub fn frame_end(stats: &mut RenderStatsGlobal, current_tick: u64) -> (r: RenderFrameStats)
    ensures
        ({
            let d = frame_duration(*old(stats), current_tick);
            &&& *final(stats) == (RenderStatsGlobal {
                last_frame_ticks: d,
                total_frame_ticks: wrapping_add(old(stats).total_frame_ticks, d),
                frame_count: wrapping_add(old(stats).frame_count, 1),
                min_frame_ticks: if d < old(stats).min_frame_ticks {
                    d
                } else {
                    old(stats).min_frame_ticks
                },
                max_frame_ticks: if d > old(stats).max_frame_ticks {
                    d
                } else {
                    old(stats).max_frame_ticks
                },
                ..*old(stats)
            })
            &&& r == (RenderFrameStats {
                pixel_writes: old(stats).pixel_writes,
                char_draws: old(stats).char_draws,
                full_clears: old(stats).full_clears,
                line_clears: old(stats).line_clears,
                frame_ticks: d,
            })
        }),
{
    let start = stats.frame_start_tick;
    let duration = current_tick.saturating_sub(start);
    stats.last_frame_ticks = duration;
    stats.total_frame_ticks = stats.total_frame_ticks.wrapping_add(duration);
    stats.frame_count = stats.frame_count.wrapping_add(1);
    if duration < stats.min_frame_ticks {
        stats.min_frame_ticks = duration;
    }
    if duration > stats.max_frame_ticks {
        stats.max_frame_ticks = duration;
    }
    RenderFrameStats {
        pixel_writes: stats.pixel_writes,
        char_draws: stats.char_draws,
        full_clears: stats.full_clears,
        line_clears: stats.line_clears,
        frame_ticks: duration,
    }
}

/// Records one pixel write.
pub fn record_pixel_write(stats: &mut RenderStatsGlobal)
    ensures
        *final(stats) == (RenderStatsGlobal {
            pixel_writes: wrapping_add(old(stats).pixel_writes, 1),
            total_pixel_writes: wrapping_add(old(stats).total_pixel_writes, 1),
            ..*old(stats)
        }),
{
    stats.pixel_writes = stats.pixel_writes.wrapping_add(1);
    stats.total_pixel_writes = stats.total_pixel_writes.wrapping_add(1);
}

/// Records `count` pixel writes.
pub fn record_pixel_writes(stats: &mut RenderStatsGlobal, count: u64)
    ensures
        *final(stats) == (RenderStatsGlobal {
            pixel_writes: wrapping_add(old(stats).pixel_writes, count),
            total_pixel_writes: wrapping_add(old(stats).total_pixel_writes, count),
            ..*old(stats)
        }),
{
    stats.pixel_writes = stats.pixel_writes.wrapping_add(count);
    stats.total_pixel_writes = stats.total_pixel_writes.wrapping_add(count);
}

/// Records one character draw.
pub fn record_char_draw(stats: &mut RenderStatsGlobal)
    ensures
        *final(stats) == (RenderStatsGlobal {
            char_draws: wrapping_add(old(stats).char_draws, 1),
            total_char_draws: wrapping_add(old(stats).total_char_draws, 1),
            ..*old(stats)
        }),
{
    stats.char_draws = stats.char_draws.wrapping_add(1);
    stats.total_char_draws = stats.total_char_draws.wrapping_add(1);
}

/// Records one full screen clear.
pub fn record_full_clear(stats: &mut RenderStatsGlobal)
    ensures
        *final(stats) == (RenderStatsGlobal {
            full_clears: wrapping_add(old(stats).full_clears, 1),
            ..*old(stats)
        }),
{
    stats.full_clears = stats.full_clears.wrapping_add(1);
}

/// Records one line clear.
pub fn record_line_clear(stats: &mut RenderStatsGlobal)
    ensures
        *final(stats) == (RenderStatsGlobal {
            line_clears: wrapping_add(old(stats).line_clears, 1),
            ..*old(stats)
        }),
{
    stats.line_clears = stats.line_clears.wrapping_add(1);
}

/// The cumulative statistics: frame count, average duration (zero before
/// the first frame), minimum and maximum duration, and the pixel writes and
/// character draws over all frames since the last reset.
pub fn get_cumulative_stats(stats: &RenderStatsGlobal) -> (r: RenderCumulativeStats)
    ensures
        r == (RenderCumulativeStats {
            frame_count: stats.frame_count,
            avg_frame_ticks: if stats.frame_count > 0 {
                (stats.total_frame_ticks / stats.frame_count) as u64
            } else {
                0
            },
            min_frame_ticks: stats.min_frame_ticks,
            max_frame_ticks: stats.max_frame_ticks,
            total_pixel_writes: stats.total_pixel_writes,
            total_char_draws: stats.total_char_draws,
        }),
{
    let frame_count = stats.frame_count;
    let total_ticks = stats.total_frame_ticks;
    let avg = if frame_count > 0 {
        total_ticks / frame_count
    } else {
        0
    };
    RenderCumulativeStats {
        frame_count,
        avg_frame_ticks: avg,
        min_frame_ticks: stats.min_frame_ticks,
        max_frame_ticks: stats.max_frame_ticks,
        total_pixel_writes: stats.total_pixel_writes,
        total_char_draws: stats.total_char_draws,
    }
}

/// Resets every counter.
pub fn reset_stats(stats: &mut RenderStatsGlobal)
    ensures
        *final(stats) == RenderStatsGlobal::initial(),
{
    *stats = RenderStatsGlobal::new();
}

/// After a frame has ended, its duration lies between the recorded minimum
/// and maximum, and the running minimum never exceeds the maximum once a
/// frame has been recorded.
pub proof fn lemma_frame_end_bounds(old_stats: RenderStatsGlobal, tick: u64)
    requires
        old_stats.frame_count == 0 ==> old_stats.min_frame_ticks == u64::MAX
            && old_stats.max_frame_ticks == 0,
        old_stats.frame_count > 0 ==> old_stats.min_frame_ticks <= old_stats.max_frame_ticks,
    ensures
        ({
            let d = frame_duration(old_stats, tick);
            let new_min = if d < old_stats.min_frame_ticks {
                d
            } else {
                old_stats.min_frame_ticks
            };
            let new_max = if d > old_stats.max_frame_ticks {
                d
            } else {
                old_stats.max_frame_ticks
            };
            new_min <= d && d <= new_max && new_min <= new_max
        }),
{
}

} // verus!
