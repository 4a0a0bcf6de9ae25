//! Virtual-clock frame accounting.
//!
//! Frame `k` of the export corresponds to virtual time `k / fps`. The total
//! video length is assembled from a fixed pre-roll, the track length adjusted
//! for a negative chart offset, a fixed post-roll, and the configured ending
//! length; the total frame count is its ceiling in frames and is computed
//! once, before any frame is produced.

use vstd::prelude::*;

verus! {

/// Ceiling of `a / b` for non-negative `a` and positive `b`.
pub open spec fn ceil_div(a: int, b: int) -> int {
    (a + b - 1) / b
}

/// `ceil_div` really is the ceiling: the result is the least integer `r`
/// with `a <= r * b`.
pub proof fn lemma_ceil_div(a: int, b: int)
    requires
        a >= 0,
        b > 0,
    ensures
        a <= ceil_div(a, b) * b < a + b,
        ceil_div(a, b) >= 0,
{
    let x = a + b - 1;
    let r = x / b;
    vstd::arithmetic::div_mod::lemma_fundamental_div_mod(x, b);
    vstd::arithmetic::div_mod::lemma_mod_bound(x, b);
    assert(b * r == x - x % b);
    assert(r * b == b * r) by (nonlinear_arith);
    assert(r >= 0) by (nonlinear_arith)
        requires b > 0, b * r >= 0;
}

/// The timing inputs of one render job, all in integer milliseconds.
pub struct FrameTiming {
    /// Target frame rate of the export.
    pub fps: u32,
    /// Fixed duration of the loading/countdown visuals before gameplay.
    pub pre_roll_ms: u64,
    /// Fixed duration appended after gameplay ends.
    pub post_roll_ms: u64,
    /// Configured length of the ending section; may be negative, which
    /// shortens the export.
    pub ending_length_ms: i64,
    /// Length of the music track.
    pub track_length_ms: u64,
    /// Chart offset; a negative offset means the music starts before the
    /// logical start of the chart.
    pub chart_offset_ms: i64,
    /// Fixed slack appended to the adjusted track length; a frame-accounting
    /// constant of the scene driver, carried as configuration.
    pub track_tail_ms: u64,
}

/// Bound under which all timing inputs must stay so that the millisecond
/// arithmetic fits the machine integers.
pub const TIME_LIMIT_MS: u64 = 0x10_0000_0000_0000;

impl FrameTiming {
    /// All timing inputs are within the machine bound.
    pub open spec fn in_bounds(self) -> bool {
        &&& self.pre_roll_ms <= TIME_LIMIT_MS
        &&& self.post_roll_ms <= TIME_LIMIT_MS
        &&& self.track_length_ms <= TIME_LIMIT_MS
        &&& -(TIME_LIMIT_MS as int) <= self.ending_length_ms <= TIME_LIMIT_MS
        &&& -(TIME_LIMIT_MS as int) <= self.chart_offset_ms <= TIME_LIMIT_MS
        &&& self.track_tail_ms <= TIME_LIMIT_MS
    }

    /// Track length extended by a negative chart offset (music that starts
    /// before the logical timeline) and by the fixed tail.
    pub open spec fn adjusted_track_ms(self) -> int {
        self.track_length_ms - (if self.chart_offset_ms < 0 {
            self.chart_offset_ms as int
        } else {
            0
        }) + self.track_tail_ms
    }

    /// Total length of the exported video.
    pub open spec fn video_length_ms(self) -> int {
        self.pre_roll_ms + self.adjusted_track_ms() + self.post_roll_ms
            + self.ending_length_ms
    }

    /// Total number of frames of the export: the ceiling of the video length
    /// in frames, and zero for a video of no length at all.
    pub open spec fn spec_total_frames(self) -> int {
        if self.video_length_ms() <= 0 {
            0
        } else {
            ceil_div(self.video_length_ms() * self.fps, 1000)
        }
    }

    /// Offset at which hit sounds are placed relative to the pre-roll:
    /// a positive chart offset delays them, a negative one does not.
    pub open spec fn spec_hit_base_ms(self) -> int {
        self.pre_roll_ms + (if self.chart_offset_ms > 0 {
            self.chart_offset_ms as int
        } else {
            0
        })
    }

    /// Start of the music track on the video timeline: the pre-roll, pushed
    /// back by a negative chart offset.
    pub open spec fn spec_music_start_ms(self) -> int {
        self.pre_roll_ms - (if self.chart_offset_ms < 0 {
            self.chart_offset_ms as int
        } else {
            0
        })
    }

    /// Start of the ending section on the video timeline.
    pub open spec fn spec_ending_start_ms(self) -> int {
        self.pre_roll_ms + self.adjusted_track_ms() + self.post_roll_ms
    }

    /// Computes the total video length in milliseconds.
    pub fn video_length(&self) -> (r: i64)
        requires
            self.in_bounds(),
        ensures
            r == self.video_length_ms(),
    {
        let neg_offset: i64 = if self.chart_offset_ms < 0 {
            self.chart_offset_ms
        } else {
            0
        };
        let adjusted: i64 = self.track_length_ms as i64 - neg_offset
            + self.track_tail_ms as i64;
        self.pre_roll_ms as i64 + adjusted + self.post_roll_ms as i64
            + self.ending_length_ms
    }

    /// Computes the total frame count reported in `StartRender` before any
    /// frame is produced: the ceiling of `video_length_seconds * fps`.
    pub fn total_frames(&self) -> (r: u64)
        requires
            self.in_bounds(),
            self.spec_total_frames() <= u64::MAX,
        ensures
            r == self.spec_total_frames(),
    {
        let len = self.video_length();
        if len <= 0 {
            return 0;
        }
        proof {
            assert(len * self.fps <= TIME_LIMIT_MS * 6 * (u32::MAX as int))
                by (nonlinear_arith)
                requires 0 < len <= TIME_LIMIT_MS * 6, self.fps <= u32::MAX;
        }
        let num: u128 = (len as u128) * (self.fps as u128);
        let total: u128 = (num + 999) / 1000;
        proof {
            lemma_ceil_div(len * self.fps, 1000);
        }
        total as u64
    }

    /// Computes the hit-sound base offset.
    pub fn hit_base(&self) -> (r: u64)
        requires
            self.in_bounds(),
        ensures
            r == self.spec_hit_base_ms(),
    {
        let pos_offset: i64 = if self.chart_offset_ms > 0 {
            self.chart_offset_ms
        } else {
            0
        };
        self.pre_roll_ms + pos_offset as u64
    }

    /// Computes the start of the music track on the video timeline.
    pub fn music_start(&self) -> (r: u64)
        requires
            self.in_bounds(),
        ensures
            r == self.spec_music_start_ms(),
    {
        let neg_offset: i64 = if self.chart_offset_ms < 0 {
            self.chart_offset_ms
        } else {
            0
        };
        self.pre_roll_ms + (-neg_offset) as u64
    }

    /// Computes the start of the ending section on the video timeline.
    pub fn ending_start(&self) -> (r: u64)
        requires
            self.in_bounds(),
        ensures
            r == self.spec_ending_start_ms(),
    {
        let neg_offset: i64 = if self.chart_offset_ms < 0 {
            self.chart_offset_ms
        } else {
            0
        };
        self.pre_roll_ms + self.track_length_ms + (-neg_offset) as u64
            + self.track_tail_ms + self.post_roll_ms
    }

    /// Virtual time of frame `k`, in milliseconds: `k * 1000 / fps`,
    /// rounded down.
    pub open spec fn spec_frame_time_ms(self, k: int) -> int {
        k * 1000 / (self.fps as int)
    }

    /// Computes the virtual time at which frame `k` is rendered.
    pub fn frame_time(&self, k: u64) -> (r: u64)
        requires
            self.fps > 0,
            self.spec_frame_time_ms(k as int) <= u64::MAX,
        ensures
            r == self.spec_frame_time_ms(k as int),
    {
        let num: u128 = (k as u128) * 1000;
        let t: u128 = num / (self.fps as u128);
        t as u64
    }
}

} // verus!
