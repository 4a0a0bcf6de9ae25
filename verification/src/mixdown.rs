//! Audio mixdown engine.
//!
//! Composites timed audio events — one music track, per-note hit sounds and
//! a looped ending jingle — additively into one fixed-length interleaved
//! stereo sample buffer. Samples are integer fixed-point amplitudes; gains
//! are integer thousandths. Every write is bounds-checked against the buffer
//! length: an event placed past the end is a silent no-op, and an event
//! reaching past the end is truncated. Accumulation wraps in two's
//! complement, so no input can make the mix fail.

use vstd::prelude::*;

use crate::timing::{ceil_div, FrameTiming, TIME_LIMIT_MS};

verus! {

/// Gain is expressed in thousandths: a gain of 1000 leaves a sample as it is.
pub const GAIN_UNIT: u32 = 1000;

/// Largest accepted gain (a thousandfold amplification).
pub const GAIN_LIMIT: u32 = 1_000_000;

/// Bound on the magnitude of every clip sample.
pub const AMPLITUDE_LIMIT: i64 = 0x1_0000_0000;

/// Bound on the onset times handed to placement.
pub const ONSET_LIMIT_MS: u64 = 0x100_0000_0000_0000;

/// Two's-complement 64-bit wrap of an addition.
pub open spec fn wadd(a: i64, b: i64) -> i64 {
    vstd::wrapping::i64_specs::wrapping_add(a, b)
}

/// A gain applied to a sample: multiply by `gain` thousandths, rounding
/// toward zero.
pub open spec fn scale(s: int, gain: int) -> int {
    if s >= 0 {
        (s * gain) / 1000
    } else {
        -(((-s) * gain) / 1000)
    }
}

/// All samples of a clip stay within the fixed-point amplitude bound.
pub open spec fn samples_bounded(s: Seq<i64>) -> bool {
    forall|i: int| 0 <= i < s.len() ==> -AMPLITUDE_LIMIT <= #[trigger] s[i] <= AMPLITUDE_LIMIT
}

/// A mono audio clip at a fixed sample rate.
#[derive(Clone, Debug)]
pub struct AudioClip {
    /// Mono sample frames, fixed-point.
    pub samples: Vec<i64>,
    /// Sample rate of the clip.
    pub sample_rate: u32,
}

impl AudioClip {
    /// The clip's samples stay within the amplitude bound.
    pub open spec fn wf(self) -> bool {
        samples_bounded(self.samples@)
    }

    /// Number of sample frames in the clip.
    pub fn frame_count(&self) -> (n: usize)
        ensures
            n == self.samples@.len(),
    {
        self.samples.len()
    }
}

/// A stereo audio clip at a fixed sample rate.
#[derive(Clone, Debug)]
pub struct StereoClip {
    /// Left-channel sample frames.
    pub left: Vec<i64>,
    /// Right-channel sample frames.
    pub right: Vec<i64>,
    /// Sample rate of the clip.
    pub sample_rate: u32,
}

impl StereoClip {
    /// Both channels have the same length and bounded samples.
    pub open spec fn wf(self) -> bool {
        &&& self.left@.len() == self.right@.len()
        &&& samples_bounded(self.left@)
        &&& samples_bounded(self.right@)
    }

    /// Number of stereo sample frames in the clip.
    pub fn frame_count(&self) -> (n: usize)
        ensures
            n == self.left@.len(),
    {
        self.left.len()
    }
}

/// Interleaved buffer index at which an event with onset `pos_ms` begins:
/// the onset rounded to the nearest sample frame, times two channels.
pub open spec fn start_index(pos_ms: int, rate: int) -> int {
    ((pos_ms * rate + 500) / 1000) * 2
}

/// Number of whole sample frames of a clip of `clip_len` frames that fit
/// into a buffer of `buf_len` interleaved samples starting at `start`.
pub open spec fn frames_at(buf_len: int, start: int, clip_len: int) -> int {
    if start >= buf_len {
        0
    } else if (buf_len - start) / 2 < clip_len {
        (buf_len - start) / 2
    } else {
        clip_len
    }
}

/// The buffer after additively placing a mono clip (mixed equally into both
/// channels) at interleaved index `start` with the given gain.
pub open spec fn place_spec(buf: Seq<i64>, start: int, clip: Seq<i64>, gain: int) -> Seq<i64> {
    let valid = frames_at(buf.len() as int, start, clip.len() as int);
    Seq::new(
        buf.len(),
        |j: int|
            if start <= j < start + 2 * valid {
                wadd(buf[j], scale(clip[(j - start) / 2] as int, gain) as i64)
            } else {
                buf[j]
            },
    )
}

/// The buffer after additively placing a stereo clip at interleaved index
/// `start` with the given gain.
pub open spec fn place_stereo_spec(
    buf: Seq<i64>,
    start: int,
    left: Seq<i64>,
    right: Seq<i64>,
    gain: int,
) -> Seq<i64> {
    let valid = frames_at(buf.len() as int, start, left.len() as int);
    Seq::new(
        buf.len(),
        |j: int|
            if start <= j < start + 2 * valid {
                if (j - start) % 2 == 0 {
                    wadd(buf[j], scale(left[(j - start) / 2] as int, gain) as i64)
                } else {
                    wadd(buf[j], scale(right[(j - start) / 2] as int, gain) as i64)
                }
            } else {
                buf[j]
            },
    )
}

/// Applies a gain to one sample.
fn scale_sample(s: i64, gain: u32) -> (r: i64)
    requires
        -AMPLITUDE_LIMIT <= s <= AMPLITUDE_LIMIT,
        gain <= GAIN_LIMIT,
    ensures
        r == scale(s as int, gain as int),
        -AMPLITUDE_LIMIT * GAIN_LIMIT <= r <= AMPLITUDE_LIMIT * GAIN_LIMIT,
{
    if s >= 0 {
        proof {
            assert(s * gain <= AMPLITUDE_LIMIT * GAIN_LIMIT && s * gain >= 0)
                by (nonlinear_arith)
                requires 0 <= s <= AMPLITUDE_LIMIT, 0 <= gain <= GAIN_LIMIT;
        }
        let prod: u64 = (s as u64) * (gain as u64);
        let q: u64 = prod / 1000;
        proof {
            vstd::arithmetic::div_mod::lemma_div_is_ordered(0, s * gain, 1000);
            vstd::arithmetic::div_mod::lemma_div_is_ordered(
                s * gain, AMPLITUDE_LIMIT * GAIN_LIMIT, 1000);
        }
        q as i64
    } else {
        let neg: i64 = -s;
        proof {
            assert(neg * gain <= AMPLITUDE_LIMIT * GAIN_LIMIT && neg * gain >= 0)
                by (nonlinear_arith)
                requires 0 <= neg <= AMPLITUDE_LIMIT, 0 <= gain <= GAIN_LIMIT;
        }
        let prod: u64 = (neg as u64) * (gain as u64);
        let q: u64 = prod / 1000;
        proof {
            vstd::arithmetic::div_mod::lemma_div_is_ordered(0, neg * gain, 1000);
            vstd::arithmetic::div_mod::lemma_div_is_ordered(
                neg * gain, AMPLITUDE_LIMIT * GAIN_LIMIT, 1000);
        }
        -(q as i64)
    }
}

/// Additively places a mono clip at interleaved index `start`, truncating
/// at the end of the buffer. Returns the number of frames written.
fn place_core(buf: &mut Vec<i64>, start: u128, clip: &Vec<i64>, gain: u32) -> (written: usize)
    requires
        samples_bounded(clip@),
        gain <= GAIN_LIMIT,
    ensures
        final(buf)@ == place_spec(old(buf)@, start as int, clip@, gain as int),
        written == frames_at(old(buf)@.len() as int, start as int, clip@.len() as int),
        start >= old(buf)@.len() ==> final(buf)@ == old(buf)@ && written == 0,
{
    let ghost buf0 = buf@;
    if start >= buf.len() as u128 {
        proof {
            assert(place_spec(buf0, start as int, clip@, gain as int) =~= buf0);
        }
        return 0;
    }
    let start = start as usize;
    let buf_len = buf.len();
    let avail = (buf_len - start) / 2;
    let valid = if avail < clip.len() {
        avail
    } else {
        clip.len()
    };
    assert(valid == frames_at(buf0.len() as int, start as int, clip@.len() as int));
    assert(2 * ((buf_len - start) / 2) <= buf_len - start);
    assert(start + 2 * valid <= buf_len);
    for i in 0..valid
        invariant
            valid == frames_at(buf0.len() as int, start as int, clip@.len() as int),
            start + 2 * valid <= buf_len,
            buf_len == buf0.len(),
            valid <= clip@.len(),
            samples_bounded(clip@),
            gain <= GAIN_LIMIT,
            buf@.len() == buf0.len(),
            forall|j: int|
                start <= j < start + 2 * i ==> buf@[j] == wadd(
                    buf0[j],
                    scale(clip@[(j - start) / 2] as int, gain as int) as i64,
                ),
            forall|j: int|
                (0 <= j < start || start + 2 * i <= j < buf0.len()) ==> buf@[j] == buf0[j],
    {
        let s = clip[i];
        let c = scale_sample(s, gain);
        let idx = start + 2 * i;
        let v = buf[idx];
        buf[idx] = v.wrapping_add(c);
        let v2 = buf[idx + 1];
        buf[idx + 1] = v2.wrapping_add(c);
        proof {
            assert((idx - start) / 2 == i && (idx + 1 - start) / 2 == i);
        }
    }
    proof {
        assert(buf@ =~= place_spec(buf0, start as int, clip@, gain as int));
    }
    valid
}

/// Additively places a mono clip with onset `pos_ms`, truncating at the end
/// of the buffer. An onset at or past the end of the buffer writes nothing
/// and leaves the buffer untouched. Returns the number of frames written.
pub fn place(buf: &mut Vec<i64>, pos_ms: u64, clip: &AudioClip, gain: u32, rate: u32) -> (written:
    usize)
    requires
        clip.wf(),
        gain <= GAIN_LIMIT,
        1 <= rate,
        pos_ms <= ONSET_LIMIT_MS,
    ensures
        final(buf)@ == place_spec(
            old(buf)@,
            start_index(pos_ms as int, rate as int),
            clip.samples@,
            gain as int,
        ),
        written == frames_at(
            old(buf)@.len() as int,
            start_index(pos_ms as int, rate as int),
            clip.samples@.len() as int,
        ),
        start_index(pos_ms as int, rate as int) >= old(buf)@.len() ==> final(buf)@ == old(buf)@
            && written == 0,
{
    proof {
        assert(pos_ms * rate <= ONSET_LIMIT_MS * (u32::MAX as int)) by (nonlinear_arith)
            requires pos_ms <= ONSET_LIMIT_MS, rate <= u32::MAX;
    }
    let start: u128 = ((pos_ms as u128) * (rate as u128) + 500) / 1000 * 2;
    place_core(buf, start, &clip.samples, gain)
}

/// Additively places the stereo music track with onset `pos_ms`, truncating
/// at the end of the buffer. Returns the number of frames written.
pub fn mix_music(buf: &mut Vec<i64>, pos_ms: u64, music: &StereoClip, gain: u32, rate: u32) -> (
    written: usize)
    requires
        music.wf(),
        gain <= GAIN_LIMIT,
        1 <= rate,
        pos_ms <= ONSET_LIMIT_MS,
    ensures
        final(buf)@ == place_stereo_spec(
            old(buf)@,
            start_index(pos_ms as int, rate as int),
            music.left@,
            music.right@,
            gain as int,
        ),
        written == frames_at(
            old(buf)@.len() as int,
            start_index(pos_ms as int, rate as int),
            music.left@.len() as int,
        ),
{
    proof {
        assert(pos_ms * rate <= ONSET_LIMIT_MS * (u32::MAX as int)) by (nonlinear_arith)
            requires pos_ms <= ONSET_LIMIT_MS, rate <= u32::MAX;
    }
    let start128: u128 = ((pos_ms as u128) * (rate as u128) + 500) / 1000 * 2;
    let ghost buf0 = buf@;
    let ghost gstart = start_index(pos_ms as int, rate as int);
    if start128 >= buf.len() as u128 {
        proof {
            assert(place_stereo_spec(buf0, gstart, music.left@, music.right@, gain as int)
                =~= buf0);
        }
        return 0;
    }
    let start = start128 as usize;
    let buf_len = buf.len();
    let avail = (buf_len - start) / 2;
    let valid = if avail < music.left.len() {
        avail
    } else {
        music.left.len()
    };
    assert(valid == frames_at(buf0.len() as int, start as int, music.left@.len() as int));
    assert(2 * ((buf_len - start) / 2) <= buf_len - start);
    assert(start + 2 * valid <= buf_len);
    for i in 0..valid
        invariant
            valid == frames_at(buf0.len() as int, start as int, music.left@.len() as int),
            start + 2 * valid <= buf_len,
            buf_len == buf0.len(),
            valid <= music.left@.len(),
            music.wf(),
            gain <= GAIN_LIMIT,
            buf@.len() == buf0.len(),
            forall|j: int|
                start <= j < start + 2 * i && (j - start) % 2 == 0 ==> buf@[j] == wadd(
                    buf0[j],
                    scale(music.left@[(j - start) / 2] as int, gain as int) as i64,
                ),
            forall|j: int|
                start <= j < start + 2 * i && (j - start) % 2 != 0 ==> buf@[j] == wadd(
                    buf0[j],
                    scale(music.right@[(j - start) / 2] as int, gain as int) as i64,
                ),
            forall|j: int|
                (0 <= j < start || start + 2 * i <= j < buf0.len()) ==> buf@[j] == buf0[j],
    {
        let l = music.left[i];
        let r = music.right[i];
        let cl = scale_sample(l, gain);
        let cr = scale_sample(r, gain);
        let idx = start + 2 * i;
        let v = buf[idx];
        buf[idx] = v.wrapping_add(cl);
        let v2 = buf[idx + 1];
        buf[idx + 1] = v2.wrapping_add(cr);
        proof {
            assert((idx - start) / 2 == i && (idx + 1 - start) / 2 == i);
            assert((idx - start) % 2 == 0 && (idx + 1 - start) % 2 == 1);
        }
    }
    proof {
        assert(buf@ =~= place_stereo_spec(buf0, start as int, music.left@, music.right@,
            gain as int));
    }
    valid
}

/// The kind of a chart note; clicks and holds share one hit sound.
#[derive(Clone, Copy, Debug, PartialEq, Eq, Structural)]
pub enum NoteKind {
    /// A tapped note.
    Click,
    /// A held note; its onset sounds like a click.
    Hold,
    /// A dragged note.
    Drag,
    /// A flicked note.
    Flick,
}

/// One chart note, reduced to what hit-sound placement reads.
#[derive(Clone, Copy, Debug, PartialEq, Eq, Structural)]
pub struct Note {
    /// Onset of the note relative to the chart timeline, in milliseconds.
    pub time_ms: u64,
    /// The note's kind.
    pub kind: NoteKind,
    /// A fake (ghost) note is drawn but produces no sound.
    pub fake: bool,
}

/// The three hit-sound categories.
#[derive(Clone, Copy, Debug, PartialEq, Eq, Structural)]
pub enum HitGroup {
    /// Clicks and holds.
    Click,
    /// Drags.
    Drag,
    /// Flicks.
    Flick,
}

/// Whether a note produces a hit sound of the given group.
pub open spec fn selected(n: Note, group: HitGroup) -> bool {
    !n.fake && match group {
        HitGroup::Click => n.kind == NoteKind::Click || n.kind == NoteKind::Hold,
        HitGroup::Drag => n.kind == NoteKind::Drag,
        HitGroup::Flick => n.kind == NoteKind::Flick,
    }
}

/// The absolute onset times, in chart order, of the notes of one hit-sound
/// group, shifted by the base offset.
pub open spec fn hit_times(notes: Seq<Note>, base_ms: int, group: HitGroup) -> Seq<u64>
    decreases notes.len(),
{
    if notes.len() == 0 {
        Seq::empty()
    } else {
        let rest = hit_times(notes.drop_last(), base_ms, group);
        if selected(notes.last(), group) {
            rest.push((base_ms + notes.last().time_ms) as u64)
        } else {
            rest
        }
    }
}

/// Every note's onset stays within the time bound.
pub open spec fn notes_bounded(notes: Seq<Note>) -> bool {
    forall|i: int| 0 <= i < notes.len() ==> #[trigger] notes[i].time_ms <= TIME_LIMIT_MS
}

/// Collects the absolute onset times of all real (non-fake) notes of one
/// hit-sound group, in chart order.
pub fn group_hits(notes: &Vec<Note>, base_ms: u64, group: HitGroup) -> (times: Vec<u64>)
    requires
        notes_bounded(notes@),
        base_ms <= 2 * TIME_LIMIT_MS,
    ensures
        times@ == hit_times(notes@, base_ms as int, group),
{
    let mut times: Vec<u64> = Vec::new();
    for i in 0..notes.len()
        invariant
            notes_bounded(notes@),
            base_ms <= 2 * TIME_LIMIT_MS,
            times@ == hit_times(notes@.take(i as int), base_ms as int, group),
    {
        let n = notes[i];
        let is_selected = !n.fake && match group {
            HitGroup::Click => matches!(n.kind, NoteKind::Click | NoteKind::Hold),
            HitGroup::Drag => matches!(n.kind, NoteKind::Drag),
            HitGroup::Flick => matches!(n.kind, NoteKind::Flick),
        };
        if is_selected {
            times.push(base_ms + n.time_ms);
        }
        proof {
            assert(notes@.take(i + 1).drop_last() =~= notes@.take(i as int));
            assert(notes@.take(i + 1).last() == notes@[i as int]);
        }
    }
    proof {
        assert(notes@.take(notes@.len() as int) =~= notes@);
    }
    times
}

/// The buffer after additively placing one mono clip at each onset time of
/// `times`, in order.
pub open spec fn place_all_spec(
    buf: Seq<i64>,
    times: Seq<u64>,
    clip: Seq<i64>,
    gain: int,
    rate: int,
) -> Seq<i64>
    decreases times.len(),
{
    if times.len() == 0 {
        buf
    } else {
        place_spec(
            place_all_spec(buf, times.drop_last(), clip, gain, rate),
            start_index(times.last() as int, rate),
            clip,
            gain,
        )
    }
}

/// All onset times of a list stay within the placement bound.
pub open spec fn onsets_bounded(times: Seq<u64>) -> bool {
    forall|i: int| 0 <= i < times.len() ==> #[trigger] times[i] <= ONSET_LIMIT_MS
}

/// Additively places one mono clip at each onset time of `times`, in order.
pub fn place_all(buf: &mut Vec<i64>, times: &Vec<u64>, clip: &AudioClip, gain: u32, rate: u32)
    requires
        clip.wf(),
        gain <= GAIN_LIMIT,
        1 <= rate,
        onsets_bounded(times@),
    ensures
        final(buf)@ == place_all_spec(old(buf)@, times@, clip.samples@, gain as int, rate as int),
{
    let ghost buf0 = buf@;
    for i in 0..times.len()
        invariant
            clip.wf(),
            gain <= GAIN_LIMIT,
            1 <= rate,
            onsets_bounded(times@),
            buf@ == place_all_spec(buf0, times@.take(i as int), clip.samples@, gain as int,
                rate as int),
    {
        place(buf, times[i], clip, gain, rate);
        proof {
            assert(times@.take(i + 1).drop_last() =~= times@.take(i as int));
            assert(times@.take(i + 1).last() == times@[i as int]);
        }
    }
    proof {
        assert(times@.take(times@.len() as int) =~= times@);
    }
}

/// The buffer after repeatedly placing the ending clip, starting at sample
/// frame `f` and re-placing it advanced by its own frame count, until the
/// buffer is exhausted.
pub open spec fn ending_loop_spec(buf: Seq<i64>, f: int, clip: Seq<i64>, gain: int) -> Seq<i64>
    decreases buf.len() + 2 * clip.len() - 2 * f,
{
    if clip.len() == 0 || 2 * f >= buf.len() {
        buf
    } else {
        ending_loop_spec(place_spec(buf, 2 * f, clip, gain), f + clip.len(), clip, gain)
    }
}

/// The buffer after the whole ending pass: the clip is placed once at the
/// ending start, and keeps looping only when the configured ending length
/// exceeds a tenth of a second.
pub open spec fn ending_mix_spec(
    buf: Seq<i64>,
    start_ms: int,
    clip: Seq<i64>,
    gain: int,
    rate: int,
    ending_length_ms: int,
) -> Seq<i64> {
    let f0 = (start_ms * rate + 500) / 1000;
    if ending_length_ms > 100 {
        ending_loop_spec(buf, f0, clip, gain)
    } else {
        place_spec(buf, 2 * f0, clip, gain)
    }
}

/// Places the ending clip at its start and loops it, advancing by its own
/// frame count, until the buffer is exhausted or the configured ending
/// length is below one loop period.
pub fn mix_ending(
    buf: &mut Vec<i64>,
    start_ms: u64,
    clip: &AudioClip,
    gain: u32,
    rate: u32,
    ending_length_ms: i64,
)
    requires
        clip.wf(),
        gain <= GAIN_LIMIT,
        1 <= rate,
        start_ms <= ONSET_LIMIT_MS,
        old(buf)@.len() % 2 == 0,
    ensures
        final(buf)@ == ending_mix_spec(
            old(buf)@,
            start_ms as int,
            clip.samples@,
            gain as int,
            rate as int,
            ending_length_ms as int,
        ),
{
    proof {
        assert(start_ms * rate <= ONSET_LIMIT_MS * (u32::MAX as int)) by (nonlinear_arith)
            requires start_ms <= ONSET_LIMIT_MS, rate <= u32::MAX;
    }
    let f0: u128 = ((start_ms as u128) * (rate as u128) + 500) / 1000;
    let ghost buf0 = buf@;
    if ending_length_ms <= 100 {
        place_core(buf, 2 * f0, &clip.samples, gain);
        return;
    }
    let mut f: u128 = f0;
    let blen = buf.len();
    loop
        invariant
            clip.wf(),
            gain <= GAIN_LIMIT,
            buf@.len() == buf0.len(),
            buf0.len() == blen,
            buf0.len() % 2 == 0,
            f <= 0x1000_0000_0000_0000_0000_0000u128,
            ending_loop_spec(buf0, f0 as int, clip.samples@, gain as int) == ending_loop_spec(
                buf@,
                f as int,
                clip.samples@,
                gain as int,
            ),
        ensures
            buf@ == ending_loop_spec(buf0, f0 as int, clip.samples@, gain as int),
        decreases buf0.len() + 2 * clip.samples@.len() - 2 * f,
    {
        let ghost pre = buf@;
        let w = place_core(buf, 2 * f, &clip.samples, gain);
        if w == 0 {
            proof {
                assert(buf@ =~= pre);
                if clip.samples@.len() != 0 && 2 * (f as int) < pre.len() {
                    assert(pre.len() - 2 * (f as int) >= 2);
                    assert((pre.len() - 2 * (f as int)) / 2 >= 1);
                    assert(false);
                }
                assert(ending_loop_spec(pre, f as int, clip.samples@, gain as int) == pre);
            }
            break;
        }
        proof {
            assert(clip.samples@.len() != 0 && 2 * (f as int) < pre.len());
            assert(ending_loop_spec(pre, f as int, clip.samples@, gain as int)
                == ending_loop_spec(
                    place_spec(pre, 2 * (f as int), clip.samples@, gain as int),
                    f + clip.samples@.len(),
                    clip.samples@,
                    gain as int,
                ));
        }
        f = f + clip.samples.len() as u128;
    }
}

/// Length of the mixed program buffer for a video of the given length:
/// the video length in sample frames, rounded up, times two channels.
pub open spec fn program_len(video_ms: int, rate: int) -> int {
    if video_ms <= 0 {
        0
    } else {
        ceil_div(video_ms * rate, 1000) * 2
    }
}

/// The mixed audio program: one fixed-length interleaved stereo buffer.
#[derive(Clone, Debug)]
pub struct AudioProgram {
    /// Interleaved stereo samples, fixed-point.
    pub samples: Vec<i64>,
    /// Sample rate of the program.
    pub sample_rate: u32,
}

impl AudioProgram {
    /// Allocates a silent program buffer sized to the video length.
    pub fn new(video_ms: i64, rate: u32) -> (p: AudioProgram)
        requires
            -6 * (TIME_LIMIT_MS as int) <= video_ms <= 6 * TIME_LIMIT_MS,
            1 <= rate,
            program_len(video_ms as int, rate as int) <= usize::MAX,
        ensures
            p.samples@.len() == program_len(video_ms as int, rate as int),
            forall|i: int| 0 <= i < p.samples@.len() ==> p.samples@[i] == 0i64,
            p.sample_rate == rate,
    {
        if video_ms <= 0 {
            return AudioProgram { samples: Vec::new(), sample_rate: rate };
        }
        proof {
            assert(video_ms * rate <= 6 * (TIME_LIMIT_MS as int) * (u32::MAX as int))
                by (nonlinear_arith)
                requires 0 < video_ms <= 6 * (TIME_LIMIT_MS as int), rate <= u32::MAX;
            crate::timing::lemma_ceil_div(video_ms as int * rate, 1000);
        }
        let n128: u128 = ((video_ms as u128) * (rate as u128) + 999) / 1000 * 2;
        let n = n128 as usize;
        let mut samples: Vec<i64> = Vec::new();
        for i in 0..n
            invariant
                samples@.len() == i,
                forall|j: int| 0 <= j < i ==> samples@[j] == 0i64,
        {
            samples.push(0);
        }
        AudioProgram { samples, sample_rate: rate }
    }
}

/// The complete mixdown of one job, as a function of its inputs alone: a
/// silent buffer sized to the video length; the music track placed at its
/// start unless the music gain is zero; the three hit-sound categories
/// placed at every real note unless the effect gain is zero; and the ending
/// pass.
pub open spec fn mix_spec(
    timing: FrameTiming,
    music_left: Seq<i64>,
    music_right: Seq<i64>,
    notes: Seq<Note>,
    click: Seq<i64>,
    drag: Seq<i64>,
    flick: Seq<i64>,
    ending: Seq<i64>,
    vol_music: int,
    vol_sfx: int,
    rate: int,
) -> Seq<i64> {
    let b0 = Seq::new(program_len(timing.video_length_ms(), rate) as nat, |i: int| 0i64);
    let b1 = if vol_music != 0 {
        place_stereo_spec(
            b0,
            start_index(timing.spec_music_start_ms(), rate),
            music_left,
            music_right,
            vol_music,
        )
    } else {
        b0
    };
    let b2 = if vol_sfx != 0 {
        let base = timing.spec_hit_base_ms();
        let after_clicks = place_all_spec(b1, hit_times(notes, base, HitGroup::Click), click,
            vol_sfx, rate);
        let after_drags = place_all_spec(after_clicks, hit_times(notes, base, HitGroup::Drag),
            drag, vol_sfx, rate);
        place_all_spec(after_drags, hit_times(notes, base, HitGroup::Flick), flick, vol_sfx, rate)
    } else {
        b1
    };
    ending_mix_spec(b2, timing.spec_ending_start_ms(), ending, vol_music, rate,
        timing.ending_length_ms as int)
}

/// Placing a clip at a list of onsets never changes the buffer's length.
pub proof fn lemma_place_all_len(
    buf: Seq<i64>,
    times: Seq<u64>,
    clip: Seq<i64>,
    gain: int,
    rate: int,
)
    ensures
        place_all_spec(buf, times, clip, gain, rate).len() == buf.len(),
    decreases times.len(),
{
    if times.len() > 0 {
        lemma_place_all_len(buf, times.drop_last(), clip, gain, rate);
    }
}

/// All five clips share one mixing sample rate. A mismatch means a corrupt
/// asset bundle; it is a precondition of the mixdown, not a recoverable
/// error.
pub open spec fn rates_consistent(
    music: StereoClip,
    click: AudioClip,
    drag: AudioClip,
    flick: AudioClip,
    ending: AudioClip,
) -> bool {
    &&& music.sample_rate == click.sample_rate
    &&& music.sample_rate == drag.sample_rate
    &&& music.sample_rate == flick.sample_rate
    &&& music.sample_rate == ending.sample_rate
}

/// Mixes the complete audio program of one job: music, hit sounds for every
/// real note, and the looped ending, additively composited into one
/// fixed-length interleaved stereo buffer.
#[allow(unused_variables)]
pub fn mix_program(
    timing: &FrameTiming,
    music: &StereoClip,
    notes: &Vec<Note>,
    click: &AudioClip,
    drag: &AudioClip,
    flick: &AudioClip,
    ending: &AudioClip,
    volume_music: u32,
    volume_sfx: u32,
) -> (p: AudioProgram)
    requires
        timing.in_bounds(),
        music.wf(),
        click.wf(),
        drag.wf(),
        flick.wf(),
        ending.wf(),
        rates_consistent(*music, *click, *drag, *flick, *ending),
        1 <= music.sample_rate,
        volume_music <= GAIN_LIMIT,
        volume_sfx <= GAIN_LIMIT,
        notes_bounded(notes@),
        program_len(timing.video_length_ms(), music.sample_rate as int) <= usize::MAX,
    ensures
        p.sample_rate == music.sample_rate,
        p.samples@ == mix_spec(
            *timing,
            music.left@,
            music.right@,
            notes@,
            click.samples@,
            drag.samples@,
            flick.samples@,
            ending.samples@,
            volume_music as int,
            volume_sfx as int,
            music.sample_rate as int,
        ),
{
    let rate = music.sample_rate;
    let video_ms = timing.video_length();
    let mut program = AudioProgram::new(video_ms, rate);
    proof {
        assert(program.samples@ =~= Seq::new(
            program_len(timing.video_length_ms(), rate as int) as nat,
            |i: int| 0i64,
        ));
    }
    if volume_music != 0 {
        let start = timing.music_start();
        mix_music(&mut program.samples, start, music, volume_music, rate);
    }
    if volume_sfx != 0 {
        let base = timing.hit_base();
        let clicks = group_hits(notes, base, HitGroup::Click);
        let drags = group_hits(notes, base, HitGroup::Drag);
        let flicks = group_hits(notes, base, HitGroup::Flick);
        proof {
            lemma_hit_times_bounded(notes@, base as int, HitGroup::Click);
            lemma_hit_times_bounded(notes@, base as int, HitGroup::Drag);
            lemma_hit_times_bounded(notes@, base as int, HitGroup::Flick);
        }
        proof {
            lemma_place_all_len(program.samples@, clicks@, click.samples@, volume_sfx as int,
                rate as int);
        }
        place_all(&mut program.samples, &clicks, click, volume_sfx, rate);
        proof {
            lemma_place_all_len(program.samples@, drags@, drag.samples@, volume_sfx as int,
                rate as int);
        }
        place_all(&mut program.samples, &drags, drag, volume_sfx, rate);
        proof {
            lemma_place_all_len(program.samples@, flicks@, flick.samples@, volume_sfx as int,
                rate as int);
        }
        place_all(&mut program.samples, &flicks, flick, volume_sfx, rate);
    }
    proof {
        assert(program.samples@.len() % 2 == 0);
    }
    let ending_start = timing.ending_start();
    mix_ending(&mut program.samples, ending_start, ending, volume_music, rate,
        timing.ending_length_ms);
    program
}

/// Every onset produced by `hit_times` stays within the placement bound
/// when the notes and the base offset do.
pub proof fn lemma_hit_times_bounded(notes: Seq<Note>, base_ms: int, group: HitGroup)
    requires
        notes_bounded(notes),
        0 <= base_ms <= 2 * TIME_LIMIT_MS,
    ensures
        onsets_bounded(hit_times(notes, base_ms, group)),
    decreases notes.len(),
{
    if notes.len() > 0 {
        assert(notes_bounded(notes.drop_last())) by {
            assert(forall|i: int| 0 <= i < notes.len() - 1 ==> notes.drop_last()[i]
                == notes[i]);
        }
        lemma_hit_times_bounded(notes.drop_last(), base_ms, group);
        let rest = hit_times(notes.drop_last(), base_ms, group);
        let whole = hit_times(notes, base_ms, group);
        if selected(notes.last(), group) {
            assert(notes.last().time_ms <= TIME_LIMIT_MS);
            assert(forall|i: int| 0 <= i < whole.len() - 1 ==> whole[i] == rest[i]);
        }
    }
}

/// Audio mixdown is deterministic: two programs mixed from identical
/// settings and an identical chart are identical, sample for sample.
pub proof fn lemma_mixdown_deterministic(p1: AudioProgram, p2: AudioProgram, timing: FrameTiming,
    music: StereoClip, notes: Seq<Note>, click: AudioClip, drag: AudioClip, flick: AudioClip,
    ending: AudioClip, volume_music: u32, volume_sfx: u32)
    requires
        p1.samples@ == mix_spec(timing, music.left@, music.right@, notes, click.samples@,
            drag.samples@, flick.samples@, ending.samples@, volume_music as int,
            volume_sfx as int, music.sample_rate as int),
        p2.samples@ == mix_spec(timing, music.left@, music.right@, notes, click.samples@,
            drag.samples@, flick.samples@, ending.samples@, volume_music as int,
            volume_sfx as int, music.sample_rate as int),
    ensures
        p1.samples@ == p2.samples@,
{
}

} // verus!
