use phi_tk::mixdown::{
    group_hits, mix_ending, mix_music, mix_program, place, AudioClip, HitGroup, Note, NoteKind,
    StereoClip,
};
use phi_tk::timing::FrameTiming;

fn timing(fps: u32, pre: u64, post: u64, ending: i64, track: u64, offset: i64) -> FrameTiming {
    FrameTiming {
        fps,
        pre_roll_ms: pre,
        post_roll_ms: post,
        ending_length_ms: ending,
        track_length_ms: track,
        chart_offset_ms: offset,
        track_tail_ms: 0,
    }
}

#[test]
fn total_frames_for_ten_second_track_at_sixty_fps() {
    // A 10 s track with no pre-roll, no post-roll and a zero ending length
    // gives exactly 600 frames at 60 fps.
    let t = timing(60, 0, 0, 0, 10_000, 0);
    assert_eq!(t.video_length(), 10_000);
    assert_eq!(t.total_frames(), 600);
}

#[test]
fn track_tail_extends_the_video() {
    let mut t = timing(60, 0, 0, 0, 10_000, 0);
    t.track_tail_ms = 1000;
    assert_eq!(t.video_length(), 11_000);
    assert_eq!(t.total_frames(), 660);
}

#[test]
fn total_frames_rounds_up() {
    // 999 ms at 30 fps is 29.97 frames, rounded up to 30.
    let t = timing(30, 0, 0, 0, 999, 0);
    assert_eq!(t.video_length(), 999);
    assert_eq!(t.total_frames(), 30);
}

#[test]
fn total_frames_zero_for_empty_video() {
    let t = timing(60, 0, 0, -5000, 1000, 0);
    assert!(t.video_length() <= 0);
    assert_eq!(t.total_frames(), 0);
}

#[test]
fn negative_chart_offset_extends_track_and_shifts_music() {
    let t = timing(60, 2000, 1000, 0, 10_000, -500);
    // adjusted track = 10000 + 500; video = 2000 + 10500 + 1000 + 0.
    assert_eq!(t.video_length(), 13_500);
    assert_eq!(t.music_start(), 2500);
    assert_eq!(t.hit_base(), 2000);
    assert_eq!(t.ending_start(), 13_500);
}

#[test]
fn positive_chart_offset_delays_hits_not_music() {
    let t = timing(60, 2000, 1000, 0, 10_000, 300);
    assert_eq!(t.music_start(), 2000);
    assert_eq!(t.hit_base(), 2300);
}

#[test]
fn frame_time_maps_frames_to_virtual_time() {
    let t = timing(60, 0, 0, 0, 10_000, 0);
    assert_eq!(t.frame_time(0), 0);
    assert_eq!(t.frame_time(60), 1000);
    assert_eq!(t.frame_time(90), 1500);
}

#[test]
fn place_past_buffer_end_is_silent_noop() {
    // At 1000 Hz, an onset of 10 ms starts at interleaved index 20, past the
    // end of an 8-sample buffer: nothing is written.
    let mut buf = vec![1i64, 2, 3, 4, 5, 6, 7, 8];
    let clip = AudioClip { samples: vec![100, 200], sample_rate: 1000 };
    let written = place(&mut buf, 10, &clip, 1000, 1000);
    assert_eq!(written, 0);
    assert_eq!(buf, vec![1, 2, 3, 4, 5, 6, 7, 8]);
}

#[test]
fn place_mixes_mono_clip_into_both_channels() {
    let mut buf = vec![0i64; 8];
    let clip = AudioClip { samples: vec![100, 200], sample_rate: 1000 };
    let written = place(&mut buf, 2, &clip, 1000, 1000);
    assert_eq!(written, 2);
    assert_eq!(buf, vec![0, 0, 0, 0, 100, 100, 200, 200]);
}

#[test]
fn place_truncates_at_buffer_end() {
    let mut buf = vec![0i64; 8];
    let clip = AudioClip { samples: vec![100, 200], sample_rate: 1000 };
    let written = place(&mut buf, 3, &clip, 1000, 1000);
    assert_eq!(written, 1);
    assert_eq!(buf, vec![0, 0, 0, 0, 0, 0, 100, 100]);
}

#[test]
fn place_is_additive_and_applies_gain() {
    let mut buf = vec![10i64; 4];
    let clip = AudioClip { samples: vec![100], sample_rate: 1000 };
    place(&mut buf, 0, &clip, 500, 1000);
    place(&mut buf, 0, &clip, 500, 1000);
    // Two placements of 100 at half gain each add 50 twice.
    assert_eq!(buf, vec![110, 110, 10, 10]);
}

#[test]
fn negative_samples_scale_toward_zero() {
    let mut buf = vec![0i64; 2];
    let clip = AudioClip { samples: vec![-99], sample_rate: 1000 };
    place(&mut buf, 0, &clip, 500, 1000);
    // -99 * 500 / 1000 truncated toward zero is -49.
    assert_eq!(buf, vec![-49, -49]);
}

#[test]
fn music_mixes_stereo_channels_separately() {
    let mut buf = vec![0i64; 6];
    let music = StereoClip {
        left: vec![10, 20],
        right: vec![30, 40],
        sample_rate: 1000,
    };
    let written = mix_music(&mut buf, 1, &music, 1000, 1000);
    assert_eq!(written, 2);
    assert_eq!(buf, vec![0, 0, 10, 30, 20, 40]);
}

#[test]
fn ending_loops_until_buffer_exhausted() {
    let mut buf = vec![0i64; 8];
    let clip = AudioClip { samples: vec![7], sample_rate: 1000 };
    // A long configured ending keeps re-placing the one-frame clip.
    mix_ending(&mut buf, 0, &clip, 1000, 1000, 5000);
    assert_eq!(buf, vec![7, 7, 7, 7, 7, 7, 7, 7]);
}

#[test]
fn short_ending_is_placed_once() {
    let mut buf = vec![0i64; 8];
    let clip = AudioClip { samples: vec![7], sample_rate: 1000 };
    mix_ending(&mut buf, 0, &clip, 1000, 1000, 0);
    assert_eq!(buf, vec![7, 7, 0, 0, 0, 0, 0, 0]);
}

#[test]
fn group_hits_filters_fake_notes_and_splits_kinds() {
    let notes = vec![
        Note { time_ms: 100, kind: NoteKind::Click, fake: false },
        Note { time_ms: 200, kind: NoteKind::Drag, fake: false },
        Note { time_ms: 300, kind: NoteKind::Flick, fake: true },
        Note { time_ms: 400, kind: NoteKind::Hold, fake: false },
        Note { time_ms: 500, kind: NoteKind::Flick, fake: false },
    ];
    let clicks = group_hits(&notes, 1000, HitGroup::Click);
    let drags = group_hits(&notes, 1000, HitGroup::Drag);
    let flicks = group_hits(&notes, 1000, HitGroup::Flick);
    assert_eq!(clicks, vec![1100, 1400]);
    assert_eq!(drags, vec![1200]);
    assert_eq!(flicks, vec![1500]);
}

fn small_inputs() -> (FrameTiming, StereoClip, Vec<Note>, AudioClip, AudioClip, AudioClip,
    AudioClip) {
    let mut t = timing(10, 0, 0, 0, 2, 0);
    t.track_tail_ms = 1000;
    let music = StereoClip { left: vec![10, 20], right: vec![30, 40], sample_rate: 1000 };
    let notes = vec![Note { time_ms: 1, kind: NoteKind::Click, fake: false }];
    let click = AudioClip { samples: vec![5], sample_rate: 1000 };
    let drag = AudioClip { samples: vec![0], sample_rate: 1000 };
    let flick = AudioClip { samples: vec![0], sample_rate: 1000 };
    let ending = AudioClip { samples: vec![1], sample_rate: 1000 };
    (t, music, notes, click, drag, flick, ending)
}

#[test]
fn mix_program_composes_music_hits_and_ending() {
    let (t, music, notes, click, drag, flick, ending) = small_inputs();
    // Video length: 2 + 1000 (tail) = 1002 ms at 1 kHz -> 1002 frames, 2004
    // interleaved samples.
    let p = mix_program(&t, &music, &notes, &click, &drag, &flick, &ending, 1000, 1000);
    assert_eq!(p.sample_rate, 1000);
    assert_eq!(p.samples.len(), 2004);
    // Music at frame 0: left 10 / right 30; the click at 1 ms adds 5 to
    // both channels of frame 1 on top of the music's 20 / 40.
    assert_eq!(&p.samples[0..4], &[10, 30, 25, 45]);
    // The ending starts at frame 1002... which is past the end, so the last
    // samples are untouched.
    assert_eq!(p.samples[2002], 0);
    assert_eq!(p.samples[2003], 0);
}

#[test]
fn mixdown_is_deterministic_for_identical_inputs() {
    let (t, music, notes, click, drag, flick, ending) = small_inputs();
    let p1 = mix_program(&t, &music, &notes, &click, &drag, &flick, &ending, 900, 700);
    let p2 = mix_program(&t, &music, &notes, &click, &drag, &flick, &ending, 900, 700);
    assert_eq!(p1.samples, p2.samples);
}

#[test]
fn zero_gain_skips_category() {
    let (t, music, notes, click, drag, flick, ending) = small_inputs();
    let p = mix_program(&t, &music, &notes, &click, &drag, &flick, &ending, 0, 1000);
    // No music, no ending contribution (ending gain is the music gain), only
    // the click at frame 1.
    assert_eq!(&p.samples[0..4], &[0, 0, 5, 5]);
}
