//! Render settings and presets.
//!
//! `RenderConfig` is the immutable configuration snapshot of one render
//! job. Fractional quantities are carried in integer thousandths, and
//! durations in integer milliseconds, so a configuration is one exact
//! value. Once a job starts its settings are copied, never referenced, so
//! later edits cannot race a running render.

use vstd::prelude::*;

use crate::text::str_eq;

verus! {

/// The challenge-mode color grade shown on the results screen.
#[derive(Clone, Copy, Debug, PartialEq, Eq, Structural)]
pub enum ChallengeColor {
    /// White grade.
    White,
    /// Green grade.
    Green,
    /// Blue grade.
    Blue,
    /// Red grade.
    Red,
    /// Golden grade.
    Golden,
    /// Rainbow grade.
    Rainbow,
}

/// The cosmetic and gameplay toggles of a configuration. They form one
/// copyable group, compared and copied as a single value.
#[derive(Clone, Copy, Debug, PartialEq, Eq, Structural)]
pub struct PlayToggles {
    /// Chart debug overlay.
    pub chart_debug: bool,
    /// Mirror the chart horizontally.
    pub flid_x: bool,
    /// Progress text overlay.
    pub show_progress_text: bool,
    /// Time text overlay.
    pub show_time_text: bool,
    /// Draw the background.
    pub background: bool,
    /// Aggressive rendering optimisations.
    pub aggressive: bool,
    /// Disable chart effects.
    pub disable_effect: bool,
    /// Double-tap hint highlight.
    pub double_hint: bool,
    /// Post-process antialiasing.
    pub fxaa: bool,
    /// Particle effects.
    pub particle: bool,
    /// Split hold notes at the judge line.
    pub hand_split: bool,
    /// Score widget.
    pub ui_score: bool,
    /// Combo widget.
    pub ui_combo: bool,
    /// Name widget.
    pub ui_name: bool,
    /// Level widget.
    pub ui_level: bool,
    /// Judge-line widget.
    pub ui_line: bool,
    /// Personal-best widget.
    pub ui_pb: bool,
    /// Pause button widget.
    pub ui_pause: bool,
}

/// The default toggles: every widget shown, particles and the double-tap
/// hint on, everything else off.
pub open spec fn spec_default_toggles() -> PlayToggles {
    PlayToggles {
        chart_debug: false,
        flid_x: false,
        show_progress_text: false,
        show_time_text: false,
        background: false,
        aggressive: false,
        disable_effect: false,
        double_hint: true,
        fxaa: false,
        particle: true,
        hand_split: false,
        ui_score: true,
        ui_combo: true,
        ui_name: true,
        ui_level: true,
        ui_line: true,
        ui_pb: true,
        ui_pause: true,
    }
}

/// The configuration snapshot of one render job. Gains, scales and speeds
/// are in thousandths; the ending length is in milliseconds.
pub struct RenderConfig {
    /// Output resolution: width.
    pub resolution_w: u32,
    /// Output resolution: height.
    pub resolution_h: u32,
    /// The configured preset string; one token per vendor position.
    pub ffmpeg_preset: String,
    /// Length of the ending section, in milliseconds; may be negative.
    pub ending_length_ms: i64,
    /// Whether the loading visuals are trimmed from the final export.
    pub disable_loading: bool,
    /// Chart scale, in thousandths.
    pub chart_ratio_milli: u32,
    /// Audio buffer size hint, in sample frames.
    pub buffer_size: u32,
    /// Text shown in place of the combo counter.
    pub combo: String,
    /// Target frame rate of the export.
    pub fps: u32,
    /// Whether hardware encoding is mandatory.
    pub hardware_accel: bool,
    /// Requested codec family name.
    pub video_codec: String,
    /// Target audio sample rate of the final export.
    pub target_audio: u32,
    /// Autoplay override.
    pub autoplay: Option<bool>,
    /// Rate-control mode name; constant quality is spelled "CRF".
    pub bitrate_control: String,
    /// Rate-control value, passed through to the encoder.
    pub bitrate: String,
    /// Watermark text.
    pub watermark: String,
    /// Write a MOV container instead of MP4.
    pub video: bool,
    /// Explicit PCM bit depth of the audio pass, if any.
    pub audio_bit: Option<u32>,
    /// Requested audio format name.
    pub audio_format: String,
    /// Challenge-mode color grade.
    pub challenge_color: ChallengeColor,
    /// Challenge-mode rank.
    pub challenge_rank: u32,
    /// Note scale, in thousandths.
    pub note_scale_milli: u32,
    /// Path of the player's avatar image, if any.
    pub player_avatar: Option<String>,
    /// The player's name.
    pub player_name: String,
    /// The player's rating, in thousandths.
    pub player_rks_milli: u32,
    /// Multisample count of the offscreen target.
    pub sample_count: u32,
    /// Path of the resource pack, if any.
    pub res_pack_path: Option<String>,
    /// Playback speed, in thousandths.
    pub speed_milli: u32,
    /// Music gain, in thousandths.
    pub volume_music_milli: u32,
    /// Effect gain, in thousandths.
    pub volume_sfx_milli: u32,
    /// Note speed factor, in thousandths.
    pub note_speed_factor_milli: u32,
    /// Cosmetic and gameplay toggles.
    pub toggles: PlayToggles,
    /// Enlarge the encoder's input queue.
    pub ffmpeg_thread: bool,
}

/// Whether a configuration carries the default settings.
pub open spec fn is_default_config(c: RenderConfig) -> bool {
    &&& c.resolution_w == 1920 && c.resolution_h == 1080
    &&& c.ffmpeg_preset@ == "medium p4 balanced"@
    &&& c.ending_length_ms == -2000
    &&& c.disable_loading
    &&& c.chart_ratio_milli == 1000
    &&& c.buffer_size == 256
    &&& c.combo@ == "AUTOPLAY"@
    &&& c.fps == 60
    &&& c.hardware_accel
    &&& c.video_codec@ == "h264"@
    &&& c.target_audio == 96000
    &&& c.autoplay is None
    &&& c.bitrate_control@ == "CRF"@
    &&& c.bitrate@ == "28"@
    &&& c.watermark@ == Seq::<char>::empty()
    &&& !c.video
    &&& c.audio_bit is None
    &&& c.audio_format@ == "flac"@
    &&& c.challenge_color == ChallengeColor::Golden
    &&& c.challenge_rank == 45
    &&& c.note_scale_milli == 1000
    &&& c.player_avatar is None
    &&& c.player_name@ == Seq::<char>::empty()
    &&& c.player_rks_milli == 15000
    &&& c.sample_count == 1
    &&& c.res_pack_path is None
    &&& c.speed_milli == 1000
    &&& c.volume_music_milli == 1000
    &&& c.volume_sfx_milli == 1000
    &&& c.note_speed_factor_milli == 1000
    &&& c.toggles == spec_default_toggles()
    &&& !c.ffmpeg_thread
}

/// Two configurations agree on every setting, field for field.
pub open spec fn config_eq(a: RenderConfig, b: RenderConfig) -> bool {
    &&& a.resolution_w == b.resolution_w
    &&& a.resolution_h == b.resolution_h
    &&& a.ffmpeg_preset == b.ffmpeg_preset
    &&& a.ending_length_ms == b.ending_length_ms
    &&& a.disable_loading == b.disable_loading
    &&& a.chart_ratio_milli == b.chart_ratio_milli
    &&& a.buffer_size == b.buffer_size
    &&& a.combo == b.combo
    &&& a.fps == b.fps
    &&& a.hardware_accel == b.hardware_accel
    &&& a.video_codec == b.video_codec
    &&& a.target_audio == b.target_audio
    &&& a.autoplay == b.autoplay
    &&& a.bitrate_control == b.bitrate_control
    &&& a.bitrate == b.bitrate
    &&& a.watermark == b.watermark
    &&& a.video == b.video
    &&& a.audio_bit == b.audio_bit
    &&& a.audio_format == b.audio_format
    &&& a.challenge_color == b.challenge_color
    &&& a.challenge_rank == b.challenge_rank
    &&& a.note_scale_milli == b.note_scale_milli
    &&& a.player_avatar == b.player_avatar
    &&& a.player_name == b.player_name
    &&& a.player_rks_milli == b.player_rks_milli
    &&& a.sample_count == b.sample_count
    &&& a.res_pack_path == b.res_pack_path
    &&& a.speed_milli == b.speed_milli
    &&& a.volume_music_milli == b.volume_music_milli
    &&& a.volume_sfx_milli == b.volume_sfx_milli
    &&& a.note_speed_factor_milli == b.note_speed_factor_milli
    &&& a.toggles == b.toggles
    &&& a.ffmpeg_thread == b.ffmpeg_thread
}

impl Clone for RenderConfig {
    /// A configuration clones to a value that agrees on every setting.
    fn clone(&self) -> (res: RenderConfig)
        ensures
            config_eq(res, *self),
    {
        RenderConfig {
            resolution_w: self.resolution_w,
            resolution_h: self.resolution_h,
            ffmpeg_preset: self.ffmpeg_preset.clone(),
            ending_length_ms: self.ending_length_ms,
            disable_loading: self.disable_loading,
            chart_ratio_milli: self.chart_ratio_milli,
            buffer_size: self.buffer_size,
            combo: self.combo.clone(),
            fps: self.fps,
            hardware_accel: self.hardware_accel,
            video_codec: self.video_codec.clone(),
            target_audio: self.target_audio,
            autoplay: self.autoplay,
            bitrate_control: self.bitrate_control.clone(),
            bitrate: self.bitrate.clone(),
            watermark: self.watermark.clone(),
            video: self.video,
            audio_bit: self.audio_bit,
            audio_format: self.audio_format.clone(),
            challenge_color: self.challenge_color,
            challenge_rank: self.challenge_rank,
            note_scale_milli: self.note_scale_milli,
            player_avatar: clone_opt_string(&self.player_avatar),
            player_name: self.player_name.clone(),
            player_rks_milli: self.player_rks_milli,
            sample_count: self.sample_count,
            res_pack_path: clone_opt_string(&self.res_pack_path),
            speed_milli: self.speed_milli,
            volume_music_milli: self.volume_music_milli,
            volume_sfx_milli: self.volume_sfx_milli,
            note_speed_factor_milli: self.note_speed_factor_milli,
            toggles: self.toggles,
            ffmpeg_thread: self.ffmpeg_thread,
        }
    }
}

impl Default for RenderConfig {
    /// The default configuration: 1080p at 60 frames per second, H.264
    /// with mandatory hardware acceleration, constant quality 28, FLAC
    /// audio at 96 kHz, and all gains at unity.
    fn default() -> (r: RenderConfig)
        ensures
            is_default_config(r),
    {
        RenderConfig {
            resolution_w: 1920,
            resolution_h: 1080,
            ffmpeg_preset: String::from_str("medium p4 balanced"),
            ending_length_ms: -2000,
            disable_loading: true,
            chart_ratio_milli: 1000,
            buffer_size: 256,
            combo: String::from_str("AUTOPLAY"),
            fps: 60,
            hardware_accel: true,
            video_codec: String::from_str("h264"),
            target_audio: 96000,
            autoplay: None,
            bitrate_control: String::from_str("CRF"),
            bitrate: String::from_str("28"),
            watermark: String::new(),
            video: false,
            audio_bit: None,
            audio_format: String::from_str("flac"),
            challenge_color: ChallengeColor::Golden,
            challenge_rank: 45,
            note_scale_milli: 1000,
            player_avatar: None,
            player_name: String::new(),
            player_rks_milli: 15000,
            sample_count: 1,
            res_pack_path: None,
            speed_milli: 1000,
            volume_music_milli: 1000,
            volume_sfx_milli: 1000,
            note_speed_factor_milli: 1000,
            toggles: PlayToggles {
                chart_debug: false,
                flid_x: false,
                show_progress_text: false,
                show_time_text: false,
                background: false,
                aggressive: false,
                disable_effect: false,
                double_hint: true,
                fxaa: false,
                particle: true,
                hand_split: false,
                ui_score: true,
                ui_combo: true,
                ui_name: true,
                ui_level: true,
                ui_line: true,
                ui_pb: true,
                ui_pause: true,
            },
            ffmpeg_thread: false,
        }
    }
}

/// Creates the default render configuration.
pub fn create_default_render_config() -> (r: RenderConfig)
    ensures
        is_default_config(r),
{
    RenderConfig::default()
}

/// The subset of the scene driver's configuration that a render job sets:
/// what the gameplay simulation and its drawing read.
#[derive(Clone)]
pub struct SceneConfig {
    /// Challenge-mode color grade.
    pub challenge_color: ChallengeColor,
    /// Challenge-mode rank.
    pub challenge_rank: u32,
    /// Note scale, in thousandths.
    pub note_scale_milli: u32,
    /// The player's name.
    pub player_name: String,
    /// The player's rating, in thousandths.
    pub player_rks_milli: u32,
    /// Multisample count of the offscreen target.
    pub sample_count: u32,
    /// Path of the resource pack, if any.
    pub res_pack_path: Option<String>,
    /// Playback speed, in thousandths.
    pub speed_milli: u32,
    /// Music gain, in thousandths.
    pub volume_music_milli: u32,
    /// Effect gain, in thousandths.
    pub volume_sfx_milli: u32,
    /// Chart scale, in thousandths.
    pub chart_ratio_milli: u32,
    /// Audio buffer size hint.
    pub buffer_size: u32,
    /// Text shown in place of the combo counter.
    pub combo: String,
    /// Autoplay override.
    pub autoplay: Option<bool>,
    /// Watermark text.
    pub watermark: String,
    /// Whether the loading visuals are trimmed.
    pub disable_loading: bool,
    /// Note speed factor, in thousandths.
    pub note_speed_factor_milli: u32,
    /// Cosmetic and gameplay toggles.
    pub toggles: PlayToggles,
}

impl RenderConfig {
    /// Projects the job configuration onto the scene driver's
    /// configuration, field for field.
    pub fn to_config(&self) -> (r: SceneConfig)
        ensures
            r.challenge_color == self.challenge_color,
            r.challenge_rank == self.challenge_rank,
            r.note_scale_milli == self.note_scale_milli,
            r.player_name@ == self.player_name@,
            r.player_rks_milli == self.player_rks_milli,
            r.sample_count == self.sample_count,
            r.res_pack_path == self.res_pack_path,
            r.speed_milli == self.speed_milli,
            r.volume_music_milli == self.volume_music_milli,
            r.volume_sfx_milli == self.volume_sfx_milli,
            r.chart_ratio_milli == self.chart_ratio_milli,
            r.buffer_size == self.buffer_size,
            r.combo@ == self.combo@,
            r.autoplay == self.autoplay,
            r.watermark@ == self.watermark@,
            r.disable_loading == self.disable_loading,
            r.note_speed_factor_milli == self.note_speed_factor_milli,
            r.toggles == self.toggles,
    {
        SceneConfig {
            challenge_color: self.challenge_color,
            challenge_rank: self.challenge_rank,
            note_scale_milli: self.note_scale_milli,
            player_name: self.player_name.clone(),
            player_rks_milli: self.player_rks_milli,
            sample_count: self.sample_count,
            res_pack_path: clone_opt_string(&self.res_pack_path),
            speed_milli: self.speed_milli,
            volume_music_milli: self.volume_music_milli,
            volume_sfx_milli: self.volume_sfx_milli,
            chart_ratio_milli: self.chart_ratio_milli,
            buffer_size: self.buffer_size,
            combo: self.combo.clone(),
            autoplay: self.autoplay,
            watermark: self.watermark.clone(),
            disable_loading: self.disable_loading,
            note_speed_factor_milli: self.note_speed_factor_milli,
            toggles: self.toggles,
        }
    }
}

/// Clones an optional string, keeping its value.
pub fn clone_opt_string(s: &Option<String>) -> (r: Option<String>)
    ensures
        r == *s,
{
    match s {
        Some(v) => Some(v.clone()),
        None => None,
    }
}

/// What the pipeline reads of a chart's metadata: its display name and the
/// aspect ratio the export is fitted to, as an exact ratio.
#[derive(Clone)]
pub struct ChartInfo {
    /// The chart's display name.
    pub name: String,
    /// Relative path of the music track inside the chart.
    pub music: String,
    /// Aspect ratio numerator.
    pub aspect_num: u32,
    /// Aspect ratio denominator.
    pub aspect_den: u32,
}

/// One render request: the chart source, its metadata, and a configuration
/// snapshot.
#[derive(Clone)]
pub struct RenderParams {
    /// Path of the chart source.
    pub path: String,
    /// The chart's metadata.
    pub info: ChartInfo,
    /// The configuration snapshot.
    pub config: RenderConfig,
}

/// One chart found in an external editor's resource directory.
#[derive(Clone)]
pub struct RPEChartInfo {
    /// The chart's display name.
    pub name: String,
    /// The chart's identifier, its folder name.
    pub id: String,
    /// Path of the chart's folder.
    pub path: String,
    /// Path of the chart's illustration.
    pub illustration: String,
    /// The charter's name.
    pub charter: String,
    /// Last modification time of the chart file, in milliseconds since the
    /// epoch; zero when unknown.
    pub modified: u64,
}

/// The presets file's location inside the configuration directory.
pub fn get_presets_file(config_dir: &str) -> (r: String)
    ensures
        r@ == config_dir@ + "/presets.json"@,
{
    let s = String::from_str(config_dir);
    s.concat("/presets.json")
}

/// A named preset already stored.
#[derive(Clone, Copy, Debug, PartialEq, Eq, Structural)]
pub struct PresetExists;

/// No preset stored under the given name.
#[derive(Clone, Copy, Debug, PartialEq, Eq, Structural)]
pub struct PresetNotFound;

/// The named render-configuration presets, with unique names.
pub struct PresetStore {
    /// The presets, in insertion order.
    pub entries: Vec<(String, RenderConfig)>,
}

impl PresetStore {
    /// Whether some entry carries the given name.
    pub open spec fn spec_has(self, name: Seq<char>) -> bool {
        exists|i: int| 0 <= i < self.entries@.len() && (#[trigger] self.entries@[i]).0@ == name
    }

    /// Preset names are unique.
    pub open spec fn wf(self) -> bool {
        forall|i: int, j: int|
            0 <= i < j < self.entries@.len() ==> (#[trigger] self.entries@[i]).0@ != (
            #[trigger] self.entries@[j]).0@
    }

    /// Creates an empty store.
    pub fn new() -> (s: PresetStore)
        ensures
            s.wf(),
            s.entries@.len() == 0,
    {
        PresetStore { entries: Vec::new() }
    }

    /// Finds the index of the preset with the given name.
    fn find(&self, name: &str) -> (r: Option<usize>)
        ensures
            match r {
                Option::Some(i) => i < self.entries@.len() && self.entries@[i as int].0@
                    == name@,
                Option::None => !self.spec_has(name@),
            },
    {
        for i in 0..self.entries.len()
            invariant
                forall|j: int| 0 <= j < i ==> (#[trigger] self.entries@[j]).0@ != name@,
        {
            if str_eq(self.entries[i].0.as_str(), name) {
                return Some(i);
            }
        }
        None
    }

    /// Looks up a preset by name: exactly the stored configuration.
    pub fn lookup<'a>(&'a self, name: &str) -> (r: Option<&'a RenderConfig>)
        ensures
            r is Some <==> self.spec_has(name@),
            match r {
                Option::Some(c) => exists|i: int|
                    0 <= i < self.entries@.len() && (#[trigger] self.entries@[i]).0@ == name@
                        && *c == self.entries@[i].1,
                Option::None => !self.spec_has(name@),
            },
    {
        match self.find(name) {
            Some(i) => Some(&self.entries[i].1),
            None => None,
        }
    }

    /// Looks up a preset by name and hands back a copy of it, agreeing
    /// with the stored configuration on every setting.
    pub fn get(&self, name: &str) -> (r: Option<RenderConfig>)
        ensures
            r is Some <==> self.spec_has(name@),
            match r {
                Option::Some(c) => exists|i: int|
                    0 <= i < self.entries@.len() && (#[trigger] self.entries@[i]).0@ == name@
                        && config_eq(c, self.entries@[i].1),
                Option::None => !self.spec_has(name@),
            },
    {
        match self.lookup(name) {
            Some(c) => Some(c.clone()),
            None => None,
        }
    }

    /// Adds a preset under a new name; a name already stored is rejected
    /// and the store is unchanged.
    pub fn add(&mut self, name: String, config: RenderConfig) -> (r: Result<(), PresetExists>)
        requires
            old(self).wf(),
        ensures
            final(self).wf(),
            r is Ok <==> !old(self).spec_has(name@),
            r is Ok ==> final(self).entries@ == old(self).entries@.push((name, config)),
            r is Err ==> *final(self) == *old(self),
    {
        match self.find(name.as_str()) {
            Some(_) => Err(PresetExists),
            None => {
                self.entries.push((name, config));
                Ok(())
            },
        }
    }

    /// Removes the preset with the given name, keeping the order of the
    /// rest; an unknown name is rejected and the store is unchanged.
    pub fn remove(&mut self, name: &str) -> (r: Result<(), PresetNotFound>)
        requires
            old(self).wf(),
        ensures
            final(self).wf(),
            r is Ok <==> old(self).spec_has(name@),
            r is Ok ==> exists|i: int|
                0 <= i < old(self).entries@.len() && (#[trigger] old(self).entries@[i]).0@
                    == name@ && final(self).entries@ == old(self).entries@.remove(i),
            r is Ok ==> !final(self).spec_has(name@),
            r is Err ==> *final(self) == *old(self),
    {
        match self.find(name) {
            Some(i) => {
                self.entries.remove(i);
                proof {
                    assert forall|j: int|
                        0 <= j < self.entries@.len() implies (
                    #[trigger] self.entries@[j]).0@ != name@ by {
                        if j < i {
                            assert(self.entries@[j] == old(self).entries@[j]);
                        } else {
                            assert(self.entries@[j] == old(self).entries@[j + 1]);
                        }
                    }
                }
                Ok(())
            },
            None => Err(PresetNotFound),
        }
    }
}

/// Removing a fresh name that was just added restores the store: the add
/// appended exactly the new pair, and the remove takes exactly it out
/// again, so the entries return to what they were.
pub proof fn lemma_remove_undoes_add(
    before: Seq<(String, RenderConfig)>,
    added: Seq<(String, RenderConfig)>,
    removed: Seq<(String, RenderConfig)>,
    name: String,
    config: RenderConfig,
    i: int,
)
    requires
        forall|k: int| 0 <= k < before.len() ==> (#[trigger] before[k]).0@ != name@,
        added == before.push((name, config)),
        0 <= i < added.len(),
        added[i].0@ == name@,
        removed == added.remove(i),
    ensures
        removed == before,
{
    if i < before.len() {
        assert(added[i] == before[i]);
    }
    assert(i == before.len());
    assert(removed =~= before);
}

/// The configuration a submission with the given preset name carries:
/// field for field the stored preset when the store knows the name, and
/// the default configuration otherwise.
pub open spec fn chosen_config_ok(
    presets: PresetStore,
    name: Seq<char>,
    config: RenderConfig,
) -> bool {
    if presets.spec_has(name) {
        exists|i: int|
            0 <= i < presets.entries@.len() && (#[trigger] presets.entries@[i]).0@ == name
                && config_eq(config, presets.entries@[i].1)
    } else {
        is_default_config(config)
    }
}

} // verus!
