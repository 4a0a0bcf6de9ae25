//! The video-mux invocation.
//!
//! The second external-encoder pass reads raw frames from a pipe and the
//! intermediate audio file, and writes the final container. This module
//! computes the export resolution fitted to the chart's aspect ratio, the
//! per-frame byte size, the hardware-decode gating, and the full argument
//! list around the negotiated encoder.

use vstd::prelude::*;

use crate::audio::{spec_codec_name, AudioCodec, AudioFormat, codec_name};
use crate::encoder::{
    spec_encoder_name, spec_preset_flag, spec_preset_name, spec_rate_control_flag, CodecFamily,
    EncoderId, HwProbes, encoder_name, preset_flag, preset_name, rate_control_flag,
};
use crate::text::{dec_str, sec_str, u64_to_string, ms_to_sec_string};

verus! {

/// `a / b` rounded to the nearest integer, halves up.
pub open spec fn round_div(a: int, b: int) -> int {
    (2 * a + b) / (2 * b)
}

/// The export resolution fitted to the chart's aspect ratio `num / den`:
/// whichever of width and height makes the picture too wide or too tall is
/// shrunk, rounding to the nearest pixel; a resolution already at the
/// chart's ratio is kept.
pub open spec fn spec_fit(vw: int, vh: int, num: int, den: int) -> (int, int) {
    if vw * den == vh * num {
        (vw, vh)
    } else if vw * den > vh * num {
        (round_div(vh * num, den), vh)
    } else {
        (vw, round_div(vw * den, num))
    }
}

/// Fits the configured resolution to the chart's aspect ratio.
pub fn fit_resolution(vw: u32, vh: u32, num: u32, den: u32) -> (r: (u32, u32))
    requires
        1 <= num,
        1 <= den,
        spec_fit(vw as int, vh as int, num as int, den as int).0 <= u32::MAX,
        spec_fit(vw as int, vh as int, num as int, den as int).1 <= u32::MAX,
    ensures
        (r.0 as int, r.1 as int) == spec_fit(vw as int, vh as int, num as int, den as int),
{
    proof {
        assert(vw * den < u64::MAX && vh * num < u64::MAX) by (nonlinear_arith)
            requires vw <= u32::MAX, vh <= u32::MAX, num <= u32::MAX, den <= u32::MAX;
    }
    let cur: u64 = (vw as u64) * (den as u64);
    let target: u64 = (vh as u64) * (num as u64);
    if cur == target {
        (vw, vh)
    } else if cur > target {
        let w128: u128 = (2 * (target as u128) + (den as u128)) / (2 * (den as u128));
        ((w128 as u32), vh)
    } else {
        let h128: u128 = (2 * (cur as u128) + (num as u128)) / (2 * (num as u128));
        (vw, (h128 as u32))
    }
}

/// Byte size of one tightly packed frame: four bytes per pixel.
pub fn frame_bytes(width: u32, height: u32) -> (r: usize)
    requires
        width * height * 4 <= usize::MAX,
    ensures
        r == width * height * 4,
{
    let n: u128 = (width as u128) * (height as u128) * 4;
    n as usize
}

/// Which hardware decoders are worth using for the pass-through decode of
/// the raw frame stream; all are NVIDIA CUVID implementations.
#[derive(Clone, Copy, Debug, PartialEq, Eq, Structural)]
pub struct DecodeAvailability {
    /// CUVID H.264 decode.
    pub h264_cuvid: bool,
    /// CUVID HEVC decode.
    pub hevc_cuvid: bool,
    /// CUVID AV1 decode.
    pub av1_cuvid: bool,
}

impl DecodeAvailability {
    /// The all-false availability.
    pub fn none() -> (r: DecodeAvailability)
        ensures
            r == (DecodeAvailability { h264_cuvid: false, hevc_cuvid: false, av1_cuvid: false }),
    {
        DecodeAvailability { h264_cuvid: false, hevc_cuvid: false, av1_cuvid: false }
    }
}

/// Gates the hardware-decode tests on the NVIDIA probe, mirroring the
/// encoder gating: H.264 whenever acceleration is on, the other families
/// only when requested.
pub fn detect_decoders(hardware_accel: bool, codec: CodecFamily, probes: HwProbes) -> (r:
    DecodeAvailability)
    ensures
        r.h264_cuvid == (hardware_accel && probes.nvidia),
        r.hevc_cuvid == (hardware_accel && codec == CodecFamily::Hevc && probes.nvidia),
        r.av1_cuvid == (hardware_accel && codec == CodecFamily::Av1 && probes.nvidia),
{
    DecodeAvailability {
        h264_cuvid: hardware_accel && probes.nvidia,
        hevc_cuvid: hardware_accel && matches!(codec, CodecFamily::Hevc) && probes.nvidia,
        av1_cuvid: hardware_accel && matches!(codec, CodecFamily::Av1) && probes.nvidia,
    }
}

/// The hardware-acceleration arguments placed before the raw-video input:
/// a CUVID decoder when one passed its test, else the encoder vendor's
/// acceleration format.
pub open spec fn spec_hw_prefix(
    hardware_accel: bool,
    codec: CodecFamily,
    dec: DecodeAvailability,
    enc: EncoderId,
) -> Seq<Seq<char>> {
    if !hardware_accel {
        Seq::empty()
    } else if codec == CodecFamily::Hevc && dec.hevc_cuvid {
        seq!["-hwaccel"@, "cuvid"@, "-c:v"@, "hevc_cuvid"@]
    } else if codec != CodecFamily::Hevc && dec.h264_cuvid {
        seq!["-hwaccel"@, "cuvid"@, "-c:v"@, "h264_cuvid"@]
    } else if enc is Nvenc {
        seq!["-hwaccel_output_format"@, "cuda"@]
    } else if enc is Qsv {
        seq!["-hwaccel"@, "qsv"@]
    } else {
        Seq::empty()
    }
}

/// Whether the prefix already set the CUDA output format; when an NVENC
/// encoder was selected without it, it is appended after the raw-video
/// flags instead.
pub open spec fn spec_cuda_in_prefix(
    hardware_accel: bool,
    codec: CodecFamily,
    dec: DecodeAvailability,
    enc: EncoderId,
) -> bool {
    hardware_accel && !(codec == CodecFamily::Hevc && dec.hevc_cuvid) && !(codec
        != CodecFamily::Hevc && dec.h264_cuvid) && enc is Nvenc
}

/// The arguments of the video-mux invocation that precede the two inputs:
/// hardware-acceleration flags, the raw-video demuxer for the frame pipe,
/// the frame geometry and rate, and the two `-i` markers (the pipe, then
/// the intermediate audio file appended by the caller).
pub open spec fn spec_video_input_args(
    hardware_accel: bool,
    codec: CodecFamily,
    dec: DecodeAvailability,
    enc: EncoderId,
    width: int,
    height: int,
    fps: int,
) -> Seq<Seq<char>> {
    let prefix = spec_hw_prefix(hardware_accel, codec, dec, enc);
    let raw = seq!["-y"@, "-f"@, "rawvideo"@, "-c:v"@, "rawvideo"@];
    let cuda = if enc is Nvenc && !spec_cuda_in_prefix(hardware_accel, codec, dec, enc) {
        seq!["-hwaccel_output_format"@, "cuda"@]
    } else {
        Seq::empty()
    };
    prefix + raw + cuda + seq!["-s"@, dec_str(width) + "x"@ + dec_str(height), "-r"@,
        dec_str(fps), "-pix_fmt"@, "rgba"@, "-i"@, "-"@, "-i"@]
}

/// Builds the input half of the video-mux argument list.
pub fn video_input_args(
    hardware_accel: bool,
    codec: CodecFamily,
    dec: &DecodeAvailability,
    enc: EncoderId,
    width: u32,
    height: u32,
    fps: u32,
) -> (r: Vec<String>)
    ensures
        r.deep_view() == spec_video_input_args(hardware_accel, codec, *dec, enc, width as int,
            height as int, fps as int),
{
    let mut r: Vec<String> = Vec::new();
    let mut cuda_in_prefix = false;
    if hardware_accel {
        if matches!(codec, CodecFamily::Hevc) && dec.hevc_cuvid {
            r.push(String::from_str("-hwaccel"));
            r.push(String::from_str("cuvid"));
            r.push(String::from_str("-c:v"));
            r.push(String::from_str("hevc_cuvid"));
        } else if !matches!(codec, CodecFamily::Hevc) && dec.h264_cuvid {
            r.push(String::from_str("-hwaccel"));
            r.push(String::from_str("cuvid"));
            r.push(String::from_str("-c:v"));
            r.push(String::from_str("h264_cuvid"));
        } else if matches!(enc, EncoderId::Nvenc(_)) {
            r.push(String::from_str("-hwaccel_output_format"));
            r.push(String::from_str("cuda"));
            cuda_in_prefix = true;
        } else if matches!(enc, EncoderId::Qsv(_)) {
            r.push(String::from_str("-hwaccel"));
            r.push(String::from_str("qsv"));
        }
    }
    r.push(String::from_str("-y"));
    r.push(String::from_str("-f"));
    r.push(String::from_str("rawvideo"));
    r.push(String::from_str("-c:v"));
    r.push(String::from_str("rawvideo"));
    if matches!(enc, EncoderId::Nvenc(_)) && !cuda_in_prefix {
        r.push(String::from_str("-hwaccel_output_format"));
        r.push(String::from_str("cuda"));
    }
    r.push(String::from_str("-s"));
    let dims = u64_to_string(width as u64);
    let dims = dims.concat("x");
    let dims = dims.concat(u64_to_string(height as u64).as_str());
    r.push(dims);
    r.push(String::from_str("-r"));
    r.push(u64_to_string(fps as u64));
    r.push(String::from_str("-pix_fmt"));
    r.push(String::from_str("rgba"));
    r.push(String::from_str("-i"));
    r.push(String::from_str("-"));
    r.push(String::from_str("-i"));
    proof {
        assert(r.deep_view() =~= spec_video_input_args(hardware_accel, codec, *dec, enc,
            width as int, height as int, fps as int));
    }
    r
}

/// The start-offset trim of the final export: when the loading visuals are
/// excluded, the whole pre-roll is trimmed; otherwise a fixed tenth of a
/// second.
pub open spec fn spec_start_trim(disable_loading: bool, pre_roll_ms: int) -> Seq<char> {
    if disable_loading {
        sec_str(pre_roll_ms)
    } else {
        "0.1"@
    }
}

/// The arguments of the video-mux invocation that follow the two inputs:
/// the audio codec copied from the intermediate, the negotiated video
/// encoder, its rate-control and preset flags, the optional experimental
/// and queueing flags, the stream mapping, the start-offset trim, the
/// vertical flip out of GPU row order, and the final container.
pub open spec fn spec_video_output_args(
    audio_codec: AudioCodec,
    enc: EncoderId,
    constant_quality: bool,
    bitrate: Seq<char>,
    preset: Seq<char>,
    audio_container: AudioFormat,
    mov_container: bool,
    ffmpeg_thread: bool,
    disable_loading: bool,
    pre_roll_ms: int,
) -> Seq<Seq<char>> {
    let head = seq!["-c:a"@, spec_codec_name(audio_codec), "-c:v"@, spec_encoder_name(enc),
        "-pix_fmt"@, "yuv420p"@, spec_rate_control_flag(enc, constant_quality), bitrate,
        spec_preset_flag(enc), spec_preset_name(preset, enc)];
    let strict = if audio_container == AudioFormat::Flac && !mov_container {
        seq!["-strict"@, "-2"@]
    } else {
        Seq::empty()
    };
    let thread = if ffmpeg_thread {
        seq!["-thread_queue_size"@, "2048"@]
    } else {
        Seq::empty()
    };
    head + strict + thread + seq!["-map"@, "0:v:0"@, "-map"@, "1:a:0"@, "-ss"@,
        spec_start_trim(disable_loading, pre_roll_ms), "-vf"@, "vflip"@, "-f"@,
        (if mov_container { "mov"@ } else { "mp4"@ })]
}

/// Builds the output half of the video-mux argument list.
#[verifier::rlimit(80)]
pub fn video_output_args(
    audio_codec: AudioCodec,
    enc: EncoderId,
    constant_quality: bool,
    bitrate: &str,
    preset: &str,
    audio_container: AudioFormat,
    mov_container: bool,
    ffmpeg_thread: bool,
    disable_loading: bool,
    pre_roll_ms: u64,
) -> (r: Vec<String>)
    ensures
        r.deep_view() == spec_video_output_args(audio_codec, enc, constant_quality, bitrate@,
            preset@, audio_container, mov_container, ffmpeg_thread, disable_loading,
            pre_roll_ms as int),
{
    let mut r: Vec<String> = Vec::new();
    r.push(String::from_str("-c:a"));
    r.push(codec_name(audio_codec));
    r.push(String::from_str("-c:v"));
    r.push(String::from_str(encoder_name(enc)));
    r.push(String::from_str("-pix_fmt"));
    r.push(String::from_str("yuv420p"));
    r.push(String::from_str(rate_control_flag(enc, constant_quality)));
    r.push(String::from_str(bitrate));
    r.push(String::from_str(preset_flag(enc)));
    r.push(preset_name(preset, enc));
    if matches!(audio_container, AudioFormat::Flac) && !mov_container {
        r.push(String::from_str("-strict"));
        r.push(String::from_str("-2"));
    }
    if ffmpeg_thread {
        r.push(String::from_str("-thread_queue_size"));
        r.push(String::from_str("2048"));
    }
    r.push(String::from_str("-map"));
    r.push(String::from_str("0:v:0"));
    r.push(String::from_str("-map"));
    r.push(String::from_str("1:a:0"));
    r.push(String::from_str("-ss"));
    if disable_loading {
        r.push(ms_to_sec_string(pre_roll_ms));
    } else {
        r.push(String::from_str("0.1"));
    }
    r.push(String::from_str("-vf"));
    r.push(String::from_str("vflip"));
    r.push(String::from_str("-f"));
    if mov_container {
        r.push(String::from_str("mov"));
    } else {
        r.push(String::from_str("mp4"));
    }
    proof {
        assert(r.deep_view() =~= spec_video_output_args(audio_codec, enc, constant_quality,
            bitrate@, preset@, audio_container, mov_container, ffmpeg_thread, disable_loading,
            pre_roll_ms as int));
    }
    r
}

} // verus!
