//! Encoder negotiation.
//!
//! A linear pipeline: hardware detection gates which encoders are worth a
//! functional test; the caller runs each test against the external encoder
//! and reports the outcomes; selection walks an ordered candidate list —
//! the vendor hardware encoders of the requested codec family, then the
//! always-available software encoder — and picks the first that passed.
//! When hardware acceleration was mandatory and no hardware candidate of
//! the requested family passed, negotiation fails explicitly with the
//! collected diagnostics instead of silently falling back to software.

use vstd::prelude::*;

use crate::text::{nth_token, str_eq};

verus! {

/// The requested codec family.
#[derive(Clone, Copy, Debug, PartialEq, Eq, Structural)]
pub enum CodecFamily {
    /// H.264 / AVC.
    H264,
    /// H.265 / HEVC.
    Hevc,
    /// AV1.
    Av1,
}

/// Parses the configured codec name; anything unrecognised falls back to
/// H.264, which is what an unconfigured export encodes.
pub open spec fn spec_parse_codec(s: Seq<char>) -> CodecFamily {
    if s == "hevc"@ {
        CodecFamily::Hevc
    } else if s == "av1"@ {
        CodecFamily::Av1
    } else {
        CodecFamily::H264
    }
}

/// Parses the configured codec name.
pub fn parse_codec(s: &str) -> (r: CodecFamily)
    ensures
        r == spec_parse_codec(s@),
{
    if str_eq(s, "hevc") {
        CodecFamily::Hevc
    } else if str_eq(s, "av1") {
        CodecFamily::Av1
    } else {
        CodecFamily::H264
    }
}

/// One concrete encoder: a hardware vendor implementation of a codec
/// family, or the software implementation.
#[derive(Clone, Copy, Debug, PartialEq, Eq, Structural)]
pub enum EncoderId {
    /// NVIDIA NVENC for the given family.
    Nvenc(CodecFamily),
    /// Intel Quick Sync for the given family.
    Qsv(CodecFamily),
    /// AMD AMF for the given family.
    Amf(CodecFamily),
    /// The software encoder for the given family; always available.
    Software(CodecFamily),
}

/// The advisory result of the cheap per-vendor hardware probes.
#[derive(Clone, Copy, Debug, PartialEq, Eq, Structural)]
pub struct HwProbes {
    /// An NVIDIA driver or device was detected.
    pub nvidia: bool,
    /// An Intel graphics device was detected.
    pub intel: bool,
    /// An AMD driver or device was detected.
    pub amd: bool,
}

/// Which encoders were detected as worth testing, and, after the
/// functional tests, which actually passed.
#[derive(Clone, Copy, Debug, PartialEq, Eq, Structural)]
pub struct EncoderAvailability {
    /// NVENC H.264.
    pub h264_nvenc: bool,
    /// NVENC HEVC.
    pub hevc_nvenc: bool,
    /// NVENC AV1.
    pub av1_nvenc: bool,
    /// Quick Sync H.264.
    pub h264_qsv: bool,
    /// Quick Sync HEVC.
    pub hevc_qsv: bool,
    /// Quick Sync AV1.
    pub av1_qsv: bool,
    /// AMF H.264.
    pub h264_amf: bool,
    /// AMF HEVC.
    pub hevc_amf: bool,
    /// AMF AV1.
    pub av1_amf: bool,
}

impl EncoderAvailability {
    /// The all-false availability.
    pub fn none() -> (r: EncoderAvailability)
        ensures
            r == (EncoderAvailability {
                h264_nvenc: false,
                hevc_nvenc: false,
                av1_nvenc: false,
                h264_qsv: false,
                hevc_qsv: false,
                av1_qsv: false,
                h264_amf: false,
                hevc_amf: false,
                av1_amf: false,
            }),
    {
        EncoderAvailability {
            h264_nvenc: false,
            hevc_nvenc: false,
            av1_nvenc: false,
            h264_qsv: false,
            hevc_qsv: false,
            av1_qsv: false,
            h264_amf: false,
            hevc_amf: false,
            av1_amf: false,
        }
    }

    /// The availability flag of one hardware encoder; the software encoder
    /// is always available.
    pub open spec fn spec_available(self, id: EncoderId) -> bool {
        match id {
            EncoderId::Nvenc(CodecFamily::H264) => self.h264_nvenc,
            EncoderId::Nvenc(CodecFamily::Hevc) => self.hevc_nvenc,
            EncoderId::Nvenc(CodecFamily::Av1) => self.av1_nvenc,
            EncoderId::Qsv(CodecFamily::H264) => self.h264_qsv,
            EncoderId::Qsv(CodecFamily::Hevc) => self.hevc_qsv,
            EncoderId::Qsv(CodecFamily::Av1) => self.av1_qsv,
            EncoderId::Amf(CodecFamily::H264) => self.h264_amf,
            EncoderId::Amf(CodecFamily::Hevc) => self.hevc_amf,
            EncoderId::Amf(CodecFamily::Av1) => self.av1_amf,
            EncoderId::Software(_) => true,
        }
    }

    /// Some hardware encoder of the requested family passed its test.
    pub open spec fn spec_hw_supported(self, codec: CodecFamily) -> bool {
        self.spec_available(EncoderId::Nvenc(codec)) || self.spec_available(EncoderId::Qsv(codec))
            || self.spec_available(EncoderId::Amf(codec))
    }
}

/// Gates the functional tests on the cheap hardware probes: an encoder is
/// tested only when acceleration is enabled, its vendor was detected, and
/// its codec is H.264 or the requested family. Detection is advisory — a
/// detected encoder still has to pass its functional test.
pub fn detect(hardware_accel: bool, codec: CodecFamily, probes: HwProbes) -> (r:
    EncoderAvailability)
    ensures
        r.h264_nvenc == (hardware_accel && probes.nvidia),
        r.hevc_nvenc == (hardware_accel && codec == CodecFamily::Hevc && probes.nvidia),
        r.av1_nvenc == (hardware_accel && codec == CodecFamily::Av1 && probes.nvidia),
        r.h264_qsv == (hardware_accel && probes.intel),
        r.hevc_qsv == (hardware_accel && codec == CodecFamily::Hevc && probes.intel),
        r.av1_qsv == (hardware_accel && codec == CodecFamily::Av1 && probes.intel),
        r.h264_amf == (hardware_accel && probes.amd),
        r.hevc_amf == (hardware_accel && codec == CodecFamily::Hevc && probes.amd),
        r.av1_amf == (hardware_accel && codec == CodecFamily::Av1 && probes.amd),
{
    EncoderAvailability {
        h264_nvenc: hardware_accel && probes.nvidia,
        hevc_nvenc: hardware_accel && matches!(codec, CodecFamily::Hevc) && probes.nvidia,
        av1_nvenc: hardware_accel && matches!(codec, CodecFamily::Av1) && probes.nvidia,
        h264_qsv: hardware_accel && probes.intel,
        hevc_qsv: hardware_accel && matches!(codec, CodecFamily::Hevc) && probes.intel,
        av1_qsv: hardware_accel && matches!(codec, CodecFamily::Av1) && probes.intel,
        h264_amf: hardware_accel && probes.amd,
        hevc_amf: hardware_accel && matches!(codec, CodecFamily::Hevc) && probes.amd,
        av1_amf: hardware_accel && matches!(codec, CodecFamily::Av1) && probes.amd,
    }
}

/// The encoders of the requested family that should get a functional test:
/// the detected ones, in vendor preference order.
pub fn test_plan(detected: &EncoderAvailability, codec: CodecFamily) -> (r: Vec<EncoderId>)
    ensures
        r@ == Seq::<EncoderId>::empty().push(EncoderId::Nvenc(codec)).push(EncoderId::Qsv(codec))
            .push(EncoderId::Amf(codec)).filter(|id: EncoderId| detected.spec_available(id)),
{
    let all: [EncoderId; 3] = [EncoderId::Nvenc(codec), EncoderId::Qsv(codec),
        EncoderId::Amf(codec)];
    let ghost full = Seq::<EncoderId>::empty().push(EncoderId::Nvenc(codec)).push(
        EncoderId::Qsv(codec)).push(EncoderId::Amf(codec));
    let mut r: Vec<EncoderId> = Vec::new();
    let a = available_flag(detected, EncoderId::Nvenc(codec));
    if a {
        r.push(all[0]);
    }
    let b = available_flag(detected, EncoderId::Qsv(codec));
    if b {
        r.push(all[1]);
    }
    let c = available_flag(detected, EncoderId::Amf(codec));
    if c {
        r.push(all[2]);
    }
    proof {
        reveal_with_fuel(Seq::filter, 5);
        assert(full.drop_last() =~= Seq::<EncoderId>::empty().push(EncoderId::Nvenc(codec)).push(
            EncoderId::Qsv(codec)));
        assert(full.drop_last().drop_last() =~= Seq::<EncoderId>::empty().push(
            EncoderId::Nvenc(codec)));
        assert(full.drop_last().drop_last().drop_last() =~= Seq::<EncoderId>::empty());
        assert(r@ =~= full.filter(|id: EncoderId| detected.spec_available(id)));
    }
    r
}

/// Reads the availability flag of one encoder.
pub fn available_flag(a: &EncoderAvailability, id: EncoderId) -> (r: bool)
    ensures
        r == a.spec_available(id),
{
    match id {
        EncoderId::Nvenc(CodecFamily::H264) => a.h264_nvenc,
        EncoderId::Nvenc(CodecFamily::Hevc) => a.hevc_nvenc,
        EncoderId::Nvenc(CodecFamily::Av1) => a.av1_nvenc,
        EncoderId::Qsv(CodecFamily::H264) => a.h264_qsv,
        EncoderId::Qsv(CodecFamily::Hevc) => a.hevc_qsv,
        EncoderId::Qsv(CodecFamily::Av1) => a.av1_qsv,
        EncoderId::Amf(CodecFamily::H264) => a.h264_amf,
        EncoderId::Amf(CodecFamily::Hevc) => a.hevc_amf,
        EncoderId::Amf(CodecFamily::Av1) => a.av1_amf,
        EncoderId::Software(_) => true,
    }
}

/// The candidate that selection picks for a codec family: the first
/// available encoder of NVENC, Quick Sync, AMF, then software — which is
/// always available, so selection is total.
pub open spec fn spec_select(a: EncoderAvailability, codec: CodecFamily) -> EncoderId {
    if a.spec_available(EncoderId::Nvenc(codec)) {
        EncoderId::Nvenc(codec)
    } else if a.spec_available(EncoderId::Qsv(codec)) {
        EncoderId::Qsv(codec)
    } else if a.spec_available(EncoderId::Amf(codec)) {
        EncoderId::Amf(codec)
    } else {
        EncoderId::Software(codec)
    }
}

/// The diagnostics of a failed negotiation: which encoders were detected,
/// which passed their functional test, and the captured output of every
/// failing test — surfaced verbatim rather than silently downgrading.
#[derive(Clone, Debug)]
pub struct NegotiationFailure {
    /// The codec family that was requested.
    pub codec: CodecFamily,
    /// What hardware detection reported.
    pub detected: EncoderAvailability,
    /// What the functional tests reported.
    pub tested: EncoderAvailability,
    /// The captured diagnostic output of each failing test.
    pub test_errors: Vec<String>,
}

/// Negotiates the encoder. With acceleration off, every hardware flag is
/// down and the software encoder of the requested family wins. With
/// acceleration on, the first hardware encoder that passed its test wins;
/// when none passed, negotiation fails explicitly, carrying the collected
/// diagnostics — hardware was mandatory, so software is never chosen
/// silently.
pub fn negotiate(
    hardware_accel: bool,
    codec: CodecFamily,
    detected: &EncoderAvailability,
    tested: &EncoderAvailability,
    test_errors: Vec<String>,
) -> (r: Result<EncoderId, NegotiationFailure>)
    ensures
        r is Ok <==> (!hardware_accel || tested.spec_hw_supported(codec)),
        r is Ok ==> r->Ok_0 == spec_select(*tested, codec),
        r is Ok ==> tested.spec_available(r->Ok_0),
        hardware_accel && r is Ok ==> !(r->Ok_0 is Software),
        r is Err ==> r->Err_0.codec == codec && r->Err_0.detected == *detected
            && r->Err_0.tested == *tested && r->Err_0.test_errors@ == test_errors@,
{
    let hw_ok = available_flag(tested, EncoderId::Nvenc(codec)) || available_flag(
        tested,
        EncoderId::Qsv(codec),
    ) || available_flag(tested, EncoderId::Amf(codec));
    if hardware_accel && !hw_ok {
        return Err(NegotiationFailure {
            codec,
            detected: *detected,
            tested: *tested,
            test_errors,
        });
    }
    if available_flag(tested, EncoderId::Nvenc(codec)) {
        Ok(EncoderId::Nvenc(codec))
    } else if available_flag(tested, EncoderId::Qsv(codec)) {
        Ok(EncoderId::Qsv(codec))
    } else if available_flag(tested, EncoderId::Amf(codec)) {
        Ok(EncoderId::Amf(codec))
    } else {
        Ok(EncoderId::Software(codec))
    }
}

/// Negotiation always terminates with either a selected candidate or an
/// explicit failure: a selected encoder passed its functional test (the
/// software fallback is available by construction), and when hardware was
/// mandatory the software path is never chosen — failure is reported
/// instead.
pub proof fn lemma_negotiation_decisive(
    hardware_accel: bool,
    codec: CodecFamily,
    tested: EncoderAvailability,
    r: Result<EncoderId, NegotiationFailure>,
)
    requires
        r is Ok <==> (!hardware_accel || tested.spec_hw_supported(codec)),
        r is Ok ==> r->Ok_0 == spec_select(tested, codec),
    ensures
        !hardware_accel ==> r is Ok,
        r is Ok ==> tested.spec_available(r->Ok_0),
        hardware_accel ==> (r matches Err(_) <==> !tested.spec_hw_supported(codec)),
        hardware_accel && r is Ok ==> !(r->Ok_0 is Software),
{
}

/// The name under which the external encoder knows this codec
/// implementation.
pub open spec fn spec_encoder_name(id: EncoderId) -> Seq<char> {
    match id {
        EncoderId::Nvenc(CodecFamily::H264) => "h264_nvenc"@,
        EncoderId::Nvenc(CodecFamily::Hevc) => "hevc_nvenc"@,
        EncoderId::Nvenc(CodecFamily::Av1) => "av1_nvenc"@,
        EncoderId::Qsv(CodecFamily::H264) => "h264_qsv"@,
        EncoderId::Qsv(CodecFamily::Hevc) => "hevc_qsv"@,
        EncoderId::Qsv(CodecFamily::Av1) => "av1_qsv"@,
        EncoderId::Amf(CodecFamily::H264) => "h264_amf"@,
        EncoderId::Amf(CodecFamily::Hevc) => "hevc_amf"@,
        EncoderId::Amf(CodecFamily::Av1) => "av1_amf"@,
        EncoderId::Software(CodecFamily::H264) => "libx264"@,
        EncoderId::Software(CodecFamily::Hevc) => "libx265"@,
        EncoderId::Software(CodecFamily::Av1) => "libaom-av1"@,
    }
}

/// Returns the external encoder's name for this codec implementation.
pub fn encoder_name(id: EncoderId) -> (r: &'static str)
    ensures
        r@ == spec_encoder_name(id),
{
    match id {
        EncoderId::Nvenc(CodecFamily::H264) => "h264_nvenc",
        EncoderId::Nvenc(CodecFamily::Hevc) => "hevc_nvenc",
        EncoderId::Nvenc(CodecFamily::Av1) => "av1_nvenc",
        EncoderId::Qsv(CodecFamily::H264) => "h264_qsv",
        EncoderId::Qsv(CodecFamily::Hevc) => "hevc_qsv",
        EncoderId::Qsv(CodecFamily::Av1) => "av1_qsv",
        EncoderId::Amf(CodecFamily::H264) => "h264_amf",
        EncoderId::Amf(CodecFamily::Hevc) => "hevc_amf",
        EncoderId::Amf(CodecFamily::Av1) => "av1_amf",
        EncoderId::Software(CodecFamily::H264) => "libx264",
        EncoderId::Software(CodecFamily::Hevc) => "libx265",
        EncoderId::Software(CodecFamily::Av1) => "libaom-av1",
    }
}

/// The preset flag spelling of the selected encoder: AMF calls it
/// `-quality`, everything else `-preset`.
pub open spec fn spec_preset_flag(id: EncoderId) -> Seq<char> {
    match id {
        EncoderId::Amf(_) => "-quality"@,
        _ => "-preset"@,
    }
}

/// Returns the preset flag spelling of the selected encoder.
pub fn preset_flag(id: EncoderId) -> (r: &'static str)
    ensures
        r@ == spec_preset_flag(id),
{
    match id {
        EncoderId::Amf(_) => "-quality",
        _ => "-preset",
    }
}

/// Position of each vendor's preset name within the configured preset
/// string: Quick Sync and software read the first token, NVENC the second,
/// AMF the third.
pub open spec fn spec_preset_position(id: EncoderId) -> int {
    match id {
        EncoderId::Nvenc(_) => 1,
        EncoderId::Qsv(_) => 0,
        EncoderId::Amf(_) => 2,
        EncoderId::Software(_) => 0,
    }
}

/// The vendor's fallback preset name, used when the configured preset
/// string has no token at the vendor's position.
pub open spec fn spec_preset_default(id: EncoderId) -> Seq<char> {
    match id {
        EncoderId::Nvenc(_) => "p4"@,
        EncoderId::Amf(_) => "balanced"@,
        _ => "medium"@,
    }
}

/// The preset name handed to the selected encoder: the vendor's token of
/// the configured preset string, or the vendor's default when the string
/// has no such token.
pub open spec fn spec_preset_name(preset: Seq<char>, id: EncoderId) -> Seq<char> {
    match nth_token(preset, spec_preset_position(id)) {
        Option::Some(t) => t,
        Option::None => spec_preset_default(id),
    }
}

/// Picks the preset name for the selected encoder out of the configured
/// preset string.
pub fn preset_name(preset: &str, id: EncoderId) -> (r: String)
    ensures
        r@ == spec_preset_name(preset@, id),
{
    let position: usize = match id {
        EncoderId::Nvenc(_) => 1,
        EncoderId::Qsv(_) => 0,
        EncoderId::Amf(_) => 2,
        EncoderId::Software(_) => 0,
    };
    match crate::text::get_token(preset, position) {
        Some(t) => t,
        None => {
            let d: &str = match id {
                EncoderId::Nvenc(_) => "p4",
                EncoderId::Amf(_) => "balanced",
                _ => "medium",
            };
            String::from_str(d)
        },
    }
}

/// The rate-control flag spelling of the selected encoder: under constant
/// quality each vendor spells it differently; under fixed bitrate every
/// encoder takes `-b:v`.
pub open spec fn spec_rate_control_flag(id: EncoderId, constant_quality: bool) -> Seq<char> {
    if constant_quality {
        match id {
            EncoderId::Nvenc(_) => "-cq"@,
            EncoderId::Qsv(_) => "-q"@,
            EncoderId::Amf(_) => "-qp_p"@,
            EncoderId::Software(_) => "-crf"@,
        }
    } else {
        "-b:v"@
    }
}

/// Returns the rate-control flag spelling of the selected encoder.
pub fn rate_control_flag(id: EncoderId, constant_quality: bool) -> (r: &'static str)
    ensures
        r@ == spec_rate_control_flag(id, constant_quality),
{
    if constant_quality {
        match id {
            EncoderId::Nvenc(_) => "-cq",
            EncoderId::Qsv(_) => "-q",
            EncoderId::Amf(_) => "-qp_p",
            EncoderId::Software(_) => "-crf",
        }
    } else {
        "-b:v"
    }
}

} // verus!
