use phi_tk::audio::{
    audio_args, codec_name, container_name, validate_audio_config, AudioCodec, AudioConfigError,
    AudioEncoding, AudioFormat,
};
use phi_tk::encoder::{
    detect, encoder_name, negotiate, parse_codec, preset_flag, preset_name, rate_control_flag,
    test_plan, CodecFamily, EncoderAvailability, EncoderId, HwProbes,
};
use phi_tk::ipc::{encode_event, parse_event, parse_u64_digits, IPCEvent};
use phi_tk::ring::{choose_slot_count, run_schedule, ReadbackRing};
use phi_tk::text::{eq_ignore_ascii_case, get_token, ms_to_sec_string, split_spaces, str_eq,
    u64_to_string};
use phi_tk::video::{
    detect_decoders, fit_resolution, frame_bytes, video_input_args, video_output_args,
    DecodeAvailability,
};

#[test]
fn decimal_formatting() {
    assert_eq!(u64_to_string(0), "0");
    assert_eq!(u64_to_string(10), "10");
    assert_eq!(u64_to_string(96000), "96000");
    assert_eq!(u64_to_string(u64::MAX), "18446744073709551615");
}

#[test]
fn seconds_formatting() {
    assert_eq!(ms_to_sec_string(1234), "1.234");
    assert_eq!(ms_to_sec_string(50), "0.050");
    assert_eq!(ms_to_sec_string(12000), "12.000");
}

#[test]
fn tokenization() {
    let toks = split_spaces("medium p4  balanced ");
    assert_eq!(toks, vec!["medium", "p4", "balanced"]);
    assert_eq!(get_token("medium p4 balanced", 1), Some("p4".to_string()));
    assert_eq!(get_token("medium", 2), None);
}

#[test]
fn string_comparisons() {
    assert!(str_eq("abc", "abc"));
    assert!(!str_eq("abc", "abd"));
    assert!(eq_ignore_ascii_case("FLAC", "flac"));
    assert!(!eq_ignore_ascii_case("ogg", "flac"));
}

#[test]
fn events_round_trip_through_their_encoding() {
    let events = [
        IPCEvent::StartMixing,
        IPCEvent::Frame,
        IPCEvent::StartRender(600),
        IPCEvent::Done(123_456),
    ];
    for e in events.iter() {
        let line = encode_event(e);
        assert_eq!(parse_event(line.as_str()), Some(*e));
    }
}

#[test]
fn event_encodings_are_json_lines() {
    assert_eq!(encode_event(&IPCEvent::StartMixing), "\"StartMixing\"");
    assert_eq!(encode_event(&IPCEvent::Frame), "\"Frame\"");
    assert_eq!(encode_event(&IPCEvent::StartRender(600)), "{\"StartRender\":600}");
    assert_eq!(encode_event(&IPCEvent::Done(4500)), "{\"Done\":4.500}");
}

#[test]
fn parser_rejects_non_canonical_lines() {
    assert_eq!(parse_event(""), None);
    assert_eq!(parse_event("Frame"), None);
    assert_eq!(parse_event("{\"StartRender\":007}"), None);
    assert_eq!(parse_event("{\"StartRender\":}"), None);
    assert_eq!(parse_event("{\"Done\":1}"), None);
    assert_eq!(parse_event("{\"Done\":1.2345}"), None);
    assert_eq!(parse_u64_digits("18446744073709551616"), None);
    assert_eq!(parse_u64_digits("600"), Some(600));
}

#[test]
fn codec_parsing_defaults_to_h264() {
    assert_eq!(parse_codec("hevc"), CodecFamily::Hevc);
    assert_eq!(parse_codec("av1"), CodecFamily::Av1);
    assert_eq!(parse_codec("h264"), CodecFamily::H264);
    assert_eq!(parse_codec("mystery"), CodecFamily::H264);
}

#[test]
fn detection_gates_tests_on_probes_and_codec() {
    let probes = HwProbes { nvidia: true, intel: false, amd: true };
    let d = detect(true, CodecFamily::Hevc, probes);
    assert!(d.h264_nvenc && d.hevc_nvenc && !d.av1_nvenc);
    assert!(!d.h264_qsv && !d.hevc_qsv);
    assert!(d.h264_amf && d.hevc_amf && !d.av1_amf);
    let off = detect(false, CodecFamily::Hevc, probes);
    assert_eq!(off, EncoderAvailability::none());
    let plan = test_plan(&d, CodecFamily::Hevc);
    assert_eq!(plan, vec![EncoderId::Nvenc(CodecFamily::Hevc), EncoderId::Amf(CodecFamily::Hevc)]);
}

#[test]
fn negotiation_picks_first_passing_hardware_encoder() {
    let mut tested = EncoderAvailability::none();
    tested.hevc_qsv = true;
    tested.hevc_amf = true;
    let r = negotiate(true, CodecFamily::Hevc, &EncoderAvailability::none(), &tested, vec![]);
    assert_eq!(r.unwrap(), EncoderId::Qsv(CodecFamily::Hevc));
}

#[test]
fn negotiation_fails_explicitly_when_hardware_is_mandatory() {
    let tested = EncoderAvailability::none();
    let r = negotiate(true, CodecFamily::H264, &EncoderAvailability::none(), &tested,
        vec!["h264_nvenc test failed".to_string()]);
    let failure = r.err().expect("mandatory hardware without a passing encoder must fail");
    assert_eq!(failure.codec, CodecFamily::H264);
    assert_eq!(failure.test_errors.len(), 1);
}

#[test]
fn negotiation_falls_back_to_software_when_hardware_is_optional() {
    let tested = EncoderAvailability::none();
    let r = negotiate(false, CodecFamily::Av1, &EncoderAvailability::none(), &tested, vec![]);
    assert_eq!(r.unwrap(), EncoderId::Software(CodecFamily::Av1));
}

#[test]
fn encoder_flag_spellings() {
    assert_eq!(encoder_name(EncoderId::Nvenc(CodecFamily::H264)), "h264_nvenc");
    assert_eq!(encoder_name(EncoderId::Software(CodecFamily::Hevc)), "libx265");
    assert_eq!(encoder_name(EncoderId::Software(CodecFamily::Av1)), "libaom-av1");
    assert_eq!(preset_flag(EncoderId::Amf(CodecFamily::H264)), "-quality");
    assert_eq!(preset_flag(EncoderId::Nvenc(CodecFamily::H264)), "-preset");
    assert_eq!(rate_control_flag(EncoderId::Nvenc(CodecFamily::H264), true), "-cq");
    assert_eq!(rate_control_flag(EncoderId::Qsv(CodecFamily::H264), true), "-q");
    assert_eq!(rate_control_flag(EncoderId::Amf(CodecFamily::H264), true), "-qp_p");
    assert_eq!(rate_control_flag(EncoderId::Software(CodecFamily::H264), true), "-crf");
    assert_eq!(rate_control_flag(EncoderId::Nvenc(CodecFamily::H264), false), "-b:v");
}

#[test]
fn preset_token_is_positioned_per_vendor() {
    let preset = "medium p4 balanced";
    assert_eq!(preset_name(preset, EncoderId::Qsv(CodecFamily::H264)), "medium");
    assert_eq!(preset_name(preset, EncoderId::Nvenc(CodecFamily::H264)), "p4");
    assert_eq!(preset_name(preset, EncoderId::Amf(CodecFamily::H264)), "balanced");
    assert_eq!(preset_name(preset, EncoderId::Software(CodecFamily::H264)), "medium");
    assert_eq!(preset_name("", EncoderId::Nvenc(CodecFamily::H264)), "p4");
    assert_eq!(preset_name("", EncoderId::Amf(CodecFamily::H264)), "balanced");
    assert_eq!(preset_name("", EncoderId::Qsv(CodecFamily::H264)), "medium");
}

#[test]
fn pcm_bit_depth_requires_wav_container() {
    let r = validate_audio_config("mp3", Some(24));
    assert_eq!(r, Err(AudioConfigError::PcmRequiresWav));
}

#[test]
fn audio_config_validation() {
    assert_eq!(
        validate_audio_config("wav", Some(24)),
        Ok(AudioEncoding { codec: AudioCodec::Pcm(24), container: AudioFormat::Wav })
    );
    assert_eq!(validate_audio_config("ogg", None), Err(AudioConfigError::UnsupportedFormat));
    assert_eq!(validate_audio_config("flac", Some(20)), Err(AudioConfigError::InvalidBitDepth));
    assert_eq!(
        validate_audio_config("FLAC", None),
        Ok(AudioEncoding { codec: AudioCodec::Flac, container: AudioFormat::Flac })
    );
    assert_eq!(
        validate_audio_config("aac", None),
        Ok(AudioEncoding { codec: AudioCodec::Aac, container: AudioFormat::Aac })
    );
}

#[test]
fn audio_codec_and_container_names() {
    assert_eq!(codec_name(AudioCodec::Pcm(24)), "pcm_f24le");
    assert_eq!(codec_name(AudioCodec::Mp3Lame), "libmp3lame");
    assert_eq!(codec_name(AudioCodec::Opus), "libopus");
    assert_eq!(container_name(AudioFormat::Aac), "mp4");
    assert_eq!(container_name(AudioFormat::Wav), "wav");
}

#[test]
fn audio_invocation_inserts_resampler_only_when_needed() {
    let enc = AudioEncoding { codec: AudioCodec::Flac, container: AudioFormat::Flac };
    let same = audio_args(96000, 96000, &enc);
    assert_eq!(
        same,
        vec!["-y", "-f", "f32le", "-ar", "96000", "-ac", "2", "-i", "-", "-c:a", "flac", "-f",
            "flac"]
    );
    let resampled = audio_args(96000, 48000, &enc);
    assert_eq!(
        resampled,
        vec!["-y", "-f", "f32le", "-ar", "96000", "-ac", "2", "-i", "-", "-af",
            "aresample=resampler=soxr:precision=33:osr=48000:dither_method=triangular", "-c:a",
            "flac", "-f", "flac"]
    );
}

#[test]
fn resolution_fit() {
    assert_eq!(fit_resolution(1920, 1080, 16, 9), (1920, 1080));
    assert_eq!(fit_resolution(1920, 1080, 4, 3), (1440, 1080));
    assert_eq!(fit_resolution(1000, 1000, 16, 9), (1000, 563));
    assert_eq!(frame_bytes(1920, 1080), 1920 * 1080 * 4);
}

#[test]
fn video_invocation_for_software_encoder() {
    let args = video_input_args(false, CodecFamily::H264, &DecodeAvailability::none(),
        EncoderId::Software(CodecFamily::H264), 1920, 1080, 60);
    assert_eq!(
        args,
        vec!["-y", "-f", "rawvideo", "-c:v", "rawvideo", "-s", "1920x1080", "-r", "60",
            "-pix_fmt", "rgba", "-i", "-", "-i"]
    );
    let out = video_output_args(AudioCodec::Flac, EncoderId::Software(CodecFamily::H264), true,
        "28", "medium p4 balanced", AudioFormat::Flac, false, false, true, 2500);
    assert_eq!(
        out,
        vec!["-c:a", "flac", "-c:v", "libx264", "-pix_fmt", "yuv420p", "-crf", "28", "-preset",
            "medium", "-strict", "-2", "-map", "0:v:0", "-map", "1:a:0", "-ss", "2.500", "-vf",
            "vflip", "-f", "mp4"]
    );
}

#[test]
fn video_invocation_uses_cuvid_decode_when_available() {
    let dec = detect_decoders(true, CodecFamily::Hevc, HwProbes { nvidia: true, intel: false,
        amd: false });
    assert!(dec.h264_cuvid && dec.hevc_cuvid && !dec.av1_cuvid);
    let args = video_input_args(true, CodecFamily::Hevc, &dec,
        EncoderId::Nvenc(CodecFamily::Hevc), 1280, 720, 30);
    assert_eq!(
        args,
        vec!["-hwaccel", "cuvid", "-c:v", "hevc_cuvid", "-y", "-f", "rawvideo", "-c:v",
            "rawvideo", "-hwaccel_output_format", "cuda", "-s", "1280x720", "-r", "30",
            "-pix_fmt", "rgba", "-i", "-", "-i"]
    );
}

#[test]
fn slot_count_is_largest_divisor_of_fps() {
    assert_eq!(choose_slot_count(60), 10);
    assert_eq!(choose_slot_count(24), 8);
    assert_eq!(choose_slot_count(59), 1);
    assert_eq!(choose_slot_count(30), 10);
}

#[test]
fn ring_trails_and_drains_every_frame_in_order() {
    let order = run_schedule(7, 3);
    assert_eq!(order, vec![0, 1, 2, 3, 4, 5, 6]);
    let order = run_schedule(2, 10);
    assert_eq!(order, vec![0, 1]);
}

#[test]
fn ring_slots_cycle_modulo_the_slot_count() {
    let mut ring = ReadbackRing::new(2);
    assert_eq!(ring.issue(), 0);
    assert_eq!(ring.issue(), 1);
    let (frame, slot) = ring.retrieve();
    assert_eq!((frame, slot), (0, 0));
    assert_eq!(ring.issue(), 0);
    let (frame, slot) = ring.retrieve();
    assert_eq!((frame, slot), (1, 1));
    ring.fence();
    let (frame, slot) = ring.retrieve();
    assert_eq!((frame, slot), (2, 0));
}
