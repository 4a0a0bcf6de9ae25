//! Audio output configuration and the audio-mux invocation.
//!
//! The mixed PCM program is piped to the external encoder, which writes an
//! intermediate file in the requested audio format. The requested format
//! and bit depth are validated before any process is spawned: an unknown
//! format, an unknown bit depth, or an explicit PCM bit depth with a
//! non-WAV container is a configuration error, rejected synchronously.

use vstd::prelude::*;

use crate::text::{dec_str, eq_ignore_ascii_case, lower, nth_token, u64_to_string};

verus! {

/// The supported audio output formats.
#[derive(Clone, Copy, Debug, PartialEq, Eq, Structural)]
pub enum AudioFormat {
    /// Lossless FLAC.
    Flac,
    /// Lossy MP3.
    Mp3,
    /// Lossy AAC.
    Aac,
    /// Low-latency lossy Opus.
    Opus,
    /// Container-only PCM in WAV.
    Wav,
}

/// The codec handed to the external encoder for the audio pass.
#[derive(Clone, Copy, Debug, PartialEq, Eq, Structural)]
pub enum AudioCodec {
    /// Floating-point PCM of the given bit depth (16, 24 or 32).
    Pcm(u32),
    /// FLAC.
    Flac,
    /// The MP3 encoder.
    Mp3Lame,
    /// The AAC encoder.
    Aac,
    /// The Opus encoder.
    Opus,
}

/// A validated audio output configuration: the codec and the container it
/// is written into.
#[derive(Clone, Copy, Debug, PartialEq, Eq, Structural)]
pub struct AudioEncoding {
    /// The audio codec.
    pub codec: AudioCodec,
    /// The container format of the intermediate file.
    pub container: AudioFormat,
}

/// A rejected audio output configuration; raised before any process is
/// spawned.
#[derive(Clone, Copy, Debug, PartialEq, Eq, Structural)]
pub enum AudioConfigError {
    /// The requested format is not one of the supported five.
    UnsupportedFormat,
    /// The requested PCM bit depth is not 16, 24 or 32.
    InvalidBitDepth,
    /// An explicit PCM bit depth requires the WAV container.
    PcmRequiresWav,
}

/// The format a requested name denotes, case-insensitively.
pub open spec fn spec_parse_format(name: Seq<char>) -> Option<AudioFormat> {
    if lower(name) == "flac"@ {
        Option::Some(AudioFormat::Flac)
    } else if lower(name) == "mp3"@ {
        Option::Some(AudioFormat::Mp3)
    } else if lower(name) == "aac"@ {
        Option::Some(AudioFormat::Aac)
    } else if lower(name) == "opus"@ {
        Option::Some(AudioFormat::Opus)
    } else if lower(name) == "wav"@ {
        Option::Some(AudioFormat::Wav)
    } else {
        Option::None
    }
}

/// The encoding a validated configuration maps to: an explicit bit depth
/// forces PCM in WAV; otherwise each format pairs with its canonical codec.
pub open spec fn spec_encoding(format: AudioFormat, bit_depth: Option<u32>) -> AudioEncoding {
    match bit_depth {
        Option::Some(bit) => AudioEncoding { codec: AudioCodec::Pcm(bit), container: AudioFormat::Wav },
        Option::None => match format {
            AudioFormat::Flac => AudioEncoding { codec: AudioCodec::Flac, container: AudioFormat::Flac },
            AudioFormat::Mp3 => AudioEncoding { codec: AudioCodec::Mp3Lame, container: AudioFormat::Mp3 },
            AudioFormat::Aac => AudioEncoding { codec: AudioCodec::Aac, container: AudioFormat::Aac },
            AudioFormat::Opus => AudioEncoding { codec: AudioCodec::Opus, container: AudioFormat::Opus },
            AudioFormat::Wav => AudioEncoding { codec: AudioCodec::Pcm(16), container: AudioFormat::Wav },
        },
    }
}

/// Validates the requested audio format name and optional PCM bit depth,
/// and maps them to the codec and container of the audio pass. Fails — and
/// only fails — when the format name is unknown, when the bit depth is not
/// 16, 24 or 32, or when a bit depth is given with a non-WAV format; all
/// before any process is spawned.
pub fn validate_audio_config(format_name: &str, bit_depth: Option<u32>) -> (r: Result<
    AudioEncoding,
    AudioConfigError,
>)
    ensures
        r is Ok <==> (spec_parse_format(format_name@) is Some && match bit_depth {
            Option::Some(bit) => (bit == 16 || bit == 24 || bit == 32)
                && spec_parse_format(format_name@) == Option::Some(AudioFormat::Wav),
            Option::None => true,
        }),
        r is Ok ==> r->Ok_0 == spec_encoding(spec_parse_format(format_name@)->Some_0, bit_depth),
        r == Result::<AudioEncoding, AudioConfigError>::Err(AudioConfigError::UnsupportedFormat)
            <==> spec_parse_format(format_name@) is None,
        r == Result::<AudioEncoding, AudioConfigError>::Err(AudioConfigError::InvalidBitDepth)
            <==> (spec_parse_format(format_name@) is Some && match bit_depth {
            Option::Some(bit) => bit != 16 && bit != 24 && bit != 32,
            Option::None => false,
        }),
        r == Result::<AudioEncoding, AudioConfigError>::Err(AudioConfigError::PcmRequiresWav)
            <==> (spec_parse_format(format_name@) is Some && bit_depth is Some
            && (bit_depth->0 == 16 || bit_depth->0 == 24 || bit_depth->0 == 32)
            && spec_parse_format(format_name@) != Option::Some(AudioFormat::Wav)),
{
    proof {
        reveal_strlit("flac");
        reveal_strlit("mp3");
        reveal_strlit("aac");
        reveal_strlit("opus");
        reveal_strlit("wav");
        assert(lower("flac"@) =~= "flac"@);
        assert(lower("mp3"@) =~= "mp3"@);
        assert(lower("aac"@) =~= "aac"@);
        assert(lower("opus"@) =~= "opus"@);
        assert(lower("wav"@) =~= "wav"@);
    }
    let format = if eq_ignore_ascii_case(format_name, "flac") {
        AudioFormat::Flac
    } else if eq_ignore_ascii_case(format_name, "mp3") {
        AudioFormat::Mp3
    } else if eq_ignore_ascii_case(format_name, "aac") {
        AudioFormat::Aac
    } else if eq_ignore_ascii_case(format_name, "opus") {
        AudioFormat::Opus
    } else if eq_ignore_ascii_case(format_name, "wav") {
        AudioFormat::Wav
    } else {
        return Err(AudioConfigError::UnsupportedFormat);
    };
    match bit_depth {
        Some(bit) => {
            if !(bit == 16 || bit == 24 || bit == 32) {
                return Err(AudioConfigError::InvalidBitDepth);
            }
            if !matches!(format, AudioFormat::Wav) {
                return Err(AudioConfigError::PcmRequiresWav);
            }
            Ok(AudioEncoding { codec: AudioCodec::Pcm(bit), container: AudioFormat::Wav })
        },
        None => {
            let encoding = match format {
                AudioFormat::Flac => AudioEncoding {
                    codec: AudioCodec::Flac,
                    container: AudioFormat::Flac,
                },
                AudioFormat::Mp3 => AudioEncoding {
                    codec: AudioCodec::Mp3Lame,
                    container: AudioFormat::Mp3,
                },
                AudioFormat::Aac => AudioEncoding {
                    codec: AudioCodec::Aac,
                    container: AudioFormat::Aac,
                },
                AudioFormat::Opus => AudioEncoding {
                    codec: AudioCodec::Opus,
                    container: AudioFormat::Opus,
                },
                AudioFormat::Wav => AudioEncoding {
                    codec: AudioCodec::Pcm(16),
                    container: AudioFormat::Wav,
                },
            };
            Ok(encoding)
        },
    }
}

/// The codec name handed to the external encoder.
pub open spec fn spec_codec_name(codec: AudioCodec) -> Seq<char> {
    match codec {
        AudioCodec::Pcm(bit) => "pcm_f"@ + dec_str(bit as int) + "le"@,
        AudioCodec::Flac => "flac"@,
        AudioCodec::Mp3Lame => "libmp3lame"@,
        AudioCodec::Aac => "aac"@,
        AudioCodec::Opus => "libopus"@,
    }
}

/// Returns the codec name handed to the external encoder.
pub fn codec_name(codec: AudioCodec) -> (r: String)
    ensures
        r@ == spec_codec_name(codec),
{
    match codec {
        AudioCodec::Pcm(bit) => {
            let s = String::from_str("pcm_f");
            let s = s.concat(u64_to_string(bit as u64).as_str());
            s.concat("le")
        },
        AudioCodec::Flac => String::from_str("flac"),
        AudioCodec::Mp3Lame => String::from_str("libmp3lame"),
        AudioCodec::Aac => String::from_str("aac"),
        AudioCodec::Opus => String::from_str("libopus"),
    }
}

/// The container name of the intermediate audio file. AAC is muxed into
/// MP4; the others use their own container.
pub open spec fn spec_container_name(container: AudioFormat) -> Seq<char> {
    match container {
        AudioFormat::Flac => "flac"@,
        AudioFormat::Mp3 => "mp3"@,
        AudioFormat::Aac => "mp4"@,
        AudioFormat::Opus => "opus"@,
        AudioFormat::Wav => "wav"@,
    }
}

/// Returns the container name of the intermediate audio file.
pub fn container_name(container: AudioFormat) -> (r: &'static str)
    ensures
        r@ == spec_container_name(container),
{
    match container {
        AudioFormat::Flac => "flac",
        AudioFormat::Mp3 => "mp3",
        AudioFormat::Aac => "mp4",
        AudioFormat::Opus => "opus",
        AudioFormat::Wav => "wav",
    }
}

/// The resample filter inserted when the configured target sample rate
/// differs from the mixing rate.
pub open spec fn spec_resample_filter(target: int) -> Seq<char> {
    "aresample=resampler=soxr:precision=33:osr="@ + dec_str(target)
        + ":dither_method=triangular"@
}

/// The arguments of the audio-mux invocation: raw 32-bit float stereo PCM
/// at the mixing rate on the standard input, an optional resample filter
/// when the target rate differs, the validated codec, and the container of
/// the intermediate file. The output path and log level follow these.
pub open spec fn spec_audio_args(
    rate: int,
    target_rate: int,
    encoding: AudioEncoding,
) -> Seq<Seq<char>> {
    let head = seq!["-y"@, "-f"@, "f32le"@, "-ar"@, dec_str(rate), "-ac"@, "2"@, "-i"@, "-"@];
    let filtered = if target_rate != rate {
        head + seq!["-af"@, spec_resample_filter(target_rate)]
    } else {
        head
    };
    filtered + seq!["-c:a"@, spec_codec_name(encoding.codec), "-f"@,
        spec_container_name(encoding.container)]
}

/// Builds the argument list of the audio-mux invocation.
pub fn audio_args(rate: u32, target_rate: u32, encoding: &AudioEncoding) -> (r: Vec<String>)
    ensures
        r.deep_view() == spec_audio_args(rate as int, target_rate as int, *encoding),
{
    let mut r: Vec<String> = Vec::new();
    r.push(String::from_str("-y"));
    r.push(String::from_str("-f"));
    r.push(String::from_str("f32le"));
    r.push(String::from_str("-ar"));
    r.push(u64_to_string(rate as u64));
    r.push(String::from_str("-ac"));
    r.push(String::from_str("2"));
    r.push(String::from_str("-i"));
    r.push(String::from_str("-"));
    if target_rate != rate {
        r.push(String::from_str("-af"));
        let f = String::from_str("aresample=resampler=soxr:precision=33:osr=");
        let f = f.concat(u64_to_string(target_rate as u64).as_str());
        let f = f.concat(":dither_method=triangular");
        r.push(f);
    }
    r.push(String::from_str("-c:a"));
    r.push(codec_name(encoding.codec));
    r.push(String::from_str("-f"));
    r.push(String::from_str(container_name(encoding.container)));
    proof {
        assert(r.deep_view() =~= spec_audio_args(rate as int, target_rate as int, *encoding));
    }
    r
}

} // verus!
