//! Arguments of the continuous captures: screen recording, camera recording
//! and the low-resolution screen preview, for each capture backend.
use vstd::prelude::*;

use crate::error::{reports_invalid_resolution, ValidationError};
use crate::text::{push_arg, push_owned, push_signed, signed_dec, text, texts};
use crate::tier::{bitrate_text, fixed_size, tier_named, ResolutionTier};

verus! {

/// The platform the engine runs on, which decides the capture backend.
#[derive(Debug, Clone, Copy, PartialEq, Eq)]
pub enum Platform {
    /// AVFoundation devices.
    MacOs,
    /// GDI screen grabbing and DirectShow devices.
    Windows,
    /// No capture backend is known.
    Other,
}

/// What a recording asks for: a tier name, the source's size for the
/// `source` tier, and an optional audio device.
#[derive(Debug, Clone)]
pub struct RecordingOptions {
    pub resolution: String,
    pub source_width: Option<i32>,
    pub source_height: Option<i32>,
    pub audio_device: Option<String>,
}

/// Size and bitrate of a recording, or why there is none: `720p` and
/// `1080p` have fixed sizes, `source` takes the given source size.
pub open spec fn recording_spec(o: RecordingOptions) -> Result<(int, int, ResolutionTier), ValidationError> {
    match tier_named(o.resolution@) {
        None => Err(ValidationError::InvalidResolution(o.resolution)),
        Some(t) => match fixed_size(t) {
            Some((w, h)) => Ok((w as int, h as int, t)),
            None => match (o.source_width, o.source_height) {
                (Some(w), Some(h)) => Ok((w as int, h as int, t)),
                _ => Err(ValidationError::SourceResolutionUnavailable),
            },
        },
    }
}

/// The encoding arguments shared by both screen backends.
pub open spec fn screen_encoding(w: int, h: int, t: ResolutionTier, audio: bool) -> Seq<Seq<char>> {
    seq![
        "-vf"@,
        "scale="@ + signed_dec(w) + seq![':'] + signed_dec(h),
        "-pix_fmt"@,
        "yuv420p"@,
        "-c:v"@,
        "libx264"@,
        "-preset"@,
        "ultrafast"@,
        "-b:v"@,
        bitrate_text(t),
    ] + audio_encoding(audio)
}

/// AAC audio at 192k when audio is recorded.
pub open spec fn audio_encoding(audio: bool) -> Seq<Seq<char>> {
    if audio {
        seq!["-c:a"@, "aac"@, "-b:a"@, "192k"@]
    } else {
        Seq::empty()
    }
}

/// The input arguments of a screen recording on a platform.
pub open spec fn screen_input(p: Platform, device: Option<Seq<char>>) -> Seq<Seq<char>> {
    match p {
        Platform::MacOs => seq![
            "-f"@,
            "avfoundation"@,
            "-framerate"@,
            "30"@,
            "-i"@,
            if device is Some { "1:0"@ } else { "1"@ },
        ],
        _ => seq!["-f"@, "gdigrab"@, "-framerate"@, "30"@, "-i"@, "desktop"@] + match device {
            Some(d) => seq!["-f"@, "dshow"@, "-i"@, "audio="@ + d],
            None => Seq::empty(),
        },
    }
}

/// The view of an optional device name.
pub open spec fn device_view(d: Option<String>) -> Option<Seq<char>> {
    match d {
        Some(s) => Some(s@),
        None => None,
    }
}

/// The full arguments of a screen recording into `output`.
pub open spec fn screen_arguments(p: Platform, o: RecordingOptions, output: Seq<char>) -> Result<Seq<Seq<char>>, ValidationError> {
    match recording_spec(o) {
        Err(e) => Err(e),
        Ok((w, h, t)) => if p == Platform::Other {
            Err(ValidationError::UnsupportedPlatform)
        } else {
            Ok(screen_input(p, device_view(o.audio_device)) + screen_encoding(w, h, t, o.audio_device is Some) + seq![output])
        },
    }
}

/// The full arguments of a camera recording into `output`.
pub open spec fn camera_arguments(p: Platform, o: RecordingOptions, output: Seq<char>) -> Result<Seq<Seq<char>>, ValidationError> {
    match recording_spec(o) {
        Err(e) => Err(e),
        Ok((w, h, t)) => {
            let size = signed_dec(w) + seq!['x'] + signed_dec(h);
            let encode = seq![
                "-pix_fmt"@,
                "yuv420p"@,
                "-c:v"@,
                "libx264"@,
                "-preset"@,
                "ultrafast"@,
                "-b:v"@,
                bitrate_text(t),
            ];
            match p {
                Platform::MacOs => Ok(seq![
                    "-f"@,
                    "avfoundation"@,
                    "-framerate"@,
                    "30"@,
                    "-video_size"@,
                    size,
                    "-i"@,
                    "0:0"@,
                ] + encode + audio_encoding(true) + seq![output]),
                Platform::Windows => Ok(seq![
                    "-f"@,
                    "dshow"@,
                    "-framerate"@,
                    "30"@,
                    "-video_size"@,
                    size,
                    "-i"@,
                    match o.audio_device {
                        Some(d) => "video=Integrated Camera:audio="@ + d@,
                        None => "video=Integrated Camera"@,
                    },
                ] + encode + audio_encoding(o.audio_device is Some) + seq![output]),
                Platform::Other => Err(ValidationError::UnsupportedPlatform),
            }
        },
    }
}

/// The arguments of the screen preview: 640×360 at 15 frames per second as
/// a motion-JPEG stream on standard output.
pub open spec fn preview_arguments(p: Platform) -> Result<Seq<Seq<char>>, ValidationError> {
    let tail = seq![
        "-f"@,
        "image2pipe"@,
        "-vcodec"@,
        "mjpeg"@,
        "-q:v"@,
        "10"@,
        "-"@,
    ];
    match p {
        Platform::MacOs => Ok(seq![
            "-f"@,
            "avfoundation"@,
            "-framerate"@,
            "15"@,
            "-video_size"@,
            "640x360"@,
            "-i"@,
            "1"@,
        ] + tail),
        Platform::Windows => Ok(seq![
            "-f"@,
            "gdigrab"@,
            "-framerate"@,
            "15"@,
            "-video_size"@,
            "640x360"@,
            "-i"@,
            "desktop"@,
        ] + tail),
        Platform::Other => Err(ValidationError::UnsupportedPlatform),
    }
}

/// The view of an argument list that may be refused.
pub open spec fn args_result_view(r: Result<Vec<String>, ValidationError>) -> Result<Seq<Seq<char>>, ValidationError> {
    match r {
        Ok(v) => Ok(texts(v@)),
        Err(e) => Err(e),
    }
}

/// Decides size, bitrate and tier of a recording.
pub fn recording_format(o: &RecordingOptions) -> (r: Result<(i32, i32, ResolutionTier), ValidationError>)
    ensures
        match (r, recording_spec(*o)) {
            (Ok((w, h, t)), Ok((sw, sh, st))) => w as int == sw && h as int == sh && t == st,
            (Err(e), Err(se)) => match se {
                ValidationError::InvalidResolution(n) => reports_invalid_resolution(e, n@),
                _ => e == se,
            },
            _ => false,
        },
{
    let given = text(o.resolution.as_str());
    let t = if given == text("720p") {
        ResolutionTier::Hd720
    } else if given == text("1080p") {
        ResolutionTier::Hd1080
    } else if given == text("source") {
        ResolutionTier::Source
    } else {
        return Err(ValidationError::InvalidResolution(given));
    };
    match t.fixed_size() {
        Some((w, h)) => Ok((w as i32, h as i32, t)),
        None => match (o.source_width, o.source_height) {
            (Some(w), Some(h)) => Ok((w, h, t)),
            _ => Err(ValidationError::SourceResolutionUnavailable),
        },
    }
}

fn push_audio_encoding(args: &mut Vec<String>, audio: bool)
    ensures
        texts(final(args)@) == texts(old(args)@) + audio_encoding(audio),
{
    let ghost start = texts(args@);
    if audio {
        push_arg(args, "-c:a");
        push_arg(args, "aac");
        push_arg(args, "-b:a");
        push_arg(args, "192k");
    }
    proof {
        assert(texts(args@) =~= start + audio_encoding(audio));
    }
}

/// Arguments of a screen recording into `output` on platform `p`.
pub fn screen_recording_args(p: Platform, o: &RecordingOptions, output: &str) -> (r: Result<Vec<String>, ValidationError>)
    ensures
        match (args_result_view(r), screen_arguments(p, *o, output@)) {
            (Ok(a), Ok(b)) => a == b,
            (Err(e), Err(se)) => match se {
                ValidationError::InvalidResolution(n) => reports_invalid_resolution(e, n@),
                _ => e == se,
            },
            _ => false,
        },
{
    let (w, h, t) = match recording_format(o) {
        Ok(f) => f,
        Err(e) => return Err(e),
    };
    let audio = o.audio_device.is_some();
    let mut args: Vec<String> = Vec::new();
    match p {
        Platform::MacOs => {
            push_arg(&mut args, "-f");
            push_arg(&mut args, "avfoundation");
            push_arg(&mut args, "-framerate");
            push_arg(&mut args, "30");
            push_arg(&mut args, "-i");
            if audio {
                push_arg(&mut args, "1:0");
            } else {
                push_arg(&mut args, "1");
            }
        },
        Platform::Windows => {
            push_arg(&mut args, "-f");
            push_arg(&mut args, "gdigrab");
            push_arg(&mut args, "-framerate");
            push_arg(&mut args, "30");
            push_arg(&mut args, "-i");
            push_arg(&mut args, "desktop");
            match &o.audio_device {
                Some(d) => {
                    push_arg(&mut args, "-f");
                    push_arg(&mut args, "dshow");
                    push_arg(&mut args, "-i");
                    let mut input = text("audio=");
                    input.append(d.as_str());
                    push_owned(&mut args, input);
                },
                None => {},
            }
        },
        Platform::Other => {
            return Err(ValidationError::UnsupportedPlatform);
        },
    }
    let ghost input_part = texts(args@);
    proof {
        assert(input_part =~= screen_input(p, device_view(o.audio_device)));
    }
    push_arg(&mut args, "-vf");
    let mut scale = text("scale=");
    push_signed(&mut scale, w as i64);
    proof {
        reveal_strlit(":");
    }
    scale.append(":");
    push_signed(&mut scale, h as i64);
    proof {
        assert(scale@ =~= "scale="@ + signed_dec(w as int) + seq![':'] + signed_dec(h as int));
    }
    push_owned(&mut args, scale);
    push_arg(&mut args, "-pix_fmt");
    push_arg(&mut args, "yuv420p");
    push_arg(&mut args, "-c:v");
    push_arg(&mut args, "libx264");
    push_arg(&mut args, "-preset");
    push_arg(&mut args, "ultrafast");
    push_arg(&mut args, "-b:v");
    push_owned(&mut args, t.bitrate_text());
    push_audio_encoding(&mut args, audio);
    push_arg(&mut args, output);
    proof {
        assert(texts(args@) =~= screen_input(p, device_view(o.audio_device)) + screen_encoding(
            w as int,
            h as int,
            t,
            audio,
        ) + seq![output@]);
    }
    Ok(args)
}

/// Arguments of a camera recording into `output` on platform `p`.
pub fn camera_recording_args(p: Platform, o: &RecordingOptions, output: &str) -> (r: Result<Vec<String>, ValidationError>)
    ensures
        match (args_result_view(r), camera_arguments(p, *o, output@)) {
            (Ok(a), Ok(b)) => a == b,
            (Err(e), Err(se)) => match se {
                ValidationError::InvalidResolution(n) => reports_invalid_resolution(e, n@),
                _ => e == se,
            },
            _ => false,
        },
{
    let (w, h, t) = match recording_format(o) {
        Ok(f) => f,
        Err(e) => return Err(e),
    };
    let mut size = String::new();
    push_signed(&mut size, w as i64);
    proof {
        reveal_strlit("x");
    }
    size.append("x");
    push_signed(&mut size, h as i64);
    let mut args: Vec<String> = Vec::new();
    let audio = match p {
        Platform::MacOs => {
            push_arg(&mut args, "-f");
            push_arg(&mut args, "avfoundation");
            push_arg(&mut args, "-framerate");
            push_arg(&mut args, "30");
            push_arg(&mut args, "-video_size");
            push_owned(&mut args, size);
            push_arg(&mut args, "-i");
            push_arg(&mut args, "0:0");
            true
        },
        Platform::Windows => {
            push_arg(&mut args, "-f");
            push_arg(&mut args, "dshow");
            push_arg(&mut args, "-framerate");
            push_arg(&mut args, "30");
            push_arg(&mut args, "-video_size");
            push_owned(&mut args, size);
            push_arg(&mut args, "-i");
            match &o.audio_device {
                Some(d) => {
                    let mut input = text("video=Integrated Camera:audio=");
                    input.append(d.as_str());
                    push_owned(&mut args, input);
                },
                None => {
                    push_arg(&mut args, "video=Integrated Camera");
                },
            }
            o.audio_device.is_some()
        },
        Platform::Other => {
            return Err(ValidationError::UnsupportedPlatform);
        },
    };
    push_arg(&mut args, "-pix_fmt");
    push_arg(&mut args, "yuv420p");
    push_arg(&mut args, "-c:v");
    push_arg(&mut args, "libx264");
    push_arg(&mut args, "-preset");
    push_arg(&mut args, "ultrafast");
    push_arg(&mut args, "-b:v");
    push_owned(&mut args, t.bitrate_text());
    push_audio_encoding(&mut args, audio);
    push_arg(&mut args, output);
    proof {
        assert(size@ =~= signed_dec(w as int) + seq!['x'] + signed_dec(h as int));
        assert(texts(args@) =~= camera_arguments(p, *o, output@)->Ok_0);
    }
    Ok(args)
}

/// Arguments of the screen preview on platform `p`.
pub fn preview_args(p: Platform) -> (r: Result<Vec<String>, ValidationError>)
    ensures
        args_result_view(r) == preview_arguments(p),
{
    let mut args: Vec<String> = Vec::new();
    match p {
        Platform::MacOs => {
            push_arg(&mut args, "-f");
            push_arg(&mut args, "avfoundation");
            push_arg(&mut args, "-framerate");
            push_arg(&mut args, "15");
            push_arg(&mut args, "-video_size");
            push_arg(&mut args, "640x360");
            push_arg(&mut args, "-i");
            push_arg(&mut args, "1");
        },
        Platform::Windows => {
            push_arg(&mut args, "-f");
            push_arg(&mut args, "gdigrab");
            push_arg(&mut args, "-framerate");
            push_arg(&mut args, "15");
            push_arg(&mut args, "-video_size");
            push_arg(&mut args, "640x360");
            push_arg(&mut args, "-i");
            push_arg(&mut args, "desktop");
        },
        Platform::Other => {
            return Err(ValidationError::UnsupportedPlatform);
        },
    }
    push_arg(&mut args, "-f");
    push_arg(&mut args, "image2pipe");
    push_arg(&mut args, "-vcodec");
    push_arg(&mut args, "mjpeg");
    push_arg(&mut args, "-q:v");
    push_arg(&mut args, "10");
    push_arg(&mut args, "-");
    proof {
        assert(texts(args@) =~= preview_arguments(p)->Ok_0);
    }
    Ok(args)
}

} // verus!
