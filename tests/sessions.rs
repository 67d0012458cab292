use clipforge::capture::{camera_recording_args, preview_args, screen_recording_args, Platform, RecordingOptions};
use clipforge::error::{SupervisorError, ValidationError};
use clipforge::supervisor::{SessionSlot, StopAction, StopFailure, StopPhase, StopProtocol, QUIT_BYTE};

fn options(resolution: &str, audio: Option<&str>) -> RecordingOptions {
    RecordingOptions {
        resolution: resolution.to_string(),
        source_width: None,
        source_height: None,
        audio_device: audio.map(|a| a.to_string()),
    }
}

#[test]
fn second_start_is_refused_and_first_process_kept() {
    let mut screen: SessionSlot<u32> = SessionSlot::new();
    assert_eq!(screen.start(1), Ok(()));
    assert_eq!(screen.ensure_idle(), Err(SupervisorError::AlreadyRunning));
    assert_eq!(screen.start(2), Err(SupervisorError::AlreadyRunning));
    assert!(screen.is_running());
    assert_eq!(screen.take(), Ok(1));
    assert!(!screen.is_running());
}

#[test]
fn stop_of_idle_kind_reports_no_process() {
    let mut camera: SessionSlot<u32> = SessionSlot::new();
    assert_eq!(camera.take(), Err(SupervisorError::NoProcess));
    assert!(!camera.is_running());
    assert_eq!(camera.ensure_idle(), Ok(()));
}

#[test]
fn kinds_are_independent() {
    let mut screen: SessionSlot<&str> = SessionSlot::new();
    let mut camera: SessionSlot<&str> = SessionSlot::new();
    assert_eq!(screen.start("s"), Ok(()));
    assert!(!camera.is_running());
    assert_eq!(camera.start("c"), Ok(()));
    assert_eq!(screen.take(), Ok("s"));
    assert!(camera.is_running());
}

#[test]
fn graceful_stop_writes_quit_then_waits() {
    assert_eq!(QUIT_BYTE, b'q');
    let (mut stop, first) = StopProtocol::begin(true);
    assert_eq!(first, StopAction::WriteQuit);
    assert_eq!(stop.next(true), StopAction::Wait);
    assert_eq!(stop.next(true), StopAction::Finish(Ok(())));
    assert_eq!(stop.phase, StopPhase::Done);
}

#[test]
fn failed_quit_falls_back_to_kill() {
    let (mut stop, first) = StopProtocol::begin(true);
    assert_eq!(first, StopAction::WriteQuit);
    assert_eq!(stop.next(false), StopAction::Kill);
    assert_eq!(stop.next(true), StopAction::Wait);
    assert_eq!(stop.next(false), StopAction::Finish(Err(StopFailure::WaitFailed)));
}

#[test]
fn stop_without_input_kills() {
    let (mut stop, first) = StopProtocol::begin(false);
    assert_eq!(first, StopAction::Kill);
    assert_eq!(stop.next(false), StopAction::Finish(Err(StopFailure::KillFailed)));
}

#[test]
fn slot_is_idle_after_any_stop() {
    let mut slot: SessionSlot<u8> = SessionSlot::new();
    slot.start(7).unwrap();
    let handle = slot.take().unwrap();
    assert_eq!(handle, 7);
    let (mut stop, _) = StopProtocol::begin(false);
    let _ = stop.next(false);
    assert!(!slot.is_running());
}

#[test]
fn screen_recording_on_macos() {
    let args = screen_recording_args(Platform::MacOs, &options("1080p", Some("mic")), "rec.mp4").unwrap();
    let expected: Vec<String> = [
        "-f", "avfoundation", "-framerate", "30", "-i", "1:0", "-vf", "scale=1920:1080",
        "-pix_fmt", "yuv420p", "-c:v", "libx264", "-preset", "ultrafast", "-b:v", "5000k",
        "-c:a", "aac", "-b:a", "192k", "rec.mp4",
    ]
    .iter()
    .map(|s| s.to_string())
    .collect();
    assert_eq!(args, expected);
}

#[test]
fn screen_recording_on_windows_with_audio() {
    let args = screen_recording_args(Platform::Windows, &options("720p", Some("Mic (USB)")), "r.mp4").unwrap();
    assert_eq!(&args[..10], &["-f", "gdigrab", "-framerate", "30", "-i", "desktop", "-f", "dshow", "-i", "audio=Mic (USB)"]);
    assert_eq!(args[11], "scale=1280:720");
}

#[test]
fn recording_at_source_needs_its_size() {
    assert_eq!(
        screen_recording_args(Platform::MacOs, &options("source", None), "r.mp4"),
        Err(ValidationError::SourceResolutionUnavailable)
    );
    let mut o = options("source", None);
    o.source_width = Some(2560);
    o.source_height = Some(1440);
    let args = screen_recording_args(Platform::MacOs, &o, "r.mp4").unwrap();
    assert_eq!(args[5], "1");
    assert_eq!(args[7], "scale=2560:1440");
    assert_eq!(args[15], "8000k");
    assert_eq!(args.len(), 17);
}

#[test]
fn recording_rejections() {
    assert_eq!(
        camera_recording_args(Platform::MacOs, &options("hd", None), "c.mp4"),
        Err(ValidationError::InvalidResolution("hd".to_string()))
    );
    assert_eq!(
        screen_recording_args(Platform::Other, &options("720p", None), "r.mp4"),
        Err(ValidationError::UnsupportedPlatform)
    );
    assert_eq!(preview_args(Platform::Other), Err(ValidationError::UnsupportedPlatform));
}

#[test]
fn camera_recording_on_windows() {
    let args = camera_recording_args(Platform::Windows, &options("720p", None), "c.mp4").unwrap();
    let expected: Vec<String> = [
        "-f", "dshow", "-framerate", "30", "-video_size", "1280x720", "-i",
        "video=Integrated Camera", "-pix_fmt", "yuv420p", "-c:v", "libx264", "-preset",
        "ultrafast", "-b:v", "2500k", "c.mp4",
    ]
    .iter()
    .map(|s| s.to_string())
    .collect();
    assert_eq!(args, expected);
    let with_audio = camera_recording_args(Platform::Windows, &options("720p", Some("Mic")), "c.mp4").unwrap();
    assert_eq!(with_audio[7], "video=Integrated Camera:audio=Mic");
    assert_eq!(with_audio.len(), 21);
}

#[test]
fn camera_recording_on_macos_records_audio() {
    let args = camera_recording_args(Platform::MacOs, &options("1080p", None), "c.mp4").unwrap();
    assert_eq!(args[5], "1920x1080");
    assert_eq!(args[7], "0:0");
    assert_eq!(&args[16..], &["-c:a", "aac", "-b:a", "192k", "c.mp4"]);
}

#[test]
fn preview_streams_mjpeg_to_stdout() {
    let args = preview_args(Platform::Windows).unwrap();
    assert_eq!(
        args,
        vec![
            "-f", "gdigrab", "-framerate", "15", "-video_size", "640x360", "-i", "desktop", "-f",
            "image2pipe", "-vcodec", "mjpeg", "-q:v", "10", "-",
        ]
    );
}
