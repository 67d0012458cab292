use clipforge::capture::Platform;
use clipforge::devices::{
    avf_device_name, device_listing_args, dshow_device_name, parse_avfoundation_listing,
    parse_dshow_listing,
};
use clipforge::error::ValidationError;
use clipforge::info::{camera_capabilities, greet, screen_resolution};

fn lines(text: &str) -> Vec<String> {
    text.lines().map(String::from).collect()
}

#[test]
fn dshow_listing_sorts_devices_by_section() {
    let listing = lines(
        "[dshow @ 000001] DirectShow video devices (some may be both video and audio devices)\n\
         [dshow @ 000001]  \"Integrated Camera\"\n\
         [dshow @ 000001]     Alternative name \"@device_pnp_\\\\?\\usb\"\n\
         [dshow @ 000001] DirectShow audio devices\n\
         [dshow @ 000001]  \"Microphone (Realtek)\"\n\
         dummy: Immediate exit requested",
    );
    let d = parse_dshow_listing(&listing);
    assert_eq!(d.video_devices, vec!["Integrated Camera", "@device_pnp_\\\\?\\usb"]);
    assert_eq!(d.audio_devices, vec!["Microphone (Realtek)"]);
}

#[test]
fn dshow_lines_before_a_section_are_ignored() {
    let d = parse_dshow_listing(&lines("[dshow @ 1] \"Orphan\""));
    assert!(d.video_devices.is_empty() && d.audio_devices.is_empty());
    assert_eq!(dshow_device_name("[dshow @ 1] \"Cam\" extra"), Some("Cam".to_string()));
    assert_eq!(dshow_device_name("[dshow @ 1] \"unterminated"), None);
    assert_eq!(dshow_device_name("other \"Cam\""), None);
}

#[test]
fn avfoundation_listing_names_devices() {
    let listing = lines(
        "[AVFoundation indev @ 0x7f8] AVFoundation video devices:\n\
         [AVFoundation indev @ 0x7f8] [0] FaceTime HD Camera\n\
         [AVFoundation indev @ 0x7f8] [1] Capture screen 0  \n\
         [AVFoundation indev @ 0x7f8] AVFoundation audio devices:\n\
         [AVFoundation indev @ 0x7f8] [0] MacBook Pro Microphone\n\
         : Input/output error",
    );
    let d = parse_avfoundation_listing(&listing);
    assert_eq!(
        d.video_devices,
        vec!["FaceTime HD Camera", "Capture screen 0", "MacBook Pro Microphone"]
    );
    assert!(d.audio_devices.is_empty());
}

#[test]
fn avfoundation_audio_device_lines() {
    let d = parse_avfoundation_listing(&lines(
        "[AVFoundation indev @ 0x1] audio device [0] Studio Mic\n[AVFoundation indev @ 0x1] [2]   ",
    ));
    assert!(d.video_devices.is_empty());
    assert_eq!(d.audio_devices, vec!["Studio Mic"]);
    assert_eq!(avf_device_name("[AVFoundation] no second part"), None);
}

#[test]
fn device_listing_arguments() {
    assert_eq!(
        device_listing_args(Platform::Windows).unwrap(),
        vec!["-list_devices", "true", "-f", "dshow", "-i", "dummy"]
    );
    assert_eq!(
        device_listing_args(Platform::MacOs).unwrap(),
        vec!["-f", "avfoundation", "-list_devices", "true", "-i", ""]
    );
    assert!(matches!(device_listing_args(Platform::Other), Err(ValidationError::UnsupportedPlatform)));
}

#[test]
fn fixed_answers() {
    assert_eq!(greet("Ada"), "Hello, Ada! You've been greeted from Rust!");
    let r = screen_resolution();
    assert_eq!((r.width, r.height), (1920, 1080));
    let c = camera_capabilities();
    assert_eq!((c.native_width, c.native_height), (1920, 1080));
    assert_eq!(c.supported_resolutions, vec!["720p", "1080p", "source"]);
}
