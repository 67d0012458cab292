//! Fixed answers the front end asks for: a greeting, the assumed screen
//! size, and the camera's capabilities.
use vstd::prelude::*;

use crate::text::{push_arg, text, texts};

verus! {

/// A screen size in pixels.
#[derive(Debug, Clone, Copy, PartialEq, Eq)]
pub struct ScreenResolution {
    pub width: i32,
    pub height: i32,
}

/// What a camera is assumed to offer.
#[derive(Debug, Clone)]
pub struct CameraCapabilities {
    pub native_width: i32,
    pub native_height: i32,
    pub supported_resolutions: Vec<String>,
}

/// Greets `name`.
pub fn greet(name: &str) -> (r: String)
    ensures
        r@ == "Hello, "@ + name@ + "! You've been greeted from Rust!"@,
{
    let mut out = text("Hello, ");
    out.append(name);
    out.append("! You've been greeted from Rust!");
    out
}

/// The screen size that recordings assume: 1920×1080.
pub fn screen_resolution() -> (r: ScreenResolution)
    ensures
        r == (ScreenResolution { width: 1920, height: 1080 }),
{
    ScreenResolution { width: 1920, height: 1080 }
}

/// The camera's assumed native size, 1920×1080, and the tiers a camera
/// recording accepts.
pub fn camera_capabilities() -> (r: CameraCapabilities)
    ensures
        r.native_width == 1920,
        r.native_height == 1080,
        texts(r.supported_resolutions@) == seq!["720p"@, "1080p"@, "source"@],
{
    let mut tiers: Vec<String> = Vec::new();
    push_arg(&mut tiers, "720p");
    push_arg(&mut tiers, "1080p");
    push_arg(&mut tiers, "source");
    proof {
        assert(texts(tiers@) =~= seq!["720p"@, "1080p"@, "source"@]);
    }
    CameraCapabilities { native_width: 1920, native_height: 1080, supported_resolutions: tiers }
}

} // verus!
