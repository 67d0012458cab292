//! The resolution tiers and their table of sizes and bitrates.
use vstd::prelude::*;

use crate::error::{reports_invalid_resolution, ValidationError};
use crate::text::{dec, push_decimal, text};

verus! {

/// An output resolution tier.
#[derive(Debug, Clone, Copy, PartialEq, Eq)]
pub enum ResolutionTier {
    /// 1280×720.
    Hd720,
    /// 1920×1080.
    Hd1080,
    /// The size of the source or of the canvas.
    Source,
}

/// The tier that a name denotes: `720p`, `1080p` or `source`.
pub open spec fn tier_named(name: Seq<char>) -> Option<ResolutionTier> {
    if name == "720p"@ {
        Some(ResolutionTier::Hd720)
    } else if name == "1080p"@ {
        Some(ResolutionTier::Hd1080)
    } else if name == "source"@ {
        Some(ResolutionTier::Source)
    } else {
        None
    }
}

/// The tier that an optional name selects: no name means `source`.
pub open spec fn tier_selected(name: Option<Seq<char>>) -> Option<ResolutionTier> {
    match name {
        None => Some(ResolutionTier::Source),
        Some(n) => tier_named(n),
    }
}

/// The view of an optional borrowed name.
pub open spec fn name_view(name: Option<&str>) -> Option<Seq<char>> {
    match name {
        None => None,
        Some(n) => Some(n@),
    }
}

/// Width and height of a tier with a fixed size.
pub open spec fn fixed_size(t: ResolutionTier) -> Option<(u32, u32)> {
    match t {
        ResolutionTier::Hd720 => Some((1280u32, 720u32)),
        ResolutionTier::Hd1080 => Some((1920u32, 1080u32)),
        ResolutionTier::Source => None,
    }
}

/// Video bitrate of a tier, in kilobits per second.
pub open spec fn bitrate_kbps(t: ResolutionTier) -> u32 {
    match t {
        ResolutionTier::Hd720 => 2500,
        ResolutionTier::Hd1080 => 5000,
        ResolutionTier::Source => 8000,
    }
}

/// The engine's notation of a tier's bitrate (`2500k`).
pub open spec fn bitrate_text(t: ResolutionTier) -> Seq<char> {
    dec(bitrate_kbps(t) as nat).push('k')
}

/// A trim re-encodes exactly when the tier fixes a size; otherwise it copies
/// the streams.
pub open spec fn trim_reencodes(t: ResolutionTier) -> bool {
    fixed_size(t) is Some
}

/// Tier lookup is a function of the name alone: equal names select the same
/// tier, and so the same row. `720p` is 1280×720 at 2500k and `1080p` is
/// 1920×1080 at 5000k, both re-encoded on a trim; `source` has no fixed size
/// and a nominal 8000k, and a trim copies its streams.
pub proof fn lemma_tier_table(a: Seq<char>, b: Seq<char>)
    requires
        a == b,
    ensures
        tier_named(a) == tier_named(b),
        tier_named("720p"@) == Some(ResolutionTier::Hd720),
        tier_named("1080p"@) == Some(ResolutionTier::Hd1080),
        tier_named("source"@) == Some(ResolutionTier::Source),
        fixed_size(ResolutionTier::Hd720) == Some((1280u32, 720u32)),
        bitrate_kbps(ResolutionTier::Hd720) == 2500,
        trim_reencodes(ResolutionTier::Hd720),
        fixed_size(ResolutionTier::Hd1080) == Some((1920u32, 1080u32)),
        bitrate_kbps(ResolutionTier::Hd1080) == 5000,
        trim_reencodes(ResolutionTier::Hd1080),
        fixed_size(ResolutionTier::Source) is None,
        bitrate_kbps(ResolutionTier::Source) == 8000,
        !trim_reencodes(ResolutionTier::Source),
{
    reveal_strlit("720p");
    reveal_strlit("1080p");
    reveal_strlit("source");
    assert("1080p"@ != "720p"@) by {
        assert("1080p"@.len() != "720p"@.len());
    }
    assert("source"@ != "720p"@) by {
        assert("source"@.len() != "720p"@.len());
    }
    assert("source"@ != "1080p"@) by {
        assert("source"@[0] != "1080p"@[0]);
    }
}

/// Reads a tier name; no name selects `source`.
pub fn parse_tier(name: Option<&str>) -> (r: Result<ResolutionTier, ValidationError>)
    ensures
        match tier_selected(name_view(name)) {
            Some(t) => r == Ok::<ResolutionTier, ValidationError>(t),
            None => r is Err && reports_invalid_resolution(r->Err_0, name->Some_0@),
        },
{
    match name {
        None => Ok(ResolutionTier::Source),
        Some(n) => {
            let given = text(n);
            if given == text("720p") {
                Ok(ResolutionTier::Hd720)
            } else if given == text("1080p") {
                Ok(ResolutionTier::Hd1080)
            } else if given == text("source") {
                Ok(ResolutionTier::Source)
            } else {
                Err(ValidationError::InvalidResolution(given))
            }
        },
    }
}

impl ResolutionTier {
    /// Width and height, for a tier with a fixed size.
    pub fn fixed_size(&self) -> (r: Option<(u32, u32)>)
        ensures
            r == fixed_size(*self),
    {
        match self {
            ResolutionTier::Hd720 => Some((1280, 720)),
            ResolutionTier::Hd1080 => Some((1920, 1080)),
            ResolutionTier::Source => None,
        }
    }

    /// Video bitrate in kilobits per second.
    pub fn bitrate_kbps(&self) -> (r: u32)
        ensures
            r == bitrate_kbps(*self),
    {
        match self {
            ResolutionTier::Hd720 => 2500,
            ResolutionTier::Hd1080 => 5000,
            ResolutionTier::Source => 8000,
        }
    }

    /// The bitrate as the engine writes it (`2500k`).
    pub fn bitrate_text(&self) -> (r: String)
        ensures
            r@ == bitrate_text(*self),
    {
        let mut out = String::new();
        push_decimal(&mut out, self.bitrate_kbps() as u64);
        proof {
            reveal_strlit("k");
        }
        out.append("k");
        proof {
            assert(out@ =~= bitrate_text(*self));
        }
        out
    }
}

} // verus!
