//! Arguments of a trim: one range of one input, re-encoded at a fixed size or
//! copied.
use vstd::prelude::*;

use crate::error::{reports_invalid_resolution, ValidationError};
use crate::text::{dec, push_arg, push_decimal, push_owned, push_thousandths, texts, thousandths_text};
use crate::tier::{
    bitrate_text, fixed_size, name_view, parse_tier, tier_selected, ResolutionTier,
};
use crate::timecode::{format_timestamp, lemma_timestamp_round_trip, timestamp_text, timestamp_value};

verus! {

/// The engine's scale filter to a fixed size (`scale=1280:720`).
pub open spec fn scale_text(w: nat, h: nat) -> Seq<char> {
    "scale="@ + dec(w) + seq![':'] + dec(h)
}

/// The encoding arguments of a trim at tier `t`.
pub open spec fn trim_encoding(t: ResolutionTier) -> Seq<Seq<char>> {
    match fixed_size(t) {
        Some((w, h)) => seq![
            "-vf"@,
            scale_text(w as nat, h as nat),
            "-c:v"@,
            "libx264"@,
            "-preset"@,
            "fast"@,
            "-b:v"@,
            bitrate_text(t),
        ],
        None => seq!["-c"@, "copy"@],
    }
}

/// The full argument list of a trim of `[start, end)` milliseconds of
/// `input` into `output`.
pub open spec fn trim_arguments(
    input: Seq<char>,
    output: Seq<char>,
    start: nat,
    end: nat,
    t: ResolutionTier,
) -> Seq<Seq<char>> {
    seq![
        "-y"@,
        "-ss"@,
        timestamp_text(start),
        "-i"@,
        input,
        "-t"@,
        thousandths_text((end - start) as nat),
    ] + trim_encoding(t) + seq!["-avoid_negative_ts"@, "make_zero"@, output]
}

/// Builds the scale filter to a fixed size.
pub fn scale_filter(w: u32, h: u32) -> (r: String)
    ensures
        r@ == scale_text(w as nat, h as nat),
{
    let mut out = String::from_str("scale=");
    push_decimal(&mut out, w as u64);
    proof {
        reveal_strlit(":");
    }
    out.append(":");
    push_decimal(&mut out, h as u64);
    proof {
        assert(out@ =~= scale_text(w as nat, h as nat));
    }
    out
}

/// Arguments that cut `[start_ms, end_ms)` out of `input` into `output`.
/// The tier `720p` or `1080p` scales and re-encodes; `source`, or no tier,
/// copies the streams. The tier name is checked first, then the range.
pub fn trim_args(
    input: &str,
    output: &str,
    start_ms: u64,
    end_ms: u64,
    tier: Option<&str>,
) -> (r: Result<Vec<String>, ValidationError>)
    ensures
        match tier_selected(name_view(tier)) {
            None => r is Err && reports_invalid_resolution(r->Err_0, tier->Some_0@),
            Some(t) => if end_ms <= start_ms {
                r == Err::<Vec<String>, ValidationError>(ValidationError::InvalidTimeRange)
            } else {
                r is Ok && texts(r->Ok_0@) == trim_arguments(
                    input@,
                    output@,
                    start_ms as nat,
                    end_ms as nat,
                    t,
                )
            },
        },
{
    let t = match parse_tier(tier) {
        Ok(t) => t,
        Err(e) => return Err(e),
    };
    if end_ms <= start_ms {
        return Err(ValidationError::InvalidTimeRange);
    }
    let mut args: Vec<String> = Vec::new();
    push_arg(&mut args, "-y");
    push_arg(&mut args, "-ss");
    push_owned(&mut args, format_timestamp(start_ms));
    push_arg(&mut args, "-i");
    push_arg(&mut args, input);
    push_arg(&mut args, "-t");
    let mut duration = String::new();
    push_thousandths(&mut duration, end_ms - start_ms);
    push_owned(&mut args, duration);
    match t.fixed_size() {
        Some((w, h)) => {
            push_arg(&mut args, "-vf");
            push_owned(&mut args, scale_filter(w, h));
            push_arg(&mut args, "-c:v");
            push_arg(&mut args, "libx264");
            push_arg(&mut args, "-preset");
            push_arg(&mut args, "fast");
            push_arg(&mut args, "-b:v");
            push_owned(&mut args, t.bitrate_text());
        },
        None => {
            push_arg(&mut args, "-c");
            push_arg(&mut args, "copy");
        },
    }
    push_arg(&mut args, "-avoid_negative_ts");
    push_arg(&mut args, "make_zero");
    push_arg(&mut args, output);
    proof {
        assert(texts(args@) =~= trim_arguments(
            input@,
            output@,
            start_ms as nat,
            end_ms as nat,
            t,
        ));
    }
    Ok(args)
}

/// The scaling, bitrate and re-encode-or-copy arguments of a trim depend on
/// its tier alone: two trims at one tier carry the same encoding arguments,
/// whatever their inputs, outputs and ranges.
pub proof fn lemma_trim_encoding_by_tier(
    in1: Seq<char>,
    out1: Seq<char>,
    s1: nat,
    e1: nat,
    in2: Seq<char>,
    out2: Seq<char>,
    s2: nat,
    e2: nat,
    t: ResolutionTier,
)
    ensures
        ({
            let a = trim_arguments(in1, out1, s1, e1, t);
            let b = trim_arguments(in2, out2, s2, e2, t);
            &&& a.subrange(7, a.len() - 3) == trim_encoding(t)
            &&& b.subrange(7, b.len() - 3) == trim_encoding(t)
        }),
{
    let a = trim_arguments(in1, out1, s1, e1, t);
    let b = trim_arguments(in2, out2, s2, e2, t);
    assert(a.subrange(7, a.len() - 3) =~= trim_encoding(t));
    assert(b.subrange(7, b.len() - 3) =~= trim_encoding(t));
}

/// The start of a trim, written as a timestamp, reads back as the start in
/// milliseconds.
pub proof fn lemma_trim_start_reads_back(
    input: Seq<char>,
    output: Seq<char>,
    start: nat,
    end: nat,
    t: ResolutionTier,
)
    ensures
        timestamp_value(trim_arguments(input, output, start, end, t)[2]) == start,
{
    lemma_timestamp_round_trip(start);
}

} // verus!
