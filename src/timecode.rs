//! Timestamps in the engine's `HH:MM:SS.mmm` notation, over whole milliseconds.
use vstd::prelude::*;

use crate::text::{
    digits_value, lemma_zero_padded_len, lemma_zero_padded_value, pow10, push_padded,
    zero_padded,
};

verus! {

pub open spec fn hours_of(ms: nat) -> nat {
    ms / 3_600_000
}

pub open spec fn minutes_of(ms: nat) -> nat {
    (ms % 3_600_000) / 60_000
}

pub open spec fn seconds_of(ms: nat) -> nat {
    (ms % 60_000) / 1000
}

pub open spec fn millis_of(ms: nat) -> nat {
    ms % 1000
}

/// `HH:MM:SS.mmm` for a time given in milliseconds; hours take more than two
/// digits when needed.
pub open spec fn timestamp_text(ms: nat) -> Seq<char> {
    zero_padded(hours_of(ms), 2) + seq![':'] + zero_padded(minutes_of(ms), 2) + seq![':']
        + zero_padded(seconds_of(ms), 2) + seq!['.'] + zero_padded(millis_of(ms), 3)
}

/// Reads a `H..H:MM:SS.mmm` text back as milliseconds: the hours are every
/// character before the last ten, the other fields stand at fixed places from
/// the end.
pub open spec fn timestamp_value(t: Seq<char>) -> nat {
    let n = t.len() as int;
    digits_value(t.subrange(0, n - 10)) * 3_600_000 + digits_value(t.subrange(n - 9, n - 7))
        * 60_000 + digits_value(t.subrange(n - 6, n - 4)) * 1000 + digits_value(
        t.subrange(n - 3, n),
    )
}

/// A time written as a timestamp reads back as the same number of
/// milliseconds.
pub proof fn lemma_timestamp_round_trip(ms: nat)
    ensures
        timestamp_value(timestamp_text(ms)) == ms,
{
    let h = zero_padded(hours_of(ms), 2);
    let m = zero_padded(minutes_of(ms), 2);
    let s = zero_padded(seconds_of(ms), 2);
    let f = zero_padded(millis_of(ms), 3);
    assert(pow10(2) == 100) by {
        reveal_with_fuel(pow10, 3);
    }
    assert(pow10(3) == 1000) by {
        reveal_with_fuel(pow10, 4);
    }
    lemma_zero_padded_len(minutes_of(ms), 2, 100);
    lemma_zero_padded_len(seconds_of(ms), 2, 100);
    lemma_zero_padded_len(millis_of(ms), 3, 1000);
    let t = timestamp_text(ms);
    let n = t.len() as int;
    assert(n == h.len() + 10);
    assert(t.subrange(0, n - 10) =~= h);
    assert(t.subrange(n - 9, n - 7) =~= m);
    assert(t.subrange(n - 6, n - 4) =~= s);
    assert(t.subrange(n - 3, n) =~= f);
    lemma_zero_padded_value(hours_of(ms), 2);
    lemma_zero_padded_value(minutes_of(ms), 2);
    lemma_zero_padded_value(seconds_of(ms), 2);
    lemma_zero_padded_value(millis_of(ms), 3);
    assert(ms == hours_of(ms) * 3_600_000 + minutes_of(ms) * 60_000 + seconds_of(ms) * 1000
        + millis_of(ms)) by (nonlinear_arith);
}

/// Writes a time in milliseconds as `HH:MM:SS.mmm`.
pub fn format_timestamp(ms: u64) -> (r: String)
    ensures
        r@ == timestamp_text(ms as nat),
{
    let mut out = String::new();
    push_padded(&mut out, ms / 3_600_000, 2);
    proof {
        reveal_strlit(":");
        reveal_strlit(".");
    }
    out.append(":");
    push_padded(&mut out, (ms % 3_600_000) / 60_000, 2);
    out.append(":");
    push_padded(&mut out, (ms % 60_000) / 1000, 2);
    out.append(".");
    push_padded(&mut out, ms % 1000, 3);
    proof {
        assert(out@ =~= timestamp_text(ms as nat));
    }
    out
}

} // verus!
