//! Capture devices, read from the engine's device listing (DirectShow on
//! Windows, AVFoundation on macOS).
use vstd::prelude::*;

use crate::capture::Platform;
use crate::error::ValidationError;
use crate::text::{push_owned, texts};

verus! {

/// The video and audio devices that a listing names, in listing order.
#[derive(Debug, Clone)]
pub struct AudioVideoDevices {
    pub video_devices: Vec<String>,
    pub audio_devices: Vec<String>,
}

/// `t` stands in `s` at `i`.
pub open spec fn matches_at(s: Seq<char>, t: Seq<char>, i: int) -> bool {
    0 <= i && i + t.len() <= s.len() && s.subrange(i, i + t.len()) == t
}

/// `t` stands somewhere in `s`.
pub open spec fn has_text(s: Seq<char>, t: Seq<char>) -> bool {
    exists|i: int| matches_at(s, t, i)
}

/// The first place at or after `from` where `c` stands.
pub open spec fn first_char(s: Seq<char>, c: char, from: int) -> Option<int>
    decreases s.len() - from,
{
    if from < 0 || from >= s.len() {
        None
    } else if s[from] == c {
        Some(from)
    } else {
        first_char(s, c, from + 1)
    }
}

/// The characters that Unicode calls white space.
pub open spec fn is_space(c: char) -> bool {
    ('\u{9}' <= c && c <= '\u{d}') || c == ' ' || c == '\u{85}' || c == '\u{a0}' || c == '\u{1680}'
        || ('\u{2000}' <= c && c <= '\u{200a}') || c == '\u{2028}' || c == '\u{2029}' || c
        == '\u{202f}' || c == '\u{205f}' || c == '\u{3000}'
}

/// The text without white space at either end.
pub open spec fn trimmed(s: Seq<char>) -> Seq<char>
    decreases s.len(),
{
    if s.len() == 0 {
        s
    } else if is_space(s[0]) {
        trimmed(s.skip(1))
    } else if is_space(s.last()) {
        trimmed(s.drop_last())
    } else {
        s
    }
}

/// The device named on a DirectShow listing line: the text between the
/// first two double quotes of a line that starts with `[dshow`.
pub open spec fn dshow_name(line: Seq<char>) -> Option<Seq<char>> {
    if matches_at(line, "[dshow"@, 0) {
        match first_char(line, '"', 0) {
            Some(a) => match first_char(line, '"', a + 1) {
                Some(b) => Some(line.subrange(a + 1, b)),
                None => None,
            },
            None => None,
        }
    } else {
        None
    }
}

/// Video devices, audio devices, and which section the listing is in.
pub type DshowState = (Seq<Seq<char>>, Seq<Seq<char>>, bool, bool);

/// The state after one DirectShow listing line: a section heading switches
/// the section, a device line adds to the current one.
pub open spec fn dshow_after(st: DshowState, line: Seq<char>) -> DshowState {
    if has_text(line, "DirectShow video devices"@) {
        (st.0, st.1, true, false)
    } else if has_text(line, "DirectShow audio devices"@) {
        (st.0, st.1, false, true)
    } else {
        match dshow_name(line) {
            Some(n) => if st.2 {
                (st.0.push(n), st.1, st.2, st.3)
            } else if st.3 {
                (st.0, st.1.push(n), st.2, st.3)
            } else {
                st
            },
            None => st,
        }
    }
}

/// The state after a DirectShow listing.
pub open spec fn dshow_parse(lines: Seq<Seq<char>>) -> DshowState
    decreases lines.len(),
{
    if lines.len() == 0 {
        (Seq::empty(), Seq::empty(), false, false)
    } else {
        dshow_after(dshow_parse(lines.drop_last()), lines.last())
    }
}

/// The device named on an AVFoundation listing line
/// (`[AVFoundation indev @ 0x1] [0] FaceTime HD Camera`): the trimmed text
/// after the second bracketed part, when it is not empty.
pub open spec fn avf_name(line: Seq<char>) -> Option<Seq<char>> {
    if has_text(line, "[AVFoundation"@) {
        match first_char(line, ']', 0) {
            Some(c1) => match first_char(line, '[', c1 + 1) {
                Some(o2) => match first_char(line, ']', o2) {
                    Some(c2) => if c2 + 1 < line.len() && trimmed(line.subrange(c2 + 1, line.len() as int)).len() > 0 {
                        Some(trimmed(line.subrange(c2 + 1, line.len() as int)))
                    } else {
                        None
                    },
                    None => None,
                },
                None => None,
            },
            None => None,
        }
    } else {
        None
    }
}

/// An AVFoundation device line names a video device unless it says
/// `audio device` and not `video device`.
pub open spec fn avf_is_video(line: Seq<char>) -> bool {
    has_text(line, "video device"@) || !has_text(line, "audio device"@)
}

/// Video and audio devices of an AVFoundation listing.
pub open spec fn avf_parse(lines: Seq<Seq<char>>) -> (Seq<Seq<char>>, Seq<Seq<char>>)
    decreases lines.len(),
{
    if lines.len() == 0 {
        (Seq::empty(), Seq::empty())
    } else {
        let st = avf_parse(lines.drop_last());
        let line = lines.last();
        match avf_name(line) {
            Some(n) => if avf_is_video(line) {
                (st.0.push(n), st.1)
            } else {
                (st.0, st.1.push(n))
            },
            None => st,
        }
    }
}

/// Whether `t` stands in `s` at `i`.
fn text_at(s: &str, n: usize, t: &str, m: usize, i: usize) -> (r: bool)
    requires
        n == s@.len(),
        m == t@.len(),
    ensures
        r == matches_at(s@, t@, i as int),
{
    if i > n || m > n - i {
        return false;
    }
    let mut j: usize = 0;
    while j < m
        invariant
            j <= m,
            i + m <= n,
            n == s@.len(),
            m == t@.len(),
            forall|k: int| 0 <= k < j ==> s@[i + k] == t@[k],
        decreases m - j,
    {
        if s.get_char(i + j) != t.get_char(j) {
            proof {
                assert(s@.subrange(i as int, i + m)[j as int] != t@[j as int]);
            }
            return false;
        }
        j = j + 1;
    }
    proof {
        assert(s@.subrange(i as int, i + m) =~= t@);
    }
    true
}

/// Whether `t` stands anywhere in `s`.
fn contains_text(s: &str, t: &str) -> (r: bool)
    ensures
        r == has_text(s@, t@),
{
    let n = s.unicode_len();
    let m = t.unicode_len();
    if m > n {
        proof {
            assert forall|i: int| !matches_at(s@, t@, i) by {}
        }
        return false;
    }
    let last = n - m;
    let mut i: usize = 0;
    while i < last
        invariant
            m <= n,
            last == n - m,
            i <= last,
            n == s@.len(),
            m == t@.len(),
            forall|k: int| 0 <= k < i ==> !matches_at(s@, t@, k),
        decreases last - i,
    {
        if text_at(s, n, t, m, i) {
            return true;
        }
        i = i + 1;
    }
    if text_at(s, n, t, m, i) {
        return true;
    }
    proof {
        assert forall|k: int| !matches_at(s@, t@, k) by {
            if 0 <= k <= i {
            }
        }
    }
    false
}

/// The first place at or after `from` where `c` stands in `s`.
fn find_char(s: &str, n: usize, c: char, from: usize) -> (r: Option<usize>)
    requires
        n == s@.len(),
    ensures
        r is None ==> first_char(s@, c, from as int) is None,
        r is Some ==> first_char(s@, c, from as int) == Some(r->Some_0 as int),
{
    let mut i = from;
    while i < n
        invariant
            from <= i,
            n == s@.len(),
            first_char(s@, c, from as int) == first_char(s@, c, i as int),
        decreases n - i,
    {
        if s.get_char(i) == c {
            return Some(i);
        }
        i = i + 1;
    }
    None
}

pub proof fn lemma_first_char_found(s: Seq<char>, c: char, from: int)
    requires
        first_char(s, c, from) is Some,
    ensures
        from <= first_char(s, c, from)->Some_0 < s.len(),
    decreases s.len() - from,
{
    if !(from < 0 || from >= s.len()) && s[from] != c {
        lemma_first_char_found(s, c, from + 1);
    }
}

fn space(c: char) -> (r: bool)
    ensures
        r == is_space(c),
{
    ('\u{9}' <= c && c <= '\u{d}') || c == ' ' || c == '\u{85}' || c == '\u{a0}' || c == '\u{1680}'
        || ('\u{2000}' <= c && c <= '\u{200a}') || c == '\u{2028}' || c == '\u{2029}' || c
        == '\u{202f}' || c == '\u{205f}' || c == '\u{3000}'
}

/// The part of `s` in `[from, to)`, without white space at either end.
fn trim_range(s: &str, from: usize, to: usize) -> (r: String)
    requires
        from <= to <= s@.len(),
    ensures
        r@ == trimmed(s@.subrange(from as int, to as int)),
{
    let mut a = from;
    let mut b = to;
    while a < b && space(s.get_char(a))
        invariant
            from <= a <= b,
            b == to,
            to <= s@.len(),
            trimmed(s@.subrange(from as int, to as int)) == trimmed(s@.subrange(a as int, b as int)),
        decreases b - a,
    {
        proof {
            assert(s@.subrange(a as int, b as int).skip(1) =~= s@.subrange(a + 1, b as int));
        }
        a = a + 1;
    }
    while a < b && space(s.get_char(b - 1))
        invariant
            from <= a <= b,
            b <= to,
            to <= s@.len(),
            a < b ==> !is_space(s@[a as int]),
            trimmed(s@.subrange(from as int, to as int)) == trimmed(s@.subrange(a as int, b as int)),
        decreases b - a,
    {
        proof {
            let t = s@.subrange(a as int, b as int);
            assert(t[0] == s@[a as int]);
            assert(t.drop_last() =~= s@.subrange(a as int, b - 1));
        }
        b = b - 1;
    }
    proof {
        let t = s@.subrange(a as int, b as int);
        if a < b {
            assert(t[0] == s@[a as int]);
            assert(t.last() == s@[b - 1]);
        }
    }
    String::from_str(s.substring_char(a, b))
}

/// The device named on a DirectShow listing line, if any.
pub fn dshow_device_name(line: &str) -> (r: Option<String>)
    ensures
        match r {
            Some(n) => dshow_name(line@) == Some(n@),
            None => dshow_name(line@) is None,
        },
{
    let n = line.unicode_len();
    if !text_at(line, n, "[dshow", "[dshow".unicode_len(), 0) {
        return None;
    }
    match find_char(line, n, '"', 0) {
        Some(a) => {
            proof {
                lemma_first_char_found(line@, '"', 0);
            }
            match find_char(line, n, '"', a + 1) {
                Some(b) => {
                    proof {
                        lemma_first_char_found(line@, '"', a + 1);
                    }
                    Some(String::from_str(line.substring_char(a + 1, b)))
                },
                None => None,
            }
        },
        None => None,
    }
}

/// The device named on an AVFoundation listing line, if any.
pub fn avf_device_name(line: &str) -> (r: Option<String>)
    ensures
        match r {
            Some(n) => avf_name(line@) == Some(n@),
            None => avf_name(line@) is None,
        },
{
    if !contains_text(line, "[AVFoundation") {
        return None;
    }
    let n = line.unicode_len();
    let c1 = match find_char(line, n, ']', 0) {
        Some(c1) => c1,
        None => return None,
    };
    proof {
        lemma_first_char_found(line@, ']', 0);
    }
    let o2 = match find_char(line, n, '[', c1 + 1) {
        Some(o2) => o2,
        None => return None,
    };
    proof {
        lemma_first_char_found(line@, '[', c1 + 1);
    }
    let c2 = match find_char(line, n, ']', o2) {
        Some(c2) => c2,
        None => return None,
    };
    proof {
        lemma_first_char_found(line@, ']', o2 as int);
    }
    if c2 + 1 >= n {
        return None;
    }
    let name = trim_range(line, c2 + 1, n);
    if name.as_str().unicode_len() == 0 {
        return None;
    }
    Some(name)
}

/// Reads a DirectShow device listing, line by line.
pub fn parse_dshow_listing(lines: &Vec<String>) -> (r: AudioVideoDevices)
    ensures
        (texts(r.video_devices@), texts(r.audio_devices@)) == (
            dshow_parse(texts(lines@)).0,
            dshow_parse(texts(lines@)).1,
        ),
{
    let mut video: Vec<String> = Vec::new();
    let mut audio: Vec<String> = Vec::new();
    let mut in_video = false;
    let mut in_audio = false;
    let mut i: usize = 0;
    proof {
        assert(texts(lines@).take(0) =~= Seq::<Seq<char>>::empty());
    }
    while i < lines.len()
        invariant
            i <= lines.len(),
            dshow_parse(texts(lines@).take(i as int)) == (
                texts(video@),
                texts(audio@),
                in_video,
                in_audio,
            ),
        decreases lines.len() - i,
    {
        let line = lines[i].as_str();
        proof {
            let t = texts(lines@).take(i + 1);
            assert(t.drop_last() =~= texts(lines@).take(i as int));
            assert(t.last() == line@);
        }
        if contains_text(line, "DirectShow video devices") {
            in_video = true;
            in_audio = false;
        } else if contains_text(line, "DirectShow audio devices") {
            in_video = false;
            in_audio = true;
        } else {
            match dshow_device_name(line) {
                Some(name) => {
                    if in_video {
                        push_owned(&mut video, name);
                    } else if in_audio {
                        push_owned(&mut audio, name);
                    }
                },
                None => {},
            }
        }
        i = i + 1;
    }
    proof {
        assert(texts(lines@).take(i as int) =~= texts(lines@));
    }
    AudioVideoDevices { video_devices: video, audio_devices: audio }
}

/// Reads an AVFoundation device listing, line by line.
pub fn parse_avfoundation_listing(lines: &Vec<String>) -> (r: AudioVideoDevices)
    ensures
        (texts(r.video_devices@), texts(r.audio_devices@)) == avf_parse(texts(lines@)),
{
    let mut video: Vec<String> = Vec::new();
    let mut audio: Vec<String> = Vec::new();
    let mut i: usize = 0;
    proof {
        assert(texts(lines@).take(0) =~= Seq::<Seq<char>>::empty());
    }
    while i < lines.len()
        invariant
            i <= lines.len(),
            avf_parse(texts(lines@).take(i as int)) == (texts(video@), texts(audio@)),
        decreases lines.len() - i,
    {
        let line = lines[i].as_str();
        proof {
            let t = texts(lines@).take(i + 1);
            assert(t.drop_last() =~= texts(lines@).take(i as int));
            assert(t.last() == line@);
        }
        match avf_device_name(line) {
            Some(name) => {
                if contains_text(line, "video device") || !contains_text(line, "audio device") {
                    push_owned(&mut video, name);
                } else {
                    push_owned(&mut audio, name);
                }
            },
            None => {},
        }
        i = i + 1;
    }
    proof {
        assert(texts(lines@).take(i as int) =~= texts(lines@));
    }
    AudioVideoDevices { video_devices: video, audio_devices: audio }
}

/// The engine arguments that list the capture devices of a platform.
pub fn device_listing_args(p: Platform) -> (r: Result<Vec<String>, ValidationError>)
    ensures
        match p {
            Platform::Windows => r is Ok && texts(r->Ok_0@) == seq![
                "-list_devices"@,
                "true"@,
                "-f"@,
                "dshow"@,
                "-i"@,
                "dummy"@,
            ],
            Platform::MacOs => r is Ok && texts(r->Ok_0@) == seq![
                "-f"@,
                "avfoundation"@,
                "-list_devices"@,
                "true"@,
                "-i"@,
                ""@,
            ],
            Platform::Other => r == Err::<Vec<String>, ValidationError>(
                ValidationError::UnsupportedPlatform,
            ),
        },
{
    let mut args: Vec<String> = Vec::new();
    match p {
        Platform::Windows => {
            crate::text::push_arg(&mut args, "-list_devices");
            crate::text::push_arg(&mut args, "true");
            crate::text::push_arg(&mut args, "-f");
            crate::text::push_arg(&mut args, "dshow");
            crate::text::push_arg(&mut args, "-i");
            crate::text::push_arg(&mut args, "dummy");
        },
        Platform::MacOs => {
            crate::text::push_arg(&mut args, "-f");
            crate::text::push_arg(&mut args, "avfoundation");
            crate::text::push_arg(&mut args, "-list_devices");
            crate::text::push_arg(&mut args, "true");
            crate::text::push_arg(&mut args, "-i");
            crate::text::push_arg(&mut args, "");
        },
        Platform::Other => {
            return Err(ValidationError::UnsupportedPlatform);
        },
    }
    proof {
        if p == Platform::Windows {
            assert(texts(args@) =~= seq!["-list_devices"@, "true"@, "-f"@, "dshow"@, "-i"@, "dummy"@]);
        } else {
            assert(texts(args@) =~= seq!["-f"@, "avfoundation"@, "-list_devices"@, "true"@, "-i"@, ""@]);
        }
    }
    Ok(args)
}

} // verus!
