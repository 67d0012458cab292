//! File paths carried in the custom `video` URI scheme.
use vstd::prelude::*;

verus! {

/// Names the percent-decoding of a text as UTF-8; `None` when the decoded
/// bytes are not UTF-8.
pub uninterp spec fn percent_decoded(s: Seq<char>) -> Option<Seq<char>>;

/// Relies on `urlencoding::decode` (2.1): percent-decodes a text, failing
/// only when the decoded bytes are not UTF-8; a text without `%` comes back
/// as it is.
#[verifier::external_body]
fn url_decode(s: &str) -> (r: Option<String>)
    ensures
        match r {
            Some(d) => percent_decoded(s@) == Some(d@),
            None => percent_decoded(s@) is None,
        },
        !s@.contains('%') ==> r is Some && r->Some_0@ == s@,
{
    match urlencoding::decode(s) {
        Ok(decoded) => Some(decoded.into_owned()),
        Err(_) => None,
    }
}

/// The text without its leading `/` characters.
pub open spec fn without_leading_slashes(s: Seq<char>) -> Seq<char>
    decreases s.len(),
{
    if s.len() > 0 && s[0] == '/' {
        without_leading_slashes(s.skip(1))
    } else {
        s
    }
}

/// The path that a request names: the decoded text when decoding succeeded,
/// else the text as it came.
pub open spec fn request_path(encoded: Seq<char>, decoded: Option<Seq<char>>) -> Seq<char> {
    match decoded {
        Some(d) => d,
        None => encoded,
    }
}

pub proof fn lemma_strip_step(s: Seq<char>, i: int)
    requires
        0 <= i < s.len(),
        s[i] == '/',
        without_leading_slashes(s) == without_leading_slashes(s.skip(i)),
    ensures
        without_leading_slashes(s) == without_leading_slashes(s.skip(i + 1)),
{
    assert(s.skip(i).skip(1) =~= s.skip(i + 1));
}

/// Drops the leading `/` characters of a URI path.
pub fn strip_leading_slashes(path: &str) -> (r: String)
    ensures
        r@ == without_leading_slashes(path@),
{
    let n = path.unicode_len();
    let mut i: usize = 0;
    proof {
        assert(path@.skip(0) =~= path@);
    }
    while i < n && path.get_char(i) == '/'
        invariant
            i <= n,
            n == path@.len(),
            without_leading_slashes(path@) == without_leading_slashes(path@.skip(i as int)),
        decreases n - i,
    {
        proof {
            lemma_strip_step(path@, i as int);
        }
        i = i + 1;
    }
    proof {
        assert(path@.subrange(i as int, n as int) =~= path@.skip(i as int));
    }
    String::from_str(path.substring_char(i, n))
}

/// Chooses the path of a request from its encoded text and the result of
/// decoding it.
pub fn resolve_request_path(encoded: String, decoded: Option<String>) -> (r: String)
    ensures
        r@ == request_path(
            encoded@,
            match decoded {
                Some(d) => Some(d@),
                None => None,
            },
        ),
{
    match decoded {
        Some(d) => d,
        None => encoded,
    }
}

/// The file path that a `video` URI path names: leading `/` dropped, then
/// percent-decoded; a path that does not decode is used as it is.
pub fn video_request_path(uri_path: &str) -> (r: String)
    ensures
        r@ == request_path(
            without_leading_slashes(uri_path@),
            percent_decoded(without_leading_slashes(uri_path@)),
        ),
{
    let stripped = strip_leading_slashes(uri_path);
    let decoded = url_decode(stripped.as_str());
    resolve_request_path(stripped, decoded)
}

} // verus!
