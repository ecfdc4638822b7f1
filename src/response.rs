use vstd::prelude::*;

use crate::error::FetchError;
use crate::text::{
    chars_of, find_char, find_from, lemma_find_from_bounds, range_is, slice_chars, string_of,
    trim_bounds, trim_range,
};

verus! {

/// What `str::to_lowercase` returns for a string.
pub uninterp spec fn lower_of(s: Seq<char>) -> Seq<char>;

/// Relies on `str::to_lowercase`: the result depends on the characters alone.
#[verifier::external_body]
fn lowercase(s: &str) -> (r: String)
    ensures
        r@ == lower_of(s@),
{
    s.to_lowercase()
}

pub open spec fn transfer_encoding_word() -> Seq<char> {
    seq!['t', 'r', 'a', 'n', 's', 'f', 'e', 'r', '-', 'e', 'n', 'c', 'o', 'd', 'i', 'n', 'g']
}

pub open spec fn content_encoding_word() -> Seq<char> {
    seq!['c', 'o', 'n', 't', 'e', 'n', 't', '-', 'e', 'n', 'c', 'o', 'd', 'i', 'n', 'g']
}

/// A case-folded header name that announces an encoding this decoder refuses.
pub open spec fn unsupported_key(k: Seq<char>) -> bool {
    k == transfer_encoding_word() || k == content_encoding_word()
}

/// End of the line that starts at `i` (its `\n`, or the end of `s`).
pub open spec fn line_stop(s: Seq<char>, i: int) -> int {
    if find_from(s, '\n', i) == -1 {
        s.len() as int
    } else {
        find_from(s, '\n', i)
    }
}

/// Start of the line after the one that starts at `i`.
pub open spec fn line_next(s: Seq<char>, i: int) -> int {
    if find_from(s, '\n', i) == -1 {
        s.len() as int
    } else {
        find_from(s, '\n', i) + 1
    }
}

/// The status line, trimmed, splits on spaces into version, code and reason:
/// it holds at least two spaces.
pub open spec fn status_ok(s: Seq<char>) -> bool {
    let (a, b) = trim_range(s, 0, line_stop(s, 0));
    let k1 = find_from(s, ' ', a);
    k1 != -1 && k1 < b && find_from(s, ' ', k1 + 1) != -1 && find_from(s, ' ', k1 + 1) < b
}

/// Reads header lines from `i` up to the first blank line or the end of `s`.
/// `None` when a non-blank line lacks a `:`; else whether an unsupported
/// encoding was announced, and where the body starts.
pub open spec fn headers_spec(s: Seq<char>, i: int) -> Option<(bool, int)>
    decreases s.len() - i,
    via headers_spec_decreases
{
    if i < 0 || i >= s.len() {
        Some((false, s.len() as int))
    } else {
        let (a, b) = trim_range(s, i, line_stop(s, i));
        let c = find_from(s, ':', a);
        if a == b {
            Some((false, line_next(s, i)))
        } else if c == -1 || c >= b {
            None
        } else {
            match headers_spec(s, line_next(s, i)) {
                None => None,
                Some((u, body)) => Some((u || unsupported_key(lower_of(s.subrange(a, c))), body)),
            }
        }
    }
}

#[via_fn]
proof fn headers_spec_decreases(s: Seq<char>, i: int) {
    if 0 <= i < s.len() {
        lemma_find_from_bounds(s, '\n', i);
    }
}

/// What decoding the response text `s` yields: its body, or why it is refused.
pub open spec fn response_spec(s: Seq<char>) -> Result<Seq<char>, FetchError> {
    if !status_ok(s) {
        Err(FetchError::ProtocolError)
    } else {
        match headers_spec(s, line_next(s, 0)) {
            None => Err(FetchError::ProtocolError),
            Some((true, _)) => Err(FetchError::ProtocolError),
            Some((false, b)) => Ok(s.subrange(b, s.len() as int)),
        }
    }
}

/// Whether a case-folded header name announces a transfer or content encoding.
pub fn is_unsupported_encoding(folded_key: &str) -> (r: bool)
    ensures
        r == unsupported_key(folded_key@),
{
    let k = chars_of(folded_key);
    let te = vec![
        't', 'r', 'a', 'n', 's', 'f', 'e', 'r', '-', 'e', 'n', 'c', 'o', 'd', 'i', 'n', 'g',
    ];
    let ce = vec!['c', 'o', 'n', 't', 'e', 'n', 't', '-', 'e', 'n', 'c', 'o', 'd', 'i', 'n', 'g'];
    assert(k@.subrange(0, k@.len() as int) =~= k@);
    range_is(&k, 0, k.len(), &te) || range_is(&k, 0, k.len(), &ce)
}

fn next_line(s: &Vec<char>, i: usize) -> (r: (usize, usize))
    requires
        i <= s.len(),
    ensures
        r.0 as int == line_stop(s@, i as int),
        r.1 as int == line_next(s@, i as int),
        i <= r.0 <= r.1 <= s.len(),
        i < s.len() ==> i < r.1,
{
    proof {
        lemma_find_from_bounds(s@, '\n', i as int);
    }
    match find_char(s, '\n', i) {
        Some(e) => (e, e + 1),
        None => (s.len(), s.len()),
    }
}

fn scan_headers(s: &Vec<char>, i: usize) -> (r: Option<(bool, usize)>)
    requires
        i <= s.len(),
    ensures
        match r {
            None => headers_spec(s@, i as int) is None,
            Some((u, b)) => headers_spec(s@, i as int) == Some((u, b as int)) && b <= s.len(),
        },
    decreases s.len() - i,
{
    if i >= s.len() {
        return Some((false, s.len()));
    }
    let (stop, next) = next_line(s, i);
    let (a, b) = trim_bounds(s, i, stop);
    if a == b {
        return Some((false, next));
    }
    proof {
        lemma_find_from_bounds(s@, ':', a as int);
    }
    let c = match find_char(s, ':', a) {
        Some(c) if c < b => c,
        _ => return None,
    };
    match scan_headers(s, next) {
        None => None,
        Some((u, body)) => {
            let key = string_of(&slice_chars(s, a, c));
            let folded = lowercase(key.as_str());
            let bad = is_unsupported_encoding(folded.as_str());
            Some((u || bad, body))
        },
    }
}

/// Decodes a whole HTTP response: a status line of three space-separated parts,
/// header lines up to a blank line, then the body. Refuses a response that
/// announces a transfer or content encoding.
pub fn decode_response(text: &str) -> (r: Result<String, FetchError>)
    ensures
        match r {
            Ok(body) => response_spec(text@) == Ok::<Seq<char>, FetchError>(body@),
            Err(e) => response_spec(text@) == Err::<Seq<char>, FetchError>(e),
        },
{
    let s = chars_of(text);
    let (stop, next) = next_line(&s, 0);
    let (a, b) = trim_bounds(&s, 0, stop);
    proof {
        lemma_find_from_bounds(s@, ' ', a as int);
    }
    let k1 = match find_char(&s, ' ', a) {
        Some(k) if k < b => k,
        _ => return Err(FetchError::ProtocolError),
    };
    proof {
        lemma_find_from_bounds(s@, ' ', k1 + 1);
    }
    match find_char(&s, ' ', k1 + 1) {
        Some(k) if k < b => {},
        _ => return Err(FetchError::ProtocolError),
    }
    match scan_headers(&s, next) {
        None => Err(FetchError::ProtocolError),
        Some((true, _)) => Err(FetchError::ProtocolError),
        Some((false, body_start)) => Ok(string_of(&slice_chars(&s, body_start, s.len()))),
    }
}

/// The line that starts at `j` is one of the header lines read from `i` on:
/// it comes before the first blank line.
pub open spec fn is_header_line(s: Seq<char>, i: int, j: int) -> bool
    decreases s.len() - i,
    via is_header_line_decreases
{
    if i < 0 || i >= s.len() {
        false
    } else {
        let (a, b) = trim_range(s, i, line_stop(s, i));
        if a == b {
            false
        } else if j == i {
            true
        } else {
            is_header_line(s, line_next(s, i), j)
        }
    }
}

#[via_fn]
proof fn is_header_line_decreases(s: Seq<char>, i: int, j: int) {
    if 0 <= i < s.len() {
        lemma_find_from_bounds(s, '\n', i);
    }
}

/// The header line at `j` names, once case-folded, a transfer or content encoding.
pub open spec fn announces_encoding(s: Seq<char>, j: int) -> bool {
    let (a, b) = trim_range(s, j, line_stop(s, j));
    let c = find_from(s, ':', a);
    c != -1 && c < b && unsupported_key(lower_of(s.subrange(a, c)))
}

proof fn lemma_headers_flag(s: Seq<char>, i: int, j: int)
    requires
        is_header_line(s, i, j),
        announces_encoding(s, j),
    ensures
        !(headers_spec(s, i) matches Some((false, _))),
    decreases s.len() - i,
{
    lemma_find_from_bounds(s, '\n', i);
    if j != i {
        lemma_headers_flag(s, line_next(s, i), j);
    }
}

/// A response any of whose header lines announces a transfer or content
/// encoding is refused with a protocol error.
pub proof fn lemma_encoded_response_refused(s: Seq<char>, j: int)
    requires
        is_header_line(s, line_next(s, 0), j),
        announces_encoding(s, j),
    ensures
        response_spec(s) == Err::<Seq<char>, FetchError>(FetchError::ProtocolError),
{
    lemma_headers_flag(s, line_next(s, 0), j);
}

} // verus!
