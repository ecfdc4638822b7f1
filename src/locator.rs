use vstd::prelude::*;

use crate::error::FetchError;
use crate::text::{
    chars_of, find, find_char, find_from, lemma_find_from_bounds, range_is, slice_chars, string_of,
};

verus! {

/// The four access methods a locator may name.
#[derive(PartialEq, Eq, Structural, Clone, Copy, Debug)]
pub enum Scheme {
    Http,
    Https,
    File,
    Data,
}

/// A parsed resource locator.
pub struct URL {
    pub scheme: Scheme,
    pub host: String,
    pub path: String,
    pub port: u16,
    pub view_source: bool,
}

/// The mathematical value of a `URL`.
pub struct UrlModel {
    pub scheme: Scheme,
    pub host: Seq<char>,
    pub path: Seq<char>,
    pub port: u16,
    pub view_source: bool,
}

impl View for URL {
    type V = UrlModel;

    open spec fn view(&self) -> UrlModel {
        UrlModel {
            scheme: self.scheme,
            host: self.host@,
            path: self.path@,
            port: self.port,
            view_source: self.view_source,
        }
    }
}

pub open spec fn view_source_word() -> Seq<char> {
    seq!['v', 'i', 'e', 'w', '-', 's', 'o', 'u', 'r', 'c', 'e']
}

pub open spec fn http_word() -> Seq<char> {
    seq!['h', 't', 't', 'p']
}

pub open spec fn https_word() -> Seq<char> {
    seq!['h', 't', 't', 'p', 's']
}

pub open spec fn file_word() -> Seq<char> {
    seq!['f', 'i', 'l', 'e']
}

pub open spec fn data_word() -> Seq<char> {
    seq!['d', 'a', 't', 'a']
}

pub open spec fn default_port(scheme: Scheme) -> u16 {
    if scheme == Scheme::Http {
        80
    } else {
        443
    }
}

/// First index in `[i, s.len())` that does not hold `c`.
pub open spec fn skip_char(s: Seq<char>, c: char, i: int) -> int
    decreases s.len() - i,
{
    if 0 <= i < s.len() && s[i] == c {
        skip_char(s, c, i + 1)
    } else {
        i
    }
}

pub open spec fn is_digit(c: char) -> bool {
    '0' <= c <= '9'
}

/// The decimal value of the digits `s[lo..hi]`.
pub open spec fn digits_value(s: Seq<char>, lo: int, hi: int) -> nat
    decreases hi - lo,
{
    if hi <= lo {
        0
    } else {
        10 * digits_value(s, lo, hi - 1) + (s[hi - 1] as nat - '0' as nat) as nat
    }
}

/// `s[lo..hi]` read as a port number: an optional `+`, then one or more decimal
/// digits whose value fits in 16 bits.
pub open spec fn port_spec(s: Seq<char>, lo: int, hi: int) -> Option<u16> {
    let d = if lo < hi && s[lo] == '+' {
        lo + 1
    } else {
        lo
    };
    if d >= hi {
        None
    } else if exists|i: int| d <= i < hi && !is_digit(s[i]) {
        None
    } else if digits_value(s, d, hi) > 65535 {
        None
    } else {
        Some(digits_value(s, d, hi) as u16)
    }
}

/// Host, port and path of an `http` or `https` locator whose text after the
/// scheme's `:` starts at `start`.
pub open spec fn network_spec(s: Seq<char>, scheme: Scheme, start: int) -> Result<UrlModel, FetchError> {
    let a = if start < s.len() && s.len() - start >= 2 && s[start] == '/' && s[start + 1] == '/' {
        start + 2
    } else {
        start
    };
    let slash = find_from(s, '/', a);
    let auth_end = if slash == -1 {
        s.len() as int
    } else {
        slash
    };
    let path = if slash == -1 {
        seq!['/']
    } else {
        s.subrange(slash, s.len() as int)
    };
    let colon = find_from(s, ':', a);
    if colon != -1 && colon < auth_end {
        match port_spec(s, colon + 1, auth_end) {
            Some(p) => Ok(
                UrlModel {
                    scheme,
                    host: s.subrange(a, colon),
                    path,
                    port: p,
                    view_source: false,
                },
            ),
            None => Err(FetchError::MalformedLocator),
        }
    } else {
        Ok(
            UrlModel {
                scheme,
                host: s.subrange(a, auth_end),
                path,
                port: default_port(scheme),
                view_source: false,
            },
        )
    }
}

/// What parsing the text `s` yields.
pub open spec fn parse_spec(s: Seq<char>) -> Result<UrlModel, FetchError>
    decreases s.len(),
{
    let k = find(s, ':');
    if k < 0 || k >= s.len() {
        Err(FetchError::MalformedLocator)
    } else {
        let tok = s.subrange(0, k);
        if tok == view_source_word() {
            match parse_spec(s.subrange(k + 1, s.len() as int)) {
                Ok(u) => Ok(UrlModel { view_source: true, ..u }),
                Err(e) => Err(e),
            }
        } else if tok == data_word() {
            Ok(
                UrlModel {
                    scheme: Scheme::Data,
                    host: Seq::empty(),
                    path: s.subrange(k + 1, s.len() as int),
                    port: 0,
                    view_source: false,
                },
            )
        } else if tok == file_word() {
            Ok(
                UrlModel {
                    scheme: Scheme::File,
                    host: Seq::empty(),
                    path: s.subrange(skip_char(s, '/', k + 1), s.len() as int),
                    port: 0,
                    view_source: false,
                },
            )
        } else if tok == http_word() {
            network_spec(s, Scheme::Http, k + 1)
        } else if tok == https_word() {
            network_spec(s, Scheme::Https, k + 1)
        } else {
            Err(FetchError::UnsupportedScheme)
        }
    }
}

proof fn lemma_digits_step(s: Seq<char>, lo: int, i: int)
    requires
        lo <= i,
    ensures
        digits_value(s, lo, i + 1) == 10 * digits_value(s, lo, i) + (s[i] as nat - '0' as nat) as nat,
{
}

/// Reads `s[lo..hi]` as a port number, as `u16::from_str` does.
pub fn parse_port(s: &Vec<char>, lo: usize, hi: usize) -> (r: Option<u16>)
    requires
        lo <= hi <= s.len(),
    ensures
        r == port_spec(s@, lo as int, hi as int),
{
    let d = if lo < hi && s[lo] == '+' {
        lo + 1
    } else {
        lo
    };
    if d >= hi {
        return None;
    }
    let mut acc: u32 = 0;
    let mut i = d;
    while i < hi
        invariant
            d <= i <= hi <= s.len(),
            d == (if lo < hi && s@[lo as int] == '+' {
                lo + 1
            } else {
                lo as int
            }),
            forall|j: int| d <= j < i ==> is_digit(s@[j]),
            acc as int == if digits_value(s@, d as int, i as int) > 65535 {
                65536
            } else {
                digits_value(s@, d as int, i as int) as int
            },
        decreases hi - i,
    {
        let c = s[i];
        if !('0' <= c && c <= '9') {
            assert(!is_digit(s@[i as int]));
            assert(exists|j: int| d <= j < hi && !is_digit(s@[j]));
            return None;
        }
        let dig = (c as u32) - ('0' as u32);
        proof {
            lemma_digits_step(s@, d as int, i as int);
        }
        let next = acc * 10 + dig;
        acc = if next > 65535 {
            65536
        } else {
            next
        };
        i = i + 1;
    }
    if acc > 65535 {
        None
    } else {
        Some(acc as u16)
    }
}

/// Skips the run of `c` that starts at `i`.
fn skip_run(s: &Vec<char>, c: char, i: usize) -> (r: usize)
    requires
        i <= s.len(),
    ensures
        r as int == skip_char(s@, c, i as int),
        i <= r <= s.len(),
{
    let mut j = i;
    while j < s.len() && s[j] == c
        invariant
            i <= j <= s.len(),
            skip_char(s@, c, i as int) == skip_char(s@, c, j as int),
        decreases s.len() - j,
    {
        j = j + 1;
    }
    j
}

fn network_parse(s: &Vec<char>, scheme: Scheme, start: usize) -> (r: Result<URL, FetchError>)
    requires
        start <= s.len(),
    ensures
        match r {
            Ok(u) => network_spec(s@, scheme, start as int) == Ok::<UrlModel, FetchError>(u@),
            Err(e) => network_spec(s@, scheme, start as int) == Err::<UrlModel, FetchError>(e),
        },
{
    let a = if start < s.len() && s.len() - start >= 2 && s[start] == '/' && s[start + 1] == '/' {
        start + 2
    } else {
        start
    };
    let slash = find_char(s, '/', a);
    proof {
        lemma_find_from_bounds(s@, '/', a as int);
        lemma_find_from_bounds(s@, ':', a as int);
    }
    let auth_end = match slash {
        Some(k) => k,
        None => s.len(),
    };
    let path_chars = match slash {
        Some(k) => slice_chars(s, k, s.len()),
        None => vec!['/'],
    };
    assert(slash is None ==> path_chars@ =~= seq!['/']);
    let path = string_of(&path_chars);
    let colon = find_char(s, ':', a);
    match colon {
        Some(c) if c < auth_end => {
            match parse_port(s, c + 1, auth_end) {
                Some(p) => {
                    let host = string_of(&slice_chars(s, a, c));
                    Ok(URL { scheme, host, path, port: p, view_source: false })
                },
                None => Err(FetchError::MalformedLocator),
            }
        },
        _ => {
            let host = string_of(&slice_chars(s, a, auth_end));
            let port = if scheme == Scheme::Http {
                80
            } else {
                443
            };
            Ok(URL { scheme, host, path, port, view_source: false })
        },
    }
}

fn parse_chars(s: &Vec<char>) -> (r: Result<URL, FetchError>)
    ensures
        match r {
            Ok(u) => parse_spec(s@) == Ok::<UrlModel, FetchError>(u@),
            Err(e) => parse_spec(s@) == Err::<UrlModel, FetchError>(e),
        },
    decreases s@.len(),
{
    let k = match find_char(s, ':', 0) {
        Some(k) => k,
        None => return Err(FetchError::MalformedLocator),
    };
    proof {
        lemma_find_from_bounds(s@, ':', 0);
    }
    if range_is(s, 0, k, &vec!['v', 'i', 'e', 'w', '-', 's', 'o', 'u', 'r', 'c', 'e']) {
        let rest = slice_chars(s, k + 1, s.len());
        return match parse_chars(&rest) {
            Ok(u) => Ok(URL { view_source: true, ..u }),
            Err(e) => Err(e),
        };
    }
    if range_is(s, 0, k, &vec!['d', 'a', 't', 'a']) {
        let path = string_of(&slice_chars(s, k + 1, s.len()));
        return Ok(URL { scheme: Scheme::Data, host: String::new(), path, port: 0, view_source: false });
    }
    if range_is(s, 0, k, &vec!['f', 'i', 'l', 'e']) {
        let from = skip_run(s, '/', k + 1);
        let path = string_of(&slice_chars(s, from, s.len()));
        return Ok(URL { scheme: Scheme::File, host: String::new(), path, port: 0, view_source: false });
    }
    if range_is(s, 0, k, &vec!['h', 't', 't', 'p']) {
        return network_parse(s, Scheme::Http, k + 1);
    }
    if range_is(s, 0, k, &vec!['h', 't', 't', 'p', 's']) {
        return network_parse(s, Scheme::Https, k + 1);
    }
    Err(FetchError::UnsupportedScheme)
}

impl URL {
    /// Parses a locator: `scheme:rest`, where the scheme is `http`, `https`,
    /// `file` or `data`, or `view-source` wrapped round another locator.
    pub fn new(url: String) -> (r: Result<URL, FetchError>)
        ensures
            match r {
                Ok(u) => parse_spec(url@) == Ok::<UrlModel, FetchError>(u@),
                Err(e) => parse_spec(url@) == Err::<UrlModel, FetchError>(e),
            },
    {
        let s = chars_of(url.as_str());
        parse_chars(&s)
    }
}

proof fn lemma_find_first(s: Seq<char>, c: char, k: int, i: int)
    requires
        0 <= i <= k < s.len(),
        s[k] == c,
        forall|j: int| i <= j < k ==> s[j] != c,
    ensures
        find_from(s, c, i) == k,
    decreases k - i,
{
    if i < k {
        lemma_find_first(s, c, k, i + 1);
    }
}

proof fn lemma_find_none(s: Seq<char>, c: char, i: int)
    requires
        0 <= i,
        forall|j: int| i <= j < s.len() ==> s[j] != c,
    ensures
        find_from(s, c, i) == -1,
    decreases s.len() - i,
{
    if i < s.len() {
        lemma_find_none(s, c, i + 1);
    }
}

/// The path of a parsed `http` or `https` locator always starts with `/`.
pub proof fn lemma_network_path_rooted(s: Seq<char>)
    ensures
        match parse_spec(s) {
            Ok(u) => (u.scheme == Scheme::Http || u.scheme == Scheme::Https) ==> u.path.len() >= 1
                && u.path[0] == '/',
            Err(_) => true,
        },
    decreases s.len(),
{
    let k = find(s, ':');
    lemma_find_from_bounds(s, ':', 0);
    if 0 <= k < s.len() {
        let rest = s.subrange(k + 1, s.len() as int);
        lemma_network_path_rooted(rest);
        let a = if k + 3 <= s.len() && s[k + 1] == '/' && s[k + 2] == '/' {
            k + 3
        } else {
            k + 1
        };
        lemma_find_from_bounds(s, '/', a);
    }
}

/// A network locator with nothing after its host (`http://host`, or
/// `https://host:port`) gets the root path `/`.
pub proof fn lemma_bare_host_root(word: Seq<char>, h: Seq<char>)
    requires
        word == http_word() || word == https_word(),
        forall|j: int| 0 <= j < h.len() ==> h[j] != '/',
    ensures
        match parse_spec(word + seq![':', '/', '/'] + h) {
            Ok(u) => u.path == seq!['/'],
            Err(_) => true,
        },
{
    let s = word + seq![':', '/', '/'] + h;
    let k = word.len() as int;
    assert(s[k] == ':');
    assert forall|j: int| 0 <= j < k implies s[j] != ':' by {
        assert(s[j] == word[j]);
    }
    lemma_find_first(s, ':', k, 0);
    assert(s.subrange(0, k) =~= word);
    assert forall|j: int| k + 3 <= j < s.len() implies s[j] != '/' by {
        assert(s[j] == h[j - k - 3]);
    }
    lemma_find_none(s, '/', k + 3);
}

/// A `view-source:` prefix sets the flag and leaves the rest of the parse as it was.
pub proof fn lemma_view_source_transparent(s: Seq<char>)
    ensures
        parse_spec(view_source_word() + seq![':'] + s) == match parse_spec(s) {
            Ok(u) => Ok(UrlModel { view_source: true, ..u }),
            Err(e) => Err(e),
        },
{
    let t = view_source_word() + seq![':'] + s;
    assert(t[11] == ':');
    assert forall|j: int| 0 <= j < 11 implies t[j] != ':' by {
        assert(t[j] == view_source_word()[j]);
    }
    lemma_find_first(t, ':', 11, 0);
    assert(t.subrange(0, 11) =~= view_source_word());
    assert(t.subrange(12, t.len() as int) =~= s);
}

} // verus!
