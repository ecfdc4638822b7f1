use vstd::prelude::*;

use crate::error::FetchError;
use crate::locator::{
    lemma_view_source_transparent, parse_spec, view_source_word, Scheme, URL, UrlModel,
};
use crate::render::{render_spec, show};
use crate::text::{
    append_chars, chars_of, find, find_char, lemma_find_from_bounds, slice_chars, string_of,
};

verus! {

/// The next thing to do to fetch a locator's body.
pub enum Step {
    /// The body is known without any transport, or the locator is refused.
    Done(Result<String, FetchError>),
    /// Read the file at this path as text.
    ReadFile(String),
    /// Connect to `host:port` (through TLS when `tls`), send `request`, and
    /// decode what comes back.
    Connect { host: String, port: u16, tls: bool, request: String },
}

/// The payload of a `data` locator's path: everything after its first comma.
pub open spec fn data_spec(path: Seq<char>) -> Result<Seq<char>, FetchError> {
    if find(path, ',') == -1 {
        Err(FetchError::MalformedLocator)
    } else {
        Ok(path.subrange(find(path, ',') + 1, path.len() as int))
    }
}

/// The GET request sent for a network locator.
pub open spec fn request_spec(u: UrlModel) -> Seq<char> {
    "GET "@ + u.path + " HTTP/1.1\r\nHost: "@ + u.host
        + "\r\nConnection: close\r\nUser-Agent: RustBrowser/1.0\r\n\r\n"@
}

/// What is shown for a fetched body: the body itself in view-source mode,
/// else its rendering.
pub open spec fn display_spec(u: UrlModel, body: Seq<char>) -> Seq<char> {
    if u.view_source {
        body
    } else {
        render_spec(body)
    }
}

impl URL {
    /// Decodes a `data` locator: the text after the first comma of its path.
    pub fn read_data(&self) -> (r: Result<String, FetchError>)
        ensures
            match r {
                Ok(d) => data_spec(self.path@) == Ok::<Seq<char>, FetchError>(d@),
                Err(e) => data_spec(self.path@) == Err::<Seq<char>, FetchError>(e),
            },
    {
        let p = chars_of(self.path.as_str());
        proof {
            lemma_find_from_bounds(p@, ',', 0);
        }
        match find_char(&p, ',', 0) {
            Some(k) => {
                assert(k < p.len());
                Ok(string_of(&slice_chars(&p, k + 1, p.len())))
            },
            None => Err(FetchError::MalformedLocator),
        }
    }

    /// The request line and the three headers sent to a network host.
    pub fn request_text(&self) -> (r: String)
        ensures
            r@ == request_spec(self@),
    {
        let mut out = chars_of("GET ");
        append_chars(&mut out, &chars_of(self.path.as_str()));
        append_chars(&mut out, &chars_of(" HTTP/1.1\r\nHost: "));
        append_chars(&mut out, &chars_of(self.host.as_str()));
        append_chars(&mut out, &chars_of("\r\nConnection: close\r\nUser-Agent: RustBrowser/1.0\r\n\r\n"));
        string_of(&out)
    }

    /// Chooses the transport from the scheme alone.
    pub fn plan(&self) -> (r: Step)
        ensures
            self.scheme == Scheme::Data ==> match r {
                Step::Done(Ok(d)) => data_spec(self.path@) == Ok::<Seq<char>, FetchError>(d@),
                Step::Done(Err(e)) => data_spec(self.path@) == Err::<Seq<char>, FetchError>(e),
                _ => false,
            },
            self.scheme == Scheme::File ==> match r {
                Step::ReadFile(p) => p@ == self.path@,
                _ => false,
            },
            (self.scheme == Scheme::Http || self.scheme == Scheme::Https) ==> match r {
                Step::Connect { host, port, tls, request } => host@ == self.host@ && port
                    == self.port && tls == (self.scheme == Scheme::Https) && request@
                    == request_spec(self@),
                _ => false,
            },
    {
        match self.scheme {
            Scheme::Data => Step::Done(self.read_data()),
            Scheme::File => Step::ReadFile(self.path.clone()),
            _ => Step::Connect {
                host: self.host.clone(),
                port: self.port,
                tls: self.scheme == Scheme::Https,
                request: self.request_text(),
            },
        }
    }

    /// The text shown for a fetched body: verbatim in view-source mode, else
    /// rendered.
    pub fn display_text(&self, body: &str) -> (r: String)
        ensures
            r@ == display_spec(self@, body@),
    {
        if self.view_source {
            body.to_string()
        } else {
            show(body)
        }
    }
}

/// Fetching a local file through `view-source:` reads the same path as the
/// plain file locator and shows the file's text exactly as read.
pub proof fn lemma_view_source_file_verbatim(s: Seq<char>, body: Seq<char>)
    requires
        parse_spec(s) is Ok,
        parse_spec(s)->Ok_0.scheme == Scheme::File,
    ensures
        parse_spec(view_source_word() + seq![':'] + s) is Ok,
        parse_spec(view_source_word() + seq![':'] + s)->Ok_0.scheme == Scheme::File,
        parse_spec(view_source_word() + seq![':'] + s)->Ok_0.path == parse_spec(s)->Ok_0.path,
        display_spec(parse_spec(view_source_word() + seq![':'] + s)->Ok_0, body) == body,
{
    lemma_view_source_transparent(s);
}

} // verus!
