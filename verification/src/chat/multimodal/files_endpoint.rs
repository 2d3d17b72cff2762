//! The Files API endpoint: checking a configured URL and forming the URL of an uploaded file.
use vstd::prelude::*;

use crate::text::{push_str, str_eq, trim, trim_end_char, trim_end_matches_char, trimmed};

verus! {

/// What `Url::parse` gives for a text: the serialization, the scheme and the serialization
/// without query and fragment of the URL, or the message of the parse error.
pub uninterp spec fn url_parse(text: Seq<char>) -> Result<(Seq<char>, Seq<char>, Seq<char>), Seq<char>>;

/// What `Url::join` gives for the URL parsed from `base` and a relative reference: the
/// joined URL's serialization, or the message of the parse error.
pub uninterp spec fn url_joined(base: Seq<char>, relative: Seq<char>) -> Result<Seq<char>, Seq<char>>;

/// A byte that `urlencoding::encode` keeps as it is: an ASCII letter or digit, or one of
/// `-`, `.`, `_`, `~`.
pub open spec fn is_unreserved_byte(b: u8) -> bool {
    (48 <= b <= 57) || (65 <= b <= 90) || (97 <= b <= 122) || b == 45 || b == 46 || b == 95 || b
        == 126
}

/// An upper-case hexadecimal digit of a value below 16.
pub open spec fn hex_digit(n: int) -> char {
    if n < 10 {
        ((n + 48) as u32) as char
    } else {
        ((n + 55) as u32) as char
    }
}

/// How one byte is written: as its character when unreserved, else `%` and two upper-case hex
/// digits.
pub open spec fn escaped_byte(b: u8) -> Seq<char> {
    if is_unreserved_byte(b) {
        seq![(b as u32) as char]
    } else {
        seq!['%', hex_digit((b / 16) as int), hex_digit((b % 16) as int)]
    }
}

/// Bytes percent-encoded one by one.
pub open spec fn percent_encoded(bytes: Seq<u8>) -> Seq<char>
    decreases bytes.len(),
{
    if bytes.len() == 0 {
        Seq::empty()
    } else {
        percent_encoded(bytes.drop_last()) + escaped_byte(bytes.last())
    }
}

/// A URL as the library keeps it: its serialization, its scheme, and the serialization
/// without query and fragment (the form written to logs).
#[derive(Debug, Clone)]
pub struct ParsedUrl {
    pub serialization: String,
    pub scheme: String,
    pub without_query: String,
}

impl ParsedUrl {
    pub open spec fn parts(&self) -> (Seq<char>, Seq<char>, Seq<char>) {
        (self.serialization@, self.scheme@, self.without_query@)
    }
}

/// `url::Url::parse`, with the URL converted to its serialization, its scheme (`Url::scheme`)
/// and its serialization up to the end of the path (`&url[..Position::AfterPath]`; for a URL
/// with a hierarchical path, such as every HTTP URL, this is what `set_query(None)` and
/// `set_fragment(None)` leave), and the error to its message.
#[verifier::external_body]
fn parse_url(text: &str) -> (r: Result<ParsedUrl, String>)
    ensures
        match r {
            Ok(p) => url_parse(text@) == Ok::<(Seq<char>, Seq<char>, Seq<char>), Seq<char>>(p.parts()),
            Err(e) => url_parse(text@) == Err::<(Seq<char>, Seq<char>, Seq<char>), Seq<char>>(e@),
        },
{
    match url::Url::parse(text) {
        Ok(u) => Ok(ParsedUrl {
            serialization: u.as_str().to_owned(),
            scheme: u.scheme().to_owned(),
            without_query: u[..url::Position::AfterPath].to_owned(),
        }),
        Err(e) => Err(e.to_string()),
    }
}

/// `url::Url::join` on the URL that `url::Url::parse` reads from `base`, with the result
/// converted to its serialization and a parse error (of either call) to its message.
#[verifier::external_body]
fn join_url(base: &str, relative: &str) -> (r: Result<String, String>)
    ensures
        match r {
            Ok(s) => url_joined(base@, relative@) == Ok::<Seq<char>, Seq<char>>(s@),
            Err(e) => url_joined(base@, relative@) == Err::<Seq<char>, Seq<char>>(e@),
        },
{
    match url::Url::parse(base).and_then(|b| b.join(relative)) {
        Ok(u) => Ok(u.as_str().to_owned()),
        Err(e) => Err(e.to_string()),
    }
}

/// `urlencoding::encode`: the text's UTF-8 bytes, each unreserved byte kept and every other
/// byte written as `%` and two upper-case hex digits.
#[verifier::external_body]
fn percent_encode(text: &str) -> (r: String)
    ensures
        r@ == percent_encoded(crate::tts::audio_cache::utf8(text@)),
{
    urlencoding::encode(text).into_owned()
}

/// The text a Files API endpoint is parsed from: trimmed, without trailing slashes.
pub open spec fn endpoint_text(raw: Seq<char>) -> Seq<char> {
    trim_end_char(trim(raw), '/')
}

/// Whether a scheme is one the Files API can be reached by.
pub open spec fn is_http_scheme(scheme: Seq<char>) -> bool {
    scheme == "http"@ || scheme == "https"@
}

/// What a parsed endpoint is accepted as: HTTP and HTTPS URLs are; a parse error is passed
/// on.
pub open spec fn accepted_endpoint(
    parsed: Result<(Seq<char>, Seq<char>, Seq<char>), Seq<char>>,
) -> Result<(Seq<char>, Seq<char>, Seq<char>), Seq<char>> {
    match parsed {
        Ok(p) => if is_http_scheme(p.1) {
            Ok(p)
        } else {
            Err("Files API URL must use HTTP or HTTPS"@)
        },
        Err(e) => Err(e),
    }
}

/// Accepts a parsed Files API URL only when it uses HTTP or HTTPS.
pub fn accept_endpoint(parsed: Result<ParsedUrl, String>) -> (r: Result<ParsedUrl, String>)
    ensures
        match (parsed, r) {
            (Ok(p), Ok(q)) => is_http_scheme(p.scheme@) && q.parts() == p.parts(),
            (Ok(p), Err(e)) => !is_http_scheme(p.scheme@) && e@
                == "Files API URL must use HTTP or HTTPS"@,
            (Err(e), Err(f)) => f@ == e@,
            (Err(_), Ok(_)) => false,
        },
{
    match parsed {
        Ok(p) => {
            if str_eq(p.scheme.as_str(), "http") || str_eq(p.scheme.as_str(), "https") {
                Ok(p)
            } else {
                Err("Files API URL must use HTTP or HTTPS".to_owned())
            }
        },
        Err(e) => Err(e),
    }
}

/// The Files API endpoint configured as `raw`: trimmed, without trailing slashes, parsed as
/// a URL, and accepted only with an HTTP or HTTPS scheme.
pub fn normalize_endpoint(raw: &str) -> (r: Result<ParsedUrl, String>)
    ensures
        match (r, accepted_endpoint(url_parse(endpoint_text(raw@)))) {
            (Ok(p), Ok(q)) => p.parts() == q,
            (Err(e), Err(f)) => e@ == f,
            _ => false,
        },
{
    let trimmed_raw = trimmed(raw);
    let text = trim_end_matches_char(trimmed_raw.as_str(), '/');
    let parsed = parse_url(text.as_str());
    accept_endpoint(parsed)
}

/// The endpoint as written to logs: without query and fragment, so that no credential in
/// them is logged.
pub fn sanitized_url(url: &ParsedUrl) -> (r: String)
    ensures
        r@ == url.without_query@,
{
    url.without_query.clone()
}

/// The base that file ids are resolved against: the endpoint without trailing slashes, then
/// one slash.
pub open spec fn file_base(endpoint: Seq<char>) -> Seq<char> {
    trim_end_char(endpoint, '/') + "/"@
}

/// The URL of an uploaded file: its percent-encoded id resolved against the endpoint taken
/// as a directory.
pub fn file_url(endpoint: &ParsedUrl, file_id: &str) -> (r: Result<String, String>)
    ensures
        match (r, url_joined(
            file_base(endpoint.serialization@),
            percent_encoded(crate::tts::audio_cache::utf8(file_id@)),
        )) {
            (Ok(s), Ok(t)) => s@ == t,
            (Err(e), Err(f)) => e@ == f,
            _ => false,
        },
{
    let mut base = trim_end_matches_char(endpoint.serialization.as_str(), '/');
    push_str(&mut base, "/");
    let encoded = percent_encode(file_id);
    join_url(base.as_str(), encoded.as_str())
}

} // verus!
