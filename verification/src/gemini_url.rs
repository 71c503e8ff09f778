//! Request URL parsing.
//!
//! A request line that carries no scheme delimiter first gets the protocol's
//! default scheme put in front of it. The line is then parsed by generic URL
//! syntax rules; the parse is accepted only when the scheme is exactly
//! `gemini` and a host is present. A missing port defaults to 1965 and an
//! empty path to `/`.

use vstd::prelude::*;
use vstd::utf8::{decode_utf8, valid_utf8};

use crate::GeminiError;
use crate::text::{dec_digits, push_decimal, str_eq};

verus! {

/// Whether a character has the Unicode `White_Space` property, the notion of
/// whitespace that `str::trim` strips.
pub uninterp spec fn is_unicode_whitespace(c: char) -> bool;

/// What `str::trim` returns for a string.
pub uninterp spec fn trimmed_of(s: Seq<char>) -> Seq<char>;

/// `r` is a contiguous piece of `s` with only `White_Space` outside it.
pub open spec fn whitespace_trimmed(s: Seq<char>, r: Seq<char>) -> bool {
    exists|i: int, j: int|
        0 <= i <= j <= s.len() && r == #[trigger] s.subrange(i, j) && (forall|k: int|
            0 <= k < i ==> is_unicode_whitespace(s[k])) && (forall|k: int|
            j <= k < s.len() ==> is_unicode_whitespace(s[k]))
}

/// Relies on `str::trim`: the result is the input without its leading and
/// trailing `White_Space` characters, a function of the input alone.
#[verifier::external_body]
fn trim_line(s: &str) -> (r: &str)
    ensures
        r@ == trimmed_of(s@),
        whitespace_trimmed(s@, r@),
        r@.len() > 0 ==> !is_unicode_whitespace(r@[0]) && !is_unicode_whitespace(
            r@[r@.len() - 1],
        ),
{
    s.trim()
}

/// Relies on `String::from_utf8`: it succeeds exactly on UTF-8 input, and
/// decodes the bytes to their character sequence.
#[verifier::external_body]
fn decode_request_bytes(bytes: Vec<u8>) -> (r: Option<String>)
    ensures
        (r is Some) == valid_utf8(bytes@),
        r matches Some(s) ==> s@ == decode_utf8(bytes@),
{
    match String::from_utf8(bytes) {
        Ok(s) => Some(s),
        Err(_) => None,
    }
}

/// Whether `url::Url::parse` accepts the string as an absolute URL.
pub uninterp spec fn url_parse_succeeds(s: Seq<char>) -> bool;

/// The scheme of the parsed URL.
pub uninterp spec fn url_scheme(s: Seq<char>) -> Seq<char>;

/// The host of the parsed URL, when it has one.
pub uninterp spec fn url_host(s: Seq<char>) -> Option<Seq<char>>;

/// The explicit port of the parsed URL, when it carries one.
pub uninterp spec fn url_port(s: Seq<char>) -> Option<u16>;

/// The path of the parsed URL.
pub uninterp spec fn url_path(s: Seq<char>) -> Seq<char>;

/// The pieces of a parsed URL that this protocol reads.
struct UrlParts {
    scheme: String,
    host: Option<String>,
    port: Option<u16>,
    path: String,
}

/// Relies on `url::Url::parse` and its accessors `scheme`, `host_str`,
/// `port` and `path`: the parse is a function of the input string alone, and
/// the path of a URL that has a host is empty or begins with a `/` (the
/// crate documents that only URLs without a host carry paths of any other
/// shape).
#[verifier::external_body]
fn parse_with_url_crate(input: &str) -> (r: Option<UrlParts>)
    ensures
        (r is Some) == url_parse_succeeds(input@),
        r matches Some(p) ==> {
            &&& p.scheme@ == url_scheme(input@)
            &&& (p.host is Some <==> url_host(input@) is Some)
            &&& (p.host matches Some(h) ==> url_host(input@) == Some(h@))
            &&& p.port == url_port(input@)
            &&& p.path@ == url_path(input@)
            &&& (p.host is Some ==> p.path@.len() == 0 || p.path@[0] == '/')
        },
{
    match url::Url::parse(input) {
        Ok(u) => Some(
            UrlParts {
                scheme: u.scheme().to_string(),
                host: u.host_str().map(|h| h.to_string()),
                port: u.port(),
                path: u.path().to_string(),
            },
        ),
        Err(_) => None,
    }
}

/// Whether `s` holds the scheme delimiter `://` anywhere.
pub open spec fn has_scheme_delim(s: Seq<char>) -> bool {
    exists|i: int|
        0 <= i && i + 3 <= s.len() && #[trigger] s[i] == ':' && s[i + 1] == '/' && s[i + 2] == '/'
}

/// The request line as handed to the URL parser: unchanged when it already
/// holds a scheme delimiter, and behind the default scheme otherwise.
pub open spec fn with_default_scheme(s: Seq<char>) -> Seq<char> {
    if has_scheme_delim(s) {
        s
    } else {
        "gemini://"@ + s
    }
}

/// Scans for the scheme delimiter `://`.
fn find_scheme_delim(s: &str) -> (r: bool)
    ensures
        r == has_scheme_delim(s@),
{
    let n = s.unicode_len();
    if n < 3 {
        return false;
    }
    let mut i: usize = 0;
    while i < n - 2
        invariant
            n == s@.len(),
            3 <= n,
            0 <= i <= n - 2,
            forall|k: int|
                0 <= k < i ==> !(#[trigger] s@[k] == ':' && s@[k + 1] == '/' && s@[k + 2] == '/'),
        decreases n - i,
    {
        if s.get_char(i) == ':' && s.get_char(i + 1) == '/' && s.get_char(i + 2) == '/' {
            return true;
        }
        i += 1;
    }
    false
}

/// A parse of `t` succeeds with `u`: the URL syntax accepted `t`, the scheme
/// is the protocol's own, a host is present, the port is no zero, and port
/// and path carry their defaults where `t` does not give them.
pub open spec fn parsed_from(u: GeminiUrl, t: Seq<char>) -> bool {
    &&& url_parse_succeeds(t)
    &&& url_scheme(t) == "gemini"@
    &&& url_host(t) is Some
    &&& url_port(t) != Some(0u16)
    &&& u.scheme@ == url_scheme(t)
    &&& Some(u.hostname@) == url_host(t)
    &&& u.port == (match url_port(t) {
        Some(p) => p,
        None => 1965u16,
    })
    &&& u.path@ == (if url_path(t).len() == 0 {
        "/"@
    } else {
        url_path(t)
    })
}

/// A parse of `t` is rejected: the URL syntax refused it, or its scheme is
/// not the protocol's, or it has no host, or it names the port zero, which
/// no valid port number is.
pub open spec fn parse_rejected(t: Seq<char>) -> bool {
    ||| !url_parse_succeeds(t)
    ||| url_scheme(t) != "gemini"@
    ||| url_host(t) is None
    ||| url_port(t) == Some(0u16)
}

/// A parsed protocol URL. After a successful parse the scheme is always the
/// protocol's own, a host is present, and the path begins with a `/`.
#[derive(Debug)]
pub struct GeminiUrl {
    pub scheme: String,
    pub hostname: String,
    pub port: u16,
    pub path: String,
}

impl GeminiUrl {
    /// The shape every parsed URL has: the protocol's scheme, a port in
    /// 1–65535, and an absolute path.
    pub open spec fn wf(self) -> bool {
        &&& self.scheme@ == "gemini"@
        &&& self.port >= 1
        &&& self.path@.len() > 0
        &&& self.path@[0] == '/'
    }

    /// Parses a request line. The default scheme is put in front when the
    /// line carries no `://`; the parse must then yield the scheme `gemini`,
    /// a host, and no explicit port zero, else the request is invalid. The
    /// port defaults to 1965 and the path to `/`.
    pub fn new(input: &str) -> (r: Result<GeminiUrl, GeminiError>)
        ensures
            ({
                let t = with_default_scheme(input@);
                match r {
                    Ok(u) => parsed_from(u, t) && u.wf(),
                    Err(e) => e == GeminiError::InvalidRequest && parse_rejected(t),
                }
            }),
    {
        let line = if find_scheme_delim(input) {
            input.to_owned()
        } else {
            let mut prefixed = String::from_str("gemini://");
            prefixed.append(input);
            prefixed
        };
        let parts = match parse_with_url_crate(line.as_str()) {
            Some(p) => p,
            None => {
                return Err(GeminiError::InvalidRequest);
            },
        };
        if !str_eq(parts.scheme.as_str(), "gemini") {
            return Err(GeminiError::InvalidRequest);
        }
        let hostname = match parts.host {
            Some(h) => h,
            None => {
                return Err(GeminiError::InvalidRequest);
            },
        };
        let port = match parts.port {
            Some(p) => {
                if p == 0 {
                    return Err(GeminiError::InvalidRequest);
                }
                p
            },
            None => 1965,
        };
        let path = if parts.path.as_str().unicode_len() == 0 {
            let slash = String::from_str("/");
            proof {
                reveal_strlit("/");
                assert(slash@ =~= seq!['/']);
            }
            slash
        } else {
            parts.path
        };
        Ok(GeminiUrl { scheme: parts.scheme, hostname, port, path })
    }

    /// Turns the raw bytes of one request read into a parsed URL. A read
    /// that filled its whole buffer may have cut the request short, so the
    /// caller passes that as `truncated` and the request is then invalid;
    /// otherwise the bytes must be UTF-8, the text loses its surrounding
    /// whitespace, and the line is parsed as [`Self::new`] states.
    pub fn parse_request(bytes: Vec<u8>, truncated: bool) -> (r: Result<GeminiUrl, GeminiError>)
        ensures
            ({
                let t = with_default_scheme(trimmed_of(decode_utf8(bytes@)));
                match r {
                    Ok(u) => !truncated && valid_utf8(bytes@) && parsed_from(u, t) && u.wf(),
                    Err(e) => e == GeminiError::InvalidRequest && (truncated || !valid_utf8(
                        bytes@,
                    ) || parse_rejected(t)),
                }
            }),
    {
        if truncated {
            return Err(GeminiError::InvalidRequest);
        }
        let text = match decode_request_bytes(bytes) {
            Some(s) => s,
            None => {
                return Err(GeminiError::InvalidRequest);
            },
        };
        let line = trim_line(text.as_str());
        GeminiUrl::new(line)
    }

    /// The URL written back out as text: the scheme, `://`, the hostname,
    /// `:`, the port in decimal, and the path.
    pub fn render(&self) -> (s: String)
        ensures
            s@ == self.scheme@ + "://"@ + self.hostname@ + ":"@ + dec_digits(self.port as nat)
                + self.path@,
    {
        let mut s = self.scheme.clone();
        s.append("://");
        s.append(self.hostname.as_str());
        s.append(":");
        push_decimal(&mut s, self.port);
        s.append(self.path.as_str());
        s
    }
}

} // verus!
