//! Response construction and wire framing.
//!
//! A resolved candidate path is served only when it is a regular file whose
//! extension stands in the fixed allow-list (`gmi`, `jpg`, `jpeg`, `png`);
//! everything else is answered with status 51 and no body. A response is
//! framed as a header line `<status>[\t<mime>]\r\n` followed by the raw body
//! bytes; the body's end is the connection's end.

use vstd::prelude::*;
use vstd::utf8::is_ascii_chars;

use crate::GeminiError;
use crate::text::str_eq;

verus! {

/// The characters after the last `/`: the file name of a path.
pub open spec fn after_last_slash(p: Seq<char>) -> Seq<char>
    decreases p.len(),
{
    if p.len() == 0 {
        Seq::empty()
    } else if p.last() == '/' {
        Seq::empty()
    } else {
        after_last_slash(p.drop_last()).push(p.last())
    }
}

/// The characters after the last `.`, or `None` when there is no `.` at all.
pub open spec fn after_last_dot(s: Seq<char>) -> Option<Seq<char>>
    decreases s.len(),
{
    if s.len() == 0 {
        None
    } else if s.last() == '.' {
        Some(Seq::empty())
    } else {
        match after_last_dot(s.drop_last()) {
            Some(e) => Some(e.push(s.last())),
            None => None,
        }
    }
}

/// The extension of a path: what follows the last `.` of its file name,
/// where a `.` opening the file name does not count and a path without a
/// file name has no extension.
pub open spec fn extension_of(p: Seq<char>) -> Option<Seq<char>> {
    let name = after_last_slash(p);
    if name.len() == 0 {
        None
    } else {
        after_last_dot(name.drop_first())
    }
}

/// The fixed extension allow-list: `gmi`, `jpg`, `jpeg` and `png` map to
/// their MIME types; every other extension, and a missing one, to nothing.
pub open spec fn mime_for_path(p: Seq<char>) -> Option<Seq<char>> {
    match extension_of(p) {
        Some(e) => if e == "gmi"@ {
            Some("text/gemini"@)
        } else if e == "jpg"@ || e == "jpeg"@ {
            Some("image/jpeg"@)
        } else if e == "png"@ {
            Some("image/png"@)
        } else {
            None
        },
        None => None,
    }
}

/// The bytes of an ASCII character sequence, one byte per character.
pub open spec fn ascii_bytes(s: Seq<char>) -> Seq<u8> {
    Seq::new(s.len(), |i: int| s[i] as u8)
}

/// The response header line: the status code as two decimal digits, a tab
/// and the MIME type when one is present, then a carriage return and a line
/// feed.
pub open spec fn header_bytes(code: u8, mime: Option<Seq<char>>) -> Seq<u8> {
    seq![(48 + code as int / 10) as u8, (48 + code as int % 10) as u8] + (match mime {
        Some(m) => seq![9u8] + ascii_bytes(m),
        None => Seq::empty(),
    }) + seq![13u8, 10u8]
}

proof fn lemma_after_last_slash_at(p: Seq<char>, m: int)
    requires
        -1 <= m < p.len(),
        forall|k: int| m < k < p.len() ==> p[k] != '/',
        m >= 0 ==> p[m] == '/',
    ensures
        after_last_slash(p) == p.skip(m + 1),
    decreases p.len(),
{
    if p.len() == 0 {
        assert(p.skip(m + 1) =~= Seq::empty());
    } else if m == p.len() - 1 {
        assert(p.skip(m + 1) =~= Seq::empty());
    } else {
        assert(p.last() != '/');
        lemma_after_last_slash_at(p.drop_last(), m);
        assert(after_last_slash(p.drop_last()).push(p.last()) =~= p.skip(m + 1));
    }
}

proof fn lemma_after_last_dot_at(s: Seq<char>, d: int)
    requires
        -1 <= d < s.len(),
        forall|k: int| d < k < s.len() ==> s[k] != '.',
        d >= 0 ==> s[d] == '.',
    ensures
        after_last_dot(s) == (if d < 0 {
            None
        } else {
            Some(s.skip(d + 1))
        }),
    decreases s.len(),
{
    if s.len() == 0 {
    } else if s.last() == '.' {
        assert(d == s.len() - 1);
        assert(s.skip(d + 1) =~= Seq::empty());
    } else {
        lemma_after_last_dot_at(s.drop_last(), d);
        if d >= 0 {
            assert(s.drop_last().skip(d + 1).push(s.last()) =~= s.skip(d + 1));
        }
    }
}

/// The extension of `path`, as [`extension_of`] states it.
fn find_extension<'a>(path: &'a str) -> (r: Option<&'a str>)
    ensures
        match r {
            Some(e) => extension_of(path@) == Some(e@),
            None => extension_of(path@) is None,
        },
{
    let n = path.unicode_len();
    let mut has_slash = false;
    let mut slash_end: usize = 0;
    let mut k = n;
    while k > 0
        invariant
            n == path@.len(),
            0 <= k <= n,
            !has_slash ==> forall|j: int| k <= j < n ==> path@[j] != '/',
            has_slash ==> 1 <= slash_end <= n && path@[slash_end - 1] == '/' && forall|j: int|
                slash_end <= j < n ==> path@[j] != '/',
        decreases k,
    {
        k -= 1;
        if !has_slash && path.get_char(k) == '/' {
            has_slash = true;
            slash_end = k + 1;
        }
    }
    let name_start: usize = if has_slash {
        slash_end
    } else {
        0
    };
    proof {
        lemma_after_last_slash_at(path@, name_start as int - 1);
    }
    if name_start == n {
        return None;
    }
    let mut has_dot = false;
    let mut dot: usize = 0;
    let mut k2 = n;
    while k2 > name_start + 1
        invariant
            n == path@.len(),
            name_start + 1 <= k2 <= n || k2 == n,
            name_start < n,
            !has_dot ==> forall|j: int| k2 <= j < n ==> path@[j] != '.',
            has_dot ==> name_start + 1 <= dot < n && path@[dot as int] == '.' && forall|j: int|
                dot < j < n ==> path@[j] != '.',
        decreases k2,
    {
        k2 -= 1;
        if !has_dot && path.get_char(k2) == '.' {
            has_dot = true;
            dot = k2;
        }
    }
    let ghost name = path@.skip(name_start as int);
    let ghost tail = name.drop_first();
    proof {
        assert(tail =~= path@.skip(name_start + 1));
    }
    if has_dot {
        let e = path.substring_char(dot + 1, n);
        proof {
            lemma_after_last_dot_at(tail, dot - name_start - 1);
            assert(tail.skip(dot - name_start) =~= path@.skip(dot + 1));
            assert(e@ =~= path@.skip(dot + 1));
        }
        Some(e)
    } else {
        proof {
            lemma_after_last_dot_at(tail, -1);
        }
        None
    }
}

/// The response owed for a candidate path: `r` is the not-found status when
/// the path is no regular file or its extension falls outside the allow-list;
/// it is the success status carrying the matched MIME type and the file's
/// bytes otherwise; and it is the read-failure error exactly when those bytes
/// are owed and missing.
pub open spec fn response_decision(
    candidate: Seq<char>,
    is_file: bool,
    data: Option<Vec<u8>>,
    r: Result<GeminiResponse, GeminiError>,
) -> bool {
    match r {
        Ok(resp) => resp.wf() && if !is_file || mime_for_path(candidate) is None {
            &&& resp.code == 51
            &&& resp.mime_type is None
            &&& resp.data is None
        } else {
            &&& resp.code == 20
            &&& (resp.mime_type matches Some(m) && Some(m@) == mime_for_path(candidate))
            &&& (resp.data matches Some(d) && Some(d@) == (match data {
                Some(b) => Some(b@),
                None => None,
            }))
        },
        Err(e) => e == GeminiError::FileReadError && is_file && mime_for_path(candidate) is Some
            && data is None,
    }
}

/// A wire response: a two-digit status, an optional MIME type, an optional
/// body.
#[derive(Debug)]
pub struct GeminiResponse {
    pub code: u8,
    pub mime_type: Option<String>,
    pub data: Option<Vec<u8>>,
}

impl GeminiResponse {
    /// The shapes this server sends: success with an ASCII MIME type, or a
    /// bare not-found status.
    pub open spec fn wf(self) -> bool {
        &&& self.code == 20 || self.code == 51
        &&& (self.mime_type matches Some(m) ==> is_ascii_chars(m@))
        &&& (self.code == 51 ==> self.mime_type is None && self.data is None)
        &&& (self.code == 20 ==> self.mime_type is Some && self.data is Some)
    }

    /// The bytes this response puts on the wire: the header line, then the
    /// body when there is one.
    pub open spec fn spec_bytes(self) -> Seq<u8> {
        header_bytes(
            self.code,
            match self.mime_type {
                Some(m) => Some(m@),
                None => None,
            },
        ) + (match self.data {
            Some(d) => d@,
            None => Seq::empty(),
        })
    }

    /// The not-found response: status 51, no MIME type, no body.
    pub fn not_found() -> (r: GeminiResponse)
        ensures
            r.wf(),
            r.code == 51,
            r.mime_type is None,
            r.data is None,
    {
        GeminiResponse { code: 51, mime_type: None, data: None }
    }

    /// A success response: status 20 with the given MIME type and body.
    pub fn success(mime: String, data: Vec<u8>) -> (r: GeminiResponse)
        requires
            is_ascii_chars(mime@),
        ensures
            r.wf(),
            r.code == 20,
            r.mime_type matches Some(m) && m@ == mime@,
            r.data matches Some(d) && d@ == data@,
    {
        GeminiResponse { code: 20, mime_type: Some(mime), data: Some(data) }
    }

    /// The MIME type for a candidate path, strictly from its extension via
    /// the fixed allow-list.
    pub fn guess_mime_type(path: &str) -> (r: Option<String>)
        ensures
            match r {
                Some(m) => mime_for_path(path@) == Some(m@) && is_ascii_chars(m@),
                None => mime_for_path(path@) is None,
            },
    {
        let e = match find_extension(path) {
            Some(e) => e,
            None => {
                return None;
            },
        };
        if str_eq(e, "gmi") {
            let m = String::from_str("text/gemini");
            proof {
                reveal_strlit("text/gemini");
                assert(is_ascii_chars(m@));
            }
            Some(m)
        } else if str_eq(e, "jpg") || str_eq(e, "jpeg") {
            let m = String::from_str("image/jpeg");
            proof {
                reveal_strlit("image/jpeg");
                assert(is_ascii_chars(m@));
            }
            Some(m)
        } else if str_eq(e, "png") {
            let m = String::from_str("image/png");
            proof {
                reveal_strlit("image/png");
                assert(is_ascii_chars(m@));
            }
            Some(m)
        } else {
            None
        }
    }

    /// Builds the response for a candidate path. A path that is no regular
    /// file, or whose extension falls outside the allow-list, is answered
    /// with the not-found status; otherwise the file's bytes are served
    /// under the matched MIME type, and their absence is a read failure.
    pub fn new(candidate_path: &str, is_file: bool, data: Option<Vec<u8>>) -> (r: Result<
        GeminiResponse,
        GeminiError,
    >)
        ensures
            response_decision(candidate_path@, is_file, data, r),
    {
        if !is_file {
            return Ok(Self::not_found());
        }
        let mime = match Self::guess_mime_type(candidate_path) {
            Some(m) => m,
            None => {
                return Ok(Self::not_found());
            },
        };
        match data {
            Some(d) => Ok(Self::success(mime, d)),
            None => Err(GeminiError::FileReadError),
        }
    }

    /// The response for a whole resolution outcome: a failed resolution (a
    /// traversal) folds into the not-found status and never aborts the
    /// connection; a resolved candidate is answered as [`Self::new`] states.
    pub fn from_resolution(
        resolution: Result<String, GeminiError>,
        is_file: bool,
        data: Option<Vec<u8>>,
    ) -> (r: Result<GeminiResponse, GeminiError>)
        ensures
            match resolution {
                Ok(p) => response_decision(p@, is_file, data, r),
                Err(_) => r matches Ok(resp) && resp.wf() && resp.code == 51 && resp.mime_type
                    is None && resp.data is None,
            },
    {
        match resolution {
            Ok(candidate) => Self::new(candidate.as_str(), is_file, data),
            Err(_) => Ok(Self::not_found()),
        }
    }

    /// Encodes the response for the wire, exactly as [`Self::spec_bytes`]
    /// states.
    pub fn get_bytes(&self) -> (r: Vec<u8>)
        requires
            self.wf(),
        ensures
            r@ == self.spec_bytes(),
    {
        let mut out: Vec<u8> = Vec::new();
        out.push(48 + self.code / 10);
        out.push(48 + self.code % 10);
        match &self.mime_type {
            Some(m) => {
                out.push(9);
                let ms = m.as_str();
                let mb = ms.as_bytes_vec();
                proof {
                    vstd::string::is_ascii_spec_bytes(ms);
                    assert(mb@ =~= ascii_bytes(m@));
                }
                let ghost mid = out@;
                let mut i: usize = 0;
                while i < mb.len()
                    invariant
                        0 <= i <= mb.len(),
                        out@ == mid + mb@.take(i as int),
                    decreases mb.len() - i,
                {
                    out.push(mb[i]);
                    proof {
                        assert(mid + mb@.take(i + 1) =~= (mid + mb@.take(i as int)).push(
                            mb@[i as int],
                        ));
                    }
                    i += 1;
                }
                proof {
                    assert(mb@.take(mb@.len() as int) =~= mb@);
                }
            },
            None => {},
        }
        out.push(13);
        out.push(10);
        match &self.data {
            Some(d) => {
                let ghost mid = out@;
                let mut i: usize = 0;
                while i < d.len()
                    invariant
                        0 <= i <= d.len(),
                        out@ == mid + d@.take(i as int),
                    decreases d.len() - i,
                {
                    out.push(d[i]);
                    proof {
                        assert(mid + d@.take(i + 1) =~= (mid + d@.take(i as int)).push(
                            d@[i as int],
                        ));
                    }
                    i += 1;
                }
                proof {
                    assert(d@.take(d@.len() as int) =~= d@);
                }
            },
            None => {},
        }
        proof {
            assert(out@ =~= self.spec_bytes());
        }
        out
    }
}

} // verus!
