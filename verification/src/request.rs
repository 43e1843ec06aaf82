//! Decoding a raw byte buffer into a structured request: the request line
//! split on single spaces into method and path, a header block up to the
//! first blank line, and everything after that blank line as the body,
//! verbatim.

use vstd::prelude::*;
use vstd::utf8::{decode_utf8, valid_utf8};

use crate::headers::{spec_insert, HeaderMap};
use crate::strutil::{
    find_char, find_char_exec, find_pair, find_pair_exec, join_crlf, join_crlf_from, split_crlf,
    split_crlf_exec, strip_padding, strip_padding_exec,
};

verus! {

/// Why a byte buffer could not be decoded into a request.
#[derive(Debug, Clone, Copy, PartialEq, Eq, Structural)]
pub enum DecodeError {
    /// The bytes are not valid UTF-8 text.
    InvalidEncoding,
    /// The request line has no path: it holds no space after the method.
    MissingPath,
}

/// One parsed request.
#[derive(Debug, PartialEq)]
pub struct Request {
    pub method: String,
    pub path: String,
    pub headers: HeaderMap,
    pub body: String,
}

/// The mathematical content of a request.
pub ghost struct ReqView {
    pub method: Seq<char>,
    pub path: Seq<char>,
    pub headers: Seq<(Seq<char>, Seq<char>)>,
    pub body: Seq<char>,
}

impl View for Request {
    type V = ReqView;

    open spec fn view(&self) -> ReqView {
        ReqView {
            method: self.method@,
            path: self.path@,
            headers: self.headers@,
            body: self.body@,
        }
    }
}

/// The least index >= 1 of an empty line, or -1 when none exists: where the
/// header block ends.
pub open spec fn first_blank(lines: Seq<Seq<char>>) -> int {
    first_blank_from(lines, 1)
}

pub open spec fn first_blank_from(lines: Seq<Seq<char>>, i: int) -> int
    decreases lines.len() - i,
{
    if i < 1 || i >= lines.len() {
        -1
    } else if lines[i].len() == 0 {
        i
    } else {
        first_blank_from(lines, i + 1)
    }
}

/// The header lines: everything between the request line and the first blank
/// line (or the end, when no blank line occurs).
pub open spec fn header_lines(lines: Seq<Seq<char>>) -> Seq<Seq<char>> {
    let b = first_blank(lines);
    if b < 0 {
        lines.skip(1)
    } else {
        lines.subrange(1, b)
    }
}

/// The body lines: everything after the first blank line; nothing when no
/// blank line occurs.
pub open spec fn body_lines(lines: Seq<Seq<char>>) -> Seq<Seq<char>> {
    let b = first_blank(lines);
    if b < 0 {
        Seq::empty()
    } else {
        lines.skip(b + 1)
    }
}

/// The header map built from the given lines, in order. A line of the form
/// `key: value` is inserted; a line without `: ` is silently skipped.
pub open spec fn headers_of(ls: Seq<Seq<char>>) -> Seq<(Seq<char>, Seq<char>)>
    decreases ls.len(),
{
    if ls.len() == 0 {
        Seq::empty()
    } else {
        let rest = headers_of(ls.drop_last());
        let line = ls.last();
        let i = find_pair(line, ':', ' ');
        if i < 0 {
            rest
        } else {
            spec_insert(rest, line.take(i), line.skip(i + 2))
        }
    }
}

/// What parsing a character sequence yields. The text is first stripped of
/// trailing NUL padding, then split on `\r\n`; the first line is split on
/// single spaces into method and path (the version, and anything beyond it,
/// is ignored); parsing fails exactly when that line holds no space.
pub open spec fn spec_parse(raw: Seq<char>) -> Result<ReqView, DecodeError> {
    let s = strip_padding(raw);
    let lines = split_crlf(s);
    let line0 = lines[0];
    let f = find_char(line0, ' ');
    if f < 0 {
        Err(DecodeError::MissingPath)
    } else {
        let rest = line0.skip(f + 1);
        let g = find_char(rest, ' ');
        Ok(
            ReqView {
                method: line0.take(f),
                path: if g < 0 {
                    rest
                } else {
                    rest.take(g)
                },
                headers: headers_of(header_lines(lines)),
                body: join_crlf(body_lines(lines)),
            },
        )
    }
}

/// What decoding a byte buffer yields: the bytes must be valid UTF-8 text,
/// which is then parsed.
pub open spec fn spec_decode(bytes: Seq<u8>) -> Result<ReqView, DecodeError> {
    if !valid_utf8(bytes) {
        Err(DecodeError::InvalidEncoding)
    } else {
        spec_parse(decode_utf8(bytes))
    }
}

/// Relies on std's str::from_utf8: it returns the decoded text exactly when
/// the bytes are valid UTF-8, and an error otherwise.
#[verifier::external_body]
fn utf8_to_string(data: &[u8]) -> (r: Option<String>)
    ensures
        r is Some <==> valid_utf8(data@),
        r matches Some(s) ==> s@ == decode_utf8(data@),
{
    match std::str::from_utf8(data) {
        Ok(s) => Some(s.to_owned()),
        Err(_) => None,
    }
}

impl Request {
    /// Decodes one byte buffer, read whole from a connection, into a request.
    pub fn from_utf8(data: &[u8]) -> (r: Result<Request, DecodeError>)
        ensures
            r is Ok <==> spec_decode(data@) is Ok,
            r is Ok ==> r->Ok_0@ == spec_decode(data@)->Ok_0,
            r is Err ==> r->Err_0 == spec_decode(data@)->Err_0,
    {
        match utf8_to_string(data) {
            None => Err(DecodeError::InvalidEncoding),
            Some(s) => Request::parse(s),
        }
    }

    /// Parses request text into a request.
    pub fn parse(data: String) -> (r: Result<Request, DecodeError>)
        ensures
            r is Ok <==> spec_parse(data@) is Ok,
            r is Ok ==> r->Ok_0@ == spec_parse(data@)->Ok_0,
            r is Err ==> r->Err_0 == spec_parse(data@)->Err_0,
    {
        let stripped = strip_padding_exec(data.as_str());
        let lines = split_crlf_exec(stripped.as_str());
        proof {
            crate::strutil::lemma_split_crlf_len(stripped@);
            assert(lines.deep_view()[0] == lines@[0]@);
        }
        let line0: &String = &lines[0];
        let n0 = line0.as_str().unicode_len();
        let f = match find_char_exec(line0.as_str(), ' ') {
            None => {
                return Err(DecodeError::MissingPath);
            },
            Some(f) => f,
        };
        proof {
            crate::strutil::lemma_find_char(line0@, ' ');
        }
        let method = line0.as_str().substring_char(0, f).to_owned();
        let rest = line0.as_str().substring_char(f + 1, n0);
        let path = match find_char_exec(rest, ' ') {
            None => rest.to_owned(),
            Some(g) => {
                proof {
                    crate::strutil::lemma_find_char(rest@, ' ');
                }
                rest.substring_char(0, g).to_owned()
            },
        };
        let headers = Self::parse_headers(&lines);
        let body = Self::parse_body(&lines);
        Ok(Request { method, path, headers, body })
    }

    /// Builds the header map from the lines between the request line and the
    /// first blank line.
    fn parse_headers(lines: &Vec<String>) -> (h: HeaderMap)
        requires
            lines@.len() >= 1,
        ensures
            h@ == headers_of(header_lines(lines.deep_view())),
    {
        let hend = Self::find_blank(lines).unwrap_or(lines.len());
        let ghost hls = header_lines(lines.deep_view());
        proof {
            assert(hls =~= lines.deep_view().subrange(1, hend as int));
        }
        let mut h = HeaderMap::new();
        let mut i: usize = 1;
        proof {
            assert(hls.subrange(0, 0) =~= Seq::<Seq<char>>::empty());
        }
        while i < hend
            invariant
                1 <= i <= hend <= lines@.len(),
                hls == lines.deep_view().subrange(1, hend as int),
                h@ == headers_of(hls.subrange(0, i - 1)),
            decreases hend - i,
        {
            let line = &lines[i];
            proof {
                assert(hls.subrange(0, i as int).drop_last() =~= hls.subrange(0, i - 1));
                assert(hls.subrange(0, i as int).last() == line@);
            }
            match find_pair_exec(line.as_str(), ':', ' ') {
                Some(p) => {
                    proof {
                        crate::strutil::lemma_find_pair(line@, ':', ' ');
                    }
                    let ln = line.as_str().unicode_len();
                    let k = line.as_str().substring_char(0, p);
                    let v = line.as_str().substring_char(p + 2, ln);
                    h.insert(k, v);
                },
                None => {},
            }
            i = i + 1;
        }
        proof {
            assert(hls.subrange(0, hend - 1) =~= hls);
        }
        h
    }

    /// Joins the lines after the first blank line back into the body.
    fn parse_body(lines: &Vec<String>) -> (b: String)
        ensures
            b@ == join_crlf(body_lines(lines.deep_view())),
    {
        match Self::find_blank(lines) {
            None => String::new(),
            Some(bi) => {
                let n = lines.len();
                let b = join_crlf_from(lines, bi + 1);
                proof {
                    assert(body_lines(lines.deep_view()) =~= lines.deep_view().skip(bi + 1));
                }
                b
            },
        }
    }

    /// The index of the first empty line after the request line, if any.
    fn find_blank(lines: &Vec<String>) -> (r: Option<usize>)
        ensures
            match r {
                Some(b) => first_blank(lines.deep_view()) == b as int && 1 <= b < lines@.len(),
                None => first_blank(lines.deep_view()) == -1,
            },
    {
        let mut i: usize = 1;
        while i < lines.len()
            invariant
                1 <= i,
                first_blank_from(lines.deep_view(), i as int) == first_blank(lines.deep_view()),
            decreases lines@.len() - i,
        {
            if lines[i].as_str().is_empty() {
                return Some(i);
            }
            i = i + 1;
        }
        None
    }
}

/// Decoding is deterministic, so it is idempotent: what a byte buffer decodes
/// to is a function of the bytes alone, and decoding the same buffer twice
/// yields structurally equal requests.
pub proof fn law_decode_deterministic(
    bytes: Seq<u8>,
    r1: Result<ReqView, DecodeError>,
    r2: Result<ReqView, DecodeError>,
)
    requires
        r1 == spec_decode(bytes),
        r2 == spec_decode(bytes),
    ensures
        r1 == r2,
{
}

} // verus!
