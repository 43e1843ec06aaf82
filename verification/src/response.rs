//! Responses and their wire encoding: a status line, `key: value` header
//! lines, a blank separator line exactly when headers exist, the body's
//! textual form, and a trailing line separator.

use vstd::prelude::*;
use vstd::utf8::encode_utf8;

use crate::headers::{spec_insert, HeaderMap};
use crate::strutil::{dec_str, u64_to_string};

verus! {

/// A response body: plain text, or key-value pairs rendered as a JSON object.
#[derive(Debug, PartialEq)]
pub enum Body {
    Text(String),
    Pairs(Vec<(String, String)>),
}

/// The mathematical content of a body.
pub ghost enum BodyView {
    Text(Seq<char>),
    Pairs(Seq<(Seq<char>, Seq<char>)>),
}

impl View for Body {
    type V = BodyView;

    open spec fn view(&self) -> BodyView {
        match self {
            Body::Text(s) => BodyView::Text(s@),
            Body::Pairs(p) => BodyView::Pairs(p.deep_view()),
        }
    }
}

/// One response, built by a handler and consumed once by the encoder.
#[derive(Debug, PartialEq)]
pub struct Response {
    code: u16,
    data: Option<Body>,
    headers: HeaderMap,
}

/// The mathematical content of a response.
pub ghost struct RespView {
    pub code: u16,
    pub data: Option<BodyView>,
    pub headers: Seq<(Seq<char>, Seq<char>)>,
}

impl View for Response {
    type V = RespView;

    closed spec fn view(&self) -> RespView {
        RespView {
            code: self.code,
            data: match self.data {
                Some(ref b) => Some(b@),
                None => None,
            },
            headers: self.headers@,
        }
    }
}

/// One JSON object entry: `"key": "value"`.
pub open spec fn json_entry(p: (Seq<char>, Seq<char>)) -> Seq<char> {
    "\""@ + p.0 + "\": \""@ + p.1 + "\""@
}

/// JSON object entries joined with commas.
pub open spec fn json_entries(ps: Seq<(Seq<char>, Seq<char>)>) -> Seq<char>
    decreases ps.len(),
{
    if ps.len() == 0 {
        Seq::empty()
    } else if ps.len() == 1 {
        json_entry(ps[0])
    } else {
        json_entries(ps.drop_last()) + ","@ + json_entry(ps.last())
    }
}

/// Key-value pairs rendered as a JSON object.
pub open spec fn json_text(ps: Seq<(Seq<char>, Seq<char>)>) -> Seq<char> {
    "{"@ + json_entries(ps) + "}"@
}

/// The textual form of a body.
pub open spec fn body_text(b: BodyView) -> Seq<char> {
    match b {
        BodyView::Text(s) => s,
        BodyView::Pairs(p) => json_text(p),
    }
}

/// Header lines on the wire: each entry as `key: value` plus the line
/// separator.
pub open spec fn render_headers(hs: Seq<(Seq<char>, Seq<char>)>) -> Seq<char>
    decreases hs.len(),
{
    if hs.len() == 0 {
        Seq::empty()
    } else {
        render_headers(hs.drop_last()) + hs.last().0 + ": "@ + hs.last().1 + "\r\n"@
    }
}

/// Everything after the status line: the header lines, a blank line exactly
/// when at least one header exists, the body's textual form if present, and a
/// trailing line separator.
pub open spec fn spec_render(r: RespView) -> Seq<char> {
    render_headers(r.headers) + (if r.headers.len() > 0 {
        "\r\n"@
    } else {
        Seq::empty()
    }) + (match r.data {
        Some(b) => body_text(b),
        None => Seq::empty(),
    }) + "\r\n"@
}

/// The reason phrase of the status line: `OK` for 200, a single space
/// placeholder otherwise.
pub open spec fn reason_phrase(code: u16) -> Seq<char> {
    if code == 200 {
        "OK"@
    } else {
        " "@
    }
}

/// The full wire encoding: `HTTP/1.1 <code> <reason>`, the line separator,
/// then everything `spec_render` lists.
pub open spec fn spec_encode(r: RespView) -> Seq<char> {
    "HTTP/1.1 "@ + dec_str(r.code as int) + " "@ + reason_phrase(r.code) + "\r\n"@ + spec_render(r)
}

/// The value of the derived `Content-Length` header: the decimal rendering of
/// the body text's length in UTF-8 bytes.
pub open spec fn content_length_str(body: Seq<char>) -> Seq<char> {
    dec_str((encode_utf8(body).len() as usize) as int)
}

/// The headers a freshly built text response carries.
pub open spec fn derived_headers(body: Seq<char>) -> Seq<(Seq<char>, Seq<char>)> {
    seq![("Content-Type"@, "text/plain"@), ("Content-Length"@, content_length_str(body))]
}

/// What `Response::new` builds: the code, the text body, and the two derived
/// headers.
pub open spec fn spec_new_response(code: u16, body: Seq<char>) -> RespView {
    RespView { code, data: Some(BodyView::Text(body)), headers: derived_headers(body) }
}

impl Response {
    /// A response with a text body. It carries derived `Content-Type:
    /// text/plain` and `Content-Length` headers, which `add_header` can
    /// override.
    pub fn new(code: u16, data: &str) -> (r: Response)
        ensures
            r@ == spec_new_response(code, data@),
    {
        let len = data.len();
        let mut headers = HeaderMap::new();
        headers.insert("Content-Type", "text/plain");
        headers.insert("Content-Length", u64_to_string(len as u64).as_str());
        let r = Response { code, data: Some(Body::Text(data.to_owned())), headers };
        proof {
            reveal_strlit("Content-Type");
            reveal_strlit("Content-Length");
            assert("Content-Type"@.len() != "Content-Length"@.len());
            crate::headers::lemma_key_at(
                spec_insert(Seq::empty(), "Content-Type"@, "text/plain"@),
                "Content-Length"@,
            );
            assert(r@.headers =~= derived_headers(data@));
        }
        r
    }

    /// A response with no body and no headers.
    pub fn empty(code: u16) -> (r: Response)
        ensures
            r@.code == code,
            r@.data is None,
            r@.headers == Seq::<(Seq<char>, Seq<char>)>::empty(),
    {
        Response { code, data: None, headers: HeaderMap::new() }
    }

    /// A response whose body is a JSON object of the given key-value pairs,
    /// with a derived `Content-Type: application/json` header.
    pub fn json(code: u16, data: Vec<(String, String)>) -> (r: Response)
        ensures
            r@.code == code,
            r@.data == Some(BodyView::Pairs(data.deep_view())),
            r@.headers == seq![("Content-Type"@, "application/json"@)],
    {
        let r = Response { code, data: Some(Body::Pairs(data)), headers: HeaderMap::new() }
            .add_header("Content-Type", "application/json");
        proof {
            assert(r@.headers =~= seq![("Content-Type"@, "application/json"@)]);
        }
        r
    }

    /// A response with a text body and no headers: for bodies whose kind and
    /// length the caller announces itself.
    pub fn with_text(code: u16, data: &str) -> (r: Response)
        ensures
            r@.code == code,
            r@.data == Some(BodyView::Text(data@)),
            r@.headers == Seq::<(Seq<char>, Seq<char>)>::empty(),
    {
        Response { code, data: Some(Body::Text(data.to_owned())), headers: HeaderMap::new() }
    }

    /// Returns the response with `val` stored under `key`, replacing any
    /// existing value.
    pub fn add_header(self, key: &str, val: &str) -> (r: Response)
        ensures
            r@.code == self@.code,
            r@.data == self@.data,
            r@.headers == spec_insert(self@.headers, key@, val@),
    {
        let mut r = self;
        r.headers.insert(key, val);
        r
    }

    /// Stores `val` under `key`, replacing any existing value.
    pub fn add_headers(&mut self, key: &str, val: &str)
        ensures
            final(self)@.code == old(self)@.code,
            final(self)@.data == old(self)@.data,
            final(self)@.headers == spec_insert(old(self)@.headers, key@, val@),
    {
        self.headers.insert(key, val);
    }

    /// The status code.
    pub fn code(&self) -> (c: u16)
        ensures
            c == self@.code,
    {
        self.code
    }

    /// Everything after the status line, as text.
    pub fn to_string(&self) -> (r: String)
        ensures
            r@ == spec_render(self@),
    {
        let mut out = String::new();
        let n = self.headers.len();
        let mut i: usize = 0;
        while i < n
            invariant
                i <= n,
                n == self@.headers.len(),
                out@ == render_headers(self@.headers.take(i as int)),
            decreases n - i,
        {
            let (key, val) = self.headers.entry_at(i);
            out.append(key.as_str());
            out.append(": ");
            out.append(val.as_str());
            out.append("\r\n");
            proof {
                assert(self@.headers.take(i + 1).drop_last() =~= self@.headers.take(i as int));
                assert(self@.headers.take(i + 1).last() == self@.headers[i as int]);
            }
            i = i + 1;
        }
        proof {
            assert(self@.headers.take(n as int) =~= self@.headers);
        }
        if n != 0 {
            out.append("\r\n");
        }
        match &self.data {
            Some(Body::Text(s)) => out.append(s.as_str()),
            Some(Body::Pairs(p)) => out.append(Self::json_body(p).as_str()),
            None => {},
        }
        out.append("\r\n");
        out
    }

    /// The full wire encoding, status line included.
    pub fn encode(&self) -> (r: String)
        ensures
            r@ == spec_encode(self@),
    {
        let mut out = "HTTP/1.1 ".to_owned();
        out.append(u64_to_string(self.code as u64).as_str());
        out.append(" ");
        if self.code == 200 {
            out.append("OK");
        } else {
            out.append(" ");
        }
        out.append("\r\n");
        out.append(self.to_string().as_str());
        out
    }

    /// Renders key-value pairs as a JSON object.
    fn json_body(pairs: &Vec<(String, String)>) -> (r: String)
        ensures
            r@ == json_text(pairs.deep_view()),
    {
        let ghost dv = pairs.deep_view();
        let mut out = "{".to_owned();
        let mut i: usize = 0;
        while i < pairs.len()
            invariant
                i <= pairs@.len(),
                dv == pairs.deep_view(),
                out@ == "{"@ + json_entries(dv.take(i as int)),
            decreases pairs@.len() - i,
        {
            if i > 0 {
                out.append(",");
            }
            out.append("\"");
            out.append(pairs[i].0.as_str());
            out.append("\": \"");
            out.append(pairs[i].1.as_str());
            out.append("\"");
            proof {
                assert(dv.take(i + 1).drop_last() =~= dv.take(i as int));
                assert(dv.take(i + 1).last() == dv[i as int]);
                if i == 0 {
                    assert(out@ =~= "{"@ + json_entries(dv.take(i + 1)));
                }
            }
            i = i + 1;
        }
        proof {
            assert(dv.take(pairs@.len() as int) =~= dv);
        }
        out.append("}");
        out
    }
}

} // verus!
