//! HTTP/1.1 requests and responses.
use vstd::prelude::*;
use crate::network::url::Url;
use crate::text::{
    append_chars, decimal_of, decode_utf8, eq_ignore_ascii_case, eq_ignore_ascii_case_spec, chars_of,
    find_char, find_from, is_decimal, opt_int, parse_decimal, slice_chars, trim_str, trimmed, utf8_decode,
    vec_to_string,
};

verus! {

#[derive(Clone, Copy, Debug, PartialEq, Eq, Structural)]
pub enum HttpMethod {
    GET,
    POST,
    HEAD,
}

impl HttpMethod {
    pub open spec fn name(&self) -> Seq<char> {
        match self {
            HttpMethod::GET => seq!['G', 'E', 'T'],
            HttpMethod::POST => seq!['P', 'O', 'S', 'T'],
            HttpMethod::HEAD => seq!['H', 'E', 'A', 'D'],
        }
    }

    /// The method's name as it appears on the request line.
    pub fn as_str(&self) -> (r: &'static str)
        ensures
            r@ == self.name(),
    {
        match self {
            HttpMethod::GET => {
                proof { reveal_strlit("GET"); }
                let s = "GET";
                assert(s@ =~= seq!['G', 'E', 'T']);
                s
            },
            HttpMethod::POST => {
                proof { reveal_strlit("POST"); }
                let s = "POST";
                assert(s@ =~= seq!['P', 'O', 'S', 'T']);
                s
            },
            HttpMethod::HEAD => {
                proof { reveal_strlit("HEAD"); }
                let s = "HEAD";
                assert(s@ =~= seq!['H', 'E', 'A', 'D']);
                s
            },
        }
    }
}

#[derive(Clone, Debug)]
pub struct HttpHeader {
    pub name: String,
    pub value: String,
}

impl HttpHeader {
    pub fn new(name: String, value: String) -> (r: Self)
        ensures
            r.name@ == name@,
            r.value@ == value@,
    {
        HttpHeader { name, value }
    }
}

/// `name: value\r\n` for every header, in order.
pub open spec fn header_lines(hs: Seq<HttpHeader>) -> Seq<char>
    decreases hs.len(),
{
    if hs.len() == 0 {
        Seq::empty()
    } else {
        header_lines(hs.drop_last()) + hs.last().name@ + seq![':', ' '] + hs.last().value@ + seq!['\r', '\n']
    }
}

#[derive(Clone, Debug)]
pub struct HttpRequest {
    pub method: HttpMethod,
    pub url: Url,
    pub headers: Vec<HttpHeader>,
    pub body: Option<Vec<u8>>,
}

pub open spec fn header_is(h: HttpHeader, name: Seq<char>, value: Seq<char>) -> bool {
    h.name@ == name && h.value@ == value
}

impl HttpRequest {
    /// A GET for `url` with Host (when the URL has one), User-Agent, Accept
    /// and Connection headers.
    pub fn get(url: Url) -> (r: Self)
        ensures
            r.method == HttpMethod::GET,
            r.url.parts() == url.parts(),
            r.body is None,
            ({
                let k: int = if url.host is Some { 1 } else { 0 };
                &&& r.headers@.len() == 3 + k
                &&& url.host matches Some(h) ==> header_is(r.headers@[0], seq!['H', 'o', 's', 't'], h@)
                &&& header_is(r.headers@[k], "User-Agent"@, "ASTRA.OS-Browser/0.1"@)
                &&& header_is(r.headers@[k + 1], "Accept"@, "text/html,text/css,*/*"@)
                &&& header_is(r.headers@[k + 2], "Connection"@, "close"@)
            }),
    {
        let mut headers: Vec<HttpHeader> = Vec::new();
        if let Some(host) = &url.host {
            proof { reveal_strlit("Host"); }
            let name = String::from_str("Host");
            assert(name@ =~= seq!['H', 'o', 's', 't']);
            headers.push(HttpHeader::new(name, host.clone()));
        }
        headers.push(HttpHeader::new(String::from_str("User-Agent"), String::from_str("ASTRA.OS-Browser/0.1")));
        headers.push(HttpHeader::new(String::from_str("Accept"), String::from_str("text/html,text/css,*/*")));
        headers.push(HttpHeader::new(String::from_str("Connection"), String::from_str("close")));
        HttpRequest { method: HttpMethod::GET, url, headers, body: None }
    }

    /// Appends a header.
    pub fn add_header(&mut self, name: String, value: String)
        ensures
            final(self).headers@.len() == old(self).headers@.len() + 1,
            final(self).headers@.drop_last() == old(self).headers@,
            header_is(final(self).headers@.last(), name@, value@),
            final(self).method == old(self).method,
            final(self).url.parts() == old(self).url.parts(),
    {
        self.headers.push(HttpHeader::new(name, value));
        assert(self.headers@.drop_last() =~= old(self).headers@);
    }

    /// The request line, the headers and the blank line that ends them.
    pub open spec fn request_text(&self) -> Seq<char> {
        let target = match self.url.query {
            Some(q) => self.url.path@ + seq!['?'] + q@,
            None => self.url.path@,
        };
        self.method.name() + seq![' '] + target + " HTTP/1.1\r\n"@ + header_lines(self.headers@) + seq!['\r', '\n']
    }

    pub fn to_request_string(&self) -> (r: String)
        ensures
            r@ == self.request_text(),
    {
        let mut out: Vec<char> = Vec::new();
        append_chars(&mut out, self.method.as_str());
        out.push(' ');
        append_chars(&mut out, self.url.path.as_str());
        if let Some(q) = &self.url.query {
            out.push('?');
            append_chars(&mut out, q.as_str());
        }
        append_chars(&mut out, " HTTP/1.1\r\n");
        let ghost start = out@;
        let mut i: usize = 0;
        while i < self.headers.len()
            invariant
                i <= self.headers@.len(),
                out@ == start + header_lines(self.headers@.subrange(0, i as int)),
            decreases self.headers@.len() - i,
        {
            let h = &self.headers[i];
            append_chars(&mut out, h.name.as_str());
            out.push(':');
            out.push(' ');
            append_chars(&mut out, h.value.as_str());
            out.push('\r');
            out.push('\n');
            proof {
                let hs = self.headers@.subrange(0, i + 1);
                assert(hs.drop_last() =~= self.headers@.subrange(0, i as int));
                assert(out@ =~= start + header_lines(hs));
            }
            i = i + 1;
        }
        assert(self.headers@.subrange(0, self.headers@.len() as int) =~= self.headers@);
        out.push('\r');
        out.push('\n');
        assert(out@ =~= self.request_text());
        vec_to_string(&out)
    }
}

#[derive(Clone, Debug)]
pub struct HttpStatus {
    pub code: u16,
    pub reason: String,
}

impl HttpStatus {
    pub fn new(code: u16, reason: String) -> (r: Self)
        ensures
            r.code == code,
            r.reason@ == reason@,
    {
        HttpStatus { code, reason }
    }

    /// 2xx.
    pub fn is_success(&self) -> (r: bool)
        ensures
            r == (200 <= self.code < 300),
    {
        self.code >= 200 && self.code < 300
    }

    /// 3xx.
    pub fn is_redirect(&self) -> (r: bool)
        ensures
            r == (300 <= self.code < 400),
    {
        self.code >= 300 && self.code < 400
    }

    /// 4xx.
    pub fn is_client_error(&self) -> (r: bool)
        ensures
            r == (400 <= self.code < 500),
    {
        self.code >= 400 && self.code < 500
    }

    /// 5xx.
    pub fn is_server_error(&self) -> (r: bool)
        ensures
            r == (500 <= self.code < 600),
    {
        self.code >= 500 && self.code < 600
    }
}

#[derive(Clone, Debug)]
pub struct HttpResponse {
    pub status: HttpStatus,
    pub headers: Vec<HttpHeader>,
    pub body: Vec<u8>,
}

/// Position of the first header whose name matches `name` up to ASCII case.
pub open spec fn header_index(hs: Seq<HttpHeader>, name: Seq<char>, from: int) -> Option<int>
    decreases hs.len() - from,
{
    if from < 0 || from >= hs.len() {
        None
    } else if eq_ignore_ascii_case_spec(hs[from].name@, name) {
        Some(from)
    } else {
        header_index(hs, name, from + 1)
    }
}

impl HttpResponse {
    /// Status 0, no reason, no headers, empty body.
    pub fn new() -> (r: Self)
        ensures
            r.status.code == 0,
            r.status.reason@.len() == 0,
            r.headers@.len() == 0,
            r.body@.len() == 0,
    {
        HttpResponse { status: HttpStatus::new(0, String::new()), headers: Vec::new(), body: Vec::new() }
    }

    /// Value of the first header named `name` (ASCII case ignored).
    pub fn get_header(&self, name: &str) -> (r: Option<&String>)
        ensures
            match header_index(self.headers@, name@, 0) {
                Some(i) => r matches Some(v) && v@ == self.headers@[i].value@,
                None => r is None,
            },
    {
        let mut i: usize = 0;
        while i < self.headers.len()
            invariant
                i <= self.headers@.len(),
                header_index(self.headers@, name@, 0) == header_index(self.headers@, name@, i as int),
            decreases self.headers@.len() - i,
        {
            if eq_ignore_ascii_case(self.headers[i].name.as_str(), name) {
                return Some(&self.headers[i].value);
            }
            i = i + 1;
        }
        None
    }

    /// The Content-Type header.
    pub fn content_type(&self) -> (r: Option<&String>)
        ensures
            match header_index(self.headers@, "Content-Type"@, 0) {
                Some(i) => r matches Some(v) && v@ == self.headers@[i].value@,
                None => r is None,
            },
    {
        self.get_header("Content-Type")
    }

    /// The Content-Length header as a number, if it is one.
    pub fn content_length(&self) -> (r: Option<usize>)
        ensures
            match header_index(self.headers@, "Content-Length"@, 0) {
                Some(i) => {
                    let v = self.headers@[i].value@;
                    if is_decimal(v) && decimal_of(v) <= usize::MAX {
                        r == Some(decimal_of(v) as usize)
                    } else {
                        r is None
                    }
                },
                None => r is None,
            },
    {
        match self.get_header("Content-Length") {
            Some(v) => {
                let cs = chars_of(v.as_str());
                assert(cs@.subrange(0, cs@.len() as int) =~= cs@);
                match parse_decimal(&cs, 0, cs.len(), usize::MAX as u64) {
                    Some(n) => Some(n as usize),
                    None => None,
                }
            },
            None => None,
        }
    }

    /// The body as text, if it is valid UTF-8.
    pub fn body_as_string(&self) -> (r: Option<String>)
        ensures
            match utf8_decode(self.body@) {
                Some(s) => r matches Some(t) && t@ == s,
                None => r is None,
            },
    {
        decode_utf8(self.body.as_slice())
    }
}

#[derive(Clone, Copy, Debug, PartialEq, Eq, Structural)]
pub enum HttpError {
    /// No blank line ends the headers.
    NoHeaderEnd,
    /// The header block is not UTF-8.
    InvalidUtf8,
    MissingStatusLine,
    InvalidStatusLine,
    InvalidStatusCode,
}

impl HttpError {
    /// Human-readable description.
    pub fn message(&self) -> (r: &'static str) {
        match self {
            HttpError::NoHeaderEnd => "Invalid HTTP response: no header end",
            HttpError::InvalidUtf8 => "Invalid UTF-8 in headers",
            HttpError::MissingStatusLine => "Missing status line",
            HttpError::InvalidStatusLine => "Invalid status line",
            HttpError::InvalidStatusCode => "Invalid status code",
        }
    }
}

/// Whether `d` holds CR LF CR LF at `i`.
pub open spec fn blank_line_at(d: Seq<u8>, i: int) -> bool {
    0 <= i && i + 4 <= d.len() && d[i] == 13 && d[i + 1] == 10 && d[i + 2] == 13 && d[i + 3] == 10
}

/// Position of the first CR LF CR LF at or after `from`.
pub open spec fn header_end(d: Seq<u8>, from: int) -> Option<int>
    decreases d.len() - from,
{
    if from < 0 || from + 4 > d.len() {
        None
    } else if blank_line_at(d, from) {
        Some(from)
    } else {
        header_end(d, from + 1)
    }
}

/// A line without the carriage return before its line feed.
pub open spec fn strip_cr(l: Seq<char>) -> Seq<char> {
    if l.len() > 0 && l.last() == '\r' {
        l.drop_last()
    } else {
        l
    }
}

/// The lines of `t` from `start` on, split at LF or CR LF; a last line
/// without an ending keeps any carriage return.
pub open spec fn lines_from(t: Seq<char>, start: int) -> Seq<Seq<char>>
    decreases t.len() - start,
{
    if start < 0 || start >= t.len() {
        Seq::empty()
    } else {
        match find_from(t, '\n', start) {
            Some(i) => if start <= i < t.len() {
                seq![strip_cr(t.subrange(start, i))] + lines_from(t, i + 1)
            } else {
                Seq::empty()
            },
            None => seq![t.subrange(start, t.len() as int)],
        }
    }
}

/// Status of a status line `VERSION CODE [REASON]`.
pub open spec fn status_of(l: Seq<char>) -> Result<(u16, Seq<char>), HttpError> {
    match find_from(l, ' ', 0) {
        None => Err(HttpError::InvalidStatusLine),
        Some(a) => {
            let rest = l.subrange(a + 1, l.len() as int);
            let (code, reason) = match find_from(rest, ' ', 0) {
                Some(b) => (rest.subrange(0, b), rest.subrange(b + 1, rest.len() as int)),
                None => (rest, Seq::empty()),
            };
            if is_decimal(code) && decimal_of(code) <= 0xFFFF {
                Ok((decimal_of(code) as u16, reason))
            } else {
                Err(HttpError::InvalidStatusCode)
            }
        },
    }
}

/// The headers of the header lines: `name: value` with both trimmed;
/// lines without a colon are skipped.
pub open spec fn headers_of(ls: Seq<Seq<char>>) -> Seq<(Seq<char>, Seq<char>)>
    decreases ls.len(),
{
    if ls.len() == 0 {
        Seq::empty()
    } else {
        let l = ls.last();
        let prev = headers_of(ls.drop_last());
        match find_from(l, ':', 0) {
            Some(p) => prev.push((trimmed(l.subrange(0, p)), trimmed(l.subrange(p + 1, l.len() as int)))),
            None => prev,
        }
    }
}

pub open spec fn header_pairs(hs: Seq<HttpHeader>) -> Seq<(Seq<char>, Seq<char>)> {
    hs.map_values(|h: HttpHeader| (h.name@, h.value@))
}

/// Position of the first CR LF CR LF.
fn find_header_end(d: &[u8]) -> (r: Option<usize>)
    ensures
        opt_int(r) == header_end(d@, 0),
        r matches Some(i) ==> i + 4 <= d@.len(),
{
    let n = d.len();
    let mut i: usize = 0;
    while i < n && n - i >= 4
        invariant
            n == d@.len(),
            i <= n,
            header_end(d@, 0) == header_end(d@, i as int),
        decreases n - i,
    {
        if d[i] == 13 && d[i + 1] == 10 && d[i + 2] == 13 && d[i + 3] == 10 {
            return Some(i);
        }
        i = i + 1;
    }
    None
}

/// The lines of `v`, as `lines_from` gives them.
fn split_lines(v: &Vec<char>) -> (r: Vec<Vec<char>>)
    ensures
        r@.map_values(|x: Vec<char>| x@) == lines_from(v@, 0),
{
    let n = v.len();
    let mut out: Vec<Vec<char>> = Vec::new();
    let mut start: usize = 0;
    while start < n
        invariant
            n == v@.len(),
            start <= n,
            lines_from(v@, 0) == out@.map_values(|x: Vec<char>| x@) + lines_from(v@, start as int),
        decreases n - start,
    {
        let ghost prev = out@.map_values(|x: Vec<char>| x@);
        match find_char(v, '\n', start, n) {
            Some(i) => {
                let mut line = slice_chars(v, start, i);
                if line.len() > 0 && line[line.len() - 1] == '\r' {
                    line.pop();
                }
                proof {
                    let raw = v@.subrange(start as int, i as int);
                    if raw.len() > 0 && raw.last() == '\r' {
                        assert(line@ =~= raw.drop_last());
                    }
                    assert(line@ == strip_cr(raw));
                }
                out.push(line);
                proof {
                    assert(out@.map_values(|x: Vec<char>| x@) =~= prev.push(line@));
                    assert(lines_from(v@, start as int) == seq![line@] + lines_from(v@, i + 1));
                    assert(prev.push(line@) + lines_from(v@, i + 1) =~= prev + (seq![line@] + lines_from(v@, i + 1)));
                }
                start = i + 1;
            },
            None => {
                let line = slice_chars(v, start, n);
                out.push(line);
                proof {
                    assert(out@.map_values(|x: Vec<char>| x@) =~= prev.push(line@));
                    assert(lines_from(v@, start as int) == seq![line@]);
                    assert(lines_from(v@, n as int) =~= Seq::<Seq<char>>::empty());
                    assert(prev.push(line@) =~= prev + seq![line@]);
                    assert(prev.push(line@) + lines_from(v@, n as int) =~= prev.push(line@));
                }
                start = n;
            },
        }
    }
    proof {
        assert(lines_from(v@, start as int) =~= Seq::<Seq<char>>::empty());
        assert(out@.map_values(|x: Vec<char>| x@) + Seq::<Seq<char>>::empty() =~= out@.map_values(|x: Vec<char>| x@));
    }
    out
}

/// Parses a status line.
fn parse_status_line(l: &Vec<char>) -> (r: Result<(u16, String), HttpError>)
    ensures
        match r {
            Ok((c, reason)) => status_of(l@) == Ok::<(u16, Seq<char>), HttpError>((c, reason@)),
            Err(e) => status_of(l@) == Err::<(u16, Seq<char>), HttpError>(e),
        },
{
    let n = l.len();
    let a = match find_char(l, ' ', 0, n) {
        Some(a) => a,
        None => {
            return Err(HttpError::InvalidStatusLine);
        },
    };
    let rest = slice_chars(l, a + 1, n);
    let m = rest.len();
    let (code_end, reason) = match find_char(&rest, ' ', 0, m) {
        Some(b) => (b, vec_to_string(&slice_chars(&rest, b + 1, m))),
        None => (m, String::new()),
    };
    proof {
        if find_from(rest@, ' ', 0) is None {
            assert(rest@.subrange(0, m as int) =~= rest@);
            assert(reason@ =~= Seq::<char>::empty());
        }
    }
    match parse_decimal(&rest, 0, code_end, 0xFFFF) {
        Some(c) => Ok((c as u16, reason)),
        None => Err(HttpError::InvalidStatusCode),
    }
}

/// The headers among `ls[1..]`.
fn parse_header_lines(ls: &Vec<Vec<char>>) -> (r: Vec<HttpHeader>)
    requires
        ls@.len() >= 1,
    ensures
        header_pairs(r@) == headers_of(ls@.map_values(|x: Vec<char>| x@).drop_first()),
{
    let ghost all = ls@.map_values(|x: Vec<char>| x@);
    let mut out: Vec<HttpHeader> = Vec::new();
    let mut k: usize = 1;
    while k < ls.len()
        invariant
            1 <= k <= ls@.len(),
            all == ls@.map_values(|x: Vec<char>| x@),
            header_pairs(out@) == headers_of(all.subrange(1, k as int)),
        decreases ls@.len() - k,
    {
        let line = &ls[k];
        let ghost prev = out@;
        proof {
            assert(all.subrange(1, k + 1).drop_last() =~= all.subrange(1, k as int));
            assert(all.subrange(1, k + 1).last() == line@);
        }
        match find_char(line, ':', 0, line.len()) {
            Some(p) => {
                let name = trim_str(vec_to_string(&slice_chars(line, 0, p)).as_str());
                let value = trim_str(vec_to_string(&slice_chars(line, p + 1, line.len())).as_str());
                out.push(HttpHeader::new(name, value));
                proof {
                    assert(header_pairs(out@) =~= header_pairs(prev).push((name@, value@)));
                }
            },
            None => {},
        }
        k = k + 1;
    }
    assert(all.subrange(1, ls@.len() as int) =~= all.drop_first());
    out
}

/// What a response parses to: status code, reason, headers and body.
pub open spec fn response_of(d: Seq<u8>) -> Result<(u16, Seq<char>, Seq<(Seq<char>, Seq<char>)>, Seq<u8>), HttpError> {
    match header_end(d, 0) {
        None => Err(HttpError::NoHeaderEnd),
        Some(e) => match utf8_decode(d.subrange(0, e)) {
            None => Err(HttpError::InvalidUtf8),
            Some(t) => {
                let ls = lines_from(t, 0);
                if ls.len() == 0 {
                    Err(HttpError::MissingStatusLine)
                } else {
                    match status_of(ls[0]) {
                        Err(x) => Err(x),
                        Ok((code, reason)) => Ok((code, reason, headers_of(ls.drop_first()), d.subrange(e + 4, d.len() as int))),
                    }
                }
            },
        },
    }
}

/// Parses a raw response: status line, headers up to the blank line, and
/// the bytes after it as the body.
pub fn parse_response(data: &[u8]) -> (r: Result<HttpResponse, HttpError>)
    ensures
        match r {
            Ok(resp) => response_of(data@) == Ok::<(u16, Seq<char>, Seq<(Seq<char>, Seq<char>)>, Seq<u8>), HttpError>(
                (resp.status.code, resp.status.reason@, header_pairs(resp.headers@), resp.body@),
            ),
            Err(e) => response_of(data@) == Err::<(u16, Seq<char>, Seq<(Seq<char>, Seq<char>)>, Seq<u8>), HttpError>(e),
        },
{
    let end = match find_header_end(data) {
        Some(e) => e,
        None => {
            return Err(HttpError::NoHeaderEnd);
        },
    };
    let n = data.len();
    let mut head: Vec<u8> = Vec::new();
    let mut i: usize = 0;
    while i < end
        invariant
            end + 4 <= n,
            n == data@.len(),
            i <= end,
            head@ == data@.subrange(0, i as int),
        decreases end - i,
    {
        head.push(data[i]);
        i = i + 1;
        assert(head@ =~= data@.subrange(0, i as int));
    }
    let mut body: Vec<u8> = Vec::new();
    let mut j: usize = end + 4;
    while j < n
        invariant
            end + 4 <= j <= n,
            n == data@.len(),
            body@ == data@.subrange(end + 4, j as int),
        decreases n - j,
    {
        body.push(data[j]);
        j = j + 1;
        assert(body@ =~= data@.subrange(end + 4, j as int));
    }
    let text = match decode_utf8(head.as_slice()) {
        Some(t) => t,
        None => {
            return Err(HttpError::InvalidUtf8);
        },
    };
    let chars = chars_of(text.as_str());
    let ls = split_lines(&chars);
    proof {
        assert(ls@.map_values(|x: Vec<char>| x@).len() == ls@.len());
    }
    if ls.len() == 0 {
        return Err(HttpError::MissingStatusLine);
    }
    proof {
        assert(ls@.map_values(|x: Vec<char>| x@)[0] == ls@[0]@);
    }
    let (code, reason) = match parse_status_line(&ls[0]) {
        Ok(p) => p,
        Err(e) => {
            return Err(e);
        },
    };
    let headers = parse_header_lines(&ls);
    Ok(HttpResponse { status: HttpStatus::new(code, reason), headers, body })
}

} // verus!
