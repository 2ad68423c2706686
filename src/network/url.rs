//! URLs: `scheme://host[:port]/path[?query][#fragment]` and `file:` paths.
use vstd::prelude::*;
use crate::text::{
    alphanumeric, chars_of, decimal_of, find_char, find_from, is_alphanumeric, is_decimal, opt_int,
    parse_decimal, rfind_before, rfind_char, slice_chars, str_eq, trim_str, trimmed, vec_to_string, copy_chars, decimal_text, push_decimal,
    append_chars,
};

verus! {

#[derive(Clone, Copy, Debug, PartialEq, Eq, Structural)]
pub enum UrlError {
    EmptyUrl,
    InvalidScheme,
    MissingScheme,
    EmptyAuthority,
    EmptyHost,
    InvalidPort,
}

impl UrlError {
    /// Human-readable description.
    pub fn message(&self) -> (r: &'static str) {
        match self {
            UrlError::EmptyUrl => "Empty URL",
            UrlError::InvalidScheme => "Invalid scheme",
            UrlError::MissingScheme => "Missing scheme",
            UrlError::EmptyAuthority => "Empty authority",
            UrlError::EmptyHost => "Empty host",
            UrlError::InvalidPort => "Invalid port",
        }
    }
}

#[derive(Clone, Debug)]
pub struct Url {
    pub scheme: String,
    pub host: Option<String>,
    pub port: Option<u16>,
    pub path: String,
    pub query: Option<String>,
    pub fragment: Option<String>,
}

/// The parts of a URL as character sequences.
pub struct UrlParts {
    pub scheme: Seq<char>,
    pub host: Option<Seq<char>>,
    pub port: Option<u16>,
    pub path: Seq<char>,
    pub query: Option<Seq<char>>,
    pub fragment: Option<Seq<char>>,
}

pub open spec fn opt_view(o: Option<String>) -> Option<Seq<char>> {
    match o {
        Some(s) => Some(s@),
        None => None,
    }
}

/// Whether `t` holds `://` at position `i`.
pub open spec fn sep_at(t: Seq<char>, i: int) -> bool {
    0 <= i && i + 3 <= t.len() && t[i] == ':' && t[i + 1] == '/' && t[i + 2] == '/'
}

/// Position of the first `://` at or after `from`.
pub open spec fn scheme_sep(t: Seq<char>, from: int) -> Option<int>
    decreases t.len() - from,
{
    if from < 0 || from + 3 > t.len() {
        None
    } else if sep_at(t, from) {
        Some(from)
    } else {
        scheme_sep(t, from + 1)
    }
}

pub open spec fn scheme_char(c: char) -> bool {
    alphanumeric(c) || c == '-'
}

/// Scheme and the text after its separator.
pub open spec fn scheme_split(t: Seq<char>) -> Result<(Seq<char>, Seq<char>), UrlError> {
    match scheme_sep(t, 0) {
        Some(p) => {
            let sc = t.subrange(0, p);
            if sc.len() == 0 || !(forall|i: int| 0 <= i < sc.len() ==> scheme_char(#[trigger] sc[i])) {
                Err(UrlError::InvalidScheme)
            } else {
                Ok((sc, t.subrange(p + 3, t.len() as int)))
            }
        },
        None => match find_from(t, ':', 0) {
            Some(p) => Ok((t.subrange(0, p), t.subrange(p + 1, t.len() as int))),
            None => Err(UrlError::MissingScheme),
        },
    }
}

/// `r` without a leading `//`.
pub open spec fn strip_slashes(r: Seq<char>) -> Seq<char> {
    if r.len() >= 2 && r[0] == '/' && r[1] == '/' {
        r.subrange(2, r.len() as int)
    } else {
        r
    }
}

/// Text before and after the first `c`; all of `s` and nothing without one.
pub open spec fn split_first(s: Seq<char>, c: char) -> (Seq<char>, Seq<char>) {
    match find_from(s, c, 0) {
        Some(i) => (s.subrange(0, i), s.subrange(i + 1, s.len() as int)),
        None => (s, Seq::empty()),
    }
}

/// Text before the first `c` and, if there is one, the text after it.
pub open spec fn split_opt(s: Seq<char>, c: char) -> (Seq<char>, Option<Seq<char>>) {
    match find_from(s, c, 0) {
        Some(i) => (s.subrange(0, i), Some(s.subrange(i + 1, s.len() as int))),
        None => (s, None),
    }
}

/// Host and optional port of `host[:port]`.
pub open spec fn authority_parts(a: Seq<char>) -> Result<(Seq<char>, Option<u16>), UrlError> {
    if a.len() == 0 {
        Err(UrlError::EmptyAuthority)
    } else {
        match rfind_before(a, ':', a.len() as int) {
            Some(j) => {
                let ps = a.subrange(j + 1, a.len() as int);
                if j == 0 {
                    Err(UrlError::EmptyHost)
                } else if is_decimal(ps) && decimal_of(ps) <= 0xFFFF {
                    Ok((a.subrange(0, j), Some(decimal_of(ps) as u16)))
                } else {
                    Err(UrlError::InvalidPort)
                }
            },
            None => Ok((a, None)),
        }
    }
}

/// The URL that the (trimmed) text `t` denotes.
pub open spec fn url_of(t: Seq<char>) -> Result<UrlParts, UrlError> {
    if t.len() == 0 {
        Err(UrlError::EmptyUrl)
    } else {
        match scheme_split(t) {
            Err(e) => Err(e),
            Ok((scheme, rest)) => if scheme == seq!['f', 'i', 'l', 'e'] {
                Ok(
                    UrlParts {
                        scheme,
                        host: None,
                        port: None,
                        path: strip_slashes(rest),
                        query: None,
                        fragment: None,
                    },
                )
            } else {
                let (auth, pr) = split_first(strip_slashes(rest), '/');
                match authority_parts(auth) {
                    Err(e) => Err(e),
                    Ok((host, port)) => {
                        let full = seq!['/'] + pr;
                        let (pq, fragment) = split_opt(full, '#');
                        let (path, query) = split_opt(pq, '?');
                        Ok(UrlParts { scheme, host: Some(host), port, path, query, fragment })
                    },
                }
            },
        }
    }
}

/// Position of the first `://`.
fn find_scheme_sep(v: &Vec<char>) -> (r: Option<usize>)
    ensures
        opt_int(r) == scheme_sep(v@, 0),
        r matches Some(p) ==> p + 3 <= v@.len(),
{
    let mut i: usize = 0;
    while i < v.len() && v.len() - i >= 3
        invariant
            i <= v@.len(),
            scheme_sep(v@, 0) == scheme_sep(v@, i as int),
        decreases v@.len() - i,
    {
        if v[i] == ':' && v[i + 1] == '/' && v[i + 2] == '/' {
            return Some(i);
        }
        i = i + 1;
    }
    None
}

/// Whether every character is alphanumeric or `-`.
fn all_scheme_chars(v: &Vec<char>) -> (r: bool)
    ensures
        r == forall|i: int| 0 <= i < v@.len() ==> scheme_char(#[trigger] v@[i]),
{
    let mut i: usize = 0;
    while i < v.len()
        invariant
            i <= v@.len(),
            forall|k: int| 0 <= k < i ==> scheme_char(#[trigger] v@[k]),
        decreases v@.len() - i,
    {
        if !(is_alphanumeric(v[i]) || v[i] == '-') {
            return false;
        }
        i = i + 1;
    }
    true
}

fn split_scheme(t: &Vec<char>) -> (r: Result<(Vec<char>, Vec<char>), UrlError>)
    ensures
        match r {
            Ok((a, b)) => scheme_split(t@) == Ok::<(Seq<char>, Seq<char>), UrlError>((a@, b@)),
            Err(e) => scheme_split(t@) == Err::<(Seq<char>, Seq<char>), UrlError>(e),
        },
{
    match find_scheme_sep(t) {
        Some(p) => {
            let sc = slice_chars(t, 0, p);
            if sc.len() == 0 || !all_scheme_chars(&sc) {
                return Err(UrlError::InvalidScheme);
            }
            let n = t.len();
            let rest = slice_chars(t, p + 3, n);
            Ok((sc, rest))
        },
        None => match find_char(t, ':', 0, t.len()) {
            Some(p) => Ok((slice_chars(t, 0, p), slice_chars(t, p + 1, t.len()))),
            None => Err(UrlError::MissingScheme),
        },
    }
}

fn strip_slashes_exec(v: Vec<char>) -> (r: Vec<char>)
    ensures
        r@ == strip_slashes(v@),
{
    if v.len() >= 2 && v[0] == '/' && v[1] == '/' {
        slice_chars(&v, 2, v.len())
    } else {
        v
    }
}

fn split_opt_exec(v: &Vec<char>, c: char) -> (r: (Vec<char>, Option<Vec<char>>))
    ensures
        r.0@ == split_opt(v@, c).0,
        match r.1 {
            Some(x) => split_opt(v@, c).1 == Some(x@),
            None => split_opt(v@, c).1 is None,
        },
{
    match find_char(v, c, 0, v.len()) {
        Some(i) => (slice_chars(v, 0, i), Some(slice_chars(v, i + 1, v.len()))),
        None => (copy_chars(v), None),
    }
}

fn opt_string(o: Option<Vec<char>>) -> (r: Option<String>)
    ensures
        match o {
            Some(x) => r matches Some(s) && s@ == x@,
            None => r is None,
        },
{
    match o {
        Some(x) => Some(vec_to_string(&x)),
        None => None,
    }
}

fn parse_authority(a: &Vec<char>) -> (r: Result<(Vec<char>, Option<u16>), UrlError>)
    ensures
        match r {
            Ok((h, p)) => authority_parts(a@) == Ok::<(Seq<char>, Option<u16>), UrlError>((h@, p)),
            Err(e) => authority_parts(a@) == Err::<(Seq<char>, Option<u16>), UrlError>(e),
        },
{
    if a.len() == 0 {
        return Err(UrlError::EmptyAuthority);
    }
    match rfind_char(a, ':', 0, a.len()) {
        Some(j) => {
            if j == 0 {
                return Err(UrlError::EmptyHost);
            }
            match parse_decimal(a, j + 1, a.len(), 0xFFFF) {
                Some(port) => Ok((slice_chars(a, 0, j), Some(port as u16))),
                None => Err(UrlError::InvalidPort),
            }
        },
        None => Ok((copy_chars(a), None)),
    }
}

impl Url {
    pub open spec fn parts(&self) -> UrlParts {
        UrlParts {
            scheme: self.scheme@,
            host: opt_view(self.host),
            port: self.port,
            path: self.path@,
            query: opt_view(self.query),
            fragment: opt_view(self.fragment),
        }
    }

    /// A copy of the URL.
    pub fn duplicate(&self) -> (r: Url)
        ensures
            r.parts() == self.parts(),
    {
        Url {
            scheme: self.scheme.clone(),
            host: match &self.host {
                Some(h) => Some(h.clone()),
                None => None,
            },
            port: self.port,
            path: self.path.clone(),
            query: match &self.query {
                Some(q) => Some(q.clone()),
                None => None,
            },
            fragment: match &self.fragment {
                Some(f) => Some(f.clone()),
                None => None,
            },
        }
    }

    /// Parses a URL after trimming surrounding white space.
    pub fn parse(url_str: &str) -> (r: Result<Self, UrlError>)
        ensures
            match r {
                Ok(u) => url_of(trimmed(url_str@)) == Ok::<UrlParts, UrlError>(u.parts()),
                Err(e) => url_of(trimmed(url_str@)) == Err::<UrlParts, UrlError>(e),
            },
    {
        let ts = trim_str(url_str);
        let t = chars_of(ts.as_str());
        if t.len() == 0 {
            return Err(UrlError::EmptyUrl);
        }
        let (scheme, rest) = match split_scheme(&t) {
            Ok(p) => p,
            Err(e) => {
                return Err(e);
            },
        };
        let scheme_str = vec_to_string(&scheme);
        let is_file = scheme.len() == 4 && scheme[0] == 'f' && scheme[1] == 'i' && scheme[2] == 'l' && scheme[3] == 'e';
        proof {
            if scheme@ == seq!['f', 'i', 'l', 'e'] {
                assert(is_file);
            }
            if is_file {
                assert(scheme@ =~= seq!['f', 'i', 'l', 'e']);
            }
        }
        if is_file {
            let path = strip_slashes_exec(rest);
            let u = Url {
                scheme: scheme_str,
                host: None,
                port: None,
                path: vec_to_string(&path),
                query: None,
                fragment: None,
            };
            return Ok(u);
        }
        let r2 = strip_slashes_exec(rest);
        let (auth, pr) = match find_char(&r2, '/', 0, r2.len()) {
            Some(i) => (slice_chars(&r2, 0, i), slice_chars(&r2, i + 1, r2.len())),
            None => (copy_chars(&r2), Vec::new()),
        };
        proof {
            assert(auth@ == split_first(r2@, '/').0);
            assert(pr@ =~= split_first(r2@, '/').1);
        }
        let (host, port) = match parse_authority(&auth) {
            Ok(p) => p,
            Err(e) => {
                return Err(e);
            },
        };
        let mut full: Vec<char> = Vec::new();
        full.push('/');
        let mut i: usize = 0;
        while i < pr.len()
            invariant
                i <= pr@.len(),
                full@ == seq!['/'] + pr@.subrange(0, i as int),
            decreases pr@.len() - i,
        {
            full.push(pr[i]);
            i = i + 1;
            assert(full@ =~= seq!['/'] + pr@.subrange(0, i as int));
        }
        assert(pr@.subrange(0, pr@.len() as int) =~= pr@);
        let (pq, fragment) = split_opt_exec(&full, '#');
        let (path, query) = split_opt_exec(&pq, '?');
        Ok(Url {
            scheme: scheme_str,
            host: Some(vec_to_string(&host)),
            port,
            path: vec_to_string(&path),
            query: opt_string(query),
            fragment: opt_string(fragment),
        })
    }

    pub open spec fn default_port_spec(&self) -> Option<u16> {
        if self.scheme@ == seq!['h', 't', 't', 'p'] {
            Some(80)
        } else if self.scheme@ == seq!['h', 't', 't', 'p', 's'] {
            Some(443)
        } else {
            None
        }
    }

    /// The text form: `scheme://`, the host with any port other than the
    /// scheme's default, the path, then `?query` and `#fragment` if present.
    pub open spec fn text(&self) -> Seq<char> {
        let authority = match self.host {
            Some(h) => h@ + match self.port {
                Some(p) => if Some(p) != self.default_port_spec() {
                    seq![':'] + decimal_text(p as nat)
                } else {
                    Seq::empty()
                },
                None => Seq::empty(),
            },
            None => Seq::empty(),
        };
        let query = match self.query {
            Some(q) => seq!['?'] + q@,
            None => Seq::empty(),
        };
        let fragment = match self.fragment {
            Some(f) => seq!['#'] + f@,
            None => Seq::empty(),
        };
        self.scheme@ + seq![':', '/', '/'] + authority + self.path@ + query + fragment
    }

    pub fn to_string(&self) -> (r: String)
        ensures
            r@ == self.text(),
    {
        let mut out: Vec<char> = Vec::new();
        append_chars(&mut out, self.scheme.as_str());
        out.push(':');
        out.push('/');
        out.push('/');
        let ghost head = out@;
        assert(head =~= self.scheme@ + seq![':', '/', '/']);
        if let Some(host) = &self.host {
            append_chars(&mut out, host.as_str());
            if let Some(port) = self.port {
                let dp = self.default_port();
                let differs = match dp {
                    Some(d) => d != port,
                    None => true,
                };
                if differs {
                    out.push(':');
                    push_decimal(&mut out, port as u64);
                }
            }
        }
        let ghost auth = out@.subrange(head.len() as int, out@.len() as int);
        append_chars(&mut out, self.path.as_str());
        if let Some(q) = &self.query {
            out.push('?');
            append_chars(&mut out, q.as_str());
        }
        if let Some(f) = &self.fragment {
            out.push('#');
            append_chars(&mut out, f.as_str());
        }
        assert(out@ =~= self.text());
        vec_to_string(&out)
    }

    /// 80 for http, 443 for https.
    pub fn default_port(&self) -> (r: Option<u16>)
        ensures
            r == self.default_port_spec(),
    {
        let http = "http";
        let https = "https";
        proof {
            reveal_strlit("http");
            reveal_strlit("https");
            assert(http@ =~= seq!['h', 't', 't', 'p']);
            assert(https@ =~= seq!['h', 't', 't', 'p', 's']);
        }
        if str_eq(self.scheme.as_str(), http) {
            assert(self.scheme@ =~= seq!['h', 't', 't', 'p']);
            Some(80)
        } else if str_eq(self.scheme.as_str(), https) {
            assert(self.scheme@ =~= seq!['h', 't', 't', 'p', 's']);
            Some(443)
        } else {
            None
        }
    }

    /// The explicit port, else the scheme's default.
    pub fn port_or_default(&self) -> (r: Option<u16>)
        ensures
            r == (if self.port is Some { self.port } else { self.default_port_spec() }),
    {
        match self.port {
            Some(p) => Some(p),
            None => self.default_port(),
        }
    }
}

} // verus!
