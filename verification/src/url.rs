//! Gemini URLs: the value type, its builder, its text form and its grammar.

use crate::text::{
    all_in_class, decimal_text, decimal_value, has_dot, in_class, is_digit, lemma_decimal_text,
    lemma_span_end, lemma_span_over, lemma_span_shift, matches_at, push_decimal, read_u16, scan,
    span_end, starts_at, CharClass,
};
use vstd::prelude::*;
use vstd::string::*;

verus! {

/// The port a Gemini server listens on when a URL names none.
pub const DEFAULT_PORT: u16 = 1965;

/// The path of a URL that names none.
pub const DEFAULT_PATH: &'static str = "/";

/// The scheme of a URL that names none.
pub const DEFAULT_SCHEME: Scheme = Scheme::Gemini;

/// The scheme part of a URL.
#[derive(Debug, PartialEq, Eq, Copy, Clone, Structural)]
pub enum Scheme {
    Gemini,
    About,
}

impl Scheme {
    /// The name of the scheme.
    pub open spec fn text(self) -> Seq<char> {
        match self {
            Scheme::Gemini => "gemini"@,
            Scheme::About => "about"@,
        }
    }

    /// The name of the scheme.
    pub fn to_string(&self) -> (s: String)
        ensures
            s@ == self.text(),
    {
        match self {
            Scheme::Gemini => String::from_str("gemini"),
            Scheme::About => String::from_str("about"),
        }
    }
}

/// The host part of a URL.
#[derive(Debug, PartialEq, Clone)]
pub struct Host {
    pub name: String,
    pub port: u16,
}

/// What a host says: its name as text, and its port.
#[verifier::ext_equal]
pub struct HostView {
    pub name: Seq<char>,
    pub port: u16,
}

impl View for Host {
    type V = HostView;

    open spec fn view(&self) -> HostView {
        HostView { name: self.name@, port: self.port }
    }
}

impl HostView {
    /// The name, a colon and the port in decimal.
    pub open spec fn text(self) -> Seq<char> {
        self.name + ":"@ + decimal_text(self.port as nat)
    }
}

impl Host {
    /// The name, a colon and the port in decimal.
    pub fn to_string(&self) -> (s: String)
        ensures
            s@ == self@.text(),
    {
        let mut s = self.name.clone();
        s.append(":");
        push_decimal(&mut s, self.port as u64);
        s
    }

    /// A host with the same name and port.
    pub fn duplicate(&self) -> (h: Host)
        ensures
            h@ == self@,
    {
        Host { name: self.name.clone(), port: self.port }
    }
}

/// A URL to a Gemini resource.
#[derive(Debug, PartialEq)]
pub struct URL {
    /// The scheme part of the URL.
    pub scheme: Scheme,
    /// The host part of the URL.
    pub host: Option<Host>,
    /// The path part of the URL.
    pub path: String,
    /// The query part of the URL.
    pub query: Option<String>,
}

/// What a URL says, with its texts as sequences of characters.
#[verifier::ext_equal]
pub struct UrlView {
    pub scheme: Scheme,
    pub host: Option<HostView>,
    pub path: Seq<char>,
    pub query: Option<Seq<char>>,
}

impl View for URL {
    type V = UrlView;

    open spec fn view(&self) -> UrlView {
        UrlView {
            scheme: self.scheme,
            host: match self.host {
                Some(h) => Some(h@),
                None => None,
            },
            path: self.path@,
            query: match self.query {
                Some(q) => Some(q@),
                None => None,
            },
        }
    }
}

impl UrlView {
    /// Whether the text shows the port: always, but for the default port
    /// before a path that starts with `/`. A path that starts otherwise would
    /// run into the host's name without the port between them.
    pub open spec fn port_shown(self) -> bool {
        match self.host {
            None => false,
            Some(h) => !(h.port == DEFAULT_PORT && self.path.len() > 0 && self.path[0] == '/'),
        }
    }

    /// The authority: `//` and the host's name, then a colon and the port
    /// where the port is shown. Empty without a host.
    pub open spec fn authority_text(self) -> Seq<char> {
        match self.host {
            None => Seq::empty(),
            Some(h) => authority_of(h, self.port_shown()),
        }
    }

    /// The query behind a `?`. Empty without a query.
    pub open spec fn query_text(self) -> Seq<char> {
        match self.query {
            None => Seq::empty(),
            Some(q) => "?"@ + q,
        }
    }

    /// The text form of the URL: scheme, colon, authority, the path as it
    /// stands, and the query.
    pub open spec fn text(self) -> Seq<char> {
        self.scheme.text() + ":"@ + self.authority_text() + self.path + self.query_text()
    }
}

/// Why a text is no URL.
#[derive(Debug, Clone, Copy, PartialEq, Eq, Structural)]
pub enum UrlError {
    /// The digits of the port write a number above 65535.
    PortOutOfRange,
    /// Input is left behind the path that is no query.
    TrailingInput,
}

/// The scheme at the start of `s`, with the position behind its colon.
pub open spec fn scheme_at(s: Seq<char>) -> Option<(Scheme, int)> {
    if starts_at(s, 0, "gemini:"@) {
        Some((Scheme::Gemini, "gemini:"@.len() as int))
    } else if starts_at(s, 0, "about:"@) {
        Some((Scheme::About, "about:"@.len() as int))
    } else {
        None
    }
}

/// The end of the hostname at `at`: the longest run without `/` and `:`,
/// which is a hostname only if it holds a dot.
pub open spec fn hostname_at(s: Seq<char>, at: int) -> Option<int> {
    let end = span_end(s, at, CharClass::HostName);
    if s.subrange(at, end).contains('.') {
        Some(end)
    } else {
        None
    }
}

/// The authority at `at`: `//`, a hostname and, where a colon and digits
/// follow, the port that the digits write. `Ok(None)` where no authority
/// stands at `at`; an error where the port does not fit sixteen bits.
pub open spec fn host_at(s: Seq<char>, at: int) -> Result<Option<(HostView, int)>, UrlError> {
    if !starts_at(s, at, "//"@) {
        Ok(None)
    } else {
        let from = at + "//"@.len();
        match hostname_at(s, from) {
            None => Ok(None),
            Some(end) => {
                let name = s.subrange(from, end);
                let stop = span_end(s, end + 1, CharClass::Digit);
                if end < s.len() && s[end] == ':' && stop > end + 1 {
                    let value = decimal_value(s.subrange(end + 1, stop));
                    if value > 65535 {
                        Err(UrlError::PortOutOfRange)
                    } else {
                        Ok(Some((HostView { name, port: value as u16 }, stop)))
                    }
                } else {
                    Ok(Some((HostView { name, port: DEFAULT_PORT }, end)))
                }
            },
        }
    }
}

/// The URL that the parts read from a text make.
///
/// Without a scheme and an authority, a path whose first segment holds a dot
/// names a host by that segment, at the default port, and what follows the
/// segment is the path. Otherwise the parts stand as they were read. A
/// missing scheme is the default scheme, an empty path is `/`.
pub open spec fn assemble(
    scheme: Option<Scheme>,
    host: Option<HostView>,
    path: Seq<char>,
    query: Option<Seq<char>>,
) -> UrlView {
    let seg = span_end(path, 0, CharClass::Segment);
    if scheme.is_none() && host.is_none() && path.len() > 0 && path[0] != '/' && path.subrange(
        0,
        seg,
    ).contains('.') {
        UrlView {
            scheme: DEFAULT_SCHEME,
            host: Some(HostView { name: path.subrange(0, seg), port: DEFAULT_PORT }),
            path: if seg < path.len() {
                path.subrange(seg, path.len() as int)
            } else {
                DEFAULT_PATH@
            },
            query,
        }
    } else {
        UrlView {
            scheme: match scheme {
                Some(s) => s,
                None => DEFAULT_SCHEME,
            },
            host,
            path: if path.len() == 0 {
                DEFAULT_PATH@
            } else {
                path
            },
            query,
        }
    }
}

/// The URL that a text writes.
///
/// The text holds, in this order: a scheme with its colon, or none; an
/// authority, or none; a path, which runs up to the first `?` or `:`; and a
/// query, which is a `?` and all that follows. Nothing may be left over.
pub open spec fn parse_url(s: Seq<char>) -> Result<UrlView, UrlError> {
    let (scheme, host_from) = match scheme_at(s) {
        Some((scheme, p)) => (Some(scheme), p),
        None => (None::<Scheme>, 0int),
    };
    match host_at(s, host_from) {
        Err(e) => Err(e),
        Ok(found) => {
            let (host, path_from) = match found {
                Some((h, p)) => (Some(h), p),
                None => (None::<HostView>, host_from),
            };
            let path_end = span_end(s, path_from, CharClass::Path);
            if path_end < s.len() && s[path_end] != '?' {
                Err(UrlError::TrailingInput)
            } else {
                let query = if path_end < s.len() {
                    Some(s.subrange(path_end + 1, s.len() as int))
                } else {
                    None
                };
                Ok(assemble(scheme, host, s.subrange(path_from, path_end), query))
            }
        },
    }
}

/// A host read from a text corresponds to the one that the grammar gives.
pub open spec fn host_agrees(
    r: Result<Option<(Host, usize)>, UrlError>,
    e: Result<Option<(HostView, int)>, UrlError>,
) -> bool {
    match (r, e) {
        (Ok(Some((h, p))), Ok(Some((hv, pv)))) => h@ == hv && p == pv,
        (Ok(None), Ok(None)) => true,
        (Err(a), Err(b)) => a == b,
        _ => false,
    }
}

impl URL {
    /// The text form of the URL.
    pub fn to_string(&self) -> (uri: String)
        ensures
            uri@ == self@.text(),
    {
        let mut uri = self.scheme.to_string();
        uri.append(":");
        let path = self.path.as_str();
        let slash = path.unicode_len() > 0 && path.get_char(0) == '/';
        if let Some(host) = &self.host {
            uri.append("//");
            uri.append(host.name.as_str());
            if !(host.port == DEFAULT_PORT && slash) {
                uri.append(":");
                push_decimal(&mut uri, host.port as u64);
            }
        }
        uri.append(path);
        if let Some(query) = &self.query {
            uri.append("?");
            uri.append(query.as_str());
        }
        proof {
            assert(uri@ =~= self@.text());
        }
        uri
    }

    /// Reads a scheme and its colon at the start of the input.
    fn scheme(input: &str, n: usize) -> (r: Option<(Scheme, usize)>)
        requires
            n == input@.len(),
        ensures
            match r {
                Some((s, p)) => scheme_at(input@) == Some((s, p as int)) && p <= n,
                None => scheme_at(input@).is_none(),
            },
    {
        if matches_at(input, n, 0, "gemini:") {
            Some((Scheme::Gemini, "gemini:".unicode_len()))
        } else if matches_at(input, n, 0, "about:") {
            Some((Scheme::About, "about:".unicode_len()))
        } else {
            None
        }
    }

    /// Reads a hostname at `at` and gives its end.
    fn hostname(input: &str, n: usize, at: usize) -> (r: Option<usize>)
        requires
            n == input@.len(),
            at <= n,
        ensures
            match r {
                Some(end) => hostname_at(input@, at as int) == Some(end as int) && at <= end <= n,
                None => hostname_at(input@, at as int).is_none(),
            },
    {
        let end = scan(input, n, at, CharClass::HostName);
        if has_dot(input, at, end) {
            Some(end)
        } else {
            None
        }
    }

    /// Reads the digits of a port at `at`, where there are any, and gives
    /// their end with the number they write, if it fits sixteen bits.
    fn port(input: &str, n: usize, at: usize) -> (r: Option<(Option<u16>, usize)>)
        requires
            n == input@.len(),
            at <= n,
        ensures
            match r {
                Some((value, stop)) => {
                    &&& stop == span_end(input@, at as int, CharClass::Digit)
                    &&& at < stop <= n
                    &&& value == if decimal_value(input@.subrange(at as int, stop as int))
                        <= 65535 {
                        Some(decimal_value(input@.subrange(at as int, stop as int)) as u16)
                    } else {
                        None
                    }
                },
                None => span_end(input@, at as int, CharClass::Digit) == at,
            },
    {
        let stop = scan(input, n, at, CharClass::Digit);
        if stop == at {
            None
        } else {
            Some((read_u16(input.substring_char(at, stop)), stop))
        }
    }

    /// Reads an authority at `at`.
    fn host(input: &str, n: usize, at: usize) -> (r: Result<Option<(Host, usize)>, UrlError>)
        requires
            n == input@.len(),
            at <= n,
        ensures
            host_agrees(r, host_at(input@, at as int)),
            r matches Ok(Some((_, p))) ==> at <= p <= n,
    {
        if !matches_at(input, n, at, "//") {
            return Ok(None);
        }
        let from = at + "//".unicode_len();
        let end = match Self::hostname(input, n, from) {
            None => {
                return Ok(None);
            },
            Some(end) => end,
        };
        let name = String::from_str(input.substring_char(from, end));
        if end < n && input.get_char(end) == ':' {
            match Self::port(input, n, end + 1) {
                Some((Some(port), stop)) => Ok(Some((Host { name, port }, stop))),
                Some((None, _)) => Err(UrlError::PortOutOfRange),
                None => Ok(Some((Host { name, port: DEFAULT_PORT }, end))),
            }
        } else {
            Ok(Some((Host { name, port: DEFAULT_PORT }, end)))
        }
    }

    /// Reads a path at `at` and gives its end.
    fn path(input: &str, n: usize, at: usize) -> (end: usize)
        requires
            n == input@.len(),
            at <= n,
        ensures
            end == span_end(input@, at as int, CharClass::Path),
            at <= end <= n,
    {
        scan(input, n, at, CharClass::Path)
    }

    /// Reads a query at `at`: a `?` and all that follows.
    fn query(input: &str, n: usize, at: usize) -> (r: Option<String>)
        requires
            n == input@.len(),
            at <= n,
        ensures
            match r {
                Some(q) => at < n && input@[at as int] == '?' && q@ == input@.subrange(
                    at + 1,
                    n as int,
                ),
                None => at == n || input@[at as int] != '?',
            },
    {
        if at < n && input.get_char(at) == '?' {
            Some(String::from_str(input.substring_char(at + 1, n)))
        } else {
            None
        }
    }

    /// Makes a URL of the parts read from a text.
    fn url(scheme: Option<Scheme>, host: Option<Host>, path: &str, query: Option<String>) -> (u:
        URL)
        ensures
            u@ == assemble(
                scheme,
                match host {
                    Some(h) => Some(h@),
                    None => None,
                },
                path@,
                match query {
                    Some(q) => Some(q@),
                    None => None,
                },
            ),
    {
        let mut url_builder = URLBuilder::new();
        if let Some(scheme) = scheme {
            url_builder = url_builder.scheme(scheme);
        }
        let len = path.unicode_len();
        let seg = scan(path, len, 0, CharClass::Segment);
        let bare = scheme.is_none() && host.is_none() && len > 0 && path.get_char(0) != '/'
            && has_dot(path, 0, seg);
        if bare {
            let name = String::from_str(path.substring_char(0, seg));
            url_builder = url_builder.host(Host { name, port: DEFAULT_PORT });
            if seg < len {
                url_builder = url_builder.path(String::from_str(path.substring_char(seg, len)));
            }
        } else {
            if let Some(host) = host {
                url_builder = url_builder.host(host);
            }
            if len > 0 {
                url_builder = url_builder.path(String::from_str(path));
            }
        }
        if let Some(query) = query {
            url_builder = url_builder.query(query);
        }
        url_builder.build()
    }

    /// Reads a URL from a text.
    ///
    /// Returns the URL that [`parse_url`] gives for the text, or the error
    /// that it gives.
    pub fn try_from(value: &str) -> (r: Result<URL, UrlError>)
        ensures
            match r {
                Ok(u) => parse_url(value@) == Ok::<UrlView, UrlError>(u@),
                Err(e) => parse_url(value@) == Err::<UrlView, UrlError>(e),
            },
    {
        let n: usize = value.unicode_len();
        let (scheme, host_from) = match Self::scheme(value, n) {
            Some((scheme, p)) => (Some(scheme), p),
            None => (None, 0),
        };
        let (host, path_from) = match Self::host(value, n, host_from) {
            Err(e) => {
                return Err(e);
            },
            Ok(Some((host, p))) => (Some(host), p),
            Ok(None) => (None, host_from),
        };
        let path_end = Self::path(value, n, path_from);
        if path_end < n && value.get_char(path_end) != '?' {
            return Err(UrlError::TrailingInput);
        }
        let query = Self::query(value, n, path_end);
        Ok(Self::url(scheme, host, value.substring_char(path_from, path_end), query))
    }
}

/// What a builder holds: the scheme, and each other part where it was set.
#[verifier::ext_equal]
pub struct BuilderView {
    pub scheme: Scheme,
    pub host: Option<HostView>,
    pub path: Option<Seq<char>>,
    pub query: Option<Seq<char>>,
}

impl BuilderView {
    /// A builder on which nothing was set.
    pub open spec fn fresh() -> BuilderView {
        BuilderView { scheme: DEFAULT_SCHEME, host: None, path: None, query: None }
    }

    /// The builder with the host `name` at the default port.
    pub open spec fn with_hostname(self, name: Seq<char>) -> BuilderView {
        BuilderView { host: Some(HostView { name, port: DEFAULT_PORT }), ..self }
    }

    /// The URL that the builder makes: its parts, with `/` for a path that
    /// was not set.
    pub open spec fn built(self) -> UrlView {
        UrlView {
            scheme: self.scheme,
            host: self.host,
            path: match self.path {
                Some(p) => p,
                None => DEFAULT_PATH@,
            },
            query: self.query,
        }
    }
}

/// A builder for `URL`s.
pub struct URLBuilder {
    scheme: Scheme,
    host: Option<Host>,
    path: Option<String>,
    query: Option<String>,
}

impl View for URLBuilder {
    type V = BuilderView;

    closed spec fn view(&self) -> BuilderView {
        BuilderView {
            scheme: self.scheme,
            host: match self.host {
                Some(h) => Some(h@),
                None => None,
            },
            path: match self.path {
                Some(p) => Some(p@),
                None => None,
            },
            query: match self.query {
                Some(q) => Some(q@),
                None => None,
            },
        }
    }
}

impl URLBuilder {
    /// Create a new `URLBuilder`.
    pub fn new() -> (b: Self)
        ensures
            b@ == BuilderView::fresh(),
    {
        Self { scheme: DEFAULT_SCHEME, host: None, path: None, query: None }
    }

    /// Set the scheme of the URL.
    pub fn scheme(self, scheme: Scheme) -> (b: Self)
        ensures
            b@ == (BuilderView { scheme, ..self@ }),
    {
        let mut b = self;
        b.scheme = scheme;
        b
    }

    /// Set the host of the URL.
    pub fn host(self, host: Host) -> (b: Self)
        ensures
            b@ == (BuilderView { host: Some(host@), ..self@ }),
    {
        let mut b = self;
        b.host = Some(host);
        b
    }

    /// Set the host of the URL by its name alone, at the default port.
    pub fn hostname(self, name: &str) -> (b: Self)
        ensures
            b@ == self@.with_hostname(name@),
    {
        self.host(Host { name: String::from_str(name), port: DEFAULT_PORT })
    }

    /// Set the path of the URL.
    pub fn path(self, path: String) -> (b: Self)
        ensures
            b@ == (BuilderView { path: Some(path@), ..self@ }),
    {
        let mut b = self;
        b.path = Some(path);
        b
    }

    /// Set the query of the URL.
    pub fn query(self, query: String) -> (b: Self)
        ensures
            b@ == (BuilderView { query: Some(query@), ..self@ }),
    {
        let mut b = self;
        b.query = Some(query);
        b
    }

    /// Build the URL.
    pub fn build(&self) -> (u: URL)
        ensures
            u@ == self@.built(),
    {
        let path = match &self.path {
            Some(p) => p.clone(),
            None => String::from_str(DEFAULT_PATH),
        };
        let query = match &self.query {
            Some(q) => Some(q.clone()),
            None => None,
        };
        let host = match &self.host {
            Some(h) => Some(h.duplicate()),
            None => None,
        };
        URL { scheme: self.scheme, host, path, query }
    }
}

/// A URL built with only a hostname has the default scheme, the default port
/// and the path `/`, and no query.
pub proof fn lemma_hostname_only_defaults(name: Seq<char>)
    ensures
        BuilderView::fresh().with_hostname(name).built() == (UrlView {
            scheme: Scheme::Gemini,
            host: Some(HostView { name, port: 1965 }),
            path: "/"@,
            query: None,
        }),
{
}

/// The text of an authority: `//` and the name, then a colon and the port
/// where the port is shown.
pub open spec fn authority_of(h: HostView, port_shown: bool) -> Seq<char> {
    if port_shown {
        "//"@ + h.name + ":"@ + decimal_text(h.port as nat)
    } else {
        "//"@ + h.name
    }
}

/// A URL in a form that reading gives: the path is not empty and holds neither
/// `?` nor `:`. With a host, the host's name holds a dot and neither `/` nor
/// `:`, and the path does not start with a digit. Without a host, no authority
/// stands at the start of the path and the query.
pub open spec fn readable(u: UrlView) -> bool {
    &&& u.path.len() > 0
    &&& all_in_class(u.path, CharClass::Path)
    &&& match u.host {
        Some(h) => {
            &&& all_in_class(h.name, CharClass::HostName)
            &&& h.name.contains('.')
            &&& !is_digit(u.path[0])
        },
        None => host_at(u.path + u.query_text(), 0) == Ok::<Option<(HostView, int)>, UrlError>(
            None,
        ),
    }
}

/// Whether an authority stands at a place in a text depends only on what
/// follows that place.
proof fn lemma_no_authority_shift(pre: Seq<char>, x: Seq<char>)
    ensures
        host_at(pre + x, pre.len() as int) == Ok::<Option<(HostView, int)>, UrlError>(None)
            <==> host_at(x, 0) == Ok::<Option<(HostView, int)>, UrlError>(None),
{
    reveal_strlit("//");
    let s = pre + x;
    let n = pre.len() as int;
    if x.len() >= 2 {
        assert(s.subrange(n, n + 2) =~= x.subrange(0, 2));
        lemma_span_shift(pre, x, 2, CharClass::HostName);
        lemma_span_end(x, 2, CharClass::HostName);
        let end = span_end(x, 2, CharClass::HostName);
        assert(s.subrange(n + 2, n + end) =~= x.subrange(2, end));
    }
}

/// Every URL that is read from a text is readable.
pub proof fn lemma_parsed_is_readable(s: Seq<char>, u: UrlView)
    requires
        parse_url(s) == Ok::<UrlView, UrlError>(u),
    ensures
        readable(u),
{
    reveal_strlit("/");
    reveal_strlit("?");
    reveal_strlit("//");
    let (scheme, host_from) = match scheme_at(s) {
        Some((scheme, p)) => (Some(scheme), p),
        None => (None::<Scheme>, 0int),
    };
    let found = host_at(s, host_from).unwrap();
    let path_from = match found {
        Some((_, p)) => p,
        None => host_from,
    };
    match found {
        Some((h, p)) => {
            let from = host_from + 2;
            lemma_span_end(s, from, CharClass::HostName);
            let end = span_end(s, from, CharClass::HostName);
            if end < s.len() {
                lemma_span_end(s, end + 1, CharClass::Digit);
            }
            assert forall|i: int| 0 <= i < h.name.len() implies in_class(
                #[trigger] h.name[i],
                CharClass::HostName,
            ) by {
                assert(h.name[i] == s[from + i]);
            }
        },
        None => {},
    }
    lemma_span_end(s, path_from, CharClass::Path);
    let path_end = span_end(s, path_from, CharClass::Path);
    let raw = s.subrange(path_from, path_end);
    assert forall|i: int| 0 <= i < raw.len() implies in_class(#[trigger] raw[i], CharClass::Path) by {
        assert(raw[i] == s[path_from + i]);
    }
    if raw.len() > 0 {
        assert(raw[0] == s[path_from]);
    }
    if found.is_some() {
        assert forall|i: int| 0 <= i < u.path.len() implies in_class(
            #[trigger] u.path[i],
            CharClass::Path,
        ) by {
            if raw.len() > 0 {
                assert(u.path[i] == raw[i]);
            }
        }
    } else if u.host.is_some() {
        lemma_span_end(raw, 0, CharClass::Segment);
        let seg = span_end(raw, 0, CharClass::Segment);
        let name = u.host.unwrap().name;
        assert forall|i: int| 0 <= i < name.len() implies in_class(
            #[trigger] name[i],
            CharClass::HostName,
        ) by {
            assert(name[i] == raw[i]);
            assert(in_class(raw[i], CharClass::Path));
            assert(in_class(raw[i], CharClass::Segment));
        }
        assert forall|i: int| 0 <= i < u.path.len() implies in_class(
            #[trigger] u.path[i],
            CharClass::Path,
        ) by {
            if seg < raw.len() {
                assert(u.path[i] == raw[seg + i]);
            }
        }
        if seg < raw.len() {
            assert(u.path[0] == raw[seg]);
        }
    } else {
        assert forall|i: int| 0 <= i < u.path.len() implies in_class(
            #[trigger] u.path[i],
            CharClass::Path,
        ) by {
            if raw.len() > 0 {
                assert(u.path[i] == raw[i]);
            }
        }
        let x = u.path + u.query_text();
        if raw.len() > 0 {
            let pre = s.subrange(0, host_from);
            assert(s =~= pre + x);
            lemma_no_authority_shift(pre, x);
        } else {
            if x.len() >= 2 {
                assert(x.subrange(0, 2)[1] == '?');
            }
        }
    }
}

/// The scheme and its colon at the start of a text are read as that scheme.
proof fn lemma_scheme_reads_back(scheme: Scheme, rest: Seq<char>)
    ensures
        scheme_at(scheme.text() + ":"@ + rest) == Some(
            (scheme, (scheme.text() + ":"@).len() as int),
        ),
{
    reveal_strlit("gemini");
    reveal_strlit("about");
    reveal_strlit("gemini:");
    reveal_strlit("about:");
    reveal_strlit(":");
    let s = scheme.text() + ":"@ + rest;
    match scheme {
        Scheme::Gemini => {
            assert(s.subrange(0, 7) =~= "gemini:"@);
        },
        Scheme::About => {
            assert(s.subrange(0, 6) =~= "about:"@);
            if starts_at(s, 0, "gemini:"@) {
                assert(s.subrange(0, 7)[0] == 'g');
                assert(s[0] == 'a');
            }
        },
    }
}

/// The text of an authority is read as that authority, before what does not
/// start with a digit, and starts with `/` where the port is not shown.
proof fn lemma_host_reads_back(pre: Seq<char>, h: HostView, port_shown: bool, rest: Seq<char>)
    requires
        all_in_class(h.name, CharClass::HostName),
        h.name.contains('.'),
        rest.len() > 0,
        !is_digit(rest[0]),
        !port_shown ==> h.port == DEFAULT_PORT && rest[0] == '/',
    ensures
        host_at(pre + authority_of(h, port_shown) + rest, pre.len() as int) == Ok::<
            Option<(HostView, int)>,
            UrlError,
        >(Some((h, (pre + authority_of(h, port_shown)).len() as int))),
{
    reveal_strlit(":");
    reveal_strlit("//");
    let s = pre + authority_of(h, port_shown) + rest;
    let at = pre.len() as int;
    let from = at + 2;
    let end = from + h.name.len();
    let digits = decimal_text(h.port as nat);
    lemma_decimal_text(h.port as nat);
    assert(s.subrange(at, at + 2) =~= "//"@);
    assert forall|j: int| from <= j < end implies in_class(
        #[trigger] s[j],
        CharClass::HostName,
    ) by {
        assert(s[j] == h.name[j - from]);
    }
    if port_shown {
        assert(s[end] == ':');
    } else {
        assert(s[end] == rest[0]);
    }
    lemma_span_over(s, from, end, CharClass::HostName);
    assert(s.subrange(from, end) =~= h.name);
    assert(hostname_at(s, from) == Some(end));
    if port_shown {
        let stop = end + 1 + digits.len();
        assert forall|j: int| end + 1 <= j < stop implies in_class(
            #[trigger] s[j],
            CharClass::Digit,
        ) by {
            assert(s[j] == digits[j - end - 1]);
        }
        assert(s[stop] == rest[0]);
        lemma_span_over(s, end + 1, stop, CharClass::Digit);
        assert(s.subrange(end + 1, stop) =~= digits);
    }
}

/// A path and a query at the end of a text are read as that path and that
/// query.
proof fn lemma_tail_reads_back(pre: Seq<char>, path: Seq<char>, query: Option<Seq<char>>)
    requires
        all_in_class(path, CharClass::Path),
    ensures
        ({
            let s = pre + path + match query {
                Some(q) => "?"@ + q,
                None => Seq::<char>::empty(),
            };
            let end = (pre.len() + path.len()) as int;
            &&& span_end(s, pre.len() as int, CharClass::Path) == end
            &&& s.subrange(pre.len() as int, end) == path
            &&& match query {
                Some(q) => end < s.len() && s[end] == '?' && s.subrange(end + 1, s.len() as int)
                    == q,
                None => end == s.len(),
            }
        }),
{
    reveal_strlit("?");
    let s = pre + path + match query {
        Some(q) => "?"@ + q,
        None => Seq::<char>::empty(),
    };
    let from = pre.len() as int;
    let end = from + path.len();
    assert forall|j: int| from <= j < end implies in_class(#[trigger] s[j], CharClass::Path) by {
        assert(s[j] == path[j - from]);
    }
    match query {
        Some(q) => {
            assert(s[end] == '?');
            assert(s.subrange(end + 1, s.len() as int) =~= q);
        },
        None => {},
    }
    lemma_span_over(s, from, end, CharClass::Path);
    assert(s.subrange(from, end) =~= path);
}

/// Reading the text of a readable URL gives the URL back.
pub proof fn lemma_readable_reads_back(u: UrlView)
    requires
        readable(u),
    ensures
        parse_url(u.text()) == Ok::<UrlView, UrlError>(u),
{
    let s = u.text();
    let head = u.scheme.text() + ":"@;
    let authority = u.authority_text();
    let tail = u.query_text();
    assert(s =~= u.scheme.text() + ":"@ + (authority + u.path + tail));
    lemma_scheme_reads_back(u.scheme, authority + u.path + tail);
    let host_from = head.len() as int;
    let path_from = (head + authority).len() as int;
    let path_end = path_from + u.path.len();
    assert(scheme_at(s) == Some((u.scheme, host_from)));
    assert(s =~= (head + authority) + u.path + tail);
    lemma_tail_reads_back(head + authority, u.path, u.query);
    assert(span_end(s, path_from, CharClass::Path) == path_end);
    match u.host {
        Some(h) => {
            assert((u.path + tail)[0] == u.path[0]);
            assert(s =~= head + authority_of(h, u.port_shown()) + (u.path + tail));
            lemma_host_reads_back(head, h, u.port_shown(), u.path + tail);
            assert(host_at(s, host_from) == Ok::<Option<(HostView, int)>, UrlError>(
                Some((h, path_from)),
            ));
            assert(assemble(Some(u.scheme), Some(h), u.path, u.query) =~= u);
        },
        None => {
            assert(s =~= head + (u.path + tail));
            lemma_no_authority_shift(head, u.path + tail);
            assert(host_at(s, host_from) == Ok::<Option<(HostView, int)>, UrlError>(None));
            assert(head + authority =~= head);
            assert(assemble(Some(u.scheme), None, u.path, u.query) =~= u);
        },
    }
}

/// Serialising a URL that was read from a text and reading it again gives
/// the same URL.
pub proof fn lemma_url_round_trip(s: Seq<char>, u: UrlView)
    requires
        parse_url(s) == Ok::<UrlView, UrlError>(u),
    ensures
        parse_url(u.text()) == Ok::<UrlView, UrlError>(u),
{
    lemma_parsed_is_readable(s, u);
    lemma_readable_reads_back(u);
}

} // verus!
