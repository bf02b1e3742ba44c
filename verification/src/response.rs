//! Gemini responses: the closed set of variants, their wire form and the
//! grammar that reads one from a complete buffer.

use crate::text::{
    char_digit_value, char_is_digit, decimal_text, digit_char, digit_value, is_digit, matches_at, push_decimal,
    starts_at,
};
use vstd::prelude::*;
use vstd::string::*;

verus! {

/// The type of a MIME type.
#[derive(Debug, Clone, Copy, PartialEq, Eq, Structural)]
pub enum MimeTypeType {
    /// A Gemtext document (`text/gemini`).
    TextGemini,
    /// A plain text document (`text/plain`).
    TextPlain,
}

impl MimeTypeType {
    /// The token that names the type on the wire.
    pub open spec fn text(self) -> Seq<char> {
        match self {
            MimeTypeType::TextPlain => "text/plain"@,
            MimeTypeType::TextGemini => "text/gemini"@,
        }
    }

    /// The token that names the type on the wire.
    pub fn to_string(&self) -> (s: String)
        ensures
            s@ == self.text(),
    {
        match self {
            MimeTypeType::TextPlain => String::from_str("text/plain"),
            MimeTypeType::TextGemini => String::from_str("text/gemini"),
        }
    }
}

/// A character set.
#[derive(Debug, Clone, Copy, PartialEq, Eq, Structural)]
pub enum Charset {
    /// UTF-8.
    Utf8,
    /// US-ASCII.
    UsAscii,
}

impl Charset {
    /// The token that names the character set on the wire.
    pub open spec fn text(self) -> Seq<char> {
        match self {
            Charset::Utf8 => "utf-8"@,
            Charset::UsAscii => "us-ascii"@,
        }
    }

    /// The token that names the character set on the wire.
    pub fn to_string(&self) -> (s: String)
        ensures
            s@ == self.text(),
    {
        match self {
            Charset::Utf8 => String::from_str("utf-8"),
            Charset::UsAscii => String::from_str("us-ascii"),
        }
    }
}

/// A MIME type.
#[derive(Debug, Clone, Copy, PartialEq, Eq, Structural)]
pub struct MimeType {
    /// The type of the MIME type.
    pub mime_type: MimeTypeType,
    /// The character set of the MIME type.
    pub charset: Charset,
}

impl MimeType {
    /// Create a new `MimeType`; without a character set it is UTF-8.
    pub fn new(mime_type: MimeTypeType, charset: Option<Charset>) -> (m: Self)
        ensures
            m.mime_type == mime_type,
            m.charset == match charset {
                Some(c) => c,
                None => Charset::Utf8,
            },
    {
        let charset = match charset {
            Some(c) => c,
            None => Charset::Utf8,
        };
        Self { mime_type, charset }
    }

    /// The wire form: the type, then `;charset=` and the character set.
    pub open spec fn text(self) -> Seq<char> {
        self.mime_type.text() + ";charset="@ + self.charset.text()
    }

    /// The wire form: the type, then `;charset=` and the character set.
    pub fn to_string(&self) -> (s: String)
        ensures
            s@ == self.text(),
    {
        let mut s = self.mime_type.to_string();
        s.append(";charset=");
        let charset = self.charset.to_string();
        s.append(charset.as_str());
        s
    }
}

/// Why a buffer is no response.
#[derive(Debug, Clone, Copy, PartialEq, Eq, Structural)]
pub enum ResponseError {
    /// The buffer does not start with one of the known two-digit status codes.
    UnknownStatus,
    /// The status line breaks the format of its status code.
    Malformed,
    /// Input follows the status line of a response that carries no body.
    TrailingInput,
}

/// A response to a request.
#[derive(Debug, PartialEq)]
pub enum Response {
    /// A request for input from the user.
    Input {
        /// The prompt that should be displayed to the user.
        prompt: String,
    },
    /// A request for sensitive input from the user.
    SensitiveInput {
        /// The prompt that should be displayed to the user.
        prompt: String,
    },
    /// A successful response.
    Success {
        /// The MIME type of the body.
        body_mime_type: MimeType,
        /// The body of the response.
        body: String,
    },
    /// A temporary redirect to a new URL.
    TemporaryRedirect {
        /// The URL to redirect to.
        url: String,
    },
    /// A permanent redirect to a new URL.
    PermanentRedirect {
        /// The URL to redirect to.
        url: String,
    },
    /// A temporary failure.
    TemporaryFailure {
        /// Information about the failure.
        information: String,
    },
    /// The server is currently unavailable.
    ServerUnavailable {
        /// Information about the failure.
        information: String,
    },
    /// A CGI error.
    CGIError {
        /// Information about the failure.
        information: String,
    },
    /// A proxy error.
    ProxyError {
        /// Information about the failure.
        information: String,
    },
    /// A rate limit was enforced, the server is asking the client to slow down.
    SlowDown {
        /// Information about the failure.
        information: String,
    },
    /// A permanent failure.
    PermanentFailure {
        /// Information about the failure.
        information: String,
    },
    /// The requested resource was not found.
    NotFound {
        /// Information about the failure.
        information: String,
    },
    /// The requested resource is no longer available.
    Gone {
        /// Information about the failure.
        information: String,
    },
    /// The proxy request was refused.
    ProxyRequestRefused {
        /// Information about the failure.
        information: String,
    },
    /// The request was invalid.
    BadRequest {
        /// Information about the failure.
        information: String,
    },
    /// A client certificate is required.
    ClientCertificateRequired {
        /// Information about the failure.
        information: String,
    },
    /// The client certificate given was not authorized.
    CertificateNotAuthorized {
        /// Information about the failure.
        information: String,
    },
    /// The client certificate given was not valid.
    CertificateNotValid {
        /// Information about the failure.
        information: String,
    },
}

/// What a response says: its status code, the MIME type where it is a
/// success, and its text (the body of a success, the status line's text of any
/// other response).
#[verifier::ext_equal]
pub struct ResponseView {
    pub code: nat,
    pub mime: Option<MimeType>,
    pub text: Seq<char>,
}

/// The view of a response that carries one line of text and no body.
pub open spec fn line_view(code: nat, text: Seq<char>) -> ResponseView {
    ResponseView { code, mime: None, text }
}

impl View for Response {
    type V = ResponseView;

    open spec fn view(&self) -> ResponseView {
        match self {
            Response::Input { prompt } => line_view(10, prompt@),
            Response::SensitiveInput { prompt } => line_view(11, prompt@),
            Response::Success { body_mime_type, body } => ResponseView {
                code: 20,
                mime: Some(*body_mime_type),
                text: body@,
            },
            Response::TemporaryRedirect { url } => line_view(30, url@),
            Response::PermanentRedirect { url } => line_view(31, url@),
            Response::TemporaryFailure { information } => line_view(40, information@),
            Response::ServerUnavailable { information } => line_view(41, information@),
            Response::CGIError { information } => line_view(42, information@),
            Response::ProxyError { information } => line_view(43, information@),
            Response::SlowDown { information } => line_view(44, information@),
            Response::PermanentFailure { information } => line_view(50, information@),
            Response::NotFound { information } => line_view(51, information@),
            Response::Gone { information } => line_view(52, information@),
            Response::ProxyRequestRefused { information } => line_view(53, information@),
            Response::BadRequest { information } => line_view(59, information@),
            Response::ClientCertificateRequired { information } => line_view(60, information@),
            Response::CertificateNotAuthorized { information } => line_view(61, information@),
            Response::CertificateNotValid { information } => line_view(62, information@),
        }
    }
}

/// The status codes of the responses that carry one line of text and no body.
pub open spec fn is_line_code(code: nat) -> bool {
    code == 10 || code == 11 || code == 30 || code == 31 || (40 <= code <= 44) || (50 <= code
        <= 53) || code == 59 || (60 <= code <= 62)
}

/// A carriage return and a line feed stand at position `i`.
pub open spec fn crlf_at(s: Seq<char>, i: int) -> bool {
    0 <= i && i + 1 < s.len() && s[i] == '\r' && s[i + 1] == '\n'
}

/// The position of the first CRLF at or after `from`; the length of `s` where
/// there is none.
pub open spec fn first_crlf(s: Seq<char>, from: int) -> int
    decreases s.len() - from,
{
    if from < 0 || from + 1 >= s.len() {
        s.len() as int
    } else if crlf_at(s, from) {
        from
    } else {
        first_crlf(s, from + 1)
    }
}

/// The status code that the first two characters write, if both are digits.
pub open spec fn status_of(s: Seq<char>) -> Option<nat> {
    if s.len() >= 2 && is_digit(s[0]) && is_digit(s[1]) {
        Some(digit_value(s[0]) * 10 + digit_value(s[1]))
    } else {
        None
    }
}

/// The MIME type token at `at`, with the position behind it.
pub open spec fn mime_type_at(s: Seq<char>, at: int) -> Option<(MimeTypeType, int)> {
    if starts_at(s, at, "text/plain"@) {
        Some((MimeTypeType::TextPlain, at + "text/plain"@.len()))
    } else if starts_at(s, at, "text/gemini"@) {
        Some((MimeTypeType::TextGemini, at + "text/gemini"@.len()))
    } else {
        None
    }
}

/// The character set token at `at`, with the position behind it.
pub open spec fn charset_at(s: Seq<char>, at: int) -> Option<(Charset, int)> {
    if starts_at(s, at, "utf-8"@) {
        Some((Charset::Utf8, at + "utf-8"@.len()))
    } else if starts_at(s, at, "us-ascii"@) {
        Some((Charset::UsAscii, at + "us-ascii"@.len()))
    } else {
        None
    }
}

/// The MIME type at `at`: a type token, and `;charset=` with a character set
/// token where both follow. Without them the character set is UTF-8 and the
/// position stays behind the type token.
pub open spec fn mime_at(s: Seq<char>, at: int) -> Option<(MimeType, int)> {
    match mime_type_at(s, at) {
        None => None,
        Some((mime_type, p)) => {
            let named = if starts_at(s, p, ";charset="@) {
                charset_at(s, p + ";charset="@.len())
            } else {
                None
            };
            match named {
                Some((charset, q)) => Some((MimeType { mime_type, charset }, q)),
                None => Some((MimeType { mime_type, charset: Charset::Utf8 }, p)),
            }
        },
    }
}

/// The response that a complete buffer holds.
///
/// The buffer starts with a known two-digit status code and a space. A
/// success goes on with a MIME type and CRLF, and all that follows is its
/// body. Any other response goes on with text up to the first CRLF, which
/// ends the buffer.
pub open spec fn parse_response(s: Seq<char>) -> Result<ResponseView, ResponseError> {
    match status_of(s) {
        None => Err(ResponseError::UnknownStatus),
        Some(code) => if !(is_line_code(code) || code == 20) {
            Err(ResponseError::UnknownStatus)
        } else if s.len() < 3 || s[2] != ' ' {
            Err(ResponseError::Malformed)
        } else if code == 20 {
            match mime_at(s, 3) {
                None => Err(ResponseError::Malformed),
                Some((mime, p)) => if crlf_at(s, p) {
                    Ok(
                        ResponseView {
                            code: 20,
                            mime: Some(mime),
                            text: s.subrange(p + 2, s.len() as int),
                        },
                    )
                } else {
                    Err(ResponseError::Malformed)
                },
            }
        } else {
            let end = first_crlf(s, 3);
            if end >= s.len() {
                Err(ResponseError::Malformed)
            } else if end + 2 != s.len() {
                Err(ResponseError::TrailingInput)
            } else {
                Ok(line_view(code, s.subrange(3, end)))
            }
        },
    }
}

/// The wire form of a response: the status code in decimal, a space, the
/// status line's text, CRLF, and the body.
pub open spec fn wire(v: ResponseView) -> Seq<char> {
    match v.mime {
        Some(mime) => decimal_text(v.code) + " "@ + mime.text() + "\r\n"@ + v.text,
        None => decimal_text(v.code) + " "@ + v.text + "\r\n"@,
    }
}

/// Writes a status line and a body.
pub fn format_response(response_code: u8, response_meta: &str, body: &str) -> (s: String)
    ensures
        s@ == decimal_text(response_code as nat) + " "@ + response_meta@ + "\r\n"@ + body@,
{
    let mut s = String::new();
    push_decimal(&mut s, response_code as u64);
    s.append(" ");
    s.append(response_meta);
    s.append("\r\n");
    s.append(body);
    proof {
        assert(s@ =~= decimal_text(response_code as nat) + " "@ + response_meta@ + "\r\n"@
            + body@);
    }
    s
}

/// Executable form of [`is_line_code`].
pub fn line_code(code: u8) -> (b: bool)
    ensures
        b == is_line_code(code as nat),
{
    code == 10 || code == 11 || code == 30 || code == 31 || (40 <= code && code <= 44) || (50
        <= code && code <= 53) || code == 59 || (60 <= code && code <= 62)
}

/// Finds the first CRLF at or after `from`.
pub fn find_crlf(s: &str, n: usize, from: usize) -> (end: usize)
    requires
        n == s@.len(),
        from <= n,
    ensures
        end == first_crlf(s@, from as int),
        from <= end <= n,
{
    let mut i: usize = from;
    while i < n && i + 1 < n
        invariant
            from <= i <= n,
            n == s@.len(),
            first_crlf(s@, from as int) == first_crlf(s@, i as int),
        decreases n - i,
    {
        if s.get_char(i) == '\r' && s.get_char(i + 1) == '\n' {
            return i;
        }
        i += 1;
    }
    n
}

/// What is read from a buffer is one of the responses: it has one of the
/// known status codes, and a MIME type if and only if it is a success.
pub proof fn lemma_parsed_is_a_response(s: Seq<char>)
    ensures
        match parse_response(s) {
            Ok(v) => (v.code == 20 && v.mime.is_some()) || (is_line_code(v.code)
                && v.mime.is_none()),
            Err(_) => true,
        },
{
}

/// A buffer that does not start with one of the known status codes holds no
/// response.
pub proof fn lemma_unknown_status_is_rejected(s: Seq<char>)
    requires
        match status_of(s) {
            Some(code) => code != 20 && !is_line_code(code),
            None => true,
        },
    ensures
        parse_response(s) == Err::<ResponseView, ResponseError>(ResponseError::UnknownStatus),
{
}

/// No CRLF occurs in `t`.
pub open spec fn no_crlf(t: Seq<char>) -> bool {
    forall|i: int| !crlf_at(t, i)
}

/// Where a CRLF stands at `pos` and none stands between `from` and `pos`, the
/// first CRLF from `from` on is the one at `pos`.
pub proof fn lemma_first_crlf_found(s: Seq<char>, from: int, pos: int)
    requires
        0 <= from <= pos,
        crlf_at(s, pos),
        forall|j: int| from <= j < pos ==> !crlf_at(s, j),
    ensures
        first_crlf(s, from) == pos,
    decreases pos - from,
{
    if from < pos {
        lemma_first_crlf_found(s, from + 1, pos);
    }
}

/// A literal that stands between two texts occurs there.
proof fn lemma_starts_at_middle(a: Seq<char>, lit: Seq<char>, b: Seq<char>)
    ensures
        starts_at(a + lit + b, a.len() as int, lit),
{
    assert((a + lit + b).subrange(a.len() as int, (a.len() + lit.len()) as int) =~= lit);
}

/// In the wire form of a success the MIME type is read back as it was
/// written, and the CRLF follows it.
proof fn lemma_mime_read_back(head: Seq<char>, mime: MimeType, rest: Seq<char>)
    requires
        head.len() == 3,
        rest.len() >= 1,
        rest[0] == '\r',
    ensures
        mime_at(head + mime.text() + rest, 3) == Some((mime, (3 + mime.text().len()) as int)),
{
    reveal_strlit("text/plain");
    reveal_strlit("text/gemini");
    reveal_strlit(";charset=");
    reveal_strlit("utf-8");
    reveal_strlit("us-ascii");
    let t = mime.mime_type.text();
    let c = mime.charset.text();
    let w = head + mime.text() + rest;
    let p: int = (3 + t.len()) as int;
    let q: int = p + ";charset="@.len();
    assert(w =~= head + t + (";charset="@ + c + rest));
    lemma_starts_at_middle(head, t, ";charset="@ + c + rest);
    assert(w =~= (head + t) + ";charset="@ + (c + rest));
    lemma_starts_at_middle(head + t, ";charset="@, c + rest);
    assert(w =~= (head + t + ";charset="@) + c + rest);
    lemma_starts_at_middle(head + t + ";charset="@, c, rest);
    if mime.mime_type == MimeTypeType::TextGemini {
        assert(w.subrange(3, 13)[5] == 'g');
        assert(!starts_at(w, 3, "text/plain"@));
    }
    if mime.charset == Charset::UsAscii {
        assert(w.subrange(q, q + 5)[1] == 's');
        assert(!starts_at(w, q, "utf-8"@));
    }
    assert(mime_type_at(w, 3) == Some((mime.mime_type, p)));
    assert(charset_at(w, q) == Some((mime.charset, q + c.len())));
}

/// Reading the wire form of a response gives the response back.
///
/// This holds of every success, whatever its body, and of every other
/// response whose text holds no CRLF: such a text would end the status line
/// early.
pub proof fn lemma_parse_wire_round_trip(r: Response)
    requires
        r is Success || no_crlf(r@.text),
    ensures
        parse_response(wire(r@)) == Ok::<ResponseView, ResponseError>(r@),
{
    let v = r@;
    let w = wire(v);
    let digits = decimal_text(v.code);
    reveal_with_fuel(decimal_text, 2);
    reveal_strlit(" ");
    reveal_strlit("\r\n");
    assert(digits =~= seq![digit_char(v.code / 10), digit_char(v.code % 10)]);
    let head = digits + " "@;
    assert(head.len() == 3);
    match v.mime {
        Some(mime) => {
            let rest = "\r\n"@ + v.text;
            assert(w =~= head + mime.text() + rest);
            lemma_mime_read_back(head, mime, rest);
            let p: int = (3 + mime.text().len()) as int;
            assert(w[0] == digits[0] && w[1] == digits[1] && w[2] == ' ');
            assert(w[p] == rest[0] && w[p + 1] == rest[1]);
            assert(crlf_at(w, p));
            assert(w.subrange(p + 2, w.len() as int) =~= v.text);
            assert(status_of(w) == Some(20nat));
        },
        None => {
            let t = v.text;
            let pos: int = (3 + t.len()) as int;
            assert(w =~= head + t + "\r\n"@);
            assert(w[0] == digits[0] && w[1] == digits[1] && w[2] == ' ');
            assert(w[pos] == '\r' && w[pos + 1] == '\n');
            assert forall|j: int| 3 <= j < pos implies !crlf_at(w, j) by {
                assert(w[j] == t[j - 3]);
                if j + 1 < pos {
                    assert(w[j + 1] == t[j - 2]);
                    assert(!crlf_at(t, j - 3));
                }
            }
            lemma_first_crlf_found(w, 3, pos);
            assert(w.subrange(3, pos) =~= t);
            assert(status_of(w) == Some(v.code));
        },
    }
}

impl ResponseError {
    /// What went wrong, in words.
    pub open spec fn text(self) -> Seq<char> {
        match self {
            ResponseError::UnknownStatus => "Unknown status code"@,
            ResponseError::Malformed => "Malformed status line"@,
            ResponseError::TrailingInput => "Unexpected input after the status line"@,
        }
    }

    /// What went wrong, in words.
    pub fn to_string(&self) -> (s: String)
        ensures
            s@ == self.text(),
    {
        match self {
            ResponseError::UnknownStatus => String::from_str("Unknown status code"),
            ResponseError::Malformed => String::from_str("Malformed status line"),
            ResponseError::TrailingInput => String::from_str(
                "Unexpected input after the status line",
            ),
        }
    }
}

impl Response {
    /// The status code of the response.
    pub fn code(&self) -> (code: u8)
        ensures
            code == self@.code,
    {
        match self {
            Response::Input { .. } => 10,
            Response::SensitiveInput { .. } => 11,
            Response::Success { .. } => 20,
            Response::TemporaryRedirect { .. } => 30,
            Response::PermanentRedirect { .. } => 31,
            Response::TemporaryFailure { .. } => 40,
            Response::ServerUnavailable { .. } => 41,
            Response::CGIError { .. } => 42,
            Response::ProxyError { .. } => 43,
            Response::SlowDown { .. } => 44,
            Response::PermanentFailure { .. } => 50,
            Response::NotFound { .. } => 51,
            Response::Gone { .. } => 52,
            Response::ProxyRequestRefused { .. } => 53,
            Response::BadRequest { .. } => 59,
            Response::ClientCertificateRequired { .. } => 60,
            Response::CertificateNotAuthorized { .. } => 61,
            Response::CertificateNotValid { .. } => 62,
        }
    }

    /// The wire form of the response.
    pub fn to_string(&self) -> (s: String)
        ensures
            s@ == wire(self@),
    {
        proof {
            reveal_strlit("");
        }
        let s = match self {
            Response::Success { body_mime_type, body } => {
                let mime = body_mime_type.to_string();
                format_response(20, mime.as_str(), body.as_str())
            },
            Response::Input { prompt } => format_response(10, prompt.as_str(), ""),
            Response::SensitiveInput { prompt } => format_response(11, prompt.as_str(), ""),
            Response::TemporaryRedirect { url } => format_response(30, url.as_str(), ""),
            Response::PermanentRedirect { url } => format_response(31, url.as_str(), ""),
            Response::TemporaryFailure { information } => format_response(
                40,
                information.as_str(),
                "",
            ),
            Response::ServerUnavailable { information } => format_response(
                41,
                information.as_str(),
                "",
            ),
            Response::CGIError { information } => format_response(42, information.as_str(), ""),
            Response::ProxyError { information } => format_response(43, information.as_str(), ""),
            Response::SlowDown { information } => format_response(44, information.as_str(), ""),
            Response::PermanentFailure { information } => format_response(
                50,
                information.as_str(),
                "",
            ),
            Response::NotFound { information } => format_response(51, information.as_str(), ""),
            Response::Gone { information } => format_response(52, information.as_str(), ""),
            Response::ProxyRequestRefused { information } => format_response(
                53,
                information.as_str(),
                "",
            ),
            Response::BadRequest { information } => format_response(59, information.as_str(), ""),
            Response::ClientCertificateRequired { information } => format_response(
                60,
                information.as_str(),
                "",
            ),
            Response::CertificateNotAuthorized { information } => format_response(
                61,
                information.as_str(),
                "",
            ),
            Response::CertificateNotValid { information } => format_response(
                62,
                information.as_str(),
                "",
            ),
        };
        proof {
            assert(s@ =~= wire(self@));
        }
        s
    }

    /// The response to a request for input, with status code 10 or 11.
    fn input_expected(code: u8, prompt: String) -> (r: Self)
        requires
            code == 10 || code == 11,
        ensures
            r@ == line_view(code as nat, prompt@),
    {
        if code == 10 {
            Response::Input { prompt }
        } else {
            Response::SensitiveInput { prompt }
        }
    }

    /// The redirect with status code 30 or 31.
    fn temporary_redirect(code: u8, url: String) -> (r: Self)
        requires
            code == 30 || code == 31,
        ensures
            r@ == line_view(code as nat, url@),
    {
        if code == 30 {
            Response::TemporaryRedirect { url }
        } else {
            Response::PermanentRedirect { url }
        }
    }

    /// The temporary failure with a status code from 40 to 44.
    fn temporary_failure(code: u8, information: String) -> (r: Self)
        requires
            40 <= code <= 44,
        ensures
            r@ == line_view(code as nat, information@),
    {
        if code == 40 {
            Response::TemporaryFailure { information }
        } else if code == 41 {
            Response::ServerUnavailable { information }
        } else if code == 42 {
            Response::CGIError { information }
        } else if code == 43 {
            Response::ProxyError { information }
        } else {
            Response::SlowDown { information }
        }
    }

    /// The permanent failure with status code 50, 51, 52, 53 or 59.
    fn permanent_failure(code: u8, information: String) -> (r: Self)
        requires
            50 <= code <= 53 || code == 59,
        ensures
            r@ == line_view(code as nat, information@),
    {
        if code == 50 {
            Response::PermanentFailure { information }
        } else if code == 51 {
            Response::NotFound { information }
        } else if code == 52 {
            Response::Gone { information }
        } else if code == 53 {
            Response::ProxyRequestRefused { information }
        } else {
            Response::BadRequest { information }
        }
    }

    /// The demand for a client certificate with status code 60, 61 or 62.
    fn client_certificate_required(code: u8, information: String) -> (r: Self)
        requires
            60 <= code <= 62,
        ensures
            r@ == line_view(code as nat, information@),
    {
        if code == 60 {
            Response::ClientCertificateRequired { information }
        } else if code == 61 {
            Response::CertificateNotAuthorized { information }
        } else {
            Response::CertificateNotValid { information }
        }
    }

    /// Reads a character set token at `at`.
    fn charset(input: &str, n: usize, at: usize) -> (r: Option<(Charset, usize)>)
        requires
            n == input@.len(),
            at <= n,
        ensures
            match r {
                Some((c, p)) => charset_at(input@, at as int) == Some((c, p as int)) && p <= n,
                None => charset_at(input@, at as int).is_none(),
            },
    {
        if matches_at(input, n, at, "utf-8") {
            Some((Charset::Utf8, at + "utf-8".unicode_len()))
        } else if matches_at(input, n, at, "us-ascii") {
            Some((Charset::UsAscii, at + "us-ascii".unicode_len()))
        } else {
            None
        }
    }

    /// Reads a MIME type at `at`.
    fn mime_type(input: &str, n: usize, at: usize) -> (r: Option<(MimeType, usize)>)
        requires
            n == input@.len(),
            at <= n,
        ensures
            match r {
                Some((m, p)) => mime_at(input@, at as int) == Some((m, p as int)) && p <= n,
                None => mime_at(input@, at as int).is_none(),
            },
    {
        let (mime_type, p) = if matches_at(input, n, at, "text/plain") {
            (MimeTypeType::TextPlain, at + "text/plain".unicode_len())
        } else if matches_at(input, n, at, "text/gemini") {
            (MimeTypeType::TextGemini, at + "text/gemini".unicode_len())
        } else {
            return None;
        };
        if matches_at(input, n, p, ";charset=") {
            match Self::charset(input, n, p + ";charset=".unicode_len()) {
                Some((charset, q)) => Some((MimeType::new(mime_type, Some(charset)), q)),
                None => Some((MimeType::new(mime_type, None), p)),
            }
        } else {
            Some((MimeType::new(mime_type, None), p))
        }
    }

    /// Reads what follows `20 `: a MIME type, CRLF and the body.
    fn success(input: &str, n: usize) -> (r: Result<Self, ResponseError>)
        requires
            n == input@.len(),
            status_of(input@) == Some(20nat),
            n >= 3,
            input@[2] == ' ',
        ensures
            match r {
                Ok(v) => parse_response(input@) == Ok::<ResponseView, ResponseError>(v@),
                Err(e) => parse_response(input@) == Err::<ResponseView, ResponseError>(e),
            },
    {
        match Self::mime_type(input, n, 3) {
            None => Err(ResponseError::Malformed),
            Some((body_mime_type, p)) => {
                if p < n && p + 1 < n && input.get_char(p) == '\r' && input.get_char(p + 1)
                    == '\n' {
                    let body = String::from_str(input.substring_char(p + 2, n));
                    Ok(Response::Success { body_mime_type, body })
                } else {
                    Err(ResponseError::Malformed)
                }
            },
        }
    }

    /// Reads what follows the status code and the space of a response
    /// without a body: text up to the first CRLF, which ends the buffer.
    fn status_line(input: &str, n: usize, code: u8) -> (r: Result<Self, ResponseError>)
        requires
            n == input@.len(),
            status_of(input@) == Some(code as nat),
            is_line_code(code as nat),
            n >= 3,
            input@[2] == ' ',
        ensures
            match r {
                Ok(v) => parse_response(input@) == Ok::<ResponseView, ResponseError>(v@),
                Err(e) => parse_response(input@) == Err::<ResponseView, ResponseError>(e),
            },
    {
        let end = find_crlf(input, n, 3);
        if end >= n {
            return Err(ResponseError::Malformed);
        }
        if n - end != 2 {
            return Err(ResponseError::TrailingInput);
        }
        let text = String::from_str(input.substring_char(3, end));
        let response = if code == 10 || code == 11 {
            Self::input_expected(code, text)
        } else if code == 30 || code == 31 {
            Self::temporary_redirect(code, text)
        } else if code <= 44 {
            Self::temporary_failure(code, text)
        } else if code <= 59 {
            Self::permanent_failure(code, text)
        } else {
            Self::client_certificate_required(code, text)
        };
        Ok(response)
    }

    /// Reads a response from a complete buffer.
    ///
    /// Returns the response that [`parse_response`] gives for the buffer, or
    /// the error that it gives.
    pub fn from_str(input: &str) -> (r: Result<Self, ResponseError>)
        ensures
            match r {
                Ok(v) => parse_response(input@) == Ok::<ResponseView, ResponseError>(v@),
                Err(e) => parse_response(input@) == Err::<ResponseView, ResponseError>(e),
            },
    {
        let n: usize = input.unicode_len();
        if n < 2 {
            return Err(ResponseError::UnknownStatus);
        }
        let a = input.get_char(0);
        let b = input.get_char(1);
        if !char_is_digit(a) || !char_is_digit(b) {
            return Err(ResponseError::UnknownStatus);
        }
        let code: u8 = char_digit_value(a) * 10 + char_digit_value(b);
        if !(line_code(code) || code == 20) {
            return Err(ResponseError::UnknownStatus);
        }
        if n < 3 || input.get_char(2) != ' ' {
            return Err(ResponseError::Malformed);
        }
        if code == 20 {
            Self::success(input, n)
        } else {
            Self::status_line(input, n, code)
        }
    }

    /// Reads a response from a complete buffer, as [`Response::from_str`] does.
    pub fn try_from(input: &str) -> (r: Result<Self, ResponseError>)
        ensures
            match r {
                Ok(v) => parse_response(input@) == Ok::<ResponseView, ResponseError>(v@),
                Err(e) => parse_response(input@) == Err::<ResponseView, ResponseError>(e),
            },
    {
        Self::from_str(input)
    }
}

} // verus!
