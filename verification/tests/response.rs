use yagc::response::{Charset, MimeType, MimeTypeType, Response, ResponseError};

#[test]
fn input() {
    let response = Response::try_from("10 What is the capital of France?\r\n");
    assert_eq!(response, Ok(Response::Input { prompt: "What is the capital of France?".to_string() }));
}

#[test]
fn sensitive_input() {
    let response = Response::try_from("11 What is the capital of France?\r\n");
    assert_eq!(response, Ok(Response::SensitiveInput { prompt: "What is the capital of France?".to_string() }));
}

#[test]
fn success_without_charset() {
    let response = Response::try_from("20 text/plain\r\nHello, world!");
    assert_eq!(response, Ok(Response::Success {
        body_mime_type: MimeType::new(MimeTypeType::TextPlain, Some(Charset::Utf8)),
        body: "Hello, world!".to_string(),
    }));
}

#[test]
fn success_with_charset() {
    let response = Response::try_from("20 text/plain;charset=us-ascii\r\nHello, world!");
    assert_eq!(response, Ok(Response::Success {
        body_mime_type: MimeType::new(MimeTypeType::TextPlain, Some(Charset::UsAscii)),
        body: "Hello, world!".to_string(),
    }));
}

#[test]
fn temporary_redirect() {
    let response = Response::try_from("30 https://example.com\r\n");
    assert_eq!(response, Ok(Response::TemporaryRedirect { url: "https://example.com".to_string() }));
}

#[test]
fn permanent_redirect() {
    let response = Response::try_from("31 https://example.com\r\n");
    assert_eq!(response, Ok(Response::PermanentRedirect { url: "https://example.com".to_string() }));
}

#[test]
fn temporary_failure() {
    let response = Response::try_from("40 The server is temporarily unable to service your request due to maintenance downtime or capacity problems. Please try again later.\r\n");
    assert_eq!(response, Ok(Response::TemporaryFailure { information: "The server is temporarily unable to service your request due to maintenance downtime or capacity problems. Please try again later.".to_string() }));
}

#[test]
fn server_unavailable() {
    let response = Response::try_from("41 The server is currently unavailable. Please try again later.\r\n");
    assert_eq!(response, Ok(Response::ServerUnavailable { information: "The server is currently unavailable. Please try again later.".to_string() }));
}

#[test]
fn cgi_error() {
    let response = Response::try_from("42 meow\r\n");
    assert_eq!(response, Ok(Response::CGIError { information: "meow".to_string() }));
}

#[test]
fn proxy_error() {
    let response = Response::try_from("43 meow\r\n");
    assert_eq!(response, Ok(Response::ProxyError { information: "meow".to_string() }));
}

#[test]
fn slow_down() {
    let response = Response::try_from("44 meow\r\n");
    assert_eq!(response, Ok(Response::SlowDown { information: "meow".to_string() }));
}

#[test]
fn permanent_failure() {
    let response = Response::try_from("50 meow\r\n");
    assert_eq!(response, Ok(Response::PermanentFailure { information: "meow".to_string() }));
}

#[test]
fn not_found() {
    let response = Response::try_from("51 meow\r\n");
    assert_eq!(response, Ok(Response::NotFound { information: "meow".to_string() }));
}

#[test]
fn gone() {
    let response = Response::try_from("52 meow\r\n");
    assert_eq!(response, Ok(Response::Gone { information: "meow".to_string() }));
}

#[test]
fn proxy_request_refused() {
    let response = Response::try_from("53 meow\r\n");
    assert_eq!(response, Ok(Response::ProxyRequestRefused { information: "meow".to_string() }));
}

#[test]
fn bad_request() {
    let response = Response::try_from("59 meow\r\n");
    assert_eq!(response, Ok(Response::BadRequest { information: "meow".to_string() }));
}

#[test]
fn client_certificate_required() {
    let response = Response::try_from("60 meow\r\n");
    assert_eq!(response, Ok(Response::ClientCertificateRequired { information: "meow".to_string() }));
}

#[test]
fn certificate_not_authorized() {
    let response = Response::try_from("61 meow\r\n");
    assert_eq!(response, Ok(Response::CertificateNotAuthorized { information: "meow".to_string() }));
}

#[test]
fn certificate_not_valid() {
    let response = Response::try_from("62 meow\r\n");
    assert_eq!(response, Ok(Response::CertificateNotValid { information: "meow".to_string() }));
}

#[test]
fn invalid_response() {
    let response = Response::try_from("70 meow\r\n");
    assert!(response.is_err());
}

fn one_of_each() -> Vec<Response> {
    let t = |s: &str| s.to_string();
    vec![
        Response::Input { prompt: t("Name?") },
        Response::SensitiveInput { prompt: t("Password?") },
        Response::Success {
            body_mime_type: MimeType::new(MimeTypeType::TextGemini, None),
            body: t("# Title\r\n=> gemini://example.com link\r\n"),
        },
        Response::Success {
            body_mime_type: MimeType::new(MimeTypeType::TextPlain, Some(Charset::UsAscii)),
            body: t(""),
        },
        Response::TemporaryRedirect { url: t("gemini://example.com/a") },
        Response::PermanentRedirect { url: t("gemini://example.com/b") },
        Response::TemporaryFailure { information: t("later") },
        Response::ServerUnavailable { information: t("down") },
        Response::CGIError { information: t("cgi") },
        Response::ProxyError { information: t("proxy") },
        Response::SlowDown { information: t("60") },
        Response::PermanentFailure { information: t("no") },
        Response::NotFound { information: t("missing") },
        Response::Gone { information: t("gone") },
        Response::ProxyRequestRefused { information: t("refused") },
        Response::BadRequest { information: t("bad") },
        Response::ClientCertificateRequired { information: t("cert") },
        Response::CertificateNotAuthorized { information: t("unauthorized") },
        Response::CertificateNotValid { information: t("") },
    ]
}

#[test]
fn every_variant_round_trips() {
    for response in one_of_each() {
        let wire = response.to_string();
        assert_eq!(Response::try_from(wire.as_str()), Ok(response));
    }
}

#[test]
fn status_codes_of_every_variant() {
    let codes: Vec<u8> = one_of_each().iter().map(|r| r.code()).collect();
    assert_eq!(
        codes,
        vec![10, 11, 20, 20, 30, 31, 40, 41, 42, 43, 44, 50, 51, 52, 53, 59, 60, 61, 62]
    );
}

#[test]
fn wire_form_of_a_status_line() {
    let response = Response::NotFound { information: "nothing here".to_string() };
    assert_eq!(response.to_string(), "51 nothing here\r\n");
}

#[test]
fn wire_form_of_a_success_names_the_charset() {
    let response = Response::Success {
        body_mime_type: MimeType::new(MimeTypeType::TextPlain, None),
        body: "Hello".to_string(),
    };
    assert_eq!(response.to_string(), "20 text/plain;charset=utf-8\r\nHello");
}

#[test]
fn mime_type_defaults_to_utf8() {
    let mime = MimeType::new(MimeTypeType::TextGemini, None);
    assert_eq!(mime.charset, Charset::Utf8);
    assert_eq!(mime.to_string(), "text/gemini;charset=utf-8");
    assert_eq!(MimeTypeType::TextPlain.to_string(), "text/plain");
    assert_eq!(Charset::UsAscii.to_string(), "us-ascii");
}

#[test]
fn success_body_is_taken_verbatim() {
    let response = Response::try_from("20 text/gemini\r\nline one\r\nline two\r\n\u{0}\u{e9}");
    assert_eq!(
        response,
        Ok(Response::Success {
            body_mime_type: MimeType::new(MimeTypeType::TextGemini, Some(Charset::Utf8)),
            body: "line one\r\nline two\r\n\u{0}\u{e9}".to_string(),
        })
    );
}

#[test]
fn success_with_empty_body() {
    let response = Response::try_from("20 text/gemini;charset=utf-8\r\n");
    assert_eq!(
        response,
        Ok(Response::Success {
            body_mime_type: MimeType::new(MimeTypeType::TextGemini, Some(Charset::Utf8)),
            body: String::new(),
        })
    );
}

#[test]
fn empty_prompt_is_a_prompt() {
    assert_eq!(Response::try_from("10 \r\n"), Ok(Response::Input { prompt: String::new() }));
}

#[test]
fn text_with_a_lone_carriage_return() {
    assert_eq!(
        Response::try_from("40 a\rb\r\r\n"),
        Ok(Response::TemporaryFailure { information: "a\rb\r".to_string() })
    );
}

#[test]
fn non_ascii_text_is_counted_by_character() {
    assert_eq!(
        Response::try_from("30 gemini://\u{e9}.example/\u{4e16}\r\n"),
        Ok(Response::TemporaryRedirect { url: "gemini://\u{e9}.example/\u{4e16}".to_string() })
    );
}

#[test]
fn unknown_status_codes_are_rejected() {
    for text in ["70 meow\r\n", "09 meow\r\n", "45 meow\r\n", "54 x\r\n", "63 x\r\n", "21 text/plain\r\n", "", "1", "xx y\r\n"] {
        assert_eq!(Response::try_from(text), Err(ResponseError::UnknownStatus), "{:?}", text);
    }
}

#[test]
fn three_digit_status_is_rejected() {
    assert_eq!(Response::try_from("100 meow\r\n"), Err(ResponseError::Malformed));
}

#[test]
fn malformed_status_lines_are_rejected() {
    for text in ["10", "10meow\r\n", "10 meow", "10 meow\n", "20 text/html\r\nbody", "20 text/plain;charset=latin1\r\nbody", "20 text/plain", "20 text/plain \r\n", "20 text/plain;charset=\r\n"] {
        assert_eq!(Response::try_from(text), Err(ResponseError::Malformed), "{:?}", text);
    }
}

#[test]
fn trailing_input_is_rejected() {
    for text in ["10 a\r\nb", "31 gemini://example.com\r\n\r\n", "62 meow\r\nbody\r\n"] {
        assert_eq!(Response::try_from(text), Err(ResponseError::TrailingInput), "{:?}", text);
    }
}

#[test]
fn text_with_crlf_does_not_round_trip() {
    let response = Response::Input { prompt: "a\r\nb".to_string() };
    assert_eq!(
        Response::try_from(response.to_string().as_str()),
        Err(ResponseError::TrailingInput)
    );
}

#[test]
fn from_str_reads_as_try_from_does() {
    assert_eq!(Response::from_str("52 meow\r\n"), Response::try_from("52 meow\r\n"));
    assert_eq!(Response::from_str("7"), Response::try_from("7"));
}

#[test]
fn response_errors_in_words() {
    assert_eq!(ResponseError::UnknownStatus.to_string(), "Unknown status code");
    assert_eq!(ResponseError::Malformed.to_string(), "Malformed status line");
    assert_eq!(ResponseError::TrailingInput.to_string(), "Unexpected input after the status line");
}
