use yagc::tofu::TofuStore;
use yagc::{
    Client, ClientError, Exchange, Host, Request, Response, Scheme, TlsProtocolVersion, URLBuilder, URL,
};

fn url_with_path(path: String) -> URL {
    URLBuilder::new().hostname("example.com").path(path).build()
}

#[test]
fn request_is_the_url_on_a_line() {
    let request = Request(url_with_path("/docs".to_string()));
    assert_eq!(request.to_string(), "gemini://example.com/docs\r\n");
    assert!(request.is_valid_length());
    assert_eq!(Client::request_line(&request).unwrap(), "gemini://example.com/docs\r\n");
}

#[test]
fn url_of_1024_bytes_is_sent() {
    // "gemini://example.com" is 20 bytes long.
    let request = Request(url_with_path(format!("/{}", "a".repeat(1003))));
    assert_eq!(request.0.to_string().len(), 1024);
    assert!(request.is_valid_length());
    assert_eq!(Client::request_line(&request).unwrap().len(), 1026);
}

#[test]
fn url_of_1025_bytes_is_not_sent() {
    let request = Request(url_with_path(format!("/{}", "a".repeat(1004))));
    assert!(!request.is_valid_length());
    match Client::request_line(&request) {
        Err(ClientError::RequestTooLong(message)) => {
            assert_eq!(message, "Request is too long: 1025 bytes")
        }
        other => panic!("{:?}", other),
    }
}

#[test]
fn length_is_counted_in_bytes() {
    // 512 characters of two bytes each.
    let request = Request(url_with_path(format!("/{}", "\u{e9}".repeat(512))));
    assert!(!request.is_valid_length());
    match Client::request_line(&request) {
        Err(ClientError::RequestTooLong(message)) => {
            assert_eq!(message, "Request is too long: 1045 bytes")
        }
        other => panic!("{:?}", other),
    }
}

#[test]
fn address_of_a_url_with_a_host() {
    let url = URL {
        scheme: Scheme::Gemini,
        host: Some(Host { name: "example.com".to_string(), port: 1966 }),
        path: "/".to_string(),
        query: None,
    };
    match Client::host_address(&url) {
        Ok((name, port)) => {
            assert_eq!(name, "example.com");
            assert_eq!(port, 1966);
        }
        Err(e) => panic!("{:?}", e),
    }
}

#[test]
fn url_without_a_host_has_no_address() {
    let url = URL::try_from("about:meow").unwrap();
    match Client::host_address(&url) {
        Err(ClientError::FailedToResolveHostAddress(message)) => {
            assert_eq!(message, "URL must contain a host")
        }
        other => panic!("{:?}", other),
    }
}

#[test]
fn response_is_read_or_the_reason_is_told() {
    match Client::read_response("51 not here\r\n") {
        Ok(response) => assert_eq!(response, Response::NotFound { information: "not here".to_string() }),
        Err(e) => panic!("{:?}", e),
    }
    match Client::read_response("70 meow\r\n") {
        Err(ClientError::FailedToReadResponse(message)) => assert_eq!(message, "Unknown status code"),
        other => panic!("{:?}", other),
    }
    match Client::read_response("51 not here\r\nbody") {
        Err(ClientError::FailedToReadResponse(message)) => {
            assert_eq!(message, "Unexpected input after the status line")
        }
        other => panic!("{:?}", other),
    }
}

#[test]
fn protocol_versions_by_number() {
    assert_eq!(TlsProtocolVersion::from_wire(Some(0x0304)), TlsProtocolVersion::Tls1_3);
    assert_eq!(TlsProtocolVersion::from_wire(Some(0x0303)), TlsProtocolVersion::Tls1_2);
    assert_eq!(TlsProtocolVersion::from_wire(Some(0x0302)), TlsProtocolVersion::Unknown);
    assert_eq!(TlsProtocolVersion::from_wire(None), TlsProtocolVersion::Unknown);
}

#[test]
fn client_keeps_its_store() {
    let store = TofuStore::new(yagc::client::DEFAULT_STORE_PATH.to_string()).unwrap();
    let client = Client::new(store);
    assert_eq!(client.tofu_store().path(), "known_hosts.json");
    assert!(client.tofu_store().known_hosts().is_empty());
}

#[test]
fn exchange_names_the_host_and_the_line() {
    let request = Request(URL::try_from("gemini://example.com:1966/docs?q").unwrap());
    assert_eq!(
        Client::prepare(&request).unwrap(),
        Exchange {
            hostname: "example.com".to_string(),
            port: 1966,
            line: "gemini://example.com:1966/docs?q\r\n".to_string(),
        }
    );
}

#[test]
fn no_exchange_for_a_request_that_is_too_long() {
    let request = Request(url_with_path(format!("/{}", "a".repeat(2000))));
    match Client::prepare(&request) {
        Err(ClientError::RequestTooLong(message)) => {
            assert_eq!(message, "Request is too long: 2021 bytes")
        }
        other => panic!("{:?}", other),
    }
    // the length is judged first
    let request = Request(URLBuilder::new().path("a".repeat(2000)).build());
    assert!(matches!(Client::prepare(&request), Err(ClientError::RequestTooLong(_))));
}

#[test]
fn no_exchange_without_a_host() {
    let request = Request(URL::try_from("about:meow").unwrap());
    match Client::prepare(&request) {
        Err(ClientError::FailedToResolveHostAddress(message)) => {
            assert_eq!(message, "URL must contain a host")
        }
        other => panic!("{:?}", other),
    }
}

#[test]
fn rejected_certificate_is_no_failure_to_connect() {
    let request = Request(URL::try_from("gemini://example.com/").unwrap());
    let exchange = Client::prepare(&request).unwrap();
    match Client::handshake_failure(&exchange, true, "invalid peer certificate".to_string()) {
        ClientError::CertificateRejected(host) => assert_eq!(host, "example.com"),
        other => panic!("{:?}", other),
    }
    match Client::handshake_failure(&exchange, false, "connection reset".to_string()) {
        ClientError::FailedToConnectToHost(reason) => assert_eq!(reason, "connection reset"),
        other => panic!("{:?}", other),
    }
}
