//! The decisions of the client around one request: where to connect, what to
//! send, and what the answer says.

use crate::request::{Request, MAX_URL_LENGTH};
use crate::response::{parse_response, Response, ResponseError, ResponseView};
use crate::text::{decimal_text, push_decimal};
use crate::tofu::TofuStore;
use crate::url::URL;
use vstd::prelude::*;
use vstd::string::*;

verus! {

/// Where the client keeps its TOFU store unless told otherwise.
pub const DEFAULT_STORE_PATH: &'static str = "known_hosts.json";

/// An error that can occur when the client tries to do something.
#[derive(Debug)]
pub enum ClientError {
    /// The request is too long (more than 1024 bytes).
    RequestTooLong(String),
    /// The host address could not be resolved.
    FailedToResolveHostAddress(String),
    /// The connection to the host could not be established.
    FailedToConnectToHost(String),
    /// The host's certificate was rejected: it is not the one the host is
    /// pinned to, or the host could not be pinned. Names the host.
    CertificateRejected(String),
    /// A response from the host was received but could not be parsed.
    FailedToReadResponse(String),
}

/// A TLS protocol version.
#[derive(Debug, Clone, Copy, PartialEq, Eq, Structural)]
pub enum TlsProtocolVersion {
    /// TLS 1.3.
    Tls1_3,
    /// TLS 1.2.
    Tls1_2,
    /// An unknown TLS protocol version.
    Unknown,
}

impl TlsProtocolVersion {
    /// The version that a connection reports by its number on the wire, if
    /// it reports one: 0x0304 is TLS 1.3, 0x0303 is TLS 1.2.
    pub fn from_wire(version: Option<u16>) -> (v: Self)
        ensures
            v == match version {
                Some(code) => if code == 0x0304 {
                    TlsProtocolVersion::Tls1_3
                } else if code == 0x0303 {
                    TlsProtocolVersion::Tls1_2
                } else {
                    TlsProtocolVersion::Unknown
                },
                None => TlsProtocolVersion::Unknown,
            },
    {
        match version {
            Some(code) => if code == 0x0304 {
                TlsProtocolVersion::Tls1_3
            } else if code == 0x0303 {
                TlsProtocolVersion::Tls1_2
            } else {
                TlsProtocolVersion::Unknown
            },
            None => TlsProtocolVersion::Unknown,
        }
    }
}

/// What is settled before a connection is opened: where to connect, and the
/// line to send.
#[derive(Debug, PartialEq, Eq)]
pub struct Exchange {
    /// The name of the host to connect to.
    pub hostname: String,
    /// The port to connect to.
    pub port: u16,
    /// The request line, with its CRLF.
    pub line: String,
}

/// A client for the Gemini protocol.
pub struct Client {
    tofu_store: TofuStore,
}

impl Client {
    /// The store that the client trusts hosts by.
    pub closed spec fn spec_tofu_store(&self) -> TofuStore {
        self.tofu_store
    }

    /// Create a new client with a TOFU store.
    pub fn new(tofu_store: TofuStore) -> (c: Self)
        ensures
            c.spec_tofu_store() == tofu_store,
    {
        Self { tofu_store }
    }

    /// The store that the client trusts hosts by.
    pub fn tofu_store(&self) -> (s: &TofuStore)
        ensures
            *s == self.spec_tofu_store(),
    {
        &self.tofu_store
    }

    /// The name and the port to connect to for a URL, which must have a host.
    pub fn host_address(url: &URL) -> (r: Result<(String, u16), ClientError>)
        ensures
            match r {
                Ok((name, port)) => url@.host.is_some() && name@ == url@.host.unwrap().name
                    && port == url@.host.unwrap().port,
                Err(e) => url@.host.is_none() && (e matches ClientError::FailedToResolveHostAddress(
                    m,
                ) && m@ == "URL must contain a host"@),
            },
    {
        match &url.host {
            Some(host) => Ok((host.name.clone(), host.port)),
            None => Err(
                ClientError::FailedToResolveHostAddress(String::from_str("URL must contain a host")),
            ),
        }
    }

    /// The line to send for a request, unless its URL is longer than 1024
    /// bytes: then nothing is to be sent, and the error tells the length.
    pub fn request_line(request: &Request) -> (r: Result<String, ClientError>)
        ensures
            r.is_ok() <==> request.url_length() <= MAX_URL_LENGTH,
            match r {
                Ok(line) => line@ == request.text(),
                Err(e) => (e matches ClientError::RequestTooLong(m) && m@
                    == "Request is too long: "@ + decimal_text(request.url_length()) + " bytes"@),
            },
    {
        let url = request.0.to_string();
        let length: usize = url.as_str().as_bytes().len();
        if length > MAX_URL_LENGTH {
            let mut message = String::from_str("Request is too long: ");
            push_decimal(&mut message, length as u64);
            message.append(" bytes");
            return Err(ClientError::RequestTooLong(message));
        }
        let mut line = url;
        line.append("\r\n");
        Ok(line)
    }

    /// Settle, before any connection is opened, where to connect and what
    /// to send.
    ///
    /// A request whose URL is longer than 1024 bytes is refused first, then
    /// one whose URL has no host. Otherwise the exchange names the host and
    /// the port of the URL, and the request line.
    pub fn prepare(request: &Request) -> (r: Result<Exchange, ClientError>)
        ensures
            r.is_ok() <==> request.url_length() <= MAX_URL_LENGTH && request.0@.host.is_some(),
            match r {
                Ok(exchange) => exchange.hostname@ == request.0@.host.unwrap().name
                    && exchange.port == request.0@.host.unwrap().port && exchange.line@
                    == request.text(),
                Err(e) => if request.url_length() > MAX_URL_LENGTH {
                    (e matches ClientError::RequestTooLong(m) && m@ == "Request is too long: "@
                        + decimal_text(request.url_length()) + " bytes"@)
                } else {
                    (e matches ClientError::FailedToResolveHostAddress(m) && m@
                        == "URL must contain a host"@)
                },
            },
    {
        let line = match Self::request_line(request) {
            Ok(line) => line,
            Err(e) => {
                return Err(e);
            },
        };
        match Self::host_address(&request.0) {
            Ok((hostname, port)) => Ok(Exchange { hostname, port, line }),
            Err(e) => Err(e),
        }
    }

    /// Why a handshake failed: where the certificate verifier rejected the
    /// host, the host's identity is not to be trusted, and the error names
    /// the host; any other failure is a failure to connect, with its reason.
    pub fn handshake_failure(exchange: &Exchange, rejected: bool, reason: String) -> (e:
        ClientError)
        ensures
            rejected ==> (e matches ClientError::CertificateRejected(m) && m@
                == exchange.hostname@),
            !rejected ==> (e matches ClientError::FailedToConnectToHost(m) && m@ == reason@),
    {
        if rejected {
            ClientError::CertificateRejected(exchange.hostname.clone())
        } else {
            ClientError::FailedToConnectToHost(reason)
        }
    }

    /// The response that the text received up to the end of the connection
    /// holds, or the reason why it holds none.
    pub fn read_response(text: &str) -> (r: Result<Response, ClientError>)
        ensures
            match r {
                Ok(response) => parse_response(text@) == Ok::<ResponseView, ResponseError>(
                    response@,
                ),
                Err(e) => match parse_response(text@) {
                    Err(reason) => (e matches ClientError::FailedToReadResponse(m) && m@
                        == reason.text()),
                    Ok(_) => false,
                },
            },
    {
        match Response::try_from(text) {
            Ok(response) => Ok(response),
            Err(reason) => Err(ClientError::FailedToReadResponse(reason.to_string())),
        }
    }
}

} // verus!
