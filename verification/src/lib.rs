//! A client library for the Gemini protocol: URL and response grammars, and a
//! trust-on-first-use certificate store.

pub mod client;
pub mod request;
pub mod response;
pub mod text;
pub mod tofu;
pub mod url;

pub use client::{Client, ClientError, Exchange, TlsProtocolVersion};
pub use request::Request;
pub use response::{MimeType, Response};
pub use url::{Host, Scheme, URLBuilder, URL};
