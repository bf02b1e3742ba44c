//! The request: one URL on a line of its own.

use crate::url::URL;
use vstd::prelude::*;
use vstd::string::*;
use vstd::utf8::encode_utf8;

verus! {

/// The most bytes that the URL of a request may take.
pub const MAX_URL_LENGTH: usize = 1024;

/// A request to a given URL.
#[derive(Debug)]
pub struct Request(pub URL);

impl Request {
    /// The request as it is sent: the text of the URL and CRLF.
    pub open spec fn text(&self) -> Seq<char> {
        self.0@.text() + "\r\n"@
    }

    /// The number of bytes that the text of the URL takes in UTF-8.
    pub open spec fn url_length(&self) -> nat {
        encode_utf8(self.0@.text()).len()
    }

    /// The request as it is sent: the text of the URL and CRLF.
    pub fn to_string(&self) -> (s: String)
        ensures
            s@ == self.text(),
    {
        let mut s = self.0.to_string();
        s.append("\r\n");
        s
    }

    /// Check if the request is valid (less than or equal to 1024 bytes).
    pub fn is_valid_length(&self) -> (ok: bool)
        ensures
            ok == (self.url_length() <= MAX_URL_LENGTH),
    {
        let url = self.0.to_string();
        url.as_str().as_bytes().len() <= MAX_URL_LENGTH
    }
}

} // verus!
