//! The client's closed error taxonomy: base-URL validation failures,
//! transport failures, and failures reported by the API itself.

use vstd::prelude::*;
use crate::client::ErrorReceipt;
use crate::text::{chars_to_string, dec_digits, push_dec_u64, push_str_chars};

verus! {

/// A failure reported by the Postmark API.
#[derive(PartialEq, Clone, Debug)]
pub enum PostmarkError {
    /// HTTP 422: the provider rejected the request semantically and
    /// returned a machine-readable receipt saying why.
    UnprocessableEntity(ErrorReceipt),
    /// Any other unexpected response status, carried as the raw code;
    /// no body is interpreted for these.
    Other(u16),
}

/// Every failure the client can surface.
#[derive(PartialEq, Clone, Debug)]
pub enum Error {
    /// The base URL was rejected at validation; carries the serialized
    /// URL and a human-readable reason.
    Url { url: String, reason: String },
    /// Transport-level failure (connection, TLS, timeout) or a response
    /// body that could not be decoded; carries the underlying message.
    HttpClient(String),
    /// A failure reported by the API.
    Postmark(PostmarkError),
}

impl PostmarkError {
    pub open spec fn message_spec(self) -> Seq<char> {
        match self {
            PostmarkError::UnprocessableEntity(receipt) => "received response with error `"@
                + dec_digits(receipt.error_code as int) + " - "@ + receipt.message@ + "`"@,
            PostmarkError::Other(code) => "received response with status code `"@ + dec_digits(
                code as int,
            ) + "`"@,
        }
    }

    /// Human-readable description of the failure.
    pub fn message(&self) -> (r: String)
        ensures
            r@ == self.message_spec(),
    {
        let mut out: Vec<char> = Vec::new();
        match self {
            PostmarkError::UnprocessableEntity(receipt) => {
                push_str_chars(&mut out, "received response with error `");
                push_dec_u64(&mut out, receipt.error_code as u64);
                push_str_chars(&mut out, " - ");
                push_str_chars(&mut out, receipt.message.as_str());
                push_str_chars(&mut out, "`");
            },
            PostmarkError::Other(code) => {
                push_str_chars(&mut out, "received response with status code `");
                push_dec_u64(&mut out, *code as u64);
                push_str_chars(&mut out, "`");
            },
        }
        chars_to_string(&out)
    }
}

impl Error {
    pub open spec fn message_spec(self) -> Seq<char> {
        match self {
            Error::Url { url, reason } => reason@ + ", was `"@ + url@ + "`"@,
            Error::HttpClient(detail) => detail@,
            Error::Postmark(e) => e.message_spec(),
        }
    }

    /// Human-readable description of the failure.
    pub fn message(&self) -> (r: String)
        ensures
            r@ == self.message_spec(),
    {
        match self {
            Error::Url { url, reason } => {
                let mut out: Vec<char> = Vec::new();
                push_str_chars(&mut out, reason.as_str());
                push_str_chars(&mut out, ", was `");
                push_str_chars(&mut out, url.as_str());
                push_str_chars(&mut out, "`");
                chars_to_string(&out)
            },
            Error::HttpClient(detail) => detail.clone(),
            Error::Postmark(e) => e.message(),
        }
    }
}

} // verus!
