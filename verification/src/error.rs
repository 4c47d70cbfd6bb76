//! The ways in which a request fails.

use vstd::prelude::*;

verus! {

/// A failure as the contracts see it.
pub enum FailureView {
    Extraction(ExtractionError),
    Challenge(Seq<char>),
    Decode(DecodeError),
}

/// Why a request gets no response: its parts cannot be taken, its
/// credentials are not accepted, or its body cannot be decoded. A failure
/// concerns one request and no other.
pub enum Failure {
    /// The request is turned away before any body is decoded.
    Extraction(ExtractionError),
    /// The request is asked for credentials: the value of the header
    /// `WWW-Authenticate` to answer with.
    Challenge(String),
    /// The body is not what the route decodes.
    Decode(DecodeError),
}

impl View for Failure {
    type V = FailureView;

    open spec fn view(&self) -> FailureView {
        match self {
            Failure::Extraction(e) => FailureView::Extraction(*e),
            Failure::Challenge(c) => FailureView::Challenge(c@),
            Failure::Decode(e) => FailureView::Decode(*e),
        }
    }
}

/// A request whose parts cannot be taken: it is turned away before any body
/// is decoded.
#[derive(Debug, Clone, Copy, PartialEq, Eq, Structural)]
pub enum ExtractionError {
    /// The first header value came without a header name.
    HeaderName,
    /// A header value is not text.
    HeaderValue,
    /// The `Authorization` header is missing or is not of the scheme asked for.
    Authorization,
    /// The content type is not the one that the route decodes.
    ContentType,
}

/// A body that cannot be decoded as what its route expects.
#[derive(Debug, Clone, Copy, PartialEq, Eq, Structural)]
pub enum DecodeError {
    /// The body is not well-formed JSON.
    InvalidJson,
    /// A part of a multipart body has no field name.
    MissingPartName,
    /// The content of a part is not UTF-8 text.
    InvalidUtf8,
}

impl ExtractionError {
    /// What is said to the client.
    pub open spec fn message_text(self) -> Seq<char> {
        match self {
            ExtractionError::HeaderName => "header value without a header name"@,
            ExtractionError::HeaderValue => "header value is not text"@,
            ExtractionError::Authorization => "authorization header is missing or of another scheme"@,
            ExtractionError::ContentType => "content type is not the one that this route decodes"@,
        }
    }

    /// What is said to the client.
    pub fn message(&self) -> (r: String)
        ensures
            r@ == self.message_text(),
    {
        match self {
            ExtractionError::HeaderName => "header value without a header name".to_owned(),
            ExtractionError::HeaderValue => "header value is not text".to_owned(),
            ExtractionError::Authorization => "authorization header is missing or of another scheme".to_owned(),
            ExtractionError::ContentType => "content type is not the one that this route decodes".to_owned(),
        }
    }
}

impl DecodeError {
    /// What is said to the client.
    pub open spec fn message_text(self) -> Seq<char> {
        match self {
            DecodeError::InvalidJson => "body is not valid JSON"@,
            DecodeError::MissingPartName => "multipart part without a field name"@,
            DecodeError::InvalidUtf8 => "multipart part is not valid UTF-8"@,
        }
    }

    /// What is said to the client.
    pub fn message(&self) -> (r: String)
        ensures
            r@ == self.message_text(),
    {
        match self {
            DecodeError::InvalidJson => "body is not valid JSON".to_owned(),
            DecodeError::MissingPartName => "multipart part without a field name".to_owned(),
            DecodeError::InvalidUtf8 => "multipart part is not valid UTF-8".to_owned(),
        }
    }
}

} // verus!
