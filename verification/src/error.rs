//! Failures: those that abort a whole decode pass, and those of one field.

use vstd::prelude::*;
use crate::json::JsonFieldError;
use crate::text::TextError;

verus! {

/// A part whose headers or body cannot be understood.
#[derive(Debug, Clone, Copy, PartialEq, Eq, Structural)]
pub enum ParseError {
    /// The content disposition is not `form-data`, or it declares no name.
    Header,
    /// The body of a text part is not UTF-8.
    Utf8,
}

/// A failure of the byte stream or of a quota.
#[derive(Debug, Clone, Copy, PartialEq, Eq, Structural)]
pub enum PayloadError {
    /// A byte or part quota would be exceeded.
    Overflow,
    /// Temporary storage could not be opened or written.
    Io,
    /// The stream ended or failed before the part was complete.
    Incomplete,
}

/// The request-fatal failures.
#[derive(Debug, Clone, Copy, PartialEq, Eq, Structural)]
pub enum MultipartError {
    Parse(ParseError),
    Payload(PayloadError),
}

impl MultipartError {
    /// Whether the failure is a quota that was exceeded, as opposed to input
    /// that is malformed or a stream that broke.
    pub open spec fn is_budget(self) -> bool {
        self == MultipartError::Payload(PayloadError::Overflow)
    }

    /// Tells a caller whether to answer "payload too large".
    pub fn is_payload_too_large(&self) -> (b: bool)
        ensures
            b == self.is_budget(),
    {
        match self {
            MultipartError::Payload(PayloadError::Overflow) => true,
            _ => false,
        }
    }

    /// The HTTP status that the failure maps to.
    pub fn status_code(&self) -> (code: u16)
        ensures
            code == 400,
    {
        400
    }
}

/// Why a part could not be decoded into the value of its field.
#[derive(Debug)]
pub enum FieldError {
    Text(TextError),
    Json(JsonFieldError),
}

/// A [`FieldError`] without its cause.
pub enum FieldFault {
    /// A text part is not UTF-8.
    TextUtf8,
    /// The text of a part is not a value of the field's type.
    TextDeserialize,
    /// A text part declares a media type other than plain text.
    TextContentType,
    /// The body of a part is not a JSON document.
    JsonDeserialize,
    /// A JSON part declares no media type, or one other than JSON.
    JsonContentType,
}

impl View for FieldError {
    type V = FieldFault;

    open spec fn view(&self) -> FieldFault {
        match self {
            FieldError::Text(TextError::Utf8Error(_)) => FieldFault::TextUtf8,
            FieldError::Text(TextError::Deserialize(_)) => FieldFault::TextDeserialize,
            FieldError::Text(TextError::ContentType) => FieldFault::TextContentType,
            FieldError::Json(JsonFieldError::Deserialize(_)) => FieldFault::JsonDeserialize,
            FieldError::Json(JsonFieldError::ContentType) => FieldFault::JsonContentType,
        }
    }
}

impl FieldError {
    /// The HTTP status that the failure maps to.
    pub fn status_code(&self) -> (code: u16)
        ensures
            code == 400,
    {
        match self {
            FieldError::Text(e) => e.status_code(),
            FieldError::Json(e) => e.status_code(),
        }
    }
}

/// A failure of decoding a form.
#[derive(Debug)]
pub enum Error {
    /// The request is malformed or over a quota.
    Multipart(MultipartError),
    /// A part could not be decoded into the value of its field.
    Field { field_name: String, source: FieldError },
    /// A second part arrived for a field that takes one, and duplicates are
    /// denied.
    DuplicateField(String),
    /// No part arrived for a required field.
    MissingField(String),
    /// A part addresses no field of the form, and unknown fields are denied.
    UnsupportedField(String),
}

/// An [`Error`] with its names as characters, without the cause of a field's
/// failure.
pub enum ErrorView {
    Multipart(MultipartError),
    Field { field_name: Seq<char>, fault: FieldFault },
    DuplicateField(Seq<char>),
    MissingField(Seq<char>),
    UnsupportedField(Seq<char>),
}

impl View for Error {
    type V = ErrorView;

    open spec fn view(&self) -> ErrorView {
        match self {
            Error::Multipart(e) => ErrorView::Multipart(*e),
            Error::Field { field_name, source } => ErrorView::Field {
                field_name: field_name@,
                fault: source@,
            },
            Error::DuplicateField(name) => ErrorView::DuplicateField(name@),
            Error::MissingField(name) => ErrorView::MissingField(name@),
            Error::UnsupportedField(name) => ErrorView::UnsupportedField(name@),
        }
    }
}

impl ErrorView {
    /// Whether the failure concerns one field, as opposed to the whole
    /// request.
    pub open spec fn is_field_scoped(self) -> bool {
        !(self is Multipart)
    }

    /// Whether the failure is a quota that was exceeded.
    pub open spec fn is_budget(self) -> bool {
        self matches ErrorView::Multipart(e) && e.is_budget()
    }
}

impl Error {
    /// Whether the failure concerns one field, whose name it carries, as
    /// opposed to the whole request.
    pub fn is_field_scoped(&self) -> (b: bool)
        ensures
            b == self@.is_field_scoped(),
    {
        match self {
            Error::Multipart(_) => false,
            _ => true,
        }
    }

    /// Tells a caller whether to answer "payload too large".
    pub fn is_payload_too_large(&self) -> (b: bool)
        ensures
            b == self@.is_budget(),
    {
        match self {
            Error::Multipart(e) => e.is_payload_too_large(),
            _ => false,
        }
    }

    /// The name of the field that the failure concerns.
    pub fn field_name(&self) -> (name: Option<&str>)
        ensures
            match self@ {
                ErrorView::Multipart(_) => name is None,
                ErrorView::Field { field_name, .. } => name is Some && name->0@ == field_name,
                ErrorView::DuplicateField(n) => name is Some && name->0@ == n,
                ErrorView::MissingField(n) => name is Some && name->0@ == n,
                ErrorView::UnsupportedField(n) => name is Some && name->0@ == n,
            },
    {
        match self {
            Error::Multipart(_) => None,
            Error::Field { field_name, .. } => Some(field_name.as_str()),
            Error::DuplicateField(name) => Some(name.as_str()),
            Error::MissingField(name) => Some(name.as_str()),
            Error::UnsupportedField(name) => Some(name.as_str()),
        }
    }

    /// The HTTP status that the failure maps to: that of the cause for a
    /// field whose part could not be decoded, "bad request" otherwise.
    pub fn status_code(&self) -> (code: u16)
        ensures
            code == 400,
    {
        match self {
            Error::Field { source, .. } => source.status_code(),
            _ => 400,
        }
    }
}

} // verus!
