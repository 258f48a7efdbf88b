//! Deserializes a field as JSON.

use vstd::prelude::*;
use crate::bytes::read_body;
use crate::error::{Error, ErrorView, FieldError, FieldFault, MultipartError, PayloadError};
use crate::limits::Limits;
use crate::media::MediaTypeView;
use crate::part::{PartHead, PartHeadView};
use crate::reader::{FieldReader, ReaderConfig};
use crate::text_util::{chunk_views, concat};

verus! {

/// `serde_json::Value`, declared as a type whose values are carried through
/// and never looked into.
#[verifier::external_type_specification]
#[verifier::external_body]
pub struct ExJsonValue(serde_json::Value);

/// Deserialize from JSON.
#[derive(Debug)]
pub struct Json<T>(pub T);

impl<T> Json<T> {
    pub fn into_inner(self) -> (inner: T)
        ensures
            inner == self.0,
    {
        self.0
    }
}

#[derive(Debug)]
#[non_exhaustive]
pub enum JsonFieldError {
    /// Deserialize error, with the message of the parser
    Deserialize(String),
    /// Content type error
    ContentType,
}

impl JsonFieldError {
    /// The HTTP status that the failure maps to.
    pub fn status_code(&self) -> (code: u16)
        ensures
            code == 400,
    {
        400
    }
}

/// Configuration for the [`Json`] field reader.
#[derive(Clone, Copy)]
pub struct JsonConfig {
    validate_content_type: bool,
}

impl JsonConfig {
    /// Whether a part that does not declare a JSON media type is refused.
    pub closed spec fn validates(&self) -> bool {
        self.validate_content_type
    }

    /// Sets whether or not the field must have a valid `Content-Type` header to be parsed.
    pub fn validate_content_type(self, validate_content_type: bool) -> (config: Self)
        ensures
            config.validates() == validate_content_type,
    {
        let mut config = self;
        config.validate_content_type = validate_content_type;
        config
    }
}

impl Default for JsonConfig {
    fn default() -> (config: Self)
        ensures
            config.validates(),
    {
        JsonConfig { validate_content_type: true }
    }
}

/// Whether a JSON reader takes a part of this media type: with validation,
/// the part declares a type whose subtype or suffix is `json`.
pub open spec fn json_content_type_ok(validate: bool, content_type: Option<MediaTypeView>) -> bool {
    validate ==> match content_type {
        Some(m) => m.names("json"@),
        None => false,
    }
}

/// Whether `serde_json` takes these bytes for a JSON document.
pub uninterp spec fn json_accepts(body: Seq<u8>) -> bool;

/// `serde_json::from_slice::<serde_json::Value>`, a failure as its message.
/// Trusted: the call succeeds exactly on the bodies that `json_accepts`
/// names. Nothing is claimed of the document that it returns.
#[verifier::external_body]
fn json_from_slice(body: &[u8]) -> (r: Result<serde_json::Value, String>)
    ensures
        r is Ok == json_accepts(body@),
{
    serde_json::from_slice::<serde_json::Value>(body).map_err(|e| e.to_string())
}

impl JsonConfig {
    /// Checks the media type that a part declares, before its body is read.
    pub fn check_content_type(&self, head: &PartHead) -> (r: Result<(), Error>)
        ensures
            json_content_type_ok(self.validates(), head@.content_type) ==> r is Ok,
            !json_content_type_ok(self.validates(), head@.content_type) ==> r is Err && r->Err_0@
                == (ErrorView::Field {
                field_name: head@.name,
                fault: FieldFault::JsonContentType,
            }),
    {
        if self.validate_content_type {
            let valid = match &head.content_type {
                Some(m) => m.names("json"),
                None => false,
            };
            if !valid {
                return Err(
                    Error::Field {
                        field_name: head.name.clone(),
                        source: FieldError::Json(JsonFieldError::ContentType),
                    },
                );
            }
        }
        Ok(())
    }
}

/// What reading a part as JSON comes to, given the quotas before it.
pub enum JsonOutcome {
    /// The part declares no media type, or one that the reader refuses.
    ContentType,
    /// The body does not fit the quotas.
    Overflow,
    /// The body is not a JSON document.
    Deserialize,
    /// The body is a JSON document.
    Document,
}

/// The outcome of reading a part as JSON. The media type is checked before
/// the body is read, the quotas while it is read, the document at its end.
pub open spec fn json_outcome(
    validate: bool,
    head: PartHeadView,
    body: Seq<u8>,
    limits: Limits,
) -> JsonOutcome {
    if !json_content_type_ok(validate, head.content_type) {
        JsonOutcome::ContentType
    } else if !limits.admits(body.len(), true) {
        JsonOutcome::Overflow
    } else if !json_accepts(body) {
        JsonOutcome::Deserialize
    } else {
        JsonOutcome::Document
    }
}

impl Json<serde_json::Value> {
    /// The value of a JSON field from what parsing the body of the part for
    /// the field `name` gave: the document, or the parser's message as a
    /// failure under the name of the field.
    pub fn from_parsed(name: &str, parsed: Result<serde_json::Value, String>) -> (r:
        Result<Self, Error>)
        ensures
            match parsed {
                Ok(document) => r is Ok && r->Ok_0.0 == document,
                Err(_) => r is Err && r->Err_0@ == (ErrorView::Field {
                    field_name: name@,
                    fault: FieldFault::JsonDeserialize,
                }),
            },
    {
        match parsed {
            Ok(document) => Ok(Json(document)),
            Err(e) => Err(
                Error::Field {
                    field_name: name.to_owned(),
                    source: FieldError::Json(JsonFieldError::Deserialize(e)),
                },
            ),
        }
    }

    /// The value of a JSON field from a body that was read for the field
    /// `name`.
    pub fn from_body(name: &str, body: &Vec<u8>) -> (r: Result<Self, Error>)
        ensures
            json_accepts(body@) ==> r is Ok,
            !json_accepts(body@) ==> r is Err && r->Err_0@ == (ErrorView::Field {
                field_name: name@,
                fault: FieldFault::JsonDeserialize,
            }),
    {
        Json::<serde_json::Value>::from_parsed(name, json_from_slice(body.as_slice()))
    }
}

impl FieldReader for Json<serde_json::Value> {
    /// The declared media type is checked before a byte is read. Then the
    /// body is charged chunk by chunk, up to the first chunk that does not
    /// fit, and the body that fits as a whole is parsed.
    open spec fn reads(
        config: &ReaderConfig,
        head: PartHead,
        chunks: &Vec<Vec<u8>>,
        before: Limits,
        after: Limits,
        r: Result<Self, Error>,
    ) -> bool {
        let body = concat(chunk_views(chunks@));
        &&& json_content_type_ok(config.json.validates(), head@.content_type) ==> after
            == before.charged_chunks(chunk_views(chunks@), 0, true)
        &&& match json_outcome(config.json.validates(), head@, body, before) {
            JsonOutcome::ContentType => r is Err && r->Err_0@ == (ErrorView::Field {
                field_name: head@.name,
                fault: FieldFault::JsonContentType,
            }) && after == before,
            JsonOutcome::Overflow => r is Err && r->Err_0@ == ErrorView::Multipart(
                MultipartError::Payload(PayloadError::Overflow),
            ),
            JsonOutcome::Deserialize => r is Err && r->Err_0@ == (ErrorView::Field {
                field_name: head@.name,
                fault: FieldFault::JsonDeserialize,
            }) && after == before.charged(body.len(), true),
            JsonOutcome::Document => r is Ok && after == before.charged(body.len(), true),
        }
    }

    /// Reads a part into a JSON field: checks the declared media type, reads
    /// the chunks into memory under the quotas, and parses them.
    fn read_field(
        config: &ReaderConfig,
        head: PartHead,
        chunks: &Vec<Vec<u8>>,
        limits: &mut Limits,
    ) -> (r: Result<Self, Error>) {
        match config.json.check_content_type(&head) {
            Err(e) => {
                return Err(e);
            },
            Ok(()) => {},
        }
        let body = match read_body(chunks, limits, true) {
            Ok(body) => body,
            Err(e) => {
                return Err(e);
            },
        };
        Json::<serde_json::Value>::from_body(head.name.as_str(), &body)
    }
}

} // verus!
