//! Deserializes a field from plain text.

use vstd::prelude::*;
use vstd::utf8::{decode_utf8, valid_utf8};
use crate::bytes::read_body;
use crate::error::{Error, ErrorView, FieldError, FieldFault, MultipartError, PayloadError};
use crate::limits::Limits;
use crate::media::MediaTypeView;
use crate::number::{parsed_i32, parsed_i64};
use crate::part::{PartHead, PartHeadView};
use crate::reader::{FieldReader, ReaderConfig};
use crate::text_util::{concat, chunk_views, text_from_utf8};

verus! {

/// Deserialize from plain text.
///
/// The text of the part is the value of a [`String`] field and is parsed for
/// an integer field.
#[derive(Debug)]
pub struct Text<T>(pub T);

impl<T> Text<T> {
    pub fn into_inner(self) -> (inner: T)
        ensures
            inner == self.0,
    {
        self.0
    }
}

#[derive(Debug)]
#[non_exhaustive]
pub enum TextError {
    /// Utf8 error
    Utf8Error(core::str::Utf8Error),
    /// Deserialize error, with the message of the deserializer
    Deserialize(String),
    /// Content type error
    ContentType,
}

impl TextError {
    /// The HTTP status that the failure maps to.
    pub fn status_code(&self) -> (code: u16)
        ensures
            code == 400,
    {
        400
    }
}

/// Configuration for the [`Text`] field reader.
#[derive(Clone, Copy)]
pub struct TextConfig {
    validate_content_type: bool,
}

impl TextConfig {
    /// Whether a part that declares a media type other than plain text is
    /// refused.
    pub closed spec fn validates(&self) -> bool {
        self.validate_content_type
    }

    /// Sets whether or not the field must have a valid `Content-Type` header to be parsed.
    /// Note that an empty `Content-Type` is also accepted, as the multipart specification defines
    /// `text/plain` as the default for text fields.
    pub fn validate_content_type(self, validate_content_type: bool) -> (config: Self)
        ensures
            config.validates() == validate_content_type,
    {
        let mut config = self;
        config.validate_content_type = validate_content_type;
        config
    }
}

impl Default for TextConfig {
    fn default() -> (config: Self)
        ensures
            config.validates(),
    {
        TextConfig { validate_content_type: true }
    }
}

/// Whether a text reader takes a part of this media type: with validation,
/// the part declares no type, or one whose subtype or suffix is `plain`.
pub open spec fn text_content_type_ok(validate: bool, content_type: Option<MediaTypeView>) -> bool {
    validate ==> match content_type {
        Some(m) => m.names("plain"@),
        None => true,
    }
}

/// `serde_plain::from_str::<String>`, a failure as its message. Trusted: for
/// a string the call hands back the text itself and never fails.
#[verifier::external_body]
fn plain_to_string(text: &str) -> (r: Result<String, String>)
    ensures
        r is Ok,
        r->Ok_0@ == text@,
{
    serde_plain::from_str::<String>(text).map_err(|e| e.to_string())
}

/// `serde_plain::from_str::<i64>`, a failure as its message. Trusted: for an
/// integer the call parses the whole text with the standard library, so it
/// reads an optional sign and then decimal digits only.
#[verifier::external_body]
fn plain_to_integer(text: &str) -> (r: Result<i64, String>)
    ensures
        match r {
            Ok(n) => parsed_i64(text@) == Some(n),
            Err(_) => parsed_i64(text@) is None,
        },
{
    serde_plain::from_str::<i64>(text).map_err(|e| e.to_string())
}

/// `serde_plain::from_str::<i32>`, a failure as its message. Trusted: for an
/// integer the call parses the whole text with the standard library, so it
/// reads an optional sign and then decimal digits only.
#[verifier::external_body]
fn plain_to_i32(text: &str) -> (r: Result<i32, String>)
    ensures
        match r {
            Ok(n) => parsed_i32(text@) == Some(n),
            Err(_) => parsed_i32(text@) is None,
        },
{
    serde_plain::from_str::<i32>(text).map_err(|e| e.to_string())
}

impl TextConfig {
    /// Checks the media type that a part declares, before its body is read.
    pub fn check_content_type(&self, head: &PartHead) -> (r: Result<(), Error>)
        ensures
            text_content_type_ok(self.validates(), head@.content_type) ==> r is Ok,
            !text_content_type_ok(self.validates(), head@.content_type) ==> r is Err && r->Err_0@
                == (ErrorView::Field {
                field_name: head@.name,
                fault: FieldFault::TextContentType,
            }),
    {
        if self.validate_content_type {
            let valid = match &head.content_type {
                Some(m) => m.names("plain"),
                None => true,
            };
            if !valid {
                return Err(
                    Error::Field {
                        field_name: head.name.clone(),
                        source: FieldError::Text(TextError::ContentType),
                    },
                );
            }
        }
        Ok(())
    }
}

/// The text of a body that was read for the field `name`.
pub fn text_of_body(name: &str, body: &Vec<u8>) -> (r: Result<String, Error>)
    ensures
        valid_utf8(body@) ==> r is Ok && r->Ok_0@ == decode_utf8(body@),
        !valid_utf8(body@) ==> r is Err && r->Err_0@ == (ErrorView::Field {
            field_name: name@,
            fault: FieldFault::TextUtf8,
        }),
{
    match text_from_utf8(body.as_slice()) {
        Ok(text) => Ok(text),
        Err(e) => Err(
            Error::Field {
                field_name: name.to_owned(),
                source: FieldError::Text(TextError::Utf8Error(e)),
            },
        ),
    }
}

/// The failure of the field `name` to take its part as text.
pub open spec fn text_failure(name: Seq<char>, fault: FieldFault) -> ErrorView {
    ErrorView::Field { field_name: name, fault }
}

/// What reading a part as text gives, given the quotas before it: the text,
/// or the failure. The media type is checked before the body is read, the
/// quotas while it is read, the encoding at its end.
pub open spec fn text_result(
    validate: bool,
    head: PartHeadView,
    body: Seq<u8>,
    limits: Limits,
) -> Result<Seq<char>, ErrorView> {
    if !text_content_type_ok(validate, head.content_type) {
        Err(text_failure(head.name, FieldFault::TextContentType))
    } else if !limits.admits(body.len(), true) {
        Err(ErrorView::Multipart(MultipartError::Payload(PayloadError::Overflow)))
    } else if !valid_utf8(body) {
        Err(text_failure(head.name, FieldFault::TextUtf8))
    } else {
        Ok(decode_utf8(body))
    }
}

/// Whether `after` is what reading a part as text leaves of the quotas
/// `before`: a part whose media type is refused leaves them as they are; any
/// other part is charged chunk by chunk, up to the first chunk that does not
/// fit, which comes to its whole length where it fits as a whole.
pub open spec fn text_quotas(
    validate: bool,
    head: PartHeadView,
    chunks: Seq<Seq<u8>>,
    before: Limits,
    after: Limits,
) -> bool {
    if !text_content_type_ok(validate, head.content_type) {
        after == before
    } else {
        &&& after == before.charged_chunks(chunks, 0, true)
        &&& before.admits(concat(chunks).len(), true) ==> after == before.charged(
            concat(chunks).len(),
            true,
        )
    }
}

/// Whether `r` is the value that a field makes of the outcome `read` of
/// reading its part as text, where `parsed` is what the type of the field
/// reads in a text: the failure of the reading, the value that the text
/// denotes, or the failure to denote one under the name of the field.
pub open spec fn text_denotes<N>(
    name: Seq<char>,
    read: Result<Seq<char>, ErrorView>,
    parsed: spec_fn(Seq<char>) -> Option<N>,
    r: Result<Text<N>, Error>,
) -> bool {
    match read {
        Err(e) => r is Err && r->Err_0@ == e,
        Ok(text) => match parsed(text) {
            Some(n) => r is Ok && r->Ok_0.0 == n,
            None => r is Err && r->Err_0@ == text_failure(name, FieldFault::TextDeserialize),
        },
    }
}

/// Reads the body of a part as text: checks the declared media type, reads
/// the chunks into memory under the quotas, and decodes them as UTF-8.
pub fn read_text(
    config: &TextConfig,
    head: &PartHead,
    chunks: &Vec<Vec<u8>>,
    limits: &mut Limits,
) -> (r: Result<String, Error>)
    ensures
        final(limits).within(*old(limits)),
        text_quotas(
            config.validates(),
            head@,
            chunk_views(chunks@),
            *old(limits),
            *final(limits),
        ),
        match text_result(config.validates(), head@, concat(chunk_views(chunks@)), *old(limits)) {
            Ok(text) => r is Ok && r->Ok_0@ == text,
            Err(e) => r is Err && r->Err_0@ == e,
        },
{
    match config.check_content_type(head) {
        Err(e) => {
            return Err(e);
        },
        Ok(()) => {},
    }
    let body = match read_body(chunks, limits, true) {
        Ok(body) => body,
        Err(e) => {
            return Err(e);
        },
    };
    text_of_body(head.name.as_str(), &body)
}

impl Text<String> {
    /// The value of a string field from the text of its part.
    pub fn from_text(text: String) -> (r: Self)
        ensures
            r.0@ == text@,
    {
        match plain_to_string(text.as_str()) {
            Ok(value) => Text(value),
            Err(_) => Text(text),
        }
    }
}

impl FieldReader for Text<String> {
    /// The part is read as text, and the text is the value.
    open spec fn reads(
        config: &ReaderConfig,
        head: PartHead,
        chunks: &Vec<Vec<u8>>,
        before: Limits,
        after: Limits,
        r: Result<Self, Error>,
    ) -> bool {
        &&& text_quotas(config.text.validates(), head@, chunk_views(chunks@), before, after)
        &&& match text_result(
            config.text.validates(),
            head@,
            concat(chunk_views(chunks@)),
            before,
        ) {
            Ok(text) => r is Ok && r->Ok_0.0@ == text,
            Err(e) => r is Err && r->Err_0@ == e,
        }
    }

    /// Reads a part into a string field.
    fn read_field(
        config: &ReaderConfig,
        head: PartHead,
        chunks: &Vec<Vec<u8>>,
        limits: &mut Limits,
    ) -> (r: Result<Self, Error>) {
        match read_text(&config.text, &head, chunks, limits) {
            Ok(text) => Ok(Text::<String>::from_text(text)),
            Err(e) => Err(e),
        }
    }
}

impl Text<i64> {
    /// The value of an integer field from the text of the part for the
    /// field `name`.
    pub fn from_text(name: &str, text: &str) -> (r: Result<Self, Error>)
        ensures
            text_denotes(name@, Ok(text@), |t: Seq<char>| parsed_i64(t), r),
    {
        match plain_to_integer(text) {
            Ok(n) => Ok(Text(n)),
            Err(e) => Err(
                Error::Field {
                    field_name: name.to_owned(),
                    source: FieldError::Text(TextError::Deserialize(e)),
                },
            ),
        }
    }
}

impl FieldReader for Text<i64> {
    /// The part is read as text, and the text is read as a decimal integer.
    open spec fn reads(
        config: &ReaderConfig,
        head: PartHead,
        chunks: &Vec<Vec<u8>>,
        before: Limits,
        after: Limits,
        r: Result<Self, Error>,
    ) -> bool {
        &&& text_quotas(config.text.validates(), head@, chunk_views(chunks@), before, after)
        &&& text_denotes(
            head@.name,
            text_result(config.text.validates(), head@, concat(chunk_views(chunks@)), before),
            |t: Seq<char>| parsed_i64(t),
            r,
        )
    }

    /// Reads a part into an integer field.
    fn read_field(
        config: &ReaderConfig,
        head: PartHead,
        chunks: &Vec<Vec<u8>>,
        limits: &mut Limits,
    ) -> (r: Result<Self, Error>) {
        match read_text(&config.text, &head, chunks, limits) {
            Ok(text) => Text::<i64>::from_text(head.name.as_str(), text.as_str()),
            Err(e) => Err(e),
        }
    }
}

impl Text<i32> {
    /// The value of an integer field from the text of the part for the
    /// field `name`.
    pub fn from_text(name: &str, text: &str) -> (r: Result<Self, Error>)
        ensures
            text_denotes(name@, Ok(text@), |t: Seq<char>| parsed_i32(t), r),
    {
        match plain_to_i32(text) {
            Ok(n) => Ok(Text(n)),
            Err(e) => Err(
                Error::Field {
                    field_name: name.to_owned(),
                    source: FieldError::Text(TextError::Deserialize(e)),
                },
            ),
        }
    }
}

impl FieldReader for Text<i32> {
    /// The part is read as text, and the text is read as a decimal integer.
    open spec fn reads(
        config: &ReaderConfig,
        head: PartHead,
        chunks: &Vec<Vec<u8>>,
        before: Limits,
        after: Limits,
        r: Result<Self, Error>,
    ) -> bool {
        &&& text_quotas(config.text.validates(), head@, chunk_views(chunks@), before, after)
        &&& text_denotes(
            head@.name,
            text_result(config.text.validates(), head@, concat(chunk_views(chunks@)), before),
            |t: Seq<char>| parsed_i32(t),
            r,
        )
    }

    /// Reads a part into an integer field.
    fn read_field(
        config: &ReaderConfig,
        head: PartHead,
        chunks: &Vec<Vec<u8>>,
        limits: &mut Limits,
    ) -> (r: Result<Self, Error>) {
        match read_text(&config.text, &head, chunks, limits) {
            Ok(text) => Text::<i32>::from_text(head.name.as_str(), text.as_str()),
            Err(e) => Err(e),
        }
    }
}

} // verus!
