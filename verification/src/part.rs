//! Parts of a multipart body: their headers, their classification, and the
//! values that a decoded part becomes.

use vstd::prelude::*;
use crate::error::{MultipartError, ParseError};
use crate::media::{
    octet_stream_view, parsed_media_type, text_plain_view, MediaType, MediaTypeView,
};
use crate::text_util::{chunk_views, concat, opt_chars};

verus! {

/// The disposition that a part's `Content-Disposition` header declares.
#[derive(Debug, Clone)]
pub enum DispositionType {
    Inline,
    Attachment,
    FormData,
    /// Any other disposition, by its name.
    Ext(String),
}

/// The header fields of a part that decoding depends on, as the part
/// declares them.
#[derive(Debug, Clone)]
pub struct PartHeaders {
    pub disposition: DispositionType,
    /// The `name` parameter of the content disposition.
    pub name: Option<String>,
    /// The `filename` parameter of the content disposition.
    pub filename: Option<String>,
    /// The value of the `Content-Type` header.
    pub content_type: Option<String>,
}

/// A [`DispositionType`] with its name as characters.
pub enum DispositionView {
    Inline,
    Attachment,
    FormData,
    Ext(Seq<char>),
}

impl View for DispositionType {
    type V = DispositionView;

    open spec fn view(&self) -> DispositionView {
        match self {
            DispositionType::Inline => DispositionView::Inline,
            DispositionType::Attachment => DispositionView::Attachment,
            DispositionType::FormData => DispositionView::FormData,
            DispositionType::Ext(name) => DispositionView::Ext(name@),
        }
    }
}

/// The characters of [`PartHeaders`].
pub struct PartHeadersView {
    pub disposition: DispositionView,
    pub name: Option<Seq<char>>,
    pub filename: Option<Seq<char>>,
    pub content_type: Option<Seq<char>>,
}

impl View for PartHeaders {
    type V = PartHeadersView;

    open spec fn view(&self) -> PartHeadersView {
        PartHeadersView {
            disposition: self.disposition@,
            name: opt_chars(self.name),
            filename: opt_chars(self.filename),
            content_type: opt_chars(self.content_type),
        }
    }
}

impl PartHeaders {
    /// A copy of the headers.
    pub fn duplicate(&self) -> (copy: PartHeaders)
        ensures
            copy@ == self@,
    {
        PartHeaders {
            disposition: match &self.disposition {
                DispositionType::Inline => DispositionType::Inline,
                DispositionType::Attachment => DispositionType::Attachment,
                DispositionType::FormData => DispositionType::FormData,
                DispositionType::Ext(name) => DispositionType::Ext(name.clone()),
            },
            name: match &self.name {
                Some(s) => Some(s.clone()),
                None => None,
            },
            filename: match &self.filename {
                Some(s) => Some(s.clone()),
                None => None,
            },
            content_type: match &self.content_type {
                Some(s) => Some(s.clone()),
                None => None,
            },
        }
    }
}

/// A part as it arrives: its headers, and its body in chunks.
#[derive(Debug, Clone)]
pub struct RawPart {
    pub headers: PartHeaders,
    pub chunks: Vec<Vec<u8>>,
}

/// A [`RawPart`] as characters and bytes.
pub struct RawPartView {
    pub headers: PartHeadersView,
    pub chunks: Seq<Seq<u8>>,
}

impl RawPartView {
    /// The body of the part: its chunks, one after the other.
    pub open spec fn body(self) -> Seq<u8> {
        concat(self.chunks)
    }
}

impl View for RawPart {
    type V = RawPartView;

    open spec fn view(&self) -> RawPartView {
        RawPartView { headers: self.headers@, chunks: chunk_views(self.chunks@) }
    }
}

/// The parts of a body, each as characters and bytes.
pub open spec fn raw_views(parts: Seq<RawPart>) -> Seq<RawPartView> {
    parts.map_values(|p: RawPart| p@)
}

/// Whether a part's body is text held in memory or a file held in storage.
#[derive(Debug, Clone, Copy, PartialEq, Eq, Structural)]
pub enum PartKind {
    Text,
    File,
}

/// What the headers of an acceptable part declare.
#[derive(Debug, Clone)]
pub struct PartHead {
    /// The field that the part addresses. Never empty.
    pub name: String,
    pub filename: Option<String>,
    /// The declared media type: `None` where the part has no `Content-Type`
    /// header, `application/octet-stream` where the header cannot be parsed.
    pub content_type: Option<MediaType>,
}

/// The characters of a [`PartHead`].
pub struct PartHeadView {
    pub name: Seq<char>,
    pub filename: Option<Seq<char>>,
    pub content_type: Option<MediaTypeView>,
}

impl View for PartHead {
    type V = PartHeadView;

    open spec fn view(&self) -> PartHeadView {
        PartHeadView {
            name: self.name@,
            filename: opt_chars(self.filename),
            content_type: match self.content_type {
                Some(m) => Some(m@),
                None => None,
            },
        }
    }
}

/// The media type that a `Content-Type` value declares, where the part has
/// such a header.
pub open spec fn declared_media_type(content_type: Option<Seq<char>>) -> Option<MediaTypeView> {
    match content_type {
        None => None,
        Some(raw) => match parsed_media_type(raw) {
            Some(m) => Some(m),
            None => Some(octet_stream_view()),
        },
    }
}

impl PartHeadersView {
    /// A part is acceptable if its disposition is `form-data` and it declares
    /// a name that is not empty.
    pub open spec fn acceptable(self) -> bool {
        &&& self.disposition is FormData
        &&& self.name matches Some(name)
        &&& name.len() > 0
    }

    /// What an acceptable part declares.
    pub open spec fn head(self) -> PartHeadView
        recommends
            self.acceptable(),
    {
        PartHeadView {
            name: self.name->0,
            filename: self.filename,
            content_type: declared_media_type(self.content_type),
        }
    }
}

impl PartHeadView {
    /// The media type of the part, `text/plain` where it declares none.
    pub open spec fn media_type(self) -> MediaTypeView {
        match self.content_type {
            Some(m) => m,
            None => text_plain_view(),
        }
    }

    /// A part is text if its media type is absent or exactly `text/plain` and
    /// it has no file name; any other part is a file.
    pub open spec fn kind(self) -> PartKind {
        if self.media_type().is_text_plain() && self.filename is None {
            PartKind::Text
        } else {
            PartKind::File
        }
    }
}

impl PartHeaders {
    /// Checks the headers of a part and extracts what they declare.
    ///
    /// A disposition other than `form-data`, a missing name and an empty name
    /// are malformed input, which ends the whole decode.
    pub fn classify(self) -> (r: Result<PartHead, MultipartError>)
        ensures
            self@.acceptable() ==> r is Ok && r->Ok_0@ == self@.head(),
            !self@.acceptable() ==> r == Err::<PartHead, MultipartError>(
                MultipartError::Parse(ParseError::Header),
            ),
    {
        match self.disposition {
            DispositionType::FormData => {},
            _ => {
                return Err(MultipartError::Parse(ParseError::Header));
            },
        }
        let name = match self.name {
            Some(name) => name,
            None => {
                return Err(MultipartError::Parse(ParseError::Header));
            },
        };
        if name.as_str().unicode_len() == 0 {
            return Err(MultipartError::Parse(ParseError::Header));
        }
        let content_type = match self.content_type {
            None => None,
            Some(raw) => match MediaType::parse(raw.as_str()) {
                Some(m) => Some(m),
                None => Some(MediaType::octet_stream()),
            },
        };
        Ok(PartHead { name, filename: self.filename, content_type })
    }
}

impl PartHead {
    /// Whether the part is a text part or a file part.
    pub fn kind(&self) -> (kind: PartKind)
        ensures
            kind == self@.kind(),
    {
        let plain = match &self.content_type {
            Some(m) => m.is_text_plain(),
            None => true,
        };
        if plain && self.filename.is_none() {
            PartKind::Text
        } else {
            PartKind::File
        }
    }

    /// The media type of the part, `text/plain` where it declares none.
    pub fn media_type(self) -> (m: MediaType)
        ensures
            m@ == self@.media_type(),
    {
        match self.content_type {
            Some(m) => m,
            None => MediaType::text_plain(),
        }
    }
}

/// A part whose body was read into memory as text.
#[derive(Debug, Clone)]
pub struct Text {
    /// The name of the field.
    pub name: String,
    /// The body, decoded from UTF-8.
    pub text: String,
}

/// The characters of a [`Text`].
pub struct TextView {
    pub name: Seq<char>,
    pub text: Seq<char>,
}

impl View for Text {
    type V = TextView;

    open spec fn view(&self) -> TextView {
        TextView { name: self.name@, text: self.text@ }
    }
}

/// A part whose body was streamed to storage of type `S`.
///
/// The storage is owned by the value: it is released when the value is
/// dropped.
#[derive(Debug)]
pub struct File<S> {
    /// The storage that holds the body.
    pub file: S,
    /// The number of bytes written to it.
    pub size: usize,
    /// The name of the field.
    pub name: String,
    /// The file name that the part declares. It comes from the client and is
    /// not to be trusted as a path.
    pub filename: Option<String>,
    /// The media type that the part declares. It is not checked against the
    /// content.
    pub mime: MediaType,
}

/// A [`File`] without its storage, with its strings as characters.
pub struct FileView {
    pub size: usize,
    pub name: Seq<char>,
    pub filename: Option<Seq<char>>,
    pub mime: MediaTypeView,
}

impl<S> View for File<S> {
    type V = FileView;

    open spec fn view(&self) -> FileView {
        FileView {
            size: self.size,
            name: self.name@,
            filename: opt_chars(self.filename),
            mime: self.mime@,
        }
    }
}

/// One decoded part of a multipart body.
#[derive(Debug)]
pub enum Field<S> {
    Text(Text),
    File(File<S>),
}

/// A [`Field`] without its storage, with its strings as characters.
pub enum FieldView {
    Text(TextView),
    File(FileView),
}

impl FieldView {
    pub open spec fn name(self) -> Seq<char> {
        match self {
            FieldView::Text(t) => t.name,
            FieldView::File(f) => f.name,
        }
    }
}

impl<S> View for Field<S> {
    type V = FieldView;

    open spec fn view(&self) -> FieldView {
        match self {
            Field::Text(t) => FieldView::Text(t@),
            Field::File(f) => FieldView::File(f@),
        }
    }
}

impl<S> Field<S> {
    /// The name of the field that the part addresses.
    pub fn name(&self) -> (name: &str)
        ensures
            name@ == self@.name(),
    {
        match self {
            Field::Text(t) => t.name.as_str(),
            Field::File(f) => f.name.as_str(),
        }
    }

    /// The text part, if it is one.
    pub fn text(self) -> (r: Option<Text>)
        ensures
            r == match self {
                Field::Text(t) => Some(t),
                Field::File(_) => None,
            },
    {
        match self {
            Field::Text(t) => Some(t),
            Field::File(_) => None,
        }
    }

    /// The file part, if it is one.
    pub fn file(self) -> (r: Option<File<S>>)
        ensures
            r == match self {
                Field::Text(_) => None,
                Field::File(f) => Some(f),
            },
    {
        match self {
            Field::Text(_) => None,
            Field::File(f) => Some(f),
        }
    }

    pub fn text_ref(&self) -> (r: Option<&Text>)
        ensures
            r == match self {
                Field::Text(t) => Some(t),
                Field::File(_) => None,
            },
    {
        match self {
            Field::Text(t) => Some(t),
            Field::File(_) => None,
        }
    }

    pub fn file_ref(&self) -> (r: Option<&File<S>>)
        ensures
            r == match self {
                Field::Text(_) => None,
                Field::File(f) => Some(f),
            },
    {
        match self {
            Field::Text(_) => None,
            Field::File(f) => Some(f),
        }
    }
}

} // verus!
