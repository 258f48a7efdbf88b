//! Media types as a part declares them.

use vstd::prelude::*;
use crate::text_util::str_eq;

verus! {

/// A media type, split into the names that the decoders compare.
///
/// The names are held as the `mime` crate gives them for a parsed header:
/// type, subtype and suffix in lower case.
#[derive(Debug, Clone)]
pub struct MediaType {
    /// The top-level type, `text` in `text/plain`.
    pub type_: String,
    /// The subtype up to a `+`, `svg` in `image/svg+xml`.
    pub subtype: String,
    /// What follows the `+`, `xml` in `image/svg+xml`.
    pub suffix: Option<String>,
    /// The parameters, name and value, in the order of the header.
    pub params: Vec<(String, String)>,
}

/// The characters of a [`MediaType`].
pub struct MediaTypeView {
    pub type_: Seq<char>,
    pub subtype: Seq<char>,
    pub suffix: Option<Seq<char>>,
    pub params: Seq<(Seq<char>, Seq<char>)>,
}

impl View for MediaType {
    type V = MediaTypeView;

    open spec fn view(&self) -> MediaTypeView {
        MediaTypeView {
            type_: self.type_@,
            subtype: self.subtype@,
            suffix: match self.suffix {
                Some(s) => Some(s@),
                None => None,
            },
            params: self.params@.map_values(|p: (String, String)| (p.0@, p.1@)),
        }
    }
}

impl MediaTypeView {
    /// Exactly `text/plain`: no suffix and no parameter.
    pub open spec fn is_text_plain(self) -> bool {
        &&& self.type_ == "text"@
        &&& self.subtype == "plain"@
        &&& self.suffix is None
        &&& self.params.len() == 0
    }

    /// Whether the subtype or the suffix is `name`, as in `application/json`
    /// and `application/ld+json` for `json`.
    pub open spec fn names(self, name: Seq<char>) -> bool {
        self.subtype == name || self.suffix == Some(name)
    }
}

/// `text/plain` without parameters.
pub open spec fn text_plain_view() -> MediaTypeView {
    MediaTypeView { type_: "text"@, subtype: "plain"@, suffix: None, params: Seq::empty() }
}

/// `application/octet-stream` without parameters.
pub open spec fn octet_stream_view() -> MediaTypeView {
    MediaTypeView {
        type_: "application"@,
        subtype: "octet-stream"@,
        suffix: None,
        params: Seq::empty(),
    }
}

/// What `mime` makes of a `Content-Type` header value: the media type, or
/// `None` where the value is not one.
pub uninterp spec fn parsed_media_type(raw: Seq<char>) -> Option<MediaTypeView>;

/// Parses with `<mime::Mime as FromStr>::from_str` and hands out the parts of
/// the result through `type_`, `subtype`, `suffix` and `params`. Trusted: the
/// outcome is the one that `parsed_media_type` names for these characters.
#[verifier::external_body]
fn parse_with_mime(raw: &str) -> (r: Option<MediaType>)
    ensures
        match r {
            Some(m) => parsed_media_type(raw@) == Some(m@),
            None => parsed_media_type(raw@) is None,
        },
{
    let parsed: mime::Mime = raw.parse().ok()?;
    Some(MediaType {
        type_: parsed.type_().as_str().to_owned(),
        subtype: parsed.subtype().as_str().to_owned(),
        suffix: parsed.suffix().map(|name| name.as_str().to_owned()),
        params: parsed.params().map(|(n, v)| (n.as_str().to_owned(), v.as_str().to_owned())).collect(),
    })
}

impl MediaType {
    /// The media type that a `Content-Type` header value declares.
    pub fn parse(raw: &str) -> (r: Option<MediaType>)
        ensures
            match r {
                Some(m) => parsed_media_type(raw@) == Some(m@),
                None => parsed_media_type(raw@) is None,
            },
    {
        parse_with_mime(raw)
    }

    /// `text/plain`, the type of a part that declares none.
    pub fn text_plain() -> (m: MediaType)
        ensures
            m@ == text_plain_view(),
    {
        let m = MediaType {
            type_: "text".to_owned(),
            subtype: "plain".to_owned(),
            suffix: None,
            params: Vec::new(),
        };
        assert(m@.params =~= Seq::empty());
        m
    }

    /// `application/octet-stream`, the type of a part whose declaration
    /// cannot be parsed.
    pub fn octet_stream() -> (m: MediaType)
        ensures
            m@ == octet_stream_view(),
    {
        let m = MediaType {
            type_: "application".to_owned(),
            subtype: "octet-stream".to_owned(),
            suffix: None,
            params: Vec::new(),
        };
        assert(m@.params =~= Seq::empty());
        m
    }

    pub fn is_text_plain(&self) -> (b: bool)
        ensures
            b == self@.is_text_plain(),
    {
        str_eq(self.type_.as_str(), "text") && str_eq(self.subtype.as_str(), "plain")
            && self.suffix.is_none() && self.params.len() == 0
    }

    /// Whether the subtype or the suffix is `name`.
    pub fn names(&self, name: &str) -> (b: bool)
        ensures
            b == self@.names(name@),
    {
        if str_eq(self.subtype.as_str(), name) {
            return true;
        }
        match &self.suffix {
            Some(suffix) => str_eq(suffix.as_str(), name),
            None => false,
        }
    }
}

} // verus!
