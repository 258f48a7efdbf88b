//! Helper types used for extracting and deserializing the parts of one field
//! into a typed value.

use vstd::prelude::*;
use crate::number::{i32_from_str, i64_from_str, parsed_i32, parsed_i64};
use crate::part::{Field, File, Text};

verus! {

#[derive(Debug)]
pub enum Error {
    /// Text field not found
    TextNotFound(String),
    /// File upload not found
    FileNotFound(String),
    /// Text field couldn't be parsed; `source` is the message of the parser
    ParseError { field_name: String, source: String },
    /// Unexpected part found
    UnexpectedPart(String),
}

/// An [`Error`] with the name of its field as characters, without the
/// message of a parser.
pub enum ErrorView {
    TextNotFound(Seq<char>),
    FileNotFound(Seq<char>),
    ParseError(Seq<char>),
    UnexpectedPart(Seq<char>),
}

impl View for Error {
    type V = ErrorView;

    open spec fn view(&self) -> ErrorView {
        match self {
            Error::TextNotFound(name) => ErrorView::TextNotFound(name@),
            Error::FileNotFound(name) => ErrorView::FileNotFound(name@),
            Error::ParseError { field_name, .. } => ErrorView::ParseError(field_name@),
            Error::UnexpectedPart(name) => ErrorView::UnexpectedPart(name@),
        }
    }
}

impl Error {
    /// The HTTP status that the failure maps to.
    pub fn status_code(&self) -> (code: u16)
        ensures
            code == 400,
    {
        400
    }
}

pub struct FromFieldConfig {
    /// Whether a part of the wrong kind, or a second part for a field that
    /// takes one, fails the field. Otherwise such parts are passed over and
    /// the last part counts.
    pub deny_extra_parts: bool,
}

impl Default for FromFieldConfig {
    fn default() -> (config: Self)
        ensures
            !config.deny_extra_parts,
    {
        FromFieldConfig { deny_extra_parts: false }
    }
}

/// A type whose values can be written as text.
pub trait FromText: Sized {
    /// Whether the text denotes a value of the type.
    spec fn parses(text: Seq<char>) -> bool;

    /// Whether `value` is the value that the text denotes.
    spec fn denotes(text: Seq<char>, value: Self) -> bool;

    /// The value that the text denotes, or the message of the parser.
    fn from_text(text: &str) -> (r: Result<Self, String>)
        ensures
            r is Ok <==> Self::parses(text@),
            r matches Ok(value) ==> Self::denotes(text@, value),
    ;
}

impl FromText for String {
    open spec fn parses(text: Seq<char>) -> bool {
        true
    }

    open spec fn denotes(text: Seq<char>, value: Self) -> bool {
        value@ == text
    }

    fn from_text(text: &str) -> (r: Result<Self, String>) {
        Ok(text.to_owned())
    }
}

impl FromText for i32 {
    open spec fn parses(text: Seq<char>) -> bool {
        parsed_i32(text) is Some
    }

    open spec fn denotes(text: Seq<char>, value: Self) -> bool {
        parsed_i32(text) == Some(value)
    }

    fn from_text(text: &str) -> (r: Result<Self, String>) {
        i32_from_str(text)
    }
}

impl FromText for i64 {
    open spec fn parses(text: Seq<char>) -> bool {
        parsed_i64(text) is Some
    }

    open spec fn denotes(text: Seq<char>, value: Self) -> bool {
        parsed_i64(text) == Some(value)
    }

    fn from_text(text: &str) -> (r: Result<Self, String>) {
        i64_from_str(text)
    }
}

/// The text parts among the parts of a field, in the order of their arrival.
pub open spec fn texts_of<S>(fields: Seq<Field<S>>) -> Seq<Text>
    decreases fields.len(),
{
    if fields.len() == 0 {
        Seq::empty()
    } else {
        match fields.last() {
            Field::Text(t) => texts_of(fields.drop_last()).push(t),
            Field::File(_) => texts_of(fields.drop_last()),
        }
    }
}

/// The file parts among the parts of a field, in the order of their arrival.
pub open spec fn files_of<S>(fields: Seq<Field<S>>) -> Seq<File<S>>
    decreases fields.len(),
{
    if fields.len() == 0 {
        Seq::empty()
    } else {
        match fields.last() {
            Field::Text(_) => files_of(fields.drop_last()),
            Field::File(f) => files_of(fields.drop_last()).push(f),
        }
    }
}

/// Whether every text denotes a value of type `T`.
pub open spec fn all_parse<T: FromText>(texts: Seq<Text>) -> bool {
    forall|k: int| 0 <= k < texts.len() ==> T::parses(#[trigger] texts[k].text@)
}

/// Whether the values are what the texts denote, one for one.
pub open spec fn denoted<T: FromText>(texts: Seq<Text>, values: Seq<T>) -> bool {
    &&& values.len() == texts.len()
    &&& forall|k: int| 0 <= k < texts.len() ==> T::denotes(texts[k].text@, #[trigger] values[k])
}

/// Whether a field that denies extra parts has a part of another kind among
/// its `total` parts, of which `wanted` are of the wanted kind.
pub open spec fn has_strangers(config: &FromFieldConfig, wanted: nat, total: nat) -> bool {
    config.deny_extra_parts && wanted < total
}

/// Whether a field that denies extra parts has more than one part of the
/// wanted kind.
pub open spec fn has_extras(config: &FromFieldConfig, wanted: nat) -> bool {
    config.deny_extra_parts && wanted > 1
}

proof fn lemma_texts_step<S>(fields: Seq<Field<S>>, n: int)
    requires
        0 <= n < fields.len(),
    ensures
        texts_of(fields.take(n + 1)) == match fields[n] {
            Field::Text(t) => texts_of(fields.take(n)).push(t),
            Field::File(_) => texts_of(fields.take(n)),
        },
        files_of(fields.take(n + 1)) == match fields[n] {
            Field::Text(_) => files_of(fields.take(n)),
            Field::File(f) => files_of(fields.take(n)).push(f),
        },
{
    assert(fields.take(n + 1).drop_last() == fields.take(n));
}

/// The values of a list field from its parts: what each text part denotes,
/// in the order of arrival.
///
/// The first text that denotes no value fails the field. Then, where extra
/// parts are denied, so does a part that is not text.
pub fn texts_from_fields<T: FromText, S>(
    fields: Vec<Field<S>>,
    config: &FromFieldConfig,
    field_name: &str,
) -> (r: Result<Vec<T>, Error>)
    ensures
        !all_parse::<T>(texts_of(fields@)) ==> r is Err && r->Err_0@ == ErrorView::ParseError(
            field_name@,
        ),
        all_parse::<T>(texts_of(fields@)) && has_strangers(
            config,
            texts_of(fields@).len(),
            fields@.len(),
        ) ==> r is Err && r->Err_0@ == ErrorView::UnexpectedPart(field_name@),
        all_parse::<T>(texts_of(fields@)) && !has_strangers(
            config,
            texts_of(fields@).len(),
            fields@.len(),
        ) ==> r is Ok && denoted(texts_of(fields@), r->Ok_0@),
{
    let total = fields.len();
    let mut values: Vec<T> = Vec::new();
    for field in it: fields
        invariant
            it.seq() == fields@,
            all_parse::<T>(texts_of(fields@.take(it.index() as int))),
            denoted(texts_of(fields@.take(it.index() as int)), values@),
    {
        proof {
            lemma_texts_step(fields@, it.index() as int);
        }
        match field.text() {
            Some(text) => {
                match T::from_text(text.text.as_str()) {
                    Ok(value) => {
                        values.push(value);
                    },
                    Err(source) => {
                        proof {
                            lemma_texts_prefix(fields@, it.index() as int + 1);
                            let seen = texts_of(fields@.take(it.index() as int + 1));
                            assert(seen.last() == text);
                            assert(texts_of(fields@)[seen.len() - 1] == text);
                        }
                        return Err(Error::ParseError { field_name: field_name.to_owned(), source });
                    },
                }
            },
            None => {},
        }
    }
    assert(fields@.take(fields@.len() as int) == fields@);
    if config.deny_extra_parts && values.len() < total {
        return Err(Error::UnexpectedPart(field_name.to_owned()));
    }
    Ok(values)
}

/// The text parts among the first `n` parts are the first of the text parts
/// among all.
proof fn lemma_texts_prefix<S>(fields: Seq<Field<S>>, n: int)
    requires
        0 <= n <= fields.len(),
    ensures
        texts_of(fields.take(n)).is_prefix_of(texts_of(fields)),
        files_of(fields.take(n)).is_prefix_of(files_of(fields)),
    decreases fields.len() - n,
{
    if n == fields.len() {
        assert(fields.take(n) == fields);
    } else {
        lemma_texts_step(fields, n);
        lemma_texts_prefix(fields, n + 1);
    }
}

/// The value of a required field from its parts: what its last text part
/// denotes.
///
/// A field without a text part fails. Where extra parts are denied, so does
/// a field with a part that is not text or with more than one text part.
pub fn text_from_fields<T: FromText, S>(
    fields: Vec<Field<S>>,
    config: &FromFieldConfig,
    field_name: &str,
) -> (r: Result<T, Error>)
    ensures
        ({
            let texts = texts_of(fields@);
            if !all_parse::<T>(texts) {
                r is Err && r->Err_0@ == ErrorView::ParseError(field_name@)
            } else if has_strangers(config, texts.len(), fields@.len()) {
                r is Err && r->Err_0@ == ErrorView::UnexpectedPart(field_name@)
            } else if texts.len() == 0 {
                r is Err && r->Err_0@ == ErrorView::TextNotFound(field_name@)
            } else if has_extras(config, texts.len()) {
                r is Err && r->Err_0@ == ErrorView::UnexpectedPart(field_name@)
            } else {
                r is Ok && T::denotes(texts.last().text@, r->Ok_0)
            }
        }),
{
    let mut matches = match texts_from_fields::<T, S>(fields, config, field_name) {
        Ok(matches) => matches,
        Err(e) => {
            return Err(e);
        },
    };
    let found = matches.len();
    match matches.pop() {
        None => Err(Error::TextNotFound(field_name.to_owned())),
        Some(last) => {
            if found > 1 && config.deny_extra_parts {
                Err(Error::UnexpectedPart(field_name.to_owned()))
            } else {
                Ok(last)
            }
        },
    }
}

/// The value of an optional field from its parts: what its last text part
/// denotes, or nothing where it has no text part.
///
/// Where extra parts are denied, a field with a part that is not text or
/// with more than one text part fails.
pub fn optional_text_from_fields<T: FromText, S>(
    fields: Vec<Field<S>>,
    config: &FromFieldConfig,
    field_name: &str,
) -> (r: Result<Option<T>, Error>)
    ensures
        ({
            let texts = texts_of(fields@);
            if !all_parse::<T>(texts) {
                r is Err && r->Err_0@ == ErrorView::ParseError(field_name@)
            } else if has_strangers(config, texts.len(), fields@.len()) {
                r is Err && r->Err_0@ == ErrorView::UnexpectedPart(field_name@)
            } else if texts.len() == 0 {
                r == Ok::<Option<T>, Error>(None)
            } else if has_extras(config, texts.len()) {
                r is Err && r->Err_0@ == ErrorView::UnexpectedPart(field_name@)
            } else {
                r is Ok && r->Ok_0 is Some && T::denotes(texts.last().text@, r->Ok_0->0)
            }
        }),
{
    let mut matches = match texts_from_fields::<T, S>(fields, config, field_name) {
        Ok(matches) => matches,
        Err(e) => {
            return Err(e);
        },
    };
    let found = matches.len();
    match matches.pop() {
        None => Ok(None),
        Some(last) => {
            if found > 1 && config.deny_extra_parts {
                Err(Error::UnexpectedPart(field_name.to_owned()))
            } else {
                Ok(Some(last))
            }
        },
    }
}

/// The files of a list field from its parts, in the order of arrival.
///
/// Where extra parts are denied, a part that is not a file fails the field.
pub fn files_from_fields<S>(fields: Vec<Field<S>>, config: &FromFieldConfig, field_name: &str) -> (r:
    Result<Vec<File<S>>, Error>)
    ensures
        has_strangers(config, files_of(fields@).len(), fields@.len()) ==> r is Err && r->Err_0@
            == ErrorView::UnexpectedPart(field_name@),
        !has_strangers(config, files_of(fields@).len(), fields@.len()) ==> r is Ok && r->Ok_0@
            == files_of(fields@),
{
    let total = fields.len();
    let mut files: Vec<File<S>> = Vec::new();
    for field in it: fields
        invariant
            it.seq() == fields@,
            files@ == files_of(fields@.take(it.index() as int)),
    {
        proof {
            lemma_texts_step(fields@, it.index() as int);
        }
        match field.file() {
            Some(file) => {
                files.push(file);
            },
            None => {},
        }
    }
    assert(fields@.take(fields@.len() as int) == fields@);
    if config.deny_extra_parts && files.len() < total {
        return Err(Error::UnexpectedPart(field_name.to_owned()));
    }
    Ok(files)
}

/// The file of a required field from its parts: its last file part.
///
/// A field without a file part fails. Where extra parts are denied, so does
/// a field with a part that is not a file or with more than one file part.
pub fn file_from_fields<S>(fields: Vec<Field<S>>, config: &FromFieldConfig, field_name: &str) -> (r:
    Result<File<S>, Error>)
    ensures
        ({
            let files = files_of(fields@);
            if has_strangers(config, files.len(), fields@.len()) {
                r is Err && r->Err_0@ == ErrorView::UnexpectedPart(field_name@)
            } else if files.len() == 0 {
                r is Err && r->Err_0@ == ErrorView::FileNotFound(field_name@)
            } else if has_extras(config, files.len()) {
                r is Err && r->Err_0@ == ErrorView::UnexpectedPart(field_name@)
            } else {
                r == Ok::<File<S>, Error>(files.last())
            }
        }),
{
    let mut matches = match files_from_fields(fields, config, field_name) {
        Ok(matches) => matches,
        Err(e) => {
            return Err(e);
        },
    };
    let found = matches.len();
    match matches.pop() {
        None => Err(Error::FileNotFound(field_name.to_owned())),
        Some(last) => {
            if found > 1 && config.deny_extra_parts {
                Err(Error::UnexpectedPart(field_name.to_owned()))
            } else {
                Ok(last)
            }
        },
    }
}

/// The file of an optional field from its parts: its last file part, or
/// nothing where it has no file part.
///
/// Where extra parts are denied, a field with a part that is not a file or
/// with more than one file part fails.
pub fn optional_file_from_fields<S>(
    fields: Vec<Field<S>>,
    config: &FromFieldConfig,
    field_name: &str,
) -> (r: Result<Option<File<S>>, Error>)
    ensures
        ({
            let files = files_of(fields@);
            if has_strangers(config, files.len(), fields@.len()) {
                r is Err && r->Err_0@ == ErrorView::UnexpectedPart(field_name@)
            } else if files.len() == 0 {
                r == Ok::<Option<File<S>>, Error>(None)
            } else if has_extras(config, files.len()) {
                r is Err && r->Err_0@ == ErrorView::UnexpectedPart(field_name@)
            } else {
                r == Ok::<Option<File<S>>, Error>(Some(files.last()))
            }
        }),
{
    let mut matches = match files_from_fields(fields, config, field_name) {
        Ok(matches) => matches,
        Err(e) => {
            return Err(e);
        },
    };
    let found = matches.len();
    match matches.pop() {
        None => Ok(None),
        Some(last) => {
            if found > 1 && config.deny_extra_parts {
                Err(Error::UnexpectedPart(field_name.to_owned()))
            } else {
                Ok(Some(last))
            }
        },
    }
}

/// A field of a form that takes one part.
pub trait FromField<S>: Sized {
    /// The value of the field `field_name` from the parts that address it.
    fn from_fields(fields: Vec<Field<S>>, config: &FromFieldConfig, field_name: &str) -> Result<
        Self,
        Error,
    >;
}

/// A field of a form that takes no part, or more than one.
pub trait FromFieldExt<S>: Sized {
    /// The value of the field `field_name` from the parts that address it.
    fn from_fields(fields: Vec<Field<S>>, config: &FromFieldConfig, field_name: &str) -> Result<
        Self,
        Error,
    >;
}

impl<T: FromText, S> FromField<S> for T {
    fn from_fields(fields: Vec<Field<S>>, config: &FromFieldConfig, field_name: &str) -> (r: Result<
        Self,
        Error,
    >)
        ensures
            ({
                let texts = texts_of(fields@);
                if !all_parse::<T>(texts) {
                    r is Err && r->Err_0@ == ErrorView::ParseError(field_name@)
                } else if has_strangers(config, texts.len(), fields@.len()) {
                    r is Err && r->Err_0@ == ErrorView::UnexpectedPart(field_name@)
                } else if texts.len() == 0 {
                    r is Err && r->Err_0@ == ErrorView::TextNotFound(field_name@)
                } else if has_extras(config, texts.len()) {
                    r is Err && r->Err_0@ == ErrorView::UnexpectedPart(field_name@)
                } else {
                    r is Ok && T::denotes(texts.last().text@, r->Ok_0)
                }
            }),
    {
        text_from_fields::<T, S>(fields, config, field_name)
    }
}

impl<T: FromText, S> FromFieldExt<S> for Option<T> {
    fn from_fields(fields: Vec<Field<S>>, config: &FromFieldConfig, field_name: &str) -> (r: Result<
        Self,
        Error,
    >)
        ensures
            ({
                let texts = texts_of(fields@);
                if !all_parse::<T>(texts) {
                    r is Err && r->Err_0@ == ErrorView::ParseError(field_name@)
                } else if has_strangers(config, texts.len(), fields@.len()) {
                    r is Err && r->Err_0@ == ErrorView::UnexpectedPart(field_name@)
                } else if texts.len() == 0 {
                    r == Ok::<Option<T>, Error>(None)
                } else if has_extras(config, texts.len()) {
                    r is Err && r->Err_0@ == ErrorView::UnexpectedPart(field_name@)
                } else {
                    r is Ok && r->Ok_0 is Some && T::denotes(texts.last().text@, r->Ok_0->0)
                }
            }),
    {
        optional_text_from_fields::<T, S>(fields, config, field_name)
    }
}

impl<T: FromText, S> FromFieldExt<S> for Vec<T> {
    fn from_fields(fields: Vec<Field<S>>, config: &FromFieldConfig, field_name: &str) -> (r: Result<
        Self,
        Error,
    >)
        ensures
            !all_parse::<T>(texts_of(fields@)) ==> r is Err && r->Err_0@ == ErrorView::ParseError(
                field_name@,
            ),
            all_parse::<T>(texts_of(fields@)) && has_strangers(
                config,
                texts_of(fields@).len(),
                fields@.len(),
            ) ==> r is Err && r->Err_0@ == ErrorView::UnexpectedPart(field_name@),
            all_parse::<T>(texts_of(fields@)) && !has_strangers(
                config,
                texts_of(fields@).len(),
                fields@.len(),
            ) ==> r is Ok && denoted(texts_of(fields@), r->Ok_0@),
    {
        texts_from_fields::<T, S>(fields, config, field_name)
    }
}

impl<S> FromField<S> for File<S> {
    fn from_fields(fields: Vec<Field<S>>, config: &FromFieldConfig, field_name: &str) -> (r: Result<
        Self,
        Error,
    >)
        ensures
            ({
                let files = files_of(fields@);
                if has_strangers(config, files.len(), fields@.len()) {
                    r is Err && r->Err_0@ == ErrorView::UnexpectedPart(field_name@)
                } else if files.len() == 0 {
                    r is Err && r->Err_0@ == ErrorView::FileNotFound(field_name@)
                } else if has_extras(config, files.len()) {
                    r is Err && r->Err_0@ == ErrorView::UnexpectedPart(field_name@)
                } else {
                    r == Ok::<File<S>, Error>(files.last())
                }
            }),
    {
        file_from_fields(fields, config, field_name)
    }
}

impl<S> FromFieldExt<S> for Option<File<S>> {
    fn from_fields(fields: Vec<Field<S>>, config: &FromFieldConfig, field_name: &str) -> (r: Result<
        Self,
        Error,
    >)
        ensures
            ({
                let files = files_of(fields@);
                if has_strangers(config, files.len(), fields@.len()) {
                    r is Err && r->Err_0@ == ErrorView::UnexpectedPart(field_name@)
                } else if files.len() == 0 {
                    r == Ok::<Option<File<S>>, Error>(None)
                } else if has_extras(config, files.len()) {
                    r is Err && r->Err_0@ == ErrorView::UnexpectedPart(field_name@)
                } else {
                    r == Ok::<Option<File<S>>, Error>(Some(files.last()))
                }
            }),
    {
        optional_file_from_fields(fields, config, field_name)
    }
}

impl<S> FromFieldExt<S> for Vec<File<S>> {
    fn from_fields(fields: Vec<Field<S>>, config: &FromFieldConfig, field_name: &str) -> (r: Result<
        Self,
        Error,
    >)
        ensures
            has_strangers(config, files_of(fields@).len(), fields@.len()) ==> r is Err
                && r->Err_0@ == ErrorView::UnexpectedPart(field_name@),
            !has_strangers(config, files_of(fields@).len(), fields@.len()) ==> r is Ok
                && r->Ok_0@ == files_of(fields@),
    {
        files_from_fields(fields, config, field_name)
    }
}

} // verus!
