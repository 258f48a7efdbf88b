//! The form assembler: routes the parts of a body to the fields of a form,
//! under the quotas of the form and of each field, and assembles the decoded
//! form.

use vstd::prelude::*;
use vstd::utf8::{decode_utf8, valid_utf8};
use crate::bytes::{bytes_of, Bytes, BytesView};
use crate::file::file_of;
use crate::error::{Error, ErrorView, FieldFault, MultipartError, ParseError, PayloadError};
use crate::group::{Decision, FieldValue, FieldValueModel};
use crate::json::{json_accepts, json_content_type_ok, Json};
use crate::limits::Limits;
use crate::load::DEFAULT_MAX_PARTS;
use crate::part::{File, FileView, PartHead, PartHeadView, RawPartView};
use crate::reader::{FieldReader, ReaderConfig};
use crate::schema::{FieldDescriptorView, FormSchema, ReaderKind, SchemaView};
use crate::number::parsed_i64;
use crate::text::{text_content_type_ok, text_of_body, Text};
use crate::text_util::{chunk_views, concat};

verus! {

/// Bytes that a form may hold unless configured otherwise: 50 MiB.
pub const DEFAULT_TOTAL_LIMIT: usize = 52428800;

/// Bytes of a form that may be held in memory unless configured otherwise:
/// 2 MiB.
pub const DEFAULT_MEMORY_LIMIT: usize = 2097152;

/// The quotas of a form.
#[derive(Debug, Clone, Copy, PartialEq, Eq, Structural)]
pub struct FormLimits {
    /// Bytes that the whole form may hold.
    pub total_limit: usize,
    /// Bytes of the form that may be held in memory.
    pub memory_limit: usize,
    /// The number of parts that the form may have.
    pub max_parts: usize,
}

/// Extractor configuration.
#[derive(Clone, Copy)]
pub struct MultipartFormConfig {
    total_limit: usize,
    memory_limit: usize,
    max_parts: usize,
}

impl View for MultipartFormConfig {
    type V = FormLimits;

    closed spec fn view(&self) -> FormLimits {
        FormLimits {
            total_limit: self.total_limit,
            memory_limit: self.memory_limit,
            max_parts: self.max_parts,
        }
    }
}

impl MultipartFormConfig {
    /// Set maximum accepted payload size for the entire form. By default this limit is 50MiB.
    pub fn total_limit(self, total_limit: usize) -> (config: Self)
        ensures
            config@ == (FormLimits { total_limit, ..self@ }),
    {
        let mut config = self;
        config.total_limit = total_limit;
        config
    }

    /// Set maximum accepted data that will be read into memory. By default this limit is 2MiB.
    pub fn memory_limit(self, memory_limit: usize) -> (config: Self)
        ensures
            config@ == (FormLimits { memory_limit, ..self@ }),
    {
        let mut config = self;
        config.memory_limit = memory_limit;
        config
    }

    /// Set maximum allowed parts in the form. By default this limit is 1000.
    pub fn max_parts(self, max_parts: usize) -> (config: Self)
        ensures
            config@ == (FormLimits { max_parts, ..self@ }),
    {
        let mut config = self;
        config.max_parts = max_parts;
        config
    }

    /// The number of parts that the form may have.
    pub fn parts_allowed(&self) -> (max_parts: usize)
        ensures
            max_parts == self@.max_parts,
    {
        self.max_parts
    }

    /// The quotas at the start of a decode pass.
    pub fn limits(&self) -> (limits: Limits)
        ensures
            limits == (Limits {
                total_limit_remaining: self@.total_limit,
                memory_limit_remaining: self@.memory_limit,
                field_limit_remaining: None,
            }),
    {
        Limits::new(self.total_limit, self.memory_limit)
    }
}

impl Default for MultipartFormConfig {
    fn default() -> (config: Self)
        ensures
            config@ == (FormLimits {
                total_limit: DEFAULT_TOTAL_LIMIT,
                memory_limit: DEFAULT_MEMORY_LIMIT,
                max_parts: DEFAULT_MAX_PARTS,
            }),
    {
        MultipartFormConfig {
            total_limit: DEFAULT_TOTAL_LIMIT,
            memory_limit: DEFAULT_MEMORY_LIMIT,
            max_parts: DEFAULT_MAX_PARTS,
        }
    }
}

/// Typed `multipart/form-data` extractor: a decoded form of type `T`.
#[derive(Debug)]
pub struct MultipartForm<T>(pub T);

impl<T> MultipartForm<T> {
    /// Unwrap into inner `T` value.
    pub fn into_inner(self) -> (inner: T)
        ensures
            inner == self.0,
    {
        self.0
    }
}

/// The value that one of the readers of this crate decoded from a part.
/// A file is held in storage of type `S`.
#[derive(Debug)]
pub enum Leaf<S> {
    Bytes(Bytes),
    Text(Text<String>),
    Integer(Text<i64>),
    Json(Json<serde_json::Value>),
    File(File<S>),
}

/// A [`Leaf`] as bytes and characters. Of a JSON document it says only that
/// it is one, and of a file it leaves out the storage.
pub enum LeafView {
    Bytes(BytesView),
    Text(Seq<char>),
    Integer(i64),
    Json,
    File(FileView),
}

impl<S> View for Leaf<S> {
    type V = LeafView;

    open spec fn view(&self) -> LeafView {
        match self {
            Leaf::Bytes(b) => LeafView::Bytes(b@),
            Leaf::Text(t) => LeafView::Text(t.0@),
            Leaf::Integer(n) => LeafView::Integer(n.0),
            Leaf::Json(_) => LeafView::Json,
            Leaf::File(f) => LeafView::File(f@),
        }
    }
}

/// Whether the reader holds the body of a part in memory. Only a file is
/// streamed to storage.
pub open spec fn in_memory(reader: ReaderKind) -> bool {
    !(reader is File)
}

/// Whether the reader holds the body of a part in memory, so that its bytes
/// count against the memory quota.
pub fn reads_into_memory(reader: ReaderKind) -> (b: bool)
    ensures
        b == in_memory(reader),
{
    match reader {
        ReaderKind::File => false,
        _ => true,
    }
}

/// A failure of the field `name` to decode its part.
pub open spec fn field_failure(name: Seq<char>, fault: FieldFault) -> ErrorView {
    ErrorView::Field { field_name: name, fault }
}

/// A quota that was exceeded.
pub open spec fn over_budget() -> ErrorView {
    ErrorView::Multipart(MultipartError::Payload(PayloadError::Overflow))
}

/// Whether the reader of a field takes a part of the media type that it
/// declares.
pub open spec fn leaf_content_type_ok(
    reader: ReaderKind,
    validate_text: bool,
    validate_json: bool,
    head: PartHeadView,
) -> bool {
    match reader {
        ReaderKind::Bytes => true,
        ReaderKind::Text => text_content_type_ok(validate_text, head.content_type),
        ReaderKind::Integer => text_content_type_ok(validate_text, head.content_type),
        ReaderKind::Json => json_content_type_ok(validate_json, head.content_type),
        ReaderKind::File => true,
    }
}

/// The failure of a reader that refuses the media type of a part.
pub open spec fn content_type_failure(reader: ReaderKind, name: Seq<char>) -> ErrorView {
    match reader {
        ReaderKind::Json => field_failure(name, FieldFault::JsonContentType),
        _ => field_failure(name, FieldFault::TextContentType),
    }
}

/// What a reader makes of a body that was read: the value of the field, or
/// the failure under the name of the field.
pub open spec fn leaf_from(reader: ReaderKind, head: PartHeadView, body: Seq<u8>) -> Result<
    LeafView,
    ErrorView,
> {
    match reader {
        ReaderKind::Bytes => Ok(LeafView::Bytes(bytes_of(head, body))),
        ReaderKind::Text => if valid_utf8(body) {
            Ok(LeafView::Text(decode_utf8(body)))
        } else {
            Err(field_failure(head.name, FieldFault::TextUtf8))
        },
        ReaderKind::Integer => if !valid_utf8(body) {
            Err(field_failure(head.name, FieldFault::TextUtf8))
        } else {
            match parsed_i64(decode_utf8(body)) {
                Some(n) => Ok(LeafView::Integer(n)),
                None => Err(field_failure(head.name, FieldFault::TextDeserialize)),
            }
        },
        ReaderKind::Json => if json_accepts(body) {
            Ok(LeafView::Json)
        } else {
            Err(field_failure(head.name, FieldFault::JsonDeserialize))
        },
        ReaderKind::File => Ok(LeafView::File(file_of(head, body.len() as usize))),
    }
}

/// What a reader makes of a part under the given quotas: the value and the
/// quotas that remain, or the failure.
///
/// The declared media type is checked before a byte is read. The body is
/// read if it fits every quota that counts, and is charged as a whole: a
/// file against the total quota and the limit of its field, any other body
/// against the memory quota too. Then the body is decoded.
pub open spec fn leaf_outcome(
    reader: ReaderKind,
    validate_text: bool,
    validate_json: bool,
    head: PartHeadView,
    body: Seq<u8>,
    limits: Limits,
) -> Result<(LeafView, Limits), ErrorView> {
    if !leaf_content_type_ok(reader, validate_text, validate_json, head) {
        Err(content_type_failure(reader, head.name))
    } else if !limits.admits(body.len(), in_memory(reader)) {
        Err(over_budget())
    } else {
        match leaf_from(reader, head, body) {
            Ok(value) => Ok((value, limits.charged(body.len(), in_memory(reader)))),
            Err(e) => Err(e),
        }
    }
}

/// Checks the media type that a part declares against the reader of its
/// field, before the body of the part is read.
pub fn check_leaf(reader: ReaderKind, config: &ReaderConfig, head: &PartHead) -> (r: Result<
    (),
    Error,
>)
    ensures
        leaf_content_type_ok(reader, config.text.validates(), config.json.validates(), head@)
            ==> r is Ok,
        !leaf_content_type_ok(reader, config.text.validates(), config.json.validates(), head@)
            ==> r is Err && r->Err_0@ == content_type_failure(reader, head@.name),
{
    match reader {
        ReaderKind::Bytes => Ok(()),
        ReaderKind::Text => config.text.check_content_type(head),
        ReaderKind::Integer => config.text.check_content_type(head),
        ReaderKind::Json => config.json.check_content_type(head),
        ReaderKind::File => Ok(()),
    }
}

/// Decodes the body of a part, once it has been read into memory under the
/// quotas, with the reader of its field.
///
/// The body of a file belongs in storage, and its value is made by
/// [`File::from_storage`]: a file that is handed over in memory fails as
/// storage that could not be written.
pub fn leaf_from_body<S>(reader: ReaderKind, head: PartHead, body: Vec<u8>) -> (r: Result<
    Leaf<S>,
    Error,
>)
    ensures
        in_memory(reader) ==> match leaf_from(reader, head@, body@) {
            Ok(value) => r is Ok && r->Ok_0@ == value,
            Err(e) => r is Err && r->Err_0@ == e,
        },
        !in_memory(reader) ==> r is Err && r->Err_0@ == ErrorView::Multipart(
            MultipartError::Payload(PayloadError::Io),
        ),
{
    match reader {
        ReaderKind::File => Err(Error::Multipart(MultipartError::Payload(PayloadError::Io))),
        ReaderKind::Bytes => Ok(Leaf::Bytes(Bytes::from_body(head, body))),
        ReaderKind::Text => match text_of_body(head.name.as_str(), &body) {
            Ok(text) => Ok(Leaf::Text(Text::<String>::from_text(text))),
            Err(e) => Err(e),
        },
        ReaderKind::Integer => match text_of_body(head.name.as_str(), &body) {
            Ok(text) => match Text::<i64>::from_text(head.name.as_str(), text.as_str()) {
                Ok(n) => Ok(Leaf::Integer(n)),
                Err(e) => Err(e),
            },
            Err(e) => Err(e),
        },
        ReaderKind::Json => match Json::<serde_json::Value>::from_body(
            head.name.as_str(),
            &body,
        ) {
            Ok(document) => Ok(Leaf::Json(document)),
            Err(e) => Err(e),
        },
    }
}

/// Decodes one part with the reader of its field.
///
/// A reader that refuses the declared media type leaves the quotas as they
/// are. Any other part is charged chunk by chunk, up to the first chunk that
/// does not fit. A file is kept in a byte vector that stands for storage.
pub fn read_leaf(
    reader: ReaderKind,
    config: &ReaderConfig,
    head: PartHead,
    chunks: &Vec<Vec<u8>>,
    limits: &mut Limits,
) -> (r: Result<Leaf<Vec<u8>>, Error>)
    ensures
        r matches Ok(Leaf::File(file)) ==> file.file@ == concat(chunk_views(chunks@)),
        final(limits).within(*old(limits)),
        *final(limits) == if leaf_content_type_ok(
            reader,
            config.text.validates(),
            config.json.validates(),
            head@,
        ) {
            old(limits).charged_chunks(chunk_views(chunks@), 0, in_memory(reader))
        } else {
            *old(limits)
        },
        match leaf_outcome(
            reader,
            config.text.validates(),
            config.json.validates(),
            head@,
            concat(chunk_views(chunks@)),
            *old(limits),
        ) {
            Ok((value, after)) => r is Ok && r->Ok_0@ == value && *final(limits) == after,
            Err(e) => r is Err && r->Err_0@ == e,
        },
{
    match reader {
        ReaderKind::File => match File::<Vec<u8>>::read_field(config, head, chunks, limits) {
            Ok(value) => Ok(Leaf::File(value)),
            Err(e) => Err(e),
        },
        ReaderKind::Bytes => match Bytes::read_field(config, head, chunks, limits) {
            Ok(value) => Ok(Leaf::Bytes(value)),
            Err(e) => Err(e),
        },
        ReaderKind::Text => match Text::<String>::read_field(config, head, chunks, limits) {
            Ok(value) => Ok(Leaf::Text(value)),
            Err(e) => Err(e),
        },
        ReaderKind::Integer => match Text::<i64>::read_field(config, head, chunks, limits) {
            Ok(value) => Ok(Leaf::Integer(value)),
            Err(e) => Err(e),
        },
        ReaderKind::Json => match Json::<serde_json::Value>::read_field(
            config,
            head,
            chunks,
            limits,
        ) {
            Ok(value) => Ok(Leaf::Json(value)),
            Err(e) => Err(e),
        },
    }
}

/// For each field of a form, what is left of its limit.
///
/// The limit of a field is shared by all the parts that address it: what one
/// part leaves is what the next part has.
pub struct FieldLimits {
    remaining: Vec<Option<usize>>,
}

impl View for FieldLimits {
    type V = Seq<Option<usize>>;

    closed spec fn view(&self) -> Seq<Option<usize>> {
        self.remaining@
    }
}

/// The limit that a table holds for the field at `position`; none for a part
/// that addresses no field.
pub open spec fn bound_limit(table: Seq<Option<usize>>, position: Option<usize>) -> Option<usize> {
    match position {
        Some(i) => table[i as int],
        None => None,
    }
}

impl FieldLimits {
    /// The limits of the fields of a form before its first part.
    pub fn new(schema: &FormSchema) -> (table: Self)
        ensures
            table@ == schema@.fields.map_values(|f: FieldDescriptorView| f.limit),
    {
        let mut remaining: Vec<Option<usize>> = Vec::new();
        let mut i: usize = 0;
        while i < schema.len()
            invariant
                0 <= i <= schema@.fields.len(),
                remaining.len() == i,
                forall|k: int| 0 <= k < i ==> #[trigger] remaining[k] == schema@.fields[k].limit,
            decreases schema@.fields.len() - i,
        {
            remaining.push(schema.field(i).limit);
            i = i + 1;
        }
        assert(remaining@ =~= schema@.fields.map_values(|f: FieldDescriptorView| f.limit));
        FieldLimits { remaining }
    }

    /// Binds what is left of the limit of the field at `position` into the
    /// quotas, for the part that is about to be read.
    pub fn bind(&self, position: Option<usize>, limits: &mut Limits)
        requires
            position matches Some(i) ==> i < self@.len(),
        ensures
            *final(limits) == (Limits {
                field_limit_remaining: bound_limit(self@, position),
                ..*old(limits)
            }),
    {
        limits.field_limit_remaining = match position {
            Some(i) => self.remaining[i],
            None => None,
        };
    }

    /// Stores what a part has left of the limit of the field at `position`.
    pub fn release(&mut self, position: Option<usize>, limits: &Limits)
        requires
            position matches Some(i) ==> i < old(self)@.len(),
        ensures
            final(self)@ == match position {
                Some(i) => old(self)@.update(i as int, limits.field_limit_remaining),
                None => old(self)@,
            },
    {
        match position {
            Some(i) => {
                let slot = &mut self.remaining[i];
                *slot = limits.field_limit_remaining;
            },
            None => {},
        }
    }
}

/// The state of a decode pass, as bytes and characters.
pub struct Assembly {
    /// The quotas that remain.
    pub limits: Limits,
    /// What remains of the limit of each field.
    pub field_limits: Seq<Option<usize>>,
    /// The values decoded so far for each field.
    pub slots: Seq<Seq<LeafView>>,
    /// The number of parts taken so far, read or passed over.
    pub parts: usize,
}

impl Assembly {
    /// The state of a pass before its first part.
    pub open spec fn start(schema: SchemaView, quotas: FormLimits) -> Assembly {
        Assembly {
            limits: Limits {
                total_limit_remaining: quotas.total_limit,
                memory_limit_remaining: quotas.memory_limit,
                field_limit_remaining: None,
            },
            field_limits: schema.fields.map_values(|f: FieldDescriptorView| f.limit),
            slots: Seq::new(schema.fields.len(), |i: int| Seq::<LeafView>::empty()),
            parts: 0,
        }
    }

    /// The quotas with what is left of the limit of the field that `name`
    /// addresses bound into them; no limit is bound for a name that
    /// addresses no field.
    pub open spec fn bound(self, schema: SchemaView, name: Seq<char>) -> Limits {
        let position = if schema.knows(name) {
            Some(schema.position(name) as usize)
        } else {
            None
        };
        Limits { field_limit_remaining: bound_limit(self.field_limits, position), ..self.limits }
    }

    /// The state after one more part, or the failure that ends the pass.
    ///
    /// A part beyond the number that the form may have fails the pass over
    /// that quota before anything of it is looked at. Then the headers are
    /// checked, what is left of the limit of the addressed field is bound,
    /// and the form decides whether the part is read. A part that is read is
    /// decoded under the quotas and stored, and its remainder of the limit
    /// of the field is kept for the next part of that name.
    pub open spec fn take_part(
        self,
        schema: SchemaView,
        max_parts: usize,
        validate_text: bool,
        validate_json: bool,
        part: RawPartView,
    ) -> Result<Assembly, ErrorView> {
        let head = part.headers.head();
        let bound = self.bound(schema, head.name);
        let parts = (self.parts + 1) as usize;
        if self.parts >= max_parts {
            Err(over_budget())
        } else if !part.headers.acceptable() {
            Err(ErrorView::Multipart(MultipartError::Parse(ParseError::Header)))
        } else {
            match schema.decision(self.slots, head.name) {
                Err(e) => Err(e),
                Ok(Decision::Skip) => Ok(Assembly { limits: bound, parts, ..self }),
                Ok(Decision::Read(index)) => match leaf_outcome(
                    schema.fields[index as int].reader,
                    validate_text,
                    validate_json,
                    head,
                    part.body(),
                    bound,
                ) {
                    Err(e) => Err(e),
                    Ok((value, after)) => Ok(
                        Assembly {
                            limits: after,
                            field_limits: self.field_limits.update(
                                index as int,
                                after.field_limit_remaining,
                            ),
                            slots: schema.accepted(self.slots, index as int, value),
                            parts,
                        },
                    ),
                },
            }
        }
    }

    /// The state after the parts from index `from` on, taken one after the
    /// other, or the first failure.
    pub open spec fn take_parts(
        self,
        schema: SchemaView,
        max_parts: usize,
        validate_text: bool,
        validate_json: bool,
        parts: Seq<RawPartView>,
        from: int,
    ) -> Result<Assembly, ErrorView>
        decreases parts.len() - from,
    {
        if from < 0 || from >= parts.len() {
            Ok(self)
        } else {
            match self.take_part(schema, max_parts, validate_text, validate_json, parts[from]) {
                Err(e) => Err(e),
                Ok(next) => next.take_parts(
                    schema,
                    max_parts,
                    validate_text,
                    validate_json,
                    parts,
                    from + 1,
                ),
            }
        }
    }
}

/// What decoding a body against a form gives: the value of every field, in
/// the order of the fields, or the first failure. A failure of a part comes
/// before the failure of a field that is missing.
pub open spec fn decoded(
    schema: SchemaView,
    quotas: FormLimits,
    validate_text: bool,
    validate_json: bool,
    parts: Seq<RawPartView>,
) -> Result<Seq<FieldValueModel<LeafView>>, ErrorView> {
    match Assembly::start(schema, quotas).take_parts(
        schema,
        quotas.max_parts,
        validate_text,
        validate_json,
        parts,
        0,
    ) {
        Err(e) => Err(e),
        Ok(end) => schema.finalized(end.slots),
    }
}

/// The values of each field as bytes and characters.
pub open spec fn leaf_slots<S>(slots: Seq<Seq<Leaf<S>>>) -> Seq<Seq<LeafView>> {
    Seq::new(slots.len(), |i: int| slots[i].map_values(|v: Leaf<S>| v@))
}

/// The value of a field as bytes and characters.
pub open spec fn leaf_value<S>(value: FieldValueModel<Leaf<S>>) -> FieldValueModel<LeafView> {
    match value {
        FieldValueModel::Scalar(v) => FieldValueModel::Scalar(v@),
        FieldValueModel::Optional(v) => FieldValueModel::Optional(
            match v {
                Some(v) => Some(v@),
                None => None,
            },
        ),
        FieldValueModel::List(v) => FieldValueModel::List(v.map_values(|v: Leaf<S>| v@)),
    }
}

/// The decoded form as bytes and characters.
pub open spec fn leaf_values<S>(values: Seq<FieldValue<Leaf<S>>>) -> Seq<
    FieldValueModel<LeafView>,
> {
    values.map_values(|v: FieldValue<Leaf<S>>| leaf_value(v@))
}

/// Whether a required field lacks a value does not depend on what the
/// values are.
pub proof fn lemma_missing_of_views<S>(schema: SchemaView, slots: Seq<Seq<Leaf<S>>>, from: int)
    requires
        slots.len() == schema.fields.len(),
    ensures
        schema.missing_from(slots, from) == schema.missing_from(leaf_slots(slots), from),
    decreases schema.fields.len() - from,
{
    if 0 <= from < schema.fields.len() {
        lemma_missing_of_views(schema, slots, from + 1);
    }
}

} // verus!
