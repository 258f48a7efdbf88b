//! The form assembler as a state machine, for a caller that reads the body
//! from a stream and keeps files in storage.
//!
//! The machine never reads or writes anything itself:
//! [`FormAssembler::step`] takes what the caller has read and says what to
//! do next. Control goes back to the caller at every boundary of a part and
//! of a chunk.

use vstd::prelude::*;
use crate::bytes::{lemma_charged_twice, push_chunk};
use crate::error::{Error, ErrorView, MultipartError, ParseError, PayloadError};
use crate::file::file_of;
use crate::form::{
    check_leaf, content_type_failure, decoded, in_memory, leaf_content_type_ok, leaf_from,
    leaf_from_body, leaf_slots, leaf_values, over_budget, reads_into_memory, Assembly, FieldLimits,
    Leaf, LeafView, MultipartForm, MultipartFormConfig,
};
use crate::group::{value_models, Decision, FieldValue, FieldValueModel, State};
use crate::limits::Limits;
use crate::part::{
    raw_views, File, PartHead, PartHeadView, PartHeaders, PartHeadersView, RawPart,
};
use crate::reader::ReaderConfig;
use crate::schema::{DuplicateAction, FieldShape, FormSchema, SchemaView};
use crate::text_util::{
    append_chunk, chunk_views, concat, copy_chunk, lemma_concat_prefix_len, lemma_concat_step,
};

verus! {

/// What the caller has read from the stream or done to storage.
pub enum FormEvent<S> {
    /// The stream gave the headers of the next part.
    Part(PartHeaders),
    /// The current part gave the next chunk of its body.
    Chunk(Vec<u8>),
    /// The body of the current part, which is held in memory, is complete.
    BodyEnd,
    /// The body of the current part, which is a file, is complete: every
    /// chunk was written to this storage, and it was flushed.
    Stored(S),
    /// The stream is exhausted.
    End,
    /// The stream failed, or storage could not be opened or written.
    Failure(MultipartError),
}

/// A [`FormEvent`] without its storage, as bytes and characters.
pub enum FormEventView {
    Part(PartHeadersView),
    Chunk(Seq<u8>),
    BodyEnd,
    Stored,
    End,
    Failure(MultipartError),
}

impl<S> View for FormEvent<S> {
    type V = FormEventView;

    open spec fn view(&self) -> FormEventView {
        match self {
            FormEvent::Part(headers) => FormEventView::Part(headers@),
            FormEvent::Chunk(bytes) => FormEventView::Chunk(bytes@),
            FormEvent::BodyEnd => FormEventView::BodyEnd,
            FormEvent::Stored(_) => FormEventView::Stored,
            FormEvent::End => FormEventView::End,
            FormEvent::Failure(e) => FormEventView::Failure(*e),
        }
    }
}

/// What the caller is to do next.
#[derive(Debug)]
pub enum FormAction {
    /// Ask the stream for the next part.
    ReadPart,
    /// Pass over the body of the current part without reading it, then ask
    /// the stream for the next part.
    SkipPart,
    /// Ask the current part for its next chunk.
    ReadChunk,
    /// Open fresh temporary storage for the current part, then ask the part
    /// for its next chunk.
    OpenStorage,
    /// Write these bytes to the storage of the current part, then ask the
    /// part for its next chunk.
    Write(Vec<u8>),
    /// The pass is over: call [`FormAssembler::finish`].
    Stop,
}

/// A [`FormAction`] with its bytes as a sequence.
pub enum FormActionView {
    ReadPart,
    SkipPart,
    ReadChunk,
    OpenStorage,
    Write(Seq<u8>),
    Stop,
}

impl View for FormAction {
    type V = FormActionView;

    open spec fn view(&self) -> FormActionView {
        match self {
            FormAction::ReadPart => FormActionView::ReadPart,
            FormAction::SkipPart => FormActionView::SkipPart,
            FormAction::ReadChunk => FormActionView::ReadChunk,
            FormAction::OpenStorage => FormActionView::OpenStorage,
            FormAction::Write(bytes) => FormActionView::Write(bytes@),
            FormAction::Stop => FormActionView::Stop,
        }
    }
}

enum Phase {
    AwaitingPart,
    Reading { index: usize, head: PartHead, buffer: Vec<u8> },
    Storing { index: usize, head: PartHead, written: usize },
    Done,
    Failed(Error),
}

/// Where the assembler stands between two steps.
pub enum FormPhase {
    /// Between parts: the next event is a part's headers or the end.
    AwaitingPart,
    /// Reading the body of a part into memory for the field at `index`.
    Reading { index: usize, head: PartHeadView, buffer: Seq<u8> },
    /// Streaming the body of a part to storage for the field at `index`.
    Storing { index: usize, head: PartHeadView, written: usize },
    /// The stream was exhausted between two parts.
    Done,
    /// The pass failed.
    Failed(ErrorView),
}

impl FormPhase {
    /// The index of the field whose part is being read or stored.
    pub open spec fn index(self) -> int {
        match self {
            FormPhase::Reading { index, .. } => index as int,
            FormPhase::Storing { index, .. } => index as int,
            _ => 0,
        }
    }
}

impl View for Phase {
    type V = FormPhase;

    closed spec fn view(&self) -> FormPhase {
        match self {
            Phase::AwaitingPart => FormPhase::AwaitingPart,
            Phase::Reading { index, head, buffer } => FormPhase::Reading {
                index: *index,
                head: head@,
                buffer: buffer@,
            },
            Phase::Storing { index, head, written } => FormPhase::Storing {
                index: *index,
                head: head@,
                written: *written,
            },
            Phase::Done => FormPhase::Done,
            Phase::Failed(e) => FormPhase::Failed(e@),
        }
    }
}

/// The state of a decode pass against a form, with files in storage of type
/// `S`.
pub struct FormAssembler<'a, S> {
    schema: &'a FormSchema,
    readers: ReaderConfig,
    max_parts: usize,
    limits: Limits,
    field_limits: FieldLimits,
    parts: usize,
    state: State<Leaf<S>>,
    phase: Phase,
}

/// A [`FormAssembler`] without the storage of its files, as bytes and
/// characters.
pub struct AssemblerView {
    pub schema: SchemaView,
    /// The number of parts that the pass may take.
    pub max_parts: usize,
    /// Whether the text readers refuse a part that declares another media
    /// type.
    pub validate_text: bool,
    /// Whether the JSON reader refuses a part that declares another media
    /// type.
    pub validate_json: bool,
    /// The quotas, the limits of the fields, the values and the number of
    /// parts so far.
    pub assembly: Assembly,
    pub phase: FormPhase,
}

impl AssemblerView {
    /// The pass has failed with `e`.
    pub open spec fn fail(self, e: ErrorView) -> (AssemblerView, FormActionView) {
        (AssemblerView { phase: FormPhase::Failed(e), ..self }, FormActionView::Stop)
    }

    /// The state with the value of a part stored for the field at `index`,
    /// what is left of the limit of the field kept for its next part, and
    /// the next part awaited.
    pub open spec fn stored(self, index: usize, value: LeafView) -> (AssemblerView, FormActionView) {
        (
            AssemblerView {
                assembly: Assembly {
                    field_limits: self.assembly.field_limits.update(
                        index as int,
                        self.assembly.limits.field_limit_remaining,
                    ),
                    slots: self.schema.accepted(self.assembly.slots, index as int, value),
                    ..self.assembly
                },
                phase: FormPhase::AwaitingPart,
                ..self
            },
            FormActionView::ReadPart,
        )
    }

    /// The step that takes the headers of a part.
    ///
    /// A part beyond the number that the form may have fails the pass over
    /// that quota. Then the headers are checked, what is left of the limit
    /// of the addressed field is bound, and the form decides whether the
    /// part is read; the reader of the field then checks the declared media
    /// type. A file is streamed to storage, any other part is read into
    /// memory.
    pub open spec fn take_headers(self, headers: PartHeadersView) -> (
        AssemblerView,
        FormActionView,
    ) {
        let head = headers.head();
        let taken = AssemblerView {
            assembly: Assembly {
                limits: self.assembly.bound(self.schema, head.name),
                parts: (self.assembly.parts + 1) as usize,
                ..self.assembly
            },
            ..self
        };
        if self.assembly.parts >= self.max_parts {
            self.fail(over_budget())
        } else if !headers.acceptable() {
            self.fail(ErrorView::Multipart(MultipartError::Parse(ParseError::Header)))
        } else {
            match self.schema.decision(self.assembly.slots, head.name) {
                Err(e) => taken.fail(e),
                Ok(Decision::Skip) => (taken, FormActionView::SkipPart),
                Ok(Decision::Read(index)) => {
                    let reader = self.schema.fields[index as int].reader;
                    if !leaf_content_type_ok(reader, self.validate_text, self.validate_json, head) {
                        taken.fail(content_type_failure(reader, head.name))
                    } else if in_memory(reader) {
                        (
                            AssemblerView {
                                phase: FormPhase::Reading { index, head, buffer: Seq::empty() },
                                ..taken
                            },
                            FormActionView::ReadChunk,
                        )
                    } else {
                        (
                            AssemblerView {
                                phase: FormPhase::Storing { index, head, written: 0 },
                                ..taken
                            },
                            FormActionView::OpenStorage,
                        )
                    }
                },
            }
        }
    }

    /// The state with `bytes` more bytes charged against the quotas.
    pub open spec fn charged(self, bytes: nat, in_memory: bool) -> AssemblerView {
        AssemblerView {
            assembly: Assembly {
                limits: self.assembly.limits.charged(bytes, in_memory),
                ..self.assembly
            },
            ..self
        }
    }

    /// The step of the machine: the state and the action that follow from a
    /// state and an event.
    ///
    /// Every chunk is charged before it is kept or written: a chunk of a
    /// file against the total quota and the limit of its field, any other
    /// chunk against the memory quota too. At the end of the body the value
    /// is decoded and stored. An event that the phase does not expect fails
    /// the pass as an incomplete stream. Once the pass is done or has
    /// failed, nothing changes any more.
    pub open spec fn step(self, event: FormEventView) -> (AssemblerView, FormActionView) {
        let incomplete = ErrorView::Multipart(MultipartError::Payload(PayloadError::Incomplete));
        match self.phase {
            FormPhase::AwaitingPart => match event {
                FormEventView::Part(headers) => self.take_headers(headers),
                FormEventView::End => (
                    AssemblerView { phase: FormPhase::Done, ..self },
                    FormActionView::Stop,
                ),
                FormEventView::Failure(e) => self.fail(ErrorView::Multipart(e)),
                _ => self.fail(incomplete),
            },
            FormPhase::Reading { index, head, buffer } => match event {
                FormEventView::Chunk(bytes) => {
                    if !self.assembly.limits.admits(bytes.len(), true) {
                        self.fail(over_budget())
                    } else {
                        (
                            AssemblerView {
                                phase: FormPhase::Reading { index, head, buffer: buffer + bytes },
                                ..self.charged(bytes.len(), true)
                            },
                            FormActionView::ReadChunk,
                        )
                    }
                },
                FormEventView::BodyEnd => match leaf_from(
                    self.schema.fields[index as int].reader,
                    head,
                    buffer,
                ) {
                    Err(e) => self.fail(e),
                    Ok(value) => self.stored(index, value),
                },
                FormEventView::Failure(e) => self.fail(ErrorView::Multipart(e)),
                _ => self.fail(incomplete),
            },
            FormPhase::Storing { index, head, written } => match event {
                FormEventView::Chunk(bytes) => {
                    if !self.assembly.limits.admits(bytes.len(), false) {
                        self.fail(over_budget())
                    } else {
                        (
                            AssemblerView {
                                phase: FormPhase::Storing {
                                    index,
                                    head,
                                    written: (written + bytes.len()) as usize,
                                },
                                ..self.charged(bytes.len(), false)
                            },
                            FormActionView::Write(bytes),
                        )
                    }
                },
                FormEventView::Stored => self.stored(index, LeafView::File(file_of(head, written))),
                FormEventView::Failure(e) => self.fail(ErrorView::Multipart(e)),
                _ => self.fail(incomplete),
            },
            FormPhase::Done => (self, FormActionView::Stop),
            FormPhase::Failed(_) => (self, FormActionView::Stop),
        }
    }
}

impl<'a, S> View for FormAssembler<'a, S> {
    type V = AssemblerView;

    closed spec fn view(&self) -> AssemblerView {
        AssemblerView {
            schema: self.schema@,
            max_parts: self.max_parts,
            validate_text: self.readers.text.validates(),
            validate_json: self.readers.json.validates(),
            assembly: Assembly {
                limits: self.limits,
                field_limits: self.field_limits@,
                slots: leaf_slots(self.state.slots()),
                parts: self.parts,
            },
            phase: self.phase@,
        }
    }
}

impl<'a, S> FormAssembler<'a, S> {
    #[verifier::type_invariant]
    spec fn sized(&self) -> bool {
        &&& self.schema@.well_formed()
        &&& self.state.slots().len() == self.schema@.fields.len()
        &&& self.field_limits@.len() == self.schema@.fields.len()
        &&& self.phase matches Phase::Reading { index, .. } ==> index < self.schema@.fields.len()
            && in_memory(self.schema@.fields[index as int].reader)
        &&& self.phase matches Phase::Storing { index, written, .. } ==> index
            < self.schema@.fields.len() && written + self.limits.total_limit_remaining
            <= usize::MAX
    }

    /// The values decoded so far for each field, with the storage of their
    /// files.
    pub closed spec fn values(&self) -> Seq<Seq<Leaf<S>>> {
        self.state.slots()
    }

    /// The values of the view are the values decoded so far, without their
    /// storage.
    pub proof fn lemma_view_values(&self)
        ensures
            self@.assembly.slots == leaf_slots(self.values()),
    {
    }

    /// The assembler at the start of a pass against `schema`.
    pub fn new(schema: &'a FormSchema, config: &MultipartFormConfig, readers: ReaderConfig) -> (assembler:
        Self)
        ensures
            assembler@ == (AssemblerView {
                schema: schema@,
                max_parts: config@.max_parts,
                validate_text: readers.text.validates(),
                validate_json: readers.json.validates(),
                assembly: Assembly::start(schema@, config@),
                phase: FormPhase::AwaitingPart,
            }),
            assembler.values() == Seq::new(
                schema@.fields.len(),
                |i: int| Seq::<Leaf<S>>::empty(),
            ),
    {
        let limits = config.limits();
        let field_limits = FieldLimits::new(schema);
        let state: State<Leaf<S>> = schema.new_state();
        assert(leaf_slots(state.slots()) =~~= Assembly::start(schema@, config@).slots);
        FormAssembler {
            schema,
            readers,
            max_parts: config.parts_allowed(),
            limits,
            field_limits,
            parts: 0,
            state,
            phase: Phase::AwaitingPart,
        }
    }

    fn fail(self, e: Error) -> (next: (Self, FormAction))
        ensures
            (next.0@, next.1@) == self@.fail(e@),
            next.0.values() == self.values(),
    {
        proof {
            use_type_invariant(&self);
        }
        let FormAssembler {
            schema,
            readers,
            max_parts,
            limits,
            field_limits,
            parts,
            state,
            phase: _,
        } = self;
        (
            FormAssembler {
                schema,
                readers,
                max_parts,
                limits,
                field_limits,
                parts,
                state,
                phase: Phase::Failed(e),
            },
            FormAction::Stop,
        )
    }

    /// Stores the value of the part that was read for the field at `index`.
    fn store(self, index: usize, value: Leaf<S>) -> (next: (Self, FormAction))
        requires
            index < self@.schema.fields.len(),
        ensures
            (next.0@, next.1@) == self@.stored(index, value@),
            next.0.values() == self@.schema.accepted(self.values(), index as int, value),
    {
        proof {
            use_type_invariant(&self);
        }
        let ghost pre = self@;
        let FormAssembler {
            schema,
            readers,
            max_parts,
            limits,
            field_limits,
            parts,
            state,
            phase: _,
        } = self;
        let mut state = state;
        let mut field_limits = field_limits;
        schema.accept(&mut state, index, value);
        field_limits.release(Some(index), &limits);
        assert(leaf_slots(state.slots()) =~~= schema@.accepted(
            pre.assembly.slots,
            index as int,
            value@,
        ));
        (
            FormAssembler {
                schema,
                readers,
                max_parts,
                limits,
                field_limits,
                parts,
                state,
                phase: Phase::AwaitingPart,
            },
            FormAction::ReadPart,
        )
    }

    /// Takes the headers of a part.
    fn take_headers(self, headers: PartHeaders) -> (next: (Self, FormAction))
        requires
            self@.phase is AwaitingPart,
        ensures
            (next.0@, next.1@) == self@.take_headers(headers@),
            next.0.values() == self.values(),
    {
        proof {
            use_type_invariant(&self);
        }
        let ghost pre = self@;
        if self.parts >= self.max_parts {
            return self.fail(Error::Multipart(MultipartError::Payload(PayloadError::Overflow)));
        }
        let head = match headers.classify() {
            Ok(head) => head,
            Err(e) => {
                return self.fail(Error::Multipart(e));
            },
        };
        let FormAssembler {
            schema,
            readers,
            max_parts,
            limits,
            field_limits,
            parts,
            state,
            phase: _,
        } = self;
        let position = schema.position(head.name.as_str());
        let mut limits = limits;
        field_limits.bind(position, &mut limits);
        let parts = parts + 1;
        assert(schema@.decision(state.slots(), head@.name) == schema@.decision(
            pre.assembly.slots,
            head@.name,
        )) by {
            if schema@.knows(head@.name) {
                let p = schema@.position(head@.name);
                assert(0 <= p < state.slots().len());
                assert(pre.assembly.slots[p].len() == state.slots()[p].len());
            }
        }
        let decision = schema.handle_field(&state, head.name.as_str());
        let taken = FormAssembler {
            schema,
            readers,
            max_parts,
            limits,
            field_limits,
            parts,
            state,
            phase: Phase::AwaitingPart,
        };
        match decision {
            Err(e) => taken.fail(e),
            Ok(Decision::Skip) => (taken, FormAction::SkipPart),
            Ok(Decision::Read(index)) => {
                let reader = schema.field(index).reader;
                match check_leaf(reader, &readers, &head) {
                    Err(e) => taken.fail(e),
                    Ok(()) => {
                        let FormAssembler {
                            schema,
                            readers,
                            max_parts,
                            limits,
                            field_limits,
                            parts,
                            state,
                            phase: _,
                        } = taken;
                        if reads_into_memory(reader) {
                            (
                                FormAssembler {
                                    schema,
                                    readers,
                                    max_parts,
                                    limits,
                                    field_limits,
                                    parts,
                                    state,
                                    phase: Phase::Reading { index, head, buffer: Vec::new() },
                                },
                                FormAction::ReadChunk,
                            )
                        } else {
                            (
                                FormAssembler {
                                    schema,
                                    readers,
                                    max_parts,
                                    limits,
                                    field_limits,
                                    parts,
                                    state,
                                    phase: Phase::Storing { index, head, written: 0 },
                                },
                                FormAction::OpenStorage,
                            )
                        }
                    },
                }
            },
        }
    }

    /// Takes one event and gives the state that follows and what to do next.
    ///
    /// The values stored before the step stay as they are but for the field
    /// that takes a value. Where the step stores a file, that file owns the
    /// storage that the event handed over.
    pub fn step(self, event: FormEvent<S>) -> (next: (Self, FormAction))
        ensures
            (next.0@, next.1@) == self@.step(event@),
            next.0@.assembly.slots == leaf_slots(next.0.values()),
            !(next.1 is ReadPart) ==> next.0.values() == self.values(),
            next.1 is ReadPart ==> 0 <= self@.phase.index() < self@.schema.fields.len()
                && exists|value: Leaf<S>|
                {
                    &&& next.0.values() == #[trigger] self@.schema.accepted(
                        self.values(),
                        self@.phase.index(),
                        value,
                    )
                    &&& value is File <==> event is Stored
                    &&& event matches FormEvent::Stored(storage) ==> value->File_0.file == storage
                },
    {
        proof {
            use_type_invariant(&self);
        }
        let ghost pre = self@;
        let ghost values = self.values();
        let FormAssembler {
            schema,
            readers,
            max_parts,
            limits,
            field_limits,
            parts,
            state,
            phase,
        } = self;
        match phase {
            Phase::AwaitingPart => {
                let rest = FormAssembler {
                    schema,
                    readers,
                    max_parts,
                    limits,
                    field_limits,
                    parts,
                    state,
                    phase: Phase::AwaitingPart,
                };
                match event {
                    FormEvent::Part(headers) => rest.take_headers(headers),
                    FormEvent::End => {
                        let FormAssembler {
                            schema,
                            readers,
                            max_parts,
                            limits,
                            field_limits,
                            parts,
                            state,
                            phase: _,
                        } = rest;
                        (
                            FormAssembler {
                                schema,
                                readers,
                                max_parts,
                                limits,
                                field_limits,
                                parts,
                                state,
                                phase: Phase::Done,
                            },
                            FormAction::Stop,
                        )
                    },
                    FormEvent::Failure(e) => rest.fail(Error::Multipart(e)),
                    _ => rest.fail(
                        Error::Multipart(MultipartError::Payload(PayloadError::Incomplete)),
                    ),
                }
            },
            Phase::Reading { index, head, buffer } => match event {
                FormEvent::Chunk(bytes) => {
                    let mut limits = limits;
                    let mut buffer = buffer;
                    match push_chunk(&mut buffer, &bytes, &mut limits, true) {
                        Ok(()) => (
                            FormAssembler {
                                schema,
                                readers,
                                max_parts,
                                limits,
                                field_limits,
                                parts,
                                state,
                                phase: Phase::Reading { index, head, buffer },
                            },
                            FormAction::ReadChunk,
                        ),
                        Err(e) => (FormAssembler {
                            schema,
                            readers,
                            max_parts,
                            limits,
                            field_limits,
                            parts,
                            state,
                            phase: Phase::Reading { index, head, buffer },
                        }).fail(e),
                    }
                },
                FormEvent::BodyEnd => {
                    let rest = FormAssembler {
                        schema,
                        readers,
                        max_parts,
                        limits,
                        field_limits,
                        parts,
                        state,
                        phase: Phase::AwaitingPart,
                    };
                    match leaf_from_body(schema.field(index).reader, head, buffer) {
                        Ok(value) => rest.store(index, value),
                        Err(e) => rest.fail(e),
                    }
                },
                FormEvent::Failure(e) => (FormAssembler {
                    schema,
                    readers,
                    max_parts,
                    limits,
                    field_limits,
                    parts,
                    state,
                    phase: Phase::Reading { index, head, buffer },
                }).fail(Error::Multipart(e)),
                _ => (FormAssembler {
                    schema,
                    readers,
                    max_parts,
                    limits,
                    field_limits,
                    parts,
                    state,
                    phase: Phase::Reading { index, head, buffer },
                }).fail(Error::Multipart(MultipartError::Payload(PayloadError::Incomplete))),
            },
            Phase::Storing { index, head, written } => match event {
                FormEvent::Chunk(bytes) => {
                    let mut limits = limits;
                    match limits.try_consume_limits(bytes.len(), false) {
                        Ok(()) => (
                            FormAssembler {
                                schema,
                                readers,
                                max_parts,
                                limits,
                                field_limits,
                                parts,
                                state,
                                phase: Phase::Storing {
                                    index,
                                    head,
                                    written: written + bytes.len(),
                                },
                            },
                            FormAction::Write(bytes),
                        ),
                        Err(e) => (FormAssembler {
                            schema,
                            readers,
                            max_parts,
                            limits,
                            field_limits,
                            parts,
                            state,
                            phase: Phase::Storing { index, head, written },
                        }).fail(e),
                    }
                },
                FormEvent::Stored(storage) => {
                    let rest = FormAssembler {
                        schema,
                        readers,
                        max_parts,
                        limits,
                        field_limits,
                        parts,
                        state,
                        phase: Phase::AwaitingPart,
                    };
                    rest.store(index, Leaf::File(File::from_storage(head, storage, written)))
                },
                FormEvent::Failure(e) => (FormAssembler {
                    schema,
                    readers,
                    max_parts,
                    limits,
                    field_limits,
                    parts,
                    state,
                    phase: Phase::Storing { index, head, written },
                }).fail(Error::Multipart(e)),
                _ => (FormAssembler {
                    schema,
                    readers,
                    max_parts,
                    limits,
                    field_limits,
                    parts,
                    state,
                    phase: Phase::Storing { index, head, written },
                }).fail(Error::Multipart(MultipartError::Payload(PayloadError::Incomplete))),
            },
            Phase::Done => (
                FormAssembler {
                    schema,
                    readers,
                    max_parts,
                    limits,
                    field_limits,
                    parts,
                    state,
                    phase: Phase::Done,
                },
                FormAction::Stop,
            ),
            Phase::Failed(e) => (
                FormAssembler {
                    schema,
                    readers,
                    max_parts,
                    limits,
                    field_limits,
                    parts,
                    state,
                    phase: Phase::Failed(e),
                },
                FormAction::Stop,
            ),
        }
    }

    /// Ends the pass: the decoded form if the stream was exhausted between
    /// two parts and no required field lacks a value, the failure if the
    /// pass failed, and an incomplete stream otherwise. What was decoded in
    /// a pass that fails is dropped, and the storage of its files with it.
    pub fn finish(self) -> (r: Result<Vec<FieldValue<Leaf<S>>>, Error>)
        ensures
            match self@.phase {
                FormPhase::Done => match self@.schema.finalized(self@.assembly.slots) {
                    Ok(values) => {
                        &&& r is Ok
                        &&& leaf_values(r->Ok_0@) == values
                        &&& self@.schema.finalized(self.values()) is Ok
                        &&& value_models(r->Ok_0@) == self@.schema.finalized(self.values())->Ok_0
                    },
                    Err(e) => r is Err && r->Err_0@ == e,
                },
                FormPhase::Failed(e) => r is Err && r->Err_0@ == e,
                _ => r is Err && r->Err_0@ == ErrorView::Multipart(
                    MultipartError::Payload(PayloadError::Incomplete),
                ),
            },
    {
        proof {
            use_type_invariant(&self);
        }
        let FormAssembler {
            schema,
            readers: _,
            max_parts: _,
            limits: _,
            field_limits: _,
            parts: _,
            state,
            phase,
        } = self;
        match phase {
            Phase::Done => {
                let ghost slots = state.slots();
                let ghost views = leaf_slots(slots);
                proof {
                    crate::form::lemma_missing_of_views(schema@, slots, 0);
                }
                let r = schema.from_state(state);
                proof {
                    if r is Ok {
                        let values = r->Ok_0@;
                        assert(value_models(values).len() == values.len());
                        schema@.lemma_missing_from(slots, 0);
                        let expected = schema@.finalized(views)->Ok_0;
                        assert forall|k: int| 0 <= k < values.len() implies #[trigger] leaf_values(
                            values,
                        )[k] == expected[k] by {
                            assert(value_models(values)[k] == schema@.value_of(slots, k));
                            assert(views[k] == slots[k].map_values(|v: Leaf<S>| v@));
                            assert(!schema@.is_missing(slots, k));
                        }
                        assert(leaf_values(values) =~= expected);
                    }
                }
                r
            },
            Phase::Failed(e) => Err(e),
            _ => Err(Error::Multipart(MultipartError::Payload(PayloadError::Incomplete))),
        }
    }
}

impl<'a> FormAssembler<'a, Vec<u8>> {
    /// Hands the chunks of a body to an assembler that reads a part into
    /// memory, up to the first chunk that does not fit the quotas.
    ///
    /// returns: the assembler, and whether every chunk was taken.
    #[verifier::loop_isolation(false)]
    fn feed_memory(self, chunks: &Vec<Vec<u8>>) -> (next: (Self, bool))
        requires
            self@.phase matches FormPhase::Reading { buffer, .. } && buffer.len() == 0,
        ensures
            next.0.values() == self.values(),
            ({
                let body = concat(chunk_views(chunks@));
                if self@.assembly.limits.admits(body.len(), true) {
                    next.1 && next.0@ == (AssemblerView {
                        phase: FormPhase::Reading {
                            index: self@.phase->Reading_index,
                            head: self@.phase->Reading_head,
                            buffer: body,
                        },
                        ..self@.charged(body.len(), true)
                    })
                } else {
                    !next.1 && next.0@.phase == FormPhase::Failed(over_budget())
                }
            }),
    {
        let ghost pre = self@;
        let ghost all = chunk_views(chunks@);
        let mut assembler = self;
        let mut j: usize = 0;
        assert(concat(all.take(0)) =~= Seq::<u8>::empty());
        assert(pre.phase->Reading_buffer =~= Seq::<u8>::empty());
        while j < chunks.len()
            invariant
                0 <= j <= chunks.len(),
                pre.assembly.limits.admits(concat(all.take(j as int)).len(), true),
                assembler.values() == self.values(),
                assembler@ == (AssemblerView {
                    phase: FormPhase::Reading {
                        index: pre.phase->Reading_index,
                        head: pre.phase->Reading_head,
                        buffer: concat(all.take(j as int)),
                    },
                    ..pre.charged(concat(all.take(j as int)).len(), true)
                }),
            decreases chunks.len() - j,
        {
            proof {
                lemma_concat_step(all, j as int);
                lemma_concat_prefix_len(all, j as int + 1);
                lemma_charged_twice(
                    pre.assembly.limits,
                    concat(all.take(j as int)).len(),
                    all[j as int].len(),
                    true,
                );
            }
            let (next, action) = assembler.step(FormEvent::Chunk(copy_chunk(&chunks[j])));
            assembler = next;
            match action {
                FormAction::ReadChunk => {},
                _ => {
                    return (assembler, false);
                },
            }
            j = j + 1;
        }
        assert(all.take(j as int) == all);
        (assembler, true)
    }

    /// Hands the chunks of a body to an assembler that streams a part to
    /// storage, and writes them to a byte vector, up to the first chunk that
    /// does not fit the quotas.
    ///
    /// returns: the assembler, what was written, and whether every chunk was
    /// taken.
    #[verifier::loop_isolation(false)]
    fn feed_storage(self, chunks: &Vec<Vec<u8>>) -> (next: (Self, Vec<u8>, bool))
        requires
            self@.phase matches FormPhase::Storing { written, .. } && written == 0,
        ensures
            next.0.values() == self.values(),
            ({
                let body = concat(chunk_views(chunks@));
                if self@.assembly.limits.admits(body.len(), false) {
                    next.2 && next.1@ == body && next.0@ == (AssemblerView {
                        phase: FormPhase::Storing {
                            index: self@.phase->Storing_index,
                            head: self@.phase->Storing_head,
                            written: body.len() as usize,
                        },
                        ..self@.charged(body.len(), false)
                    })
                } else {
                    !next.2 && next.0@.phase == FormPhase::Failed(over_budget())
                }
            }),
    {
        let ghost pre = self@;
        let ghost all = chunk_views(chunks@);
        let mut assembler = self;
        let mut storage: Vec<u8> = Vec::new();
        let mut j: usize = 0;
        assert(concat(all.take(0)) =~= Seq::<u8>::empty());
        while j < chunks.len()
            invariant
                0 <= j <= chunks.len(),
                storage@ == concat(all.take(j as int)),
                pre.assembly.limits.admits(concat(all.take(j as int)).len(), false),
                assembler.values() == self.values(),
                assembler@ == (AssemblerView {
                    phase: FormPhase::Storing {
                        index: pre.phase->Storing_index,
                        head: pre.phase->Storing_head,
                        written: concat(all.take(j as int)).len() as usize,
                    },
                    ..pre.charged(concat(all.take(j as int)).len(), false)
                }),
            decreases chunks.len() - j,
        {
            proof {
                lemma_concat_step(all, j as int);
                lemma_concat_prefix_len(all, j as int + 1);
                lemma_charged_twice(
                    pre.assembly.limits,
                    concat(all.take(j as int)).len(),
                    all[j as int].len(),
                    false,
                );
            }
            let (next, action) = assembler.step(FormEvent::Chunk(copy_chunk(&chunks[j])));
            assembler = next;
            match action {
                FormAction::Write(bytes) => {
                    append_chunk(&mut storage, &bytes);
                },
                _ => {
                    return (assembler, storage, false);
                },
            }
            j = j + 1;
        }
        assert(all.take(j as int) == all);
        (assembler, storage, true)
    }

    /// Hands one part of a body that is held in memory to the assembler:
    /// its headers, then its chunks, then its end.
    ///
    /// returns: the assembler, and whether the pass goes on.
    fn feed_part(self, parts: &Vec<RawPart>, at: usize) -> (next: (Self, bool))
        requires
            self@.phase is AwaitingPart,
            at < parts.len(),
            files_in_order(self@.schema, self.values(), parts@, at as int),
        ensures
            next.1 ==> files_in_order(self@.schema, next.0.values(), parts@, at + 1),
            match self@.assembly.take_part(
                self@.schema,
                self@.max_parts,
                self@.validate_text,
                self@.validate_json,
                parts[at as int]@,
            ) {
                Ok(assembly) => next.1 && next.0@ == (AssemblerView { assembly, ..self@ }),
                Err(e) => !next.1 && next.0@.phase == FormPhase::Failed(e),
            },
    {
        proof {
            use_type_invariant(&self);
        }
        let part = &parts[at];
        let ghost schema = self@.schema;
        let ghost before = self.values();
        let ghost name = part@.headers.head().name;
        proof {
            self.lemma_view_values();
            lemma_decision_of_views(schema, before, name);
        }
        let (assembler, action) = self.step(FormEvent::Part(part.headers.duplicate()));
        match action {
            FormAction::SkipPart => {
                proof {
                    lemma_files_skipped(schema, before, parts@, at as int);
                }
                (assembler, true)
            },
            FormAction::ReadChunk => {
                let ghost index = assembler@.phase.index();
                let (assembler, fed) = assembler.feed_memory(&part.chunks);
                if !fed {
                    return (assembler, false);
                }
                let (assembler, action) = assembler.step(FormEvent::BodyEnd);
                match action {
                    FormAction::ReadPart => {
                        proof {
                            lemma_files_read(schema, before, assembler.values(), parts@, at as int, index);
                        }
                        (assembler, true)
                    },
                    _ => (assembler, false),
                }
            },
            FormAction::OpenStorage => {
                let ghost index = assembler@.phase.index();
                let (assembler, storage, fed) = assembler.feed_storage(&part.chunks);
                if !fed {
                    return (assembler, false);
                }
                let ghost written = storage;
                let (assembler, action) = assembler.step(FormEvent::Stored(storage));
                match action {
                    FormAction::ReadPart => {
                        proof {
                            assert(parts[at as int]@.body() == written@);
                            lemma_files_read(schema, before, assembler.values(), parts@, at as int, index);
                        }
                        (assembler, true)
                    },
                    _ => (assembler, false),
                }
            },
            _ => (assembler, false),
        }
    }
}

/// The bodies of those among the first `upto` parts that address the field
/// `name`, in the order of their arrival.
pub open spec fn bodies_for(parts: Seq<RawPart>, upto: int, name: Seq<char>) -> Seq<Seq<u8>>
    decreases upto,
{
    if upto <= 0 || upto > parts.len() {
        Seq::empty()
    } else if parts[upto - 1]@.headers.head().name == name {
        bodies_for(parts, upto - 1, name).push(parts[upto - 1]@.body())
    } else {
        bodies_for(parts, upto - 1, name)
    }
}

/// The bodies that a field keeps of those that arrived for it: a list keeps
/// all of them; a field of one value keeps the first or, where a later part
/// replaces an earlier one, the last.
pub open spec fn kept_bodies(
    shape: FieldShape,
    action: DuplicateAction,
    bodies: Seq<Seq<u8>>,
) -> Seq<Seq<u8>> {
    if shape is List {
        bodies
    } else if bodies.len() == 0 {
        Seq::empty()
    } else if action is Replace {
        seq![bodies.last()]
    } else {
        seq![bodies[0]]
    }
}

/// What the storage of each of the values holds, where the values are files.
pub open spec fn file_contents(values: Seq<Leaf<Vec<u8>>>) -> Seq<Seq<u8>> {
    Seq::new(values.len(), |j: int| values[j]->File_0.file@)
}

/// Whether the values of the field at `field`, whose parts are streamed to
/// storage, are files that hold the bodies that the field keeps of the first
/// `upto` parts, in the order of their arrival.
pub open spec fn field_in_order(
    schema: SchemaView,
    values: Seq<Leaf<Vec<u8>>>,
    parts: Seq<RawPart>,
    upto: int,
    field: int,
) -> bool {
    &&& forall|j: int| 0 <= j < values.len() ==> (#[trigger] values[j]) is File
    &&& file_contents(values) == kept_bodies(
        schema.fields[field].shape,
        schema.duplicate_action,
        bodies_for(parts, upto, schema.fields[field].name),
    )
}

/// Whether every field whose parts are streamed to storage has each of its
/// files hold the body of the part that it was decoded from.
pub open spec fn files_in_order(
    schema: SchemaView,
    slots: Seq<Seq<Leaf<Vec<u8>>>>,
    parts: Seq<RawPart>,
    upto: int,
) -> bool {
    forall|field: int|
        0 <= field < schema.fields.len() && (#[trigger] schema.fields[field]).reader is File
            ==> field_in_order(schema, slots[field], parts, upto, field)
}

/// Whether, in a decoded form, every field whose parts are streamed to
/// storage has each of its files hold the body of the part that it was
/// decoded from: the files of a list in the order of their parts, the file
/// of a field of one value from the part that the duplicate policy keeps.
pub open spec fn stored_in_order(
    schema: SchemaView,
    values: Seq<FieldValue<Leaf<Vec<u8>>>>,
    parts: Seq<RawPart>,
) -> bool {
    forall|field: int|
        0 <= field < values.len() && (#[trigger] schema.fields[field]).reader is File
            ==> field_in_order(schema, leaves(values[field]@), parts, parts.len() as int, field)
}

/// The values that make up the value of a field.
pub open spec fn leaves<S>(value: FieldValueModel<Leaf<S>>) -> Seq<Leaf<S>> {
    match value {
        FieldValueModel::Scalar(v) => seq![v],
        FieldValueModel::Optional(Some(v)) => seq![v],
        FieldValueModel::Optional(None) => Seq::empty(),
        FieldValueModel::List(v) => v,
    }
}

/// What is done with a part depends on how many values the fields have, not
/// on what the values are.
proof fn lemma_decision_of_views<S>(schema: SchemaView, slots: Seq<Seq<Leaf<S>>>, name: Seq<char>)
    requires
        slots.len() == schema.fields.len(),
    ensures
        schema.decision(slots, name) == schema.decision(leaf_slots(slots), name),
{
    if schema.knows(name) {
        let p = schema.position(name);
        assert(0 <= p < slots.len());
        assert(leaf_slots(slots)[p].len() == slots[p].len());
    }
}

/// In a form whose names are distinct, a name that a field bears addresses
/// that field and no other.
proof fn lemma_addressed(schema: SchemaView, field: int)
    requires
        schema.well_formed(),
        0 <= field < schema.fields.len(),
    ensures
        schema.knows(schema.fields[field].name),
        schema.position(schema.fields[field].name) == field,
{
    let name = schema.fields[field].name;
    assert(schema.fields[field].name == name);
    let chosen = schema.position(name);
    if chosen < field {
        assert(schema.fields[chosen].name != schema.fields[field].name);
    } else if field < chosen {
        assert(schema.fields[field].name != schema.fields[chosen].name);
    }
}

/// A part that is passed over leaves the files of every field holding the
/// bodies that the field keeps.
proof fn lemma_files_skipped(
    schema: SchemaView,
    slots: Seq<Seq<Leaf<Vec<u8>>>>,
    parts: Seq<RawPart>,
    at: int,
)
    requires
        schema.well_formed(),
        slots.len() == schema.fields.len(),
        0 <= at < parts.len(),
        files_in_order(schema, slots, parts, at),
        schema.decision(slots, parts[at]@.headers.head().name) == Ok::<Decision, ErrorView>(
            Decision::Skip,
        ),
    ensures
        files_in_order(schema, slots, parts, at + 1),
{
    let name = parts[at]@.headers.head().name;
    assert forall|field: int|
        0 <= field < schema.fields.len() && (#[trigger] schema.fields[field]).reader is File implies field_in_order(
        schema,
        slots[field],
        parts,
        at + 1,
        field,
    ) by {
        assert(field_in_order(schema, slots[field], parts, at, field));
        let bodies = bodies_for(parts, at, schema.fields[field].name);
        if schema.fields[field].name == name {
            lemma_addressed(schema, field);
            assert(slots[field].len() > 0);
            assert(file_contents(slots[field]).len() > 0);
            assert(bodies.len() > 0);
            assert(bodies.push(parts[at]@.body())[0] == bodies[0]);
        }
    }
}

/// A part that is read leaves the files of every field holding the bodies
/// that the field keeps, where the file that was stored for a field whose
/// parts are streamed to storage holds the body of the part.
proof fn lemma_files_read(
    schema: SchemaView,
    slots: Seq<Seq<Leaf<Vec<u8>>>>,
    after: Seq<Seq<Leaf<Vec<u8>>>>,
    parts: Seq<RawPart>,
    at: int,
    index: int,
)
    requires
        schema.well_formed(),
        slots.len() == schema.fields.len(),
        0 <= at < parts.len(),
        files_in_order(schema, slots, parts, at),
        0 <= index < schema.fields.len(),
        schema.decision(slots, parts[at]@.headers.head().name) == Ok::<Decision, ErrorView>(
            Decision::Read(index as usize),
        ),
        exists|value: Leaf<Vec<u8>>|
            {
                &&& after == #[trigger] schema.accepted(slots, index, value)
                &&& schema.fields[index].reader is File ==> value is File && value->File_0.file@
                    == parts[at]@.body()
            },
    ensures
        files_in_order(schema, after, parts, at + 1),
{
    let name = parts[at]@.headers.head().name;
    let body = parts[at]@.body();
    let value = choose|value: Leaf<Vec<u8>>|
        {
            &&& after == #[trigger] schema.accepted(slots, index, value)
            &&& schema.fields[index].reader is File ==> value is File && value->File_0.file@
                == parts[at]@.body()
        };
    assert(schema.knows(name));
    assert(schema.position(name) == index);
    assert(schema.fields[index].name == name);
    assert forall|field: int|
        0 <= field < schema.fields.len() && (#[trigger] schema.fields[field]).reader is File implies field_in_order(
        schema,
        after[field],
        parts,
        at + 1,
        field,
    ) by {
        assert(field_in_order(schema, slots[field], parts, at, field));
        let bodies = bodies_for(parts, at, schema.fields[field].name);
        if field == index {
            let kept = kept_bodies(schema.fields[field].shape, schema.duplicate_action, bodies);
            assert(file_contents(slots[field]) == kept);
            if schema.fields[field].shape is List {
                assert(after[field] == slots[field].push(value));
                assert(file_contents(after[field]) =~= bodies.push(body));
            } else {
                assert(after[field] == seq![value]);
                assert(file_contents(after[field]) =~= seq![body]);
                if bodies.len() > 0 {
                    assert(slots[field].len() > 0);
                    assert(schema.duplicate_action is Replace);
                }
            }
        } else {
            lemma_addressed(schema, field);
            assert(schema.fields[field].name != name);
            assert(after[field] == slots[field]);
        }
    }
}

/// Decodes a body that is held in memory against a form, by running the
/// assembler over it. A file is kept in a byte vector that stands for
/// storage.
///
/// Each part is routed to the field that its name addresses. The quotas of
/// the form are charged for every part that is read, and so is the limit of
/// its field, which all the parts of one name share. The pass stops at the
/// first failure. Once every part has been taken, the value of every field is
/// collected in the order of the fields.
#[verifier::loop_isolation(false)]
pub fn decode_form(
    schema: &FormSchema,
    config: &MultipartFormConfig,
    readers: &ReaderConfig,
    parts: &Vec<RawPart>,
) -> (r: Result<Vec<FieldValue<Leaf<Vec<u8>>>>, Error>)
    ensures
        match decoded(
            schema@,
            config@,
            readers.text.validates(),
            readers.json.validates(),
            raw_views(parts@),
        ) {
            Ok(values) => r is Ok && leaf_values(r->Ok_0@) == values,
            Err(e) => r is Err && r->Err_0@ == e,
        },
        r matches Ok(values) ==> stored_in_order(schema@, values@, parts@),
{
    let ghost all = raw_views(parts@);
    let ghost validate_text = readers.text.validates();
    let ghost validate_json = readers.json.validates();
    let ghost max_parts = config@.max_parts;
    let ghost start = Assembly::start(schema@, config@);
    let mut assembler: FormAssembler<'_, Vec<u8>> = FormAssembler::new(schema, config, *readers);
    let mut i: usize = 0;
    proof {
        assert forall|field: int|
            0 <= field < schema@.fields.len() && (#[trigger] schema@.fields[field]).reader is File implies field_in_order(
            schema@,
            assembler.values()[field],
            parts@,
            0,
            field,
        ) by {
            assert(file_contents(assembler.values()[field]) =~= Seq::<Seq<u8>>::empty());
        }
    }
    while i < parts.len()
        invariant
            0 <= i <= parts.len(),
            assembler@.schema == schema@,
            assembler@.max_parts == max_parts,
            assembler@.validate_text == validate_text,
            assembler@.validate_json == validate_json,
            assembler@.phase is AwaitingPart,
            files_in_order(schema@, assembler.values(), parts@, i as int),
            start.take_parts(schema@, max_parts, validate_text, validate_json, all, 0)
                == assembler@.assembly.take_parts(
                schema@,
                max_parts,
                validate_text,
                validate_json,
                all,
                i as int,
            ),
        decreases parts.len() - i,
    {
        assert(all[i as int] == parts[i as int]@);
        let (next, fed) = assembler.feed_part(parts, i);
        assembler = next;
        if !fed {
            return assembler.finish();
        }
        i = i + 1;
    }
    let (next, _) = assembler.step(FormEvent::End);
    let ghost slots = next.values();
    let ghost done = next@;
    proof {
        use_type_invariant(&next);
    }
    let r = next.finish();
    proof {
        if r is Ok {
            let values = r->Ok_0@;
            assert(done.phase is Done);
            assert(done.schema == schema@);
            assert(schema@.finalized(slots) is Ok);
            assert(value_models(values).len() == values.len());
            schema@.lemma_missing_from(slots, 0);
            assert forall|field: int|
                0 <= field < values.len() && (#[trigger] schema@.fields[field]).reader is File implies field_in_order(
                schema@,
                leaves(values[field]@),
                parts@,
                parts.len() as int,
                field,
            ) by {
                assert(slots.len() == schema@.fields.len());
                assert(values.len() == schema@.fields.len());
                assert(value_models(values)[field] == schema@.value_of(slots, field));
                assert(values[field]@ == schema@.value_of(slots, field));
                assert(!schema@.is_missing(slots, field));
                assert(field_in_order(schema@, slots[field], parts@, parts.len() as int, field));
                assert(file_contents(slots[field]).len() == slots[field].len());
                assert(leaves(values[field]@) =~= slots[field]);
            }
        }
    }
    r
}

/// Trait that allows a type to be extracted from a multipart form: it names
/// the fields of the form and makes itself from their values. The files of
/// the form are held in storage of type `S`.
pub trait MultipartFormTrait<S>: Sized {
    /// The registry of the form: the fields that parts may address, their
    /// limits, and what becomes of unknown and repeated names.
    fn schema() -> FormSchema;

    /// Once all the parts have been decoded, this is called with the value
    /// of every field, in the order of the schema, to convert them into the
    /// form.
    fn from_state(values: Vec<FieldValue<Leaf<S>>>) -> Result<Self, Error>;
}

/// What extracting a form gives once its body was decoded to `expected`:
/// the values with these views, each file with the body of its part, were
/// handed to the form, and what the form made of them is what is returned.
pub open spec fn made_from<T: MultipartFormTrait<Vec<u8>>>(
    schema: SchemaView,
    parts: Seq<RawPart>,
    expected: Seq<FieldValueModel<LeafView>>,
    r: Result<MultipartForm<T>, Error>,
) -> bool {
    exists|values: Vec<FieldValue<Leaf<Vec<u8>>>>, made: Result<T, Error>|
        {
            &&& leaf_values(values@) == expected
            &&& stored_in_order(schema, values@, parts)
            &&& #[trigger] call_ensures(T::from_state, (values,), made)
            &&& match made {
                Ok(form) => r is Ok && r->Ok_0.0 == form,
                Err(e) => r is Err && r->Err_0 == e,
            }
        }
}

impl<T: MultipartFormTrait<Vec<u8>>> MultipartForm<T> {
    /// Extracts a form from a body that is held in memory: decodes the body
    /// against `schema`, and makes the form of the values.
    ///
    /// A body that cannot be decoded fails with the failure of the decode.
    /// The values of a body that was decoded are handed to the form, and
    /// what the form makes of them is what is returned.
    pub fn extract_with(
        schema: &FormSchema,
        config: &MultipartFormConfig,
        readers: &ReaderConfig,
        parts: &Vec<RawPart>,
    ) -> (r: Result<Self, Error>)
        ensures
            match decoded(
                schema@,
                config@,
                readers.text.validates(),
                readers.json.validates(),
                raw_views(parts@),
            ) {
                Ok(expected) => made_from(schema@, parts@, expected, r),
                Err(e) => r is Err && r->Err_0@ == e,
            },
    {
        match decode_form(schema, config, readers, parts) {
            Ok(values) => {
                let ghost handed = values;
                let made = T::from_state(values);
                let r = match made {
                    Ok(form) => Ok(MultipartForm(form)),
                    Err(e) => Err(e),
                };
                proof {
                    assert(call_ensures(T::from_state, (handed,), made));
                }
                r
            },
            Err(e) => Err(e),
        }
    }

    /// Extracts a form from a body that is held in memory, against the
    /// schema that the form names.
    pub fn extract(config: &MultipartFormConfig, readers: &ReaderConfig, parts: &Vec<RawPart>) -> (r:
        Result<Self, Error>)
        ensures
            exists|schema: FormSchema|
                {
                    &&& #[trigger] call_ensures(T::schema, (), schema)
                    &&& match decoded(
                        schema@,
                        config@,
                        readers.text.validates(),
                        readers.json.validates(),
                        raw_views(parts@),
                    ) {
                        Ok(expected) => made_from(schema@, parts@, expected, r),
                        Err(e) => r is Err && r->Err_0@ == e,
                    }
                },
    {
        let schema = T::schema();
        Self::extract_with(&schema, config, readers, parts)
    }
}

} // verus!
