//! The stream decoder: turns the parts of a multipart body, as they arrive,
//! into text held in memory and files held in storage, under quotas.
//!
//! The decoder is a state machine. It never reads or writes anything itself:
//! [`Decoder::step`] takes what the caller has read and says what to do next.
//! [`Loader::load_fields`] runs the machine over a body that is already in
//! memory.

use vstd::prelude::*;
use vstd::utf8::{decode_utf8, valid_utf8};
use crate::error::{MultipartError, ParseError, PayloadError};
use crate::media::{MediaType, MediaTypeView};
use crate::part::{
    raw_views, Field, FieldView, File, FileView, PartHead, PartHeaders, PartHeadersView, PartKind,
    RawPart, RawPartView, Text, TextView,
};
use crate::text_util::{
    append_chunk, concat, copy_chunk, lemma_concat_prefix_len, lemma_concat_step, opt_chars,
    text_from_utf8,
};

verus! {

/// Bytes of text that a form may hold unless configured otherwise: 16 KiB.
pub const DEFAULT_TEXT_LIMIT: usize = 16384;

/// Bytes of files that a form may hold unless configured otherwise: 512 MiB.
pub const DEFAULT_FILE_LIMIT: usize = 536870912;

/// Parts that a form may have unless configured otherwise.
pub const DEFAULT_MAX_PARTS: usize = 1000;

/// The quotas of a [`Loader`].
#[derive(Debug, Clone, Copy, PartialEq, Eq, Structural)]
pub struct LoadLimits {
    /// Bytes that all text parts together may hold.
    pub text_limit: usize,
    /// Bytes that all file parts together may hold.
    pub file_limit: usize,
    /// The number of parts that the form may have.
    pub max_parts: usize,
}

/// Loads the parts of a multipart form into memory and storage.
#[derive(Clone, Copy)]
pub struct Loader {
    text_limit: usize,
    file_limit: usize,
    max_parts: usize,
}

impl View for Loader {
    type V = LoadLimits;

    closed spec fn view(&self) -> LoadLimits {
        LoadLimits {
            text_limit: self.text_limit,
            file_limit: self.file_limit,
            max_parts: self.max_parts,
        }
    }
}

/// Configures a [`Loader`].
pub struct Builder {
    text_limit: usize,
    file_limit: usize,
    max_parts: usize,
}

impl View for Builder {
    type V = LoadLimits;

    closed spec fn view(&self) -> LoadLimits {
        LoadLimits {
            text_limit: self.text_limit,
            file_limit: self.file_limit,
            max_parts: self.max_parts,
        }
    }
}

/// The quotas that apply where none are configured.
pub open spec fn default_limits() -> LoadLimits {
    LoadLimits {
        text_limit: DEFAULT_TEXT_LIMIT,
        file_limit: DEFAULT_FILE_LIMIT,
        max_parts: DEFAULT_MAX_PARTS,
    }
}

impl Default for Loader {
    fn default() -> (loader: Self)
        ensures
            loader@ == default_limits(),
    {
        Self {
            text_limit: DEFAULT_TEXT_LIMIT,
            file_limit: DEFAULT_FILE_LIMIT,
            max_parts: DEFAULT_MAX_PARTS,
        }
    }
}

impl Builder {
    pub fn build(&self) -> (loader: Loader)
        ensures
            loader@ == self@,
    {
        Loader {
            text_limit: self.text_limit,
            file_limit: self.file_limit,
            max_parts: self.max_parts,
        }
    }

    /// Set maximum allowed bytes of text in the form.
    pub fn text_limit(self, text_limit: usize) -> (builder: Self)
        ensures
            builder@ == (LoadLimits { text_limit, ..self@ }),
    {
        let mut builder = self;
        builder.text_limit = text_limit;
        builder
    }

    /// Set maximum allowed bytes for all files in the form.
    pub fn file_limit(self, file_limit: usize) -> (builder: Self)
        ensures
            builder@ == (LoadLimits { file_limit, ..self@ }),
    {
        let mut builder = self;
        builder.file_limit = file_limit;
        builder
    }

    /// Set maximum allowed parts in the form.
    pub fn max_parts(self, max_parts: usize) -> (builder: Self)
        ensures
            builder@ == (LoadLimits { max_parts, ..self@ }),
    {
        let mut builder = self;
        builder.max_parts = max_parts;
        builder
    }
}

/// What the caller has read from the stream or done to storage.
pub enum Event<S> {
    /// The stream gave the headers of the next part.
    Part(PartHeaders),
    /// The stream is exhausted.
    End,
    /// The current part gave the next chunk of its body.
    Chunk(Vec<u8>),
    /// The body of the current text part is complete.
    BodyEnd,
    /// The body of the current file part is complete: every chunk was
    /// written to this storage, and it was flushed.
    Stored(S),
    /// The stream failed, or storage could not be opened or written.
    Failure(MultipartError),
}

/// An [`Event`] without its storage, with its strings as characters.
pub enum EventView {
    Part(PartHeadersView),
    End,
    Chunk(Seq<u8>),
    BodyEnd,
    Stored,
    Failure(MultipartError),
}

impl<S> View for Event<S> {
    type V = EventView;

    open spec fn view(&self) -> EventView {
        match self {
            Event::Part(headers) => EventView::Part(headers@),
            Event::End => EventView::End,
            Event::Chunk(bytes) => EventView::Chunk(bytes@),
            Event::BodyEnd => EventView::BodyEnd,
            Event::Stored(_) => EventView::Stored,
            Event::Failure(e) => EventView::Failure(*e),
        }
    }
}

/// What the caller is to do next.
#[derive(Debug)]
pub enum Action {
    /// Ask the stream for the next part.
    ReadPart,
    /// Ask the current part for its next chunk.
    ReadChunk,
    /// Open fresh temporary storage for the current part, then ask the part
    /// for its next chunk.
    OpenStorage,
    /// Write these bytes to the storage of the current part, then ask the
    /// part for its next chunk.
    Write(Vec<u8>),
    /// The pass is over: call [`Decoder::finish`].
    Stop,
}

/// An [`Action`] with its bytes as a sequence.
pub enum ActionView {
    ReadPart,
    ReadChunk,
    OpenStorage,
    Write(Seq<u8>),
    Stop,
}

impl View for Action {
    type V = ActionView;

    open spec fn view(&self) -> ActionView {
        match self {
            Action::ReadPart => ActionView::ReadPart,
            Action::ReadChunk => ActionView::ReadChunk,
            Action::OpenStorage => ActionView::OpenStorage,
            Action::Write(bytes) => ActionView::Write(bytes@),
            Action::Stop => ActionView::Stop,
        }
    }
}

enum Phase {
    AwaitingPart,
    MaterializingText { name: String, buffer: Vec<u8> },
    MaterializingFile { name: String, filename: Option<String>, mime: MediaType, written: usize },
    Done,
    Failed(MultipartError),
}

/// Where the decoder stands between two steps.
///
/// Headers are classified and a finished part is emitted within one step, so
/// those two moments of the pass have no phase of their own.
pub enum PhaseView {
    /// Between parts: the next event is a part's headers or the end.
    AwaitingPart,
    /// Reading the body of a text part into memory.
    MaterializingText { name: Seq<char>, buffer: Seq<u8> },
    /// Streaming the body of a file part to storage.
    MaterializingFile {
        name: Seq<char>,
        filename: Option<Seq<char>>,
        mime: MediaTypeView,
        written: usize,
    },
    /// The stream was exhausted between two parts.
    Done,
    /// The pass failed.
    Failed(MultipartError),
}

impl View for Phase {
    type V = PhaseView;

    closed spec fn view(&self) -> PhaseView {
        match self {
            Phase::AwaitingPart => PhaseView::AwaitingPart,
            Phase::MaterializingText { name, buffer } => PhaseView::MaterializingText {
                name: name@,
                buffer: buffer@,
            },
            Phase::MaterializingFile {
                name,
                filename,
                mime,
                written,
            } => PhaseView::MaterializingFile {
                name: name@,
                filename: opt_chars(*filename),
                mime: mime@,
                written: *written,
            },
            Phase::Done => PhaseView::Done,
            Phase::Failed(e) => PhaseView::Failed(*e),
        }
    }
}

/// The parts of a list, each with its strings as characters.
pub open spec fn field_views<S>(fields: Seq<Field<S>>) -> Seq<FieldView> {
    fields.map_values(|f: Field<S>| f@)
}

/// The state of a decode pass.
pub struct Decoder<S> {
    text_budget: usize,
    file_budget: usize,
    max_parts: usize,
    parts: Vec<Field<S>>,
    phase: Phase,
}

/// A [`Decoder`] without the storage of its parts.
pub struct DecoderView {
    /// Bytes of text that the pass may still take.
    pub text_budget: usize,
    /// Bytes of files that the pass may still take.
    pub file_budget: usize,
    /// The number of parts that the pass may emit.
    pub max_parts: usize,
    /// The parts emitted so far, in the order of their arrival.
    pub parts: Seq<FieldView>,
    pub phase: PhaseView,
}

impl DecoderView {
    /// The pass has failed with `e`; quotas and parts stay as they are.
    pub open spec fn fail(self, e: MultipartError) -> (DecoderView, ActionView) {
        (DecoderView { phase: PhaseView::Failed(e), ..self }, ActionView::Stop)
    }

    /// The step of the machine: the state and the action that follow from a
    /// state and an event.
    ///
    /// An event that the phase does not expect fails the pass as an
    /// incomplete stream. Once the pass is done or has failed, nothing
    /// changes any more.
    pub open spec fn step(self, event: EventView) -> (DecoderView, ActionView) {
        match self.phase {
            PhaseView::AwaitingPart => match event {
                EventView::Part(headers) => {
                    if self.parts.len() >= self.max_parts {
                        self.fail(MultipartError::Payload(PayloadError::Overflow))
                    } else if !headers.acceptable() {
                        self.fail(MultipartError::Parse(ParseError::Header))
                    } else {
                        let head = headers.head();
                        match head.kind() {
                            PartKind::Text => (
                                DecoderView {
                                    phase: PhaseView::MaterializingText {
                                        name: head.name,
                                        buffer: Seq::empty(),
                                    },
                                    ..self
                                },
                                ActionView::ReadChunk,
                            ),
                            PartKind::File => (
                                DecoderView {
                                    phase: PhaseView::MaterializingFile {
                                        name: head.name,
                                        filename: head.filename,
                                        mime: head.media_type(),
                                        written: 0,
                                    },
                                    ..self
                                },
                                ActionView::OpenStorage,
                            ),
                        }
                    }
                },
                EventView::End => (
                    DecoderView { phase: PhaseView::Done, ..self },
                    ActionView::Stop,
                ),
                EventView::Failure(e) => self.fail(e),
                _ => self.fail(MultipartError::Payload(PayloadError::Incomplete)),
            },
            PhaseView::MaterializingText { name, buffer } => match event {
                EventView::Chunk(bytes) => {
                    if bytes.len() > self.text_budget {
                        self.fail(MultipartError::Payload(PayloadError::Overflow))
                    } else {
                        (
                            DecoderView {
                                text_budget: (self.text_budget - bytes.len()) as usize,
                                phase: PhaseView::MaterializingText {
                                    name,
                                    buffer: buffer + bytes,
                                },
                                ..self
                            },
                            ActionView::ReadChunk,
                        )
                    }
                },
                EventView::BodyEnd => {
                    if valid_utf8(buffer) {
                        (
                            DecoderView {
                                parts: self.parts.push(
                                    FieldView::Text(TextView { name, text: decode_utf8(buffer) }),
                                ),
                                phase: PhaseView::AwaitingPart,
                                ..self
                            },
                            ActionView::ReadPart,
                        )
                    } else {
                        self.fail(MultipartError::Parse(ParseError::Utf8))
                    }
                },
                EventView::Failure(e) => self.fail(e),
                _ => self.fail(MultipartError::Payload(PayloadError::Incomplete)),
            },
            PhaseView::MaterializingFile { name, filename, mime, written } => match event {
                EventView::Chunk(bytes) => {
                    if bytes.len() > self.file_budget {
                        self.fail(MultipartError::Payload(PayloadError::Overflow))
                    } else {
                        (
                            DecoderView {
                                file_budget: (self.file_budget - bytes.len()) as usize,
                                phase: PhaseView::MaterializingFile {
                                    name,
                                    filename,
                                    mime,
                                    written: (written + bytes.len()) as usize,
                                },
                                ..self
                            },
                            ActionView::Write(bytes),
                        )
                    }
                },
                EventView::Stored => (
                    DecoderView {
                        parts: self.parts.push(
                            FieldView::File(FileView { size: written, name, filename, mime }),
                        ),
                        phase: PhaseView::AwaitingPart,
                        ..self
                    },
                    ActionView::ReadPart,
                ),
                EventView::Failure(e) => self.fail(e),
                _ => self.fail(MultipartError::Payload(PayloadError::Incomplete)),
            },
            PhaseView::Done => (self, ActionView::Stop),
            PhaseView::Failed(_) => (self, ActionView::Stop),
        }
    }
}

impl<S> View for Decoder<S> {
    type V = DecoderView;

    closed spec fn view(&self) -> DecoderView {
        DecoderView {
            text_budget: self.text_budget,
            file_budget: self.file_budget,
            max_parts: self.max_parts,
            parts: field_views(self.parts@),
            phase: self.phase@,
        }
    }
}

impl<S> Decoder<S> {
    #[verifier::type_invariant]
    spec fn counts_fit(&self) -> bool {
        self.phase matches Phase::MaterializingFile { written, .. } ==> written + self.file_budget
            <= usize::MAX
    }

    /// The parts emitted so far, with their storage.
    pub closed spec fn fields(&self) -> Seq<Field<S>> {
        self.parts@
    }

    /// The parts of the view are the parts emitted so far, without their
    /// storage.
    pub proof fn lemma_view_parts(&self)
        ensures
            self@.parts == field_views(self.fields()),
    {
    }

    /// The decoder at the start of a pass under the given quotas.
    pub fn new(limits: LoadLimits) -> (decoder: Self)
        ensures
            decoder@ == (DecoderView {
                text_budget: limits.text_limit,
                file_budget: limits.file_limit,
                max_parts: limits.max_parts,
                parts: Seq::empty(),
                phase: PhaseView::AwaitingPart,
            }),
            decoder.fields() == Seq::<Field<S>>::empty(),
    {
        let decoder = Decoder {
            text_budget: limits.text_limit,
            file_budget: limits.file_limit,
            max_parts: limits.max_parts,
            parts: Vec::new(),
            phase: Phase::AwaitingPart,
        };
        assert(decoder@.parts =~= Seq::empty());
        decoder
    }

    fn fail(self, e: MultipartError) -> (next: (Self, Action))
        ensures
            (next.0@, next.1@) == self@.fail(e),
            next.0.fields() == self.fields(),
    {
        (
            Decoder {
                text_budget: self.text_budget,
                file_budget: self.file_budget,
                max_parts: self.max_parts,
                parts: self.parts,
                phase: Phase::Failed(e),
            },
            Action::Stop,
        )
    }

    /// Takes one event and gives the state that follows and what to do next.
    ///
    /// The parts emitted before the step stay as they are. Where the step
    /// emits a file part, that part owns the storage that the event handed
    /// over.
    pub fn step(self, event: Event<S>) -> (next: (Self, Action))
        ensures
            (next.0@, next.1@) == self@.step(event@),
            next.0@.parts == field_views(next.0.fields()),
            self.fields().is_prefix_of(next.0.fields()),
            next.0.fields().len() > self.fields().len() ==> next.0.fields().len()
                == self.fields().len() + 1,
            next.0.fields().len() > self.fields().len() && event is Stored ==> next.0.fields().last()
                is File && next.0.fields().last()->File_0.file == event->Stored_0,
    {
        proof {
            use_type_invariant(&self);
        }
        let ghost pre = self@;
        let ghost pre_fields = self.fields();
        let Decoder { text_budget, file_budget, max_parts, parts, phase } = self;
        match phase {
            Phase::AwaitingPart => match event {
                Event::Part(headers) => {
                    let rest = Decoder {
                        text_budget,
                        file_budget,
                        max_parts,
                        parts,
                        phase: Phase::AwaitingPart,
                    };
                    if rest.parts.len() >= max_parts {
                        return rest.fail(MultipartError::Payload(PayloadError::Overflow));
                    }
                    match headers.classify() {
                        Err(e) => rest.fail(e),
                        Ok(head) => {
                            let Decoder { text_budget, file_budget, max_parts, parts, phase: _ } =
                                rest;
                            match head.kind() {
                                PartKind::Text => (
                                    Decoder {
                                        text_budget,
                                        file_budget,
                                        max_parts,
                                        parts,
                                        phase: Phase::MaterializingText {
                                            name: head.name,
                                            buffer: Vec::new(),
                                        },
                                    },
                                    Action::ReadChunk,
                                ),
                                PartKind::File => {
                                    let PartHead { name, filename, content_type } = head;
                                    let ghost declared = head@;
                                    let mime = (PartHead {
                                        name: String::new(),
                                        filename: None,
                                        content_type,
                                    }).media_type();
                                    assert(mime@ == declared.media_type());
                                    (
                                        Decoder {
                                            text_budget,
                                            file_budget,
                                            max_parts,
                                            parts,
                                            phase: Phase::MaterializingFile {
                                                name,
                                                filename,
                                                mime,
                                                written: 0,
                                            },
                                        },
                                        Action::OpenStorage,
                                    )
                                },
                            }
                        },
                    }
                },
                Event::End => (
                    Decoder { text_budget, file_budget, max_parts, parts, phase: Phase::Done },
                    Action::Stop,
                ),
                Event::Failure(e) => (Decoder {
                    text_budget,
                    file_budget,
                    max_parts,
                    parts,
                    phase: Phase::AwaitingPart,
                }).fail(e),
                _ => (Decoder {
                    text_budget,
                    file_budget,
                    max_parts,
                    parts,
                    phase: Phase::AwaitingPart,
                }).fail(MultipartError::Payload(PayloadError::Incomplete)),
            },
            Phase::MaterializingText { name, buffer } => match event {
                Event::Chunk(bytes) => {
                    if bytes.len() > text_budget {
                        (Decoder {
                            text_budget,
                            file_budget,
                            max_parts,
                            parts,
                            phase: Phase::MaterializingText { name, buffer },
                        }).fail(MultipartError::Payload(PayloadError::Overflow))
                    } else {
                        let mut buffer = buffer;
                        append_chunk(&mut buffer, &bytes);
                        (
                            Decoder {
                                text_budget: text_budget - bytes.len(),
                                file_budget,
                                max_parts,
                                parts,
                                phase: Phase::MaterializingText { name, buffer },
                            },
                            Action::ReadChunk,
                        )
                    }
                },
                Event::BodyEnd => {
                    match text_from_utf8(buffer.as_slice()) {
                        Ok(text) => {
                            let mut parts = parts;
                            parts.push(Field::Text(Text { name, text }));
                            let next = Decoder {
                                text_budget,
                                file_budget,
                                max_parts,
                                parts,
                                phase: Phase::AwaitingPart,
                            };
                            assert(next@.parts =~= pre.parts.push(
                                FieldView::Text(TextView { name: name@, text: text@ }),
                            ));
                            (next, Action::ReadPart)
                        },
                        Err(_) => (Decoder {
                            text_budget,
                            file_budget,
                            max_parts,
                            parts,
                            phase: Phase::MaterializingText { name, buffer },
                        }).fail(MultipartError::Parse(ParseError::Utf8)),
                    }
                },
                Event::Failure(e) => (Decoder {
                    text_budget,
                    file_budget,
                    max_parts,
                    parts,
                    phase: Phase::MaterializingText { name, buffer },
                }).fail(e),
                _ => (Decoder {
                    text_budget,
                    file_budget,
                    max_parts,
                    parts,
                    phase: Phase::MaterializingText { name, buffer },
                }).fail(MultipartError::Payload(PayloadError::Incomplete)),
            },
            Phase::MaterializingFile { name, filename, mime, written } => match event {
                Event::Chunk(bytes) => {
                    if bytes.len() > file_budget {
                        (Decoder {
                            text_budget,
                            file_budget,
                            max_parts,
                            parts,
                            phase: Phase::MaterializingFile { name, filename, mime, written },
                        }).fail(MultipartError::Payload(PayloadError::Overflow))
                    } else {
                        (
                            Decoder {
                                text_budget,
                                file_budget: file_budget - bytes.len(),
                                max_parts,
                                parts,
                                phase: Phase::MaterializingFile {
                                    name,
                                    filename,
                                    mime,
                                    written: written + bytes.len(),
                                },
                            },
                            Action::Write(bytes),
                        )
                    }
                },
                Event::Stored(file) => {
                    let mut parts = parts;
                    let ghost emitted = FieldView::File(
                        FileView {
                            size: written,
                            name: name@,
                            filename: opt_chars(filename),
                            mime: mime@,
                        },
                    );
                    parts.push(Field::File(File { file, size: written, name, filename, mime }));
                    let next = Decoder {
                        text_budget,
                        file_budget,
                        max_parts,
                        parts,
                        phase: Phase::AwaitingPart,
                    };
                    assert(next@.parts =~= pre.parts.push(emitted));
                    (next, Action::ReadPart)
                },
                Event::Failure(e) => (Decoder {
                    text_budget,
                    file_budget,
                    max_parts,
                    parts,
                    phase: Phase::MaterializingFile { name, filename, mime, written },
                }).fail(e),
                _ => (Decoder {
                    text_budget,
                    file_budget,
                    max_parts,
                    parts,
                    phase: Phase::MaterializingFile { name, filename, mime, written },
                }).fail(MultipartError::Payload(PayloadError::Incomplete)),
            },
            Phase::Done => (
                Decoder { text_budget, file_budget, max_parts, parts, phase: Phase::Done },
                Action::Stop,
            ),
            Phase::Failed(e) => (
                Decoder { text_budget, file_budget, max_parts, parts, phase: Phase::Failed(e) },
                Action::Stop,
            ),
        }
    }

    /// Ends the pass: the parts in the order of their arrival if the stream
    /// was exhausted between two parts, the failure if the pass failed, and
    /// an incomplete stream otherwise. Parts of a failed pass are dropped,
    /// and their storage with them.
    pub fn finish(self) -> (r: Result<Vec<Field<S>>, MultipartError>)
        ensures
            match self@.phase {
                PhaseView::Done => r is Ok && r->Ok_0@ == self.fields(),
                PhaseView::Failed(e) => r == Err::<Vec<Field<S>>, MultipartError>(e),
                _ => r == Err::<Vec<Field<S>>, MultipartError>(
                    MultipartError::Payload(PayloadError::Incomplete),
                ),
            },
    {
        match self.phase {
            Phase::Done => Ok(self.parts),
            Phase::Failed(e) => Err(e),
            _ => Err(MultipartError::Payload(PayloadError::Incomplete)),
        }
    }
}

/// What a pass has decoded and what remains of its quotas.
pub struct Loaded {
    /// The parts decoded so far, in the order of their arrival.
    pub fields: Seq<FieldView>,
    /// Bytes of text that the pass may still take.
    pub text_budget: usize,
    /// Bytes of files that the pass may still take.
    pub file_budget: usize,
}

impl Loaded {
    /// The outcome of decoding one more part.
    ///
    /// The number of parts is checked first, then the headers, then the size
    /// of the body against the quota of its kind; text must be UTF-8.
    pub open spec fn take_part(self, max_parts: usize, part: RawPartView) -> Result<
        Loaded,
        MultipartError,
    > {
        let head = part.headers.head();
        let body = part.body();
        if self.fields.len() >= max_parts {
            Err(MultipartError::Payload(PayloadError::Overflow))
        } else if !part.headers.acceptable() {
            Err(MultipartError::Parse(ParseError::Header))
        } else if head.kind() == PartKind::Text {
            if body.len() > self.text_budget {
                Err(MultipartError::Payload(PayloadError::Overflow))
            } else if !valid_utf8(body) {
                Err(MultipartError::Parse(ParseError::Utf8))
            } else {
                Ok(
                    Loaded {
                        fields: self.fields.push(
                            FieldView::Text(TextView { name: head.name, text: decode_utf8(body) }),
                        ),
                        text_budget: (self.text_budget - body.len()) as usize,
                        file_budget: self.file_budget,
                    },
                )
            }
        } else {
            if body.len() > self.file_budget {
                Err(MultipartError::Payload(PayloadError::Overflow))
            } else {
                Ok(
                    Loaded {
                        fields: self.fields.push(
                            FieldView::File(
                                FileView {
                                    size: body.len() as usize,
                                    name: head.name,
                                    filename: head.filename,
                                    mime: head.media_type(),
                                },
                            ),
                        ),
                        text_budget: self.text_budget,
                        file_budget: (self.file_budget - body.len()) as usize,
                    },
                )
            }
        }
    }

    /// The outcome of decoding the parts from index `from` on, one after the
    /// other, stopping at the first failure.
    pub open spec fn take_parts(self, max_parts: usize, parts: Seq<RawPartView>, from: int) -> Result<
        Seq<FieldView>,
        MultipartError,
    >
        decreases parts.len() - from,
    {
        if from < 0 || from >= parts.len() {
            Ok(self.fields)
        } else {
            match self.take_part(max_parts, parts[from]) {
                Err(e) => Err(e),
                Ok(next) => next.take_parts(max_parts, parts, from + 1),
            }
        }
    }
}

/// What loading a body gives under the given quotas: its parts in the order
/// of their arrival, or the first failure.
pub open spec fn loaded(limits: LoadLimits, parts: Seq<RawPartView>) -> Result<
    Seq<FieldView>,
    MultipartError,
> {
    (Loaded {
        fields: Seq::empty(),
        text_budget: limits.text_limit,
        file_budget: limits.file_limit,
    }).take_parts(limits.max_parts, parts, 0)
}

impl Loader {
    /// Use to configure a [`Loader`].
    pub fn builder() -> (builder: Builder)
        ensures
            builder@ == default_limits(),
    {
        Builder {
            text_limit: DEFAULT_TEXT_LIMIT,
            file_limit: DEFAULT_FILE_LIMIT,
            max_parts: DEFAULT_MAX_PARTS,
        }
    }

    /// The quotas of the loader.
    pub fn limits(&self) -> (limits: LoadLimits)
        ensures
            limits == self@,
    {
        LoadLimits {
            text_limit: self.text_limit,
            file_limit: self.file_limit,
            max_parts: self.max_parts,
        }
    }

    /// The state machine of a pass under the quotas of the loader, for a
    /// caller that reads the body from a stream and keeps files in storage of
    /// type `S`.
    pub fn decoder<S>(&self) -> (decoder: Decoder<S>)
        ensures
            decoder@ == (DecoderView {
                text_budget: self@.text_limit,
                file_budget: self@.file_limit,
                max_parts: self@.max_parts,
                parts: Seq::empty(),
                phase: PhaseView::AwaitingPart,
            }),
            decoder.fields() == Seq::<Field<S>>::empty(),
    {
        Decoder::new(self.limits())
    }

    /// Loads the parts of a body that is held in memory. A file part keeps
    /// its body in a byte vector.
    ///
    /// returns: the parts in the order in which they were received.
    #[verifier::loop_isolation(false)]
    pub fn load_fields(self, parts: &Vec<RawPart>) -> (r: Result<
        Vec<Field<Vec<u8>>>,
        MultipartError,
    >)
        ensures
            match loaded(self@, raw_views(parts@)) {
                Ok(fields) => {
                    &&& r is Ok
                    &&& field_views(r->Ok_0@) == fields
                    &&& fields.len() == parts.len()
                    &&& forall|i: int|
                        0 <= i < parts.len() && #[trigger] r->Ok_0[i] is File ==> r->Ok_0[i]->File_0.file@
                            == parts[i]@.body()
                },
                Err(e) => r == Err::<Vec<Field<Vec<u8>>>, MultipartError>(e),
            },
    {
        let ghost all = raw_views(parts@);
        let ghost limits = self@;
        let mut decoder: Decoder<Vec<u8>> = self.decoder();
        let ghost mut state = Loaded {
            fields: Seq::empty(),
            text_budget: limits.text_limit,
            file_budget: limits.file_limit,
        };
        let mut i: usize = 0;
        while i < parts.len()
            invariant
                0 <= i <= parts.len(),
                all == raw_views(parts@),
                limits == self@,
                decoder@ == (DecoderView {
                    text_budget: state.text_budget,
                    file_budget: state.file_budget,
                    max_parts: limits.max_parts,
                    parts: state.fields,
                    phase: PhaseView::AwaitingPart,
                }),
                loaded(limits, all) == state.take_parts(limits.max_parts, all, i as int),
                decoder.fields().len() == i,
                state.fields.len() == i,
                forall|k: int|
                    0 <= k < i && #[trigger] decoder.fields()[k] is File
                        ==> decoder.fields()[k]->File_0.file@ == parts[k]@.body(),
            decreases parts.len() - i,
        {
            let part = &parts[i];
            let ghost raw = part@;
            assert(all[i as int] == raw);
            let ghost before = decoder;
            let (next, action) = decoder.step(Event::Part(part.headers.duplicate()));
            decoder = next;
            proof {
                decoder.lemma_view_parts();
                before.lemma_view_parts();
                assert(decoder.fields() =~= before.fields());
            }
            match action {
                Action::ReadChunk => {
                    let ghost head = raw.headers.head();
                    let ghost start = state.text_budget;
                    let mut j: usize = 0;
                    while j < part.chunks.len()
                        invariant
                            0 <= j <= part.chunks.len(),
                            raw == part@,
                            concat(raw.chunks.take(j as int)).len() <= start,
                            decoder@ == (DecoderView {
                                text_budget: (start - concat(raw.chunks.take(j as int)).len()) as usize,
                                file_budget: state.file_budget,
                                max_parts: limits.max_parts,
                                parts: state.fields,
                                phase: PhaseView::MaterializingText {
                                    name: head.name,
                                    buffer: concat(raw.chunks.take(j as int)),
                                },
                            }),
                            decoder.fields() == before.fields(),
                        decreases part.chunks.len() - j,
                    {
                        proof {
                            lemma_concat_step(raw.chunks, j as int);
                            lemma_concat_prefix_len(raw.chunks, j as int + 1);
                        }
                        let ghost inner = decoder;
                        let (next, action) = decoder.step(Event::Chunk(copy_chunk(&part.chunks[j])));
                        decoder = next;
                        proof {
                            decoder.lemma_view_parts();
                            inner.lemma_view_parts();
                            assert(decoder.fields() =~= inner.fields());
                        }
                        match action {
                            Action::ReadChunk => {},
                            _ => {
                                assert(raw.body().len() > start);
                                return decoder.finish();
                            },
                        }
                        j = j + 1;
                    }
                    assert(raw.chunks.take(j as int) == raw.chunks);
                    let (next, action) = decoder.step(Event::BodyEnd);
                    decoder = next;
                    match action {
                        Action::ReadPart => {},
                        _ => {
                            return decoder.finish();
                        },
                    }
                    proof {
                        state = state.take_part(limits.max_parts, raw)->Ok_0;
                        decoder.lemma_view_parts();
                        let emitted = decoder.fields();
                        assert(field_views(emitted)[i as int] == emitted[i as int]@);
                        assert forall|k: int|
                            0 <= k < i + 1 && #[trigger] emitted[k] is File implies emitted[k]->File_0.file@
                            == parts[k]@.body() by {
                            assert(emitted[k] == before.fields()[k]);
                        }
                    }
                },
                Action::OpenStorage => {
                    let ghost head = raw.headers.head();
                    let ghost start = state.file_budget;
                    let mut storage: Vec<u8> = Vec::new();
                    let mut j: usize = 0;
                    while j < part.chunks.len()
                        invariant
                            0 <= j <= part.chunks.len(),
                            raw == part@,
                            concat(raw.chunks.take(j as int)).len() <= start,
                            storage@ == concat(raw.chunks.take(j as int)),
                            decoder@ == (DecoderView {
                                text_budget: state.text_budget,
                                file_budget: (start - concat(raw.chunks.take(j as int)).len()) as usize,
                                max_parts: limits.max_parts,
                                parts: state.fields,
                                phase: PhaseView::MaterializingFile {
                                    name: head.name,
                                    filename: head.filename,
                                    mime: head.media_type(),
                                    written: concat(raw.chunks.take(j as int)).len() as usize,
                                },
                            }),
                            decoder.fields() == before.fields(),
                        decreases part.chunks.len() - j,
                    {
                        proof {
                            lemma_concat_step(raw.chunks, j as int);
                            lemma_concat_prefix_len(raw.chunks, j as int + 1);
                        }
                        let ghost inner = decoder;
                        let (next, action) = decoder.step(Event::Chunk(copy_chunk(&part.chunks[j])));
                        decoder = next;
                        proof {
                            decoder.lemma_view_parts();
                            inner.lemma_view_parts();
                            assert(decoder.fields() =~= inner.fields());
                        }
                        match action {
                            Action::Write(bytes) => {
                                append_chunk(&mut storage, &bytes);
                            },
                            _ => {
                                assert(raw.body().len() > start);
                                return decoder.finish();
                            },
                        }
                        j = j + 1;
                    }
                    assert(raw.chunks.take(j as int) == raw.chunks);
                    let (next, action) = decoder.step(Event::Stored(storage));
                    decoder = next;
                    match action {
                        Action::ReadPart => {},
                        _ => {
                            return decoder.finish();
                        },
                    }
                    proof {
                        state = state.take_part(limits.max_parts, raw)->Ok_0;
                        decoder.lemma_view_parts();
                        let emitted = decoder.fields();
                        assert forall|k: int|
                            0 <= k < i + 1 && #[trigger] emitted[k] is File implies emitted[k]->File_0.file@
                            == parts[k]@.body() by {
                            if k < i {
                                assert(emitted[k] == before.fields()[k]);
                            }
                        }
                    }
                },
                _ => {
                    return decoder.finish();
                },
            }
            i = i + 1;
        }
        let ghost before = decoder;
        let (next, _) = decoder.step(Event::End);
        proof {
            next.lemma_view_parts();
            before.lemma_view_parts();
            assert(next.fields() =~= before.fields());
        }
        next.finish()
    }
}

} // verus!
