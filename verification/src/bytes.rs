//! Reads a field into memory.

use vstd::prelude::*;
use crate::error::{Error, ErrorView, MultipartError, PayloadError};
use crate::limits::Limits;
use crate::media::{MediaType, MediaTypeView};
use crate::part::{PartHead, PartHeadView};
use crate::reader::{FieldReader, ReaderConfig};
use crate::text_util::{
    append_chunk, chunk_views, concat, lemma_concat_prefix_len, lemma_concat_step, opt_chars,
};

verus! {

/// Read the field into memory.
#[derive(Debug)]
pub struct Bytes {
    /// The data.
    pub data: Vec<u8>,
    /// The value of the `content-type` header.
    pub content_type: Option<MediaType>,
    /// The `filename` value in the `content-disposition` header.
    pub file_name: Option<String>,
}

/// The bytes and characters of a [`Bytes`].
pub struct BytesView {
    pub data: Seq<u8>,
    pub content_type: Option<MediaTypeView>,
    pub file_name: Option<Seq<char>>,
}

impl View for Bytes {
    type V = BytesView;

    open spec fn view(&self) -> BytesView {
        BytesView {
            data: self.data@,
            content_type: match self.content_type {
                Some(m) => Some(m@),
                None => None,
            },
            file_name: opt_chars(self.file_name),
        }
    }
}

/// Takes one chunk of a body: charges it against the quotas and appends it
/// to the buffer, or leaves both as they are and fails. The chunk counts
/// against the memory quota if `in_memory`.
pub fn push_chunk(buffer: &mut Vec<u8>, chunk: &Vec<u8>, limits: &mut Limits, in_memory: bool) -> (r:
    Result<(), Error>)
    ensures
        old(limits).admits(chunk@.len(), in_memory) ==> {
            &&& r is Ok
            &&& final(buffer)@ == old(buffer)@ + chunk@
            &&& *final(limits) == old(limits).charged(chunk@.len(), in_memory)
        },
        !old(limits).admits(chunk@.len(), in_memory) ==> {
            &&& r is Err
            &&& r->Err_0@ == ErrorView::Multipart(MultipartError::Payload(PayloadError::Overflow))
            &&& final(buffer)@ == old(buffer)@
            &&& *final(limits) == *old(limits)
        },
{
    match limits.try_consume_limits(chunk.len(), in_memory) {
        Ok(()) => {
            append_chunk(buffer, chunk);
            Ok(())
        },
        Err(e) => Err(e),
    }
}

/// Charging a body in two steps comes to charging it at once.
pub proof fn lemma_charged_twice(limits: Limits, first: nat, second: nat, in_memory: bool)
    requires
        limits.admits(first, in_memory),
    ensures
        limits.charged(first, in_memory).admits(second, in_memory) <==> limits.admits(
            first + second,
            in_memory,
        ),
        limits.admits(first + second, in_memory) ==> limits.charged(first, in_memory).charged(
            second,
            in_memory,
        ) == limits.charged(first + second, in_memory),
        limits.charged(first, in_memory).within(limits),
{
}

/// Reads the chunks of a body under the quotas. The body counts against the
/// memory quota if `in_memory`.
///
/// The body is read if and only if it fits every quota that counts, however
/// it is cut into chunks; the quotas are then charged with its length. Where
/// it does not fit, the pass fails, and the quotas are charged with the
/// chunks before the first that does not fit.
#[verifier::loop_isolation(false)]
pub fn read_body(chunks: &Vec<Vec<u8>>, limits: &mut Limits, in_memory: bool) -> (r: Result<
    Vec<u8>,
    Error,
>)
    ensures
        final(limits).within(*old(limits)),
        *final(limits) == old(limits).charged_chunks(chunk_views(chunks@), 0, in_memory),
        old(limits).admits(concat(chunk_views(chunks@)).len(), in_memory) ==> {
            &&& r is Ok
            &&& r->Ok_0@ == concat(chunk_views(chunks@))
            &&& *final(limits) == old(limits).charged(
                concat(chunk_views(chunks@)).len(),
                in_memory,
            )
        },
        !old(limits).admits(concat(chunk_views(chunks@)).len(), in_memory) ==> {
            &&& r is Err
            &&& r->Err_0@ == ErrorView::Multipart(MultipartError::Payload(PayloadError::Overflow))
        },
{
    let ghost all = chunk_views(chunks@);
    let ghost start = *limits;
    let mut data: Vec<u8> = Vec::new();
    let mut i: usize = 0;
    assert(concat(all.take(0)) =~= Seq::<u8>::empty());
    while i < chunks.len()
        invariant
            0 <= i <= chunks.len(),
            data@ == concat(all.take(i as int)),
            start.admits(data@.len(), in_memory),
            *limits == start.charged(data@.len(), in_memory),
            start.charged_chunks(all, 0, in_memory) == limits.charged_chunks(
                all,
                i as int,
                in_memory,
            ),
        decreases chunks.len() - i,
    {
        proof {
            lemma_concat_step(all, i as int);
            lemma_concat_prefix_len(all, i as int + 1);
            lemma_charged_twice(start, data@.len(), all[i as int].len(), in_memory);
        }
        match push_chunk(&mut data, &chunks[i], limits, in_memory) {
            Ok(()) => {},
            Err(e) => {
                return Err(e);
            },
        }
        i = i + 1;
    }
    assert(all.take(i as int) == all);
    Ok(data)
}

/// What reading a part into memory gives where its body fits the quotas.
pub open spec fn bytes_of(head: PartHeadView, body: Seq<u8>) -> BytesView {
    BytesView { data: body, content_type: head.content_type, file_name: head.filename }
}

impl Bytes {
    /// The value of a field from a body that was read into memory.
    pub fn from_body(head: PartHead, data: Vec<u8>) -> (bytes: Self)
        ensures
            bytes@ == bytes_of(head@, data@),
    {
        Bytes { data, content_type: head.content_type, file_name: head.filename }
    }
}

impl FieldReader for Bytes {
    /// The body is charged chunk by chunk, up to the first chunk that does
    /// not fit. It is read if and only if it fits the quotas as a whole, and
    /// is then kept with what the part declares.
    open spec fn reads(
        config: &ReaderConfig,
        head: PartHead,
        chunks: &Vec<Vec<u8>>,
        before: Limits,
        after: Limits,
        r: Result<Self, Error>,
    ) -> bool {
        let body = concat(chunk_views(chunks@));
        &&& after == before.charged_chunks(chunk_views(chunks@), 0, true)
        &&& before.admits(body.len(), true) ==> {
            &&& r is Ok
            &&& r->Ok_0@ == bytes_of(head@, body)
            &&& after == before.charged(body.len(), true)
        }
        &&& !before.admits(body.len(), true) ==> {
            &&& r is Err
            &&& r->Err_0@ == ErrorView::Multipart(MultipartError::Payload(PayloadError::Overflow))
        }
    }

    /// Reads a part into memory, whatever media type it declares.
    fn read_field(
        config: &ReaderConfig,
        head: PartHead,
        chunks: &Vec<Vec<u8>>,
        limits: &mut Limits,
    ) -> (r: Result<Self, Error>) {
        match read_body(chunks, limits, true) {
            Ok(data) => Ok(Bytes::from_body(head, data)),
            Err(e) => Err(e),
        }
    }
}

} // verus!
