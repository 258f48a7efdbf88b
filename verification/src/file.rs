//! Streams a field to storage.

use vstd::prelude::*;
use crate::bytes::read_body;
use crate::error::{Error, ErrorView, MultipartError, PayloadError};
use crate::limits::Limits;
use crate::part::{File, FileView, PartHead, PartHeadView};
use crate::reader::{FieldReader, ReaderConfig};
use crate::text_util::{chunk_views, concat};

verus! {

/// What streaming a part of `size` bytes to storage gives, without the
/// storage.
pub open spec fn file_of(head: PartHeadView, size: usize) -> FileView {
    FileView { size, name: head.name, filename: head.filename, mime: head.media_type() }
}

impl<S> File<S> {
    /// The value of a field from the storage that the body of its part was
    /// written to, and the number of bytes written.
    pub fn from_storage(head: PartHead, file: S, size: usize) -> (r: Self)
        ensures
            r@ == file_of(head@, size),
            r.file == file,
    {
        let PartHead { name, filename, content_type } = head;
        let ghost declared = head@;
        let mime = (PartHead { name: String::new(), filename: None, content_type }).media_type();
        assert(mime@ == declared.media_type());
        File { file, size, name, filename, mime }
    }
}

impl FieldReader for File<Vec<u8>> {
    /// The body is charged chunk by chunk, without the memory quota, up to
    /// the first chunk that does not fit. It is stored if and only if it
    /// fits the quotas as a whole.
    open spec fn reads(
        config: &ReaderConfig,
        head: PartHead,
        chunks: &Vec<Vec<u8>>,
        before: Limits,
        after: Limits,
        r: Result<Self, Error>,
    ) -> bool {
        let body = concat(chunk_views(chunks@));
        &&& after == before.charged_chunks(chunk_views(chunks@), 0, false)
        &&& before.admits(body.len(), false) ==> {
            &&& r is Ok
            &&& r->Ok_0@ == file_of(head@, body.len() as usize)
            &&& r->Ok_0.file@ == body
            &&& after == before.charged(body.len(), false)
        }
        &&& !before.admits(body.len(), false) ==> {
            &&& r is Err
            &&& r->Err_0@ == ErrorView::Multipart(MultipartError::Payload(PayloadError::Overflow))
        }
    }

    /// Reads a part into a byte vector that stands for storage: the body
    /// counts against the total quota and the limit of the field, and not
    /// against the memory quota.
    fn read_field(
        config: &ReaderConfig,
        head: PartHead,
        chunks: &Vec<Vec<u8>>,
        limits: &mut Limits,
    ) -> (r: Result<Self, Error>) {
        match read_body(chunks, limits, false) {
            Ok(data) => {
                let size = data.len();
                Ok(File::from_storage(head, data, size))
            },
            Err(e) => Err(e),
        }
    }
}

} // verus!
