//! Small helpers on strings and byte vectors.

use vstd::prelude::*;
use vstd::string::StringSliceAdditionalSpecFns;
use vstd::utf8::{decode_utf8, encode_utf8_decode_utf8, valid_utf8};

verus! {

/// `core::str::Utf8Error`, declared as a type whose values are carried
/// through and never looked into.
#[verifier::external_type_specification]
#[verifier::external_body]
pub struct ExUtf8Error(core::str::Utf8Error);

/// `core::str::from_utf8`. Trusted: the call succeeds exactly on well-formed
/// UTF-8, and the string slice it then returns has the given bytes.
#[verifier::external_body]
fn str_from_utf8(bytes: &[u8]) -> (r: Result<&str, core::str::Utf8Error>)
    ensures
        r is Ok <==> valid_utf8(bytes@),
        r matches Ok(s) ==> s.spec_bytes() == bytes@,
{
    core::str::from_utf8(bytes)
}

/// Decodes a body as UTF-8 text.
pub fn text_from_utf8(bytes: &[u8]) -> (r: Result<String, core::str::Utf8Error>)
    ensures
        r is Ok <==> valid_utf8(bytes@),
        r matches Ok(s) ==> s@ == decode_utf8(bytes@),
{
    match str_from_utf8(bytes) {
        Ok(s) => {
            proof {
                encode_utf8_decode_utf8(s@);
            }
            Ok(s.to_owned())
        },
        Err(e) => Err(e),
    }
}

/// Whether two strings hold the same characters.
pub fn str_eq(a: &str, b: &str) -> (same: bool)
    ensures
        same == (a@ == b@),
{
    let left = a.to_owned();
    let right = b.to_owned();
    left == right
}

/// The characters of a string that may be absent.
pub open spec fn opt_chars(s: Option<String>) -> Option<Seq<char>> {
    match s {
        Some(s) => Some(s@),
        None => None,
    }
}

/// The chunks of a body, one after the other.
pub open spec fn concat(chunks: Seq<Seq<u8>>) -> Seq<u8>
    decreases chunks.len(),
{
    if chunks.len() == 0 {
        Seq::empty()
    } else {
        concat(chunks.drop_last()) + chunks.last()
    }
}

/// The byte sequences that a list of chunks holds.
pub open spec fn chunk_views(chunks: Seq<Vec<u8>>) -> Seq<Seq<u8>> {
    chunks.map_values(|chunk: Vec<u8>| chunk@)
}

/// The first `n + 1` chunks together are the first `n` chunks and then the
/// chunk at `n`.
pub proof fn lemma_concat_step(chunks: Seq<Seq<u8>>, n: int)
    requires
        0 <= n < chunks.len(),
    ensures
        concat(chunks.take(n + 1)) == concat(chunks.take(n)) + chunks[n],
{
    assert(chunks.take(n + 1).drop_last() == chunks.take(n));
}

/// A body is at least as long as what its first `n` chunks hold.
pub proof fn lemma_concat_prefix_len(chunks: Seq<Seq<u8>>, n: int)
    requires
        0 <= n <= chunks.len(),
    ensures
        concat(chunks.take(n)).len() <= concat(chunks).len(),
    decreases chunks.len() - n,
{
    if n == chunks.len() {
        assert(chunks.take(n) == chunks);
    } else {
        lemma_concat_step(chunks, n);
        lemma_concat_prefix_len(chunks, n + 1);
    }
}

/// A copy of `chunk`.
pub fn copy_chunk(chunk: &Vec<u8>) -> (copy: Vec<u8>)
    ensures
        copy@ == chunk@,
{
    let mut copy = Vec::new();
    append_chunk(&mut copy, chunk);
    copy
}

/// Appends a copy of `chunk` to `buffer`.
pub fn append_chunk(buffer: &mut Vec<u8>, chunk: &Vec<u8>)
    ensures
        final(buffer)@ == old(buffer)@ + chunk@,
{
    buffer.extend_from_slice(chunk.as_slice());
}

} // verus!
