//! Readers: the decoders that turn the body of one part into the value of a
//! field.

use vstd::prelude::*;
use crate::error::Error;
use crate::json::JsonConfig;
use crate::limits::Limits;
use crate::part::PartHead;
use crate::text::TextConfig;

verus! {

/// The configuration of the readers of this crate.
#[derive(Clone, Copy)]
pub struct ReaderConfig {
    pub text: TextConfig,
    pub json: JsonConfig,
}

impl Default for ReaderConfig {
    fn default() -> (config: Self)
        ensures
            config.text.validates(),
            config.json.validates(),
    {
        ReaderConfig { text: TextConfig::default(), json: JsonConfig::default() }
    }
}

/// Trait that data types to be used in a multipart form should implement.
///
/// It represents a handler that processes one part to produce `Self`.
pub trait FieldReader: Sized {
    /// What the reader makes of a part: whether, given the quotas `before`,
    /// reading the part can give `r` and leave the quotas `after`.
    spec fn reads(
        config: &ReaderConfig,
        head: PartHead,
        chunks: &Vec<Vec<u8>>,
        before: Limits,
        after: Limits,
        r: Result<Self, Error>,
    ) -> bool;

    /// The form will call this function to handle the field.
    ///
    /// A reader charges every byte that it takes against the quotas, and
    /// never raises a quota.
    fn read_field(
        config: &ReaderConfig,
        head: PartHead,
        chunks: &Vec<Vec<u8>>,
        limits: &mut Limits,
    ) -> (r: Result<Self, Error>)
        ensures
            final(limits).within(*old(limits)),
            Self::reads(config, head, chunks, *old(limits), *final(limits), r),
    ;
}

} // verus!
