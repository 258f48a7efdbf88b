//! The budget tracker: the byte quotas that are left in a decode pass.

use vstd::prelude::*;
use crate::error::{Error, MultipartError, PayloadError};

verus! {

/// The quotas that remain for the form and for the field being read.
pub struct Limits {
    /// Bytes that the whole form may still take.
    pub total_limit_remaining: usize,
    /// Bytes that may still be held in memory.
    pub memory_limit_remaining: usize,
    /// Bytes that the field being read may still take, where it has a limit.
    pub field_limit_remaining: Option<usize>,
}

impl Limits {
    /// Whether `bytes` more bytes fit under every counter that they count against.
    pub open spec fn admits(self, bytes: nat, in_memory: bool) -> bool {
        &&& bytes <= self.total_limit_remaining
        &&& in_memory ==> bytes <= self.memory_limit_remaining
        &&& self.field_limit_remaining matches Some(field) ==> bytes <= field
    }

    /// The quotas after `bytes` bytes have been charged.
    pub open spec fn charged(self, bytes: nat, in_memory: bool) -> Limits
        recommends
            self.admits(bytes, in_memory),
    {
        Limits {
            total_limit_remaining: (self.total_limit_remaining - bytes) as usize,
            memory_limit_remaining: if in_memory {
                (self.memory_limit_remaining - bytes) as usize
            } else {
                self.memory_limit_remaining
            },
            field_limit_remaining: match self.field_limit_remaining {
                Some(field) => Some((field - bytes) as usize),
                None => None,
            },
        }
    }

    /// The quotas after the chunks from index `from` on have been charged one
    /// after the other, up to the first that does not fit.
    pub open spec fn charged_chunks(self, chunks: Seq<Seq<u8>>, from: int, in_memory: bool) -> Limits
        decreases chunks.len() - from,
    {
        if from < 0 || from >= chunks.len() {
            self
        } else if self.admits(chunks[from].len(), in_memory) {
            self.charged(chunks[from].len(), in_memory).charged_chunks(chunks, from + 1, in_memory)
        } else {
            self
        }
    }

    /// No counter of `self` is above the same counter of `before`, and a field
    /// limit is bound in the one exactly if it is in the other.
    pub open spec fn within(self, before: Limits) -> bool {
        &&& self.total_limit_remaining <= before.total_limit_remaining
        &&& self.memory_limit_remaining <= before.memory_limit_remaining
        &&& match (self.field_limit_remaining, before.field_limit_remaining) {
            (Some(now), Some(then)) => now <= then,
            (None, None) => true,
            _ => false,
        }
    }

    pub fn new(total_limit: usize, memory_limit: usize) -> (limits: Self)
        ensures
            limits.total_limit_remaining == total_limit,
            limits.memory_limit_remaining == memory_limit,
            limits.field_limit_remaining is None,
    {
        Self {
            total_limit_remaining: total_limit,
            memory_limit_remaining: memory_limit,
            field_limit_remaining: None,
        }
    }

    /// Charges `bytes` bytes of a chunk: against the total always, against the
    /// memory quota if `in_memory`, against the field limit if one is bound.
    /// Either every counter that counts is lowered, or none is and the pass
    /// has failed.
    pub fn try_consume_limits(&mut self, bytes: usize, in_memory: bool) -> (r: Result<(), Error>)
        ensures
            old(self).admits(bytes as nat, in_memory) ==> r is Ok && *final(self) == old(
                self,
            ).charged(bytes as nat, in_memory),
            !old(self).admits(bytes as nat, in_memory) ==> r == Err::<(), Error>(
                Error::Multipart(MultipartError::Payload(PayloadError::Overflow)),
            ) && *final(self) == *old(self),
    {
        if bytes > self.total_limit_remaining {
            return Err(Error::Multipart(MultipartError::Payload(PayloadError::Overflow)));
        }
        if in_memory && bytes > self.memory_limit_remaining {
            return Err(Error::Multipart(MultipartError::Payload(PayloadError::Overflow)));
        }
        if let Some(field) = self.field_limit_remaining {
            if bytes > field {
                return Err(Error::Multipart(MultipartError::Payload(PayloadError::Overflow)));
            }
            self.field_limit_remaining = Some(field - bytes);
        }
        self.total_limit_remaining = self.total_limit_remaining - bytes;
        if in_memory {
            self.memory_limit_remaining = self.memory_limit_remaining - bytes;
        }
        Ok(())
    }
}

} // verus!
