//! Validated multipart data extractor: a form that was extracted from the
//! parts of a request body and then held against its validation rules.

use vstd::prelude::*;
use vstd::std_specs::convert::TryFromSpec;
use crate::deserialize;
use crate::error::MultipartError;
use crate::grouped::GroupedFields;
use crate::load::{
    LoadLimits, Loader, DEFAULT_FILE_LIMIT, DEFAULT_MAX_PARTS, DEFAULT_TEXT_LIMIT,
};

verus! {

/// `validator::ValidationErrors`, declared as a type whose values are
/// carried through and never looked into.
#[verifier::external_type_specification]
#[verifier::external_body]
pub struct ExValidationErrors(validator::ValidationErrors);

/// Validated multipart data extractor (`multipart/form-data`).
///
/// Holds a form that was extracted from the parts of a request body and met
/// its validation rules.
#[derive(Debug)]
pub struct MultipartForm<T>(pub T);

impl<T> MultipartForm<T> {
    pub fn into_inner(self) -> (inner: T)
        ensures
            inner == self.0,
    {
        self.0
    }
}

/// The quotas of a [`MultipartFormConfig`].
#[derive(Debug, Clone, Copy, PartialEq, Eq, Structural)]
pub struct ValidatedLimits {
    pub text_limit: usize,
    pub file_limit: u64,
    pub max_parts: usize,
}

/// Configure the behaviour of the [`MultipartForm`] extractor.
#[derive(Clone, Copy)]
pub struct MultipartFormConfig {
    text_limit: usize,
    file_limit: u64,
    max_parts: usize,
}

impl View for MultipartFormConfig {
    type V = ValidatedLimits;

    closed spec fn view(&self) -> ValidatedLimits {
        ValidatedLimits {
            text_limit: self.text_limit,
            file_limit: self.file_limit,
            max_parts: self.max_parts,
        }
    }
}

/// The bytes of files that a loader on this machine allows for a limit of
/// `limit` bytes: the limit, or as many as the machine can count.
pub open spec fn countable(limit: u64) -> usize {
    if limit <= usize::MAX {
        limit as usize
    } else {
        usize::MAX
    }
}

impl MultipartFormConfig {
    /// Change max number bytes of text in the multipart. Defaults to [`DEFAULT_TEXT_LIMIT`].
    pub fn text_limit(self, limit: usize) -> (config: Self)
        ensures
            config@ == (ValidatedLimits { text_limit: limit, ..self@ }),
    {
        let mut config = self;
        config.text_limit = limit;
        config
    }

    /// Change max number of bytes for all files in the multipart.
    /// Defaults to [`DEFAULT_FILE_LIMIT`].
    pub fn file_limit(self, limit: u64) -> (config: Self)
        ensures
            config@ == (ValidatedLimits { file_limit: limit, ..self@ }),
    {
        let mut config = self;
        config.file_limit = limit;
        config
    }

    /// Change max number of parts in the form. Defaults to [`DEFAULT_MAX_PARTS`].
    pub fn max_parts(self, max: usize) -> (config: Self)
        ensures
            config@ == (ValidatedLimits { max_parts: max, ..self@ }),
    {
        let mut config = self;
        config.max_parts = max;
        config
    }

    /// The loader that the extractor uses under this configuration.
    pub fn loader(&self) -> (loader: Loader)
        ensures
            loader@ == (LoadLimits {
                text_limit: self@.text_limit,
                file_limit: countable(self@.file_limit),
                max_parts: self@.max_parts,
            }),
    {
        let file_limit: usize = if self.file_limit <= usize::MAX as u64 {
            self.file_limit as usize
        } else {
            usize::MAX
        };
        Loader::builder().max_parts(self.max_parts).file_limit(file_limit).text_limit(
            self.text_limit,
        ).build()
    }
}

impl Default for MultipartFormConfig {
    fn default() -> (config: Self)
        ensures
            config@ == (ValidatedLimits {
                text_limit: DEFAULT_TEXT_LIMIT,
                file_limit: DEFAULT_FILE_LIMIT as u64,
                max_parts: DEFAULT_MAX_PARTS,
            }),
    {
        Self {
            text_limit: DEFAULT_TEXT_LIMIT,
            file_limit: DEFAULT_FILE_LIMIT as u64,
            max_parts: DEFAULT_MAX_PARTS,
        }
    }
}

/// Why a validated form could not be extracted.
#[derive(Debug)]
pub enum MultipartFormError {
    /// The body could not be loaded.
    Multipart(MultipartError),
    /// The parts could not be converted into the form.
    Deserialization(deserialize::Error),
    /// The form does not meet its validation rules.
    Validation(validator::ValidationErrors),
}

impl MultipartFormError {
    /// The HTTP status that the failure maps to: that of its cause, and "bad
    /// request" for a form that is not valid.
    pub fn status_code(&self) -> (code: u16)
        ensures
            code == 400,
    {
        match self {
            MultipartFormError::Multipart(m) => m.status_code(),
            MultipartFormError::Deserialization(d) => d.status_code(),
            MultipartFormError::Validation(_) => 400,
        }
    }
}

/// Makes a form of the outcome of loading a body: a body that was loaded is
/// converted, and the failure of either step is handed on under its kind.
/// The form is not yet validated.
pub fn convert<T, S>(loaded: Result<GroupedFields<S>, MultipartError>) -> (r: Result<
    T,
    MultipartFormError,
>) where T: TryFrom<GroupedFields<S>, Error = deserialize::Error>
    ensures
        match loaded {
            Ok(item) => T::obeys_try_from_spec() ==> match T::try_from_spec(item) {
                Ok(form) => r is Ok && r->Ok_0 == form,
                Err(e) => r is Err && r->Err_0 == MultipartFormError::Deserialization(e),
            },
            Err(e) => r is Err && r->Err_0 == MultipartFormError::Multipart(e),
        },
        loaded is Ok ==> !(r matches Err(MultipartFormError::Multipart(_))),
        !(r matches Err(MultipartFormError::Validation(_))),
{
    match loaded {
        Ok(item) => match T::try_from(item) {
            Ok(form) => Ok(form),
            Err(e) => Err(MultipartFormError::Deserialization(e)),
        },
        Err(e) => Err(MultipartFormError::Multipart(e)),
    }
}

/// Makes a validated form of a form and of what its validation rules said of
/// it.
pub fn validated<T>(form: T, outcome: Result<(), validator::ValidationErrors>) -> (r: Result<
    MultipartForm<T>,
    MultipartFormError,
>)
    ensures
        match outcome {
            Ok(()) => r is Ok && r->Ok_0.0 == form,
            Err(e) => r is Err && r->Err_0 == MultipartFormError::Validation(e),
        },
{
    match outcome {
        Ok(()) => Ok(MultipartForm(form)),
        Err(e) => Err(MultipartFormError::Validation(e)),
    }
}

} // verus!
