//! Multipart data extractor: loads the parts of a body under the quotas of a
//! configuration and converts them into a form.

use vstd::prelude::*;
use vstd::std_specs::convert::TryFromSpec;
use crate::deserialize;
use crate::error::MultipartError;
use crate::grouped::{groups_loaded, GroupedFields};
use crate::load::{
    default_limits, LoadLimits, Loader, DEFAULT_FILE_LIMIT, DEFAULT_MAX_PARTS, DEFAULT_TEXT_LIMIT,
};
use crate::load::loaded;
use crate::part::{raw_views, Field, RawPart};

verus! {

/// Multipart form extractor (`multipart/form-data`).
///
/// Holds a form that was extracted from the parts of a request body.
#[derive(Debug)]
pub struct MultipartForm<T>(pub T);

impl<T> MultipartForm<T> {
    pub fn into_inner(self) -> (inner: T)
        ensures
            inner == self.0,
    {
        self.0
    }

    /// The form.
    pub fn get_ref(&self) -> (inner: &T)
        ensures
            *inner == self.0,
    {
        &self.0
    }
}

/// Configure the behaviour of the [`MultipartForm`] extractor.
#[derive(Clone, Copy)]
pub struct MultipartFormConfig {
    text_limit: usize,
    file_limit: usize,
    max_parts: usize,
}

impl View for MultipartFormConfig {
    type V = LoadLimits;

    closed spec fn view(&self) -> LoadLimits {
        LoadLimits {
            text_limit: self.text_limit,
            file_limit: self.file_limit,
            max_parts: self.max_parts,
        }
    }
}

impl MultipartFormConfig {
    /// Change maximum allowed bytes of text in the form.
    pub fn text_limit(self, limit: usize) -> (config: Self)
        ensures
            config@ == (LoadLimits { text_limit: limit, ..self@ }),
    {
        let mut config = self;
        config.text_limit = limit;
        config
    }

    /// Change maximum allowed bytes for all files in the form.
    pub fn file_limit(self, limit: usize) -> (config: Self)
        ensures
            config@ == (LoadLimits { file_limit: limit, ..self@ }),
    {
        let mut config = self;
        config.file_limit = limit;
        config
    }

    /// Change maximum allowed parts in the form.
    pub fn max_parts(self, max: usize) -> (config: Self)
        ensures
            config@ == (LoadLimits { max_parts: max, ..self@ }),
    {
        let mut config = self;
        config.max_parts = max;
        config
    }

    /// The loader that the extractor uses under this configuration.
    pub fn loader(&self) -> (loader: Loader)
        ensures
            loader@ == self@,
    {
        Loader::builder().max_parts(self.max_parts).file_limit(self.file_limit).text_limit(
            self.text_limit,
        ).build()
    }
}

impl Default for MultipartFormConfig {
    fn default() -> (config: Self)
        ensures
            config@ == default_limits(),
    {
        Self {
            text_limit: DEFAULT_TEXT_LIMIT,
            file_limit: DEFAULT_FILE_LIMIT,
            max_parts: DEFAULT_MAX_PARTS,
        }
    }
}

/// Why a form could not be extracted.
#[derive(Debug)]
pub enum MultipartFormError {
    /// The body could not be loaded.
    Multipart(MultipartError),
    /// The parts could not be converted into the form.
    Deserialization(deserialize::Error),
}

impl MultipartFormError {
    /// The HTTP status that the failure maps to: that of its cause.
    pub fn status_code(&self) -> (code: u16)
        ensures
            code == 400,
    {
        match self {
            MultipartFormError::Multipart(m) => m.status_code(),
            MultipartFormError::Deserialization(d) => d.status_code(),
        }
    }
}

/// Makes a form of the outcome of loading a body: a body that was loaded is
/// converted, and the failure of either step is handed on under its kind.
pub fn extract<T, S>(loaded: Result<GroupedFields<S>, MultipartError>) -> (r: Result<
    MultipartForm<T>,
    MultipartFormError,
>) where T: TryFrom<GroupedFields<S>, Error = deserialize::Error>
    ensures
        match loaded {
            Ok(item) => T::obeys_try_from_spec() ==> match T::try_from_spec(item) {
                Ok(form) => r is Ok && r->Ok_0.0 == form,
                Err(e) => r is Err && r->Err_0 == MultipartFormError::Deserialization(e),
            },
            Err(e) => r is Err && r->Err_0 == MultipartFormError::Multipart(e),
        },
        loaded is Ok ==> !(r matches Err(MultipartFormError::Multipart(_))),
{
    match loaded {
        Ok(item) => match T::try_from(item) {
            Ok(form) => Ok(MultipartForm(form)),
            Err(e) => Err(MultipartFormError::Deserialization(e)),
        },
        Err(e) => Err(MultipartFormError::Multipart(e)),
    }
}

impl MultipartFormConfig {
    /// Extracts a form from a body that is held in memory: loads its parts
    /// under the quotas of the configuration, groups them by name, and
    /// converts them.
    ///
    /// A body that cannot be loaded fails with the failure of the load. The
    /// parts of a body that was loaded are handed to the conversion of the
    /// form, grouped by name, each file with the body of its part; what the
    /// conversion gives is what is returned.
    pub fn extract<T>(&self, parts: &Vec<RawPart>) -> (r: Result<
        MultipartForm<T>,
        MultipartFormError,
    >) where T: TryFrom<GroupedFields<Vec<u8>>, Error = deserialize::Error>
        ensures
            match loaded(self@, raw_views(parts@)) {
                Ok(fields) => {
                    &&& !(r matches Err(MultipartFormError::Multipart(_)))
                    &&& exists|item: GroupedFields<Vec<u8>>, emitted: Seq<Field<Vec<u8>>>|
                        {
                            &&& #[trigger] groups_loaded(item, emitted, fields, parts@)
                            &&& T::obeys_try_from_spec() ==> match T::try_from_spec(item) {
                                Ok(form) => r is Ok && r->Ok_0.0 == form,
                                Err(e) => r is Err && r->Err_0
                                    == MultipartFormError::Deserialization(e),
                            }
                        }
                },
                Err(e) => r is Err && r->Err_0 == MultipartFormError::Multipart(e),
            },
    {
        let loaded_parts = self.loader().load_grouped(parts);
        proof {
            if loaded_parts is Ok {
                let fields = loaded(self@, raw_views(parts@))->Ok_0;
                let emitted = choose|emitted: Seq<Field<Vec<u8>>>| #[trigger]
                    groups_loaded(loaded_parts->Ok_0, emitted, fields, parts@);
                assert(groups_loaded(loaded_parts->Ok_0, emitted, fields, parts@));
            }
        }
        extract::<T, Vec<u8>>(loaded_parts)
    }
}

} // verus!
