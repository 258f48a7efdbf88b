//! Typed decoding of `multipart/form-data` bodies under byte budgets.
//!
//! The crate holds the decisions of a multipart decoder: how bytes are charged
//! against quotas, how a part is classified from its headers, how repeated
//! names are reconciled with the shape of the field they address, and how the
//! collected values are assembled into a result. Reading from a connection and
//! writing to temporary storage are left to the caller, who drives the state
//! machines of this crate chunk by chunk.

pub mod assembler;
pub mod bytes;
pub mod deserialize;
pub mod error;
pub mod extractor;
pub mod file;
pub mod form;
pub mod group;
pub mod grouped;
pub mod json;
pub mod laws;
pub mod limits;
pub mod load;
pub mod media;
pub mod number;
pub mod part;
pub mod reader;
pub mod schema;
pub mod text;
pub mod text_util;
pub mod validated;

pub use assembler::MultipartFormTrait;
pub use error::Error;
pub use form::{MultipartForm, MultipartFormConfig};
pub use group::State;
pub use schema::DuplicateAction;
