//! A layered configuration resolver.
//!
//! Several sources are decoded into ordered tables and merged into the
//! defaults of a [`Config`]; an override document and a snapshot of
//! environment variables are then applied to the keys that the defaults
//! define, and values set at run time are tracked apart so that only the
//! changes are saved.
use vstd::prelude::*;

pub mod config;
pub mod error;
pub mod file;
pub mod resolve;
pub mod table;
pub mod text;
pub mod value;

verus! {

pub use crate::config::{Codec, Config, ConfigBuilder};
pub use crate::error::CannotConvert;
pub use crate::file::{File, FileFormat};
pub use crate::table::Table;
pub use crate::value::Value;

} // verus!
