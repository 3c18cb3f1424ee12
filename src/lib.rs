//! Collects the fields of a multipart/form-data request into text parts held in
//! memory and file parts spilled to temporary files, under two independent size
//! limits.
//!
//! The per-field accumulation is an explicit state machine (`Accumulator`): the
//! caller pulls chunks from its decoder, feeds them in order, and performs the
//! file work that each returned `Action` asks for. `finalize` turns the end of a
//! field into its `Part`, and `Parts::from_parts` groups the parts of a request.
//!
//! The file-bearing types are generic over the handle type `F` of
//! `tempfile::NamedTempFile<F>`; with the default temporary files of `tempfile`
//! it is `std::fs::File`.

mod external;

pub mod config;
pub mod field;
pub mod naming;
pub mod parts;
pub mod text;

pub use config::PartsConfig;
pub use field::{classify, Accumulator, Action, BufferKind, Outcome};
pub use parts::{finalize, Error, File, FileParts, Part, Parts, TextParts};
