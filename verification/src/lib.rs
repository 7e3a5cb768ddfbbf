//! A small multi-file JSON document graph: one workspace document that
//! references zero or more book documents by relative path, loaded into a
//! single in-memory snapshot and written back file by file.

pub mod json;
pub mod paths;
pub mod payload;
pub mod render;
pub mod save;
pub mod resolve;
pub mod text;
