//! Data-contract compiler: a document-type model that compiles to a canonical
//! JSON schema document, an importer that rebuilds the model from such a
//! document, and the reduction of a protocol validator's findings to a list
//! of distinct messages.

pub mod json;
pub mod model;
pub mod compile;
pub mod import;
pub mod validate;
pub mod sync;
pub mod roundtrip;
