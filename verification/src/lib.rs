//! Declarative filters over JSON documents.
//!
//! A [`Filter`] names a place in a document by a dotted path and tests the
//! value found there with an [`Operator`].  Documents are
//! `serde_json::Value`s; every function here carries a contract over the
//! mathematical model of the document, [`json::Json`].

pub mod double;
pub mod error;
pub mod filter;
pub mod json;
pub mod laws;
pub mod path;
pub mod text;

pub use double::Double;
pub use error::FilterError;
pub use filter::{Filter, Operator};
