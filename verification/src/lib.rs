//! A layered preference store: command-line overrides, a persisted on-disk
//! document, and compiled-in defaults are merged into one read surface, while
//! the persisted layer can be partially mutated and re-serialized without
//! losing keys it does not recognise.

pub mod bmread;
pub mod kw;
pub mod laws;
pub mod locale;
pub mod read;
pub mod store;
pub mod textutil;
pub mod types;
pub mod values;
pub mod write;
