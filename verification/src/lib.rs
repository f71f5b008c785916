//! Core of a small language server for a line-oriented markup language.
//!
//! The library holds the verified logic: the document store, the structural
//! analyzer that finds duplicate title headings, the diagnostic publisher,
//! and the session lifecycle state machine.  The transport that carries
//! messages to and from the editor lives outside the library and calls the
//! session handlers with plain values.

pub mod analyzer;
pub mod diagnostics;
pub mod publisher;
pub mod session;
pub mod store;
