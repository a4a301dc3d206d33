//! A typed client for a blockchain full node's JSON-RPC interface.
//!
//! The client builds JSON-RPC 2.0 request bodies, classifies HTTP responses
//! into success or a typed error, decodes `{"result": ...}` envelopes into
//! typed records, and offers one derived operation that enriches a
//! transaction's inputs with their previous outputs.
//!
//! The HTTP exchange itself is behind the [`client::HttpPost`] trait, which
//! the embedding program implements; everything around it is verified.

pub mod client;
pub mod codec;
pub mod error;
pub mod json;
pub mod laws;
pub mod num;
pub mod parse;
pub mod records;
pub mod text;
