//! Client-side building blocks for the OVSDB management protocol: a JSON
//! value model, the OVSDB value algebra and its JSON codec, the rewrite that
//! bridges the peer's JSON-RPC dialect to JSON-RPC 2.0, and byte framing.
pub mod json;
pub mod uuid_text;
pub mod value;
pub mod codec;
pub mod adapter;
pub mod serializable;
pub mod nb_global;
pub mod framer;
pub mod schema;
