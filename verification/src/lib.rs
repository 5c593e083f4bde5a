//! A push-style deserializer for a hierarchical key/value markup format.
//!
//! A document is a flat stream of tokens: attributes, open markers, close
//! markers, and an implicit end of stream.  The deserializer walks the stream
//! once, left to right, checking the structural rules (attribute keys strictly
//! increasing within a node, attributes before children, balanced open/close
//! markers with matching keys) and reporting every attribute and child to a
//! caller-supplied visitor.  No intermediate tree is ever built.

pub mod bytes;
pub mod de;
pub mod laws;
pub mod model;
pub mod parser;
pub mod token;
pub mod visitors;
