//! The token alphabet produced by a lexer and consumed by the deserializer.

use vstd::prelude::*;

verus! {

/// One lexical unit of the markup stream.  Keys and values are opaque byte
/// sequences; the end of the stream is represented by the token source
/// returning `None` rather than by a token of its own.
pub enum Token {
    /// A `key = value` attribute inside the current node.
    Attr { key: Vec<u8>, value: Vec<u8> },
    /// The opening marker of a child node.
    Open { open_key: Vec<u8> },
    /// The closing marker of the current node.
    Close { close_key: Vec<u8> },
}

/// The mathematical shadow of `Token`: the same three shapes over `Seq<u8>`.
pub enum SpecToken {
    Attr { key: Seq<u8>, value: Seq<u8> },
    Open { key: Seq<u8> },
    Close { key: Seq<u8> },
}

impl View for Token {
    type V = SpecToken;

    open spec fn view(&self) -> SpecToken {
        match self {
            Token::Attr { key, value } => SpecToken::Attr { key: key@, value: value@ },
            Token::Open { open_key } => SpecToken::Open { key: open_key@ },
            Token::Close { close_key } => SpecToken::Close { key: close_key@ },
        }
    }
}

} // verus!
