//! The token source: a finite stream of tokens handed out one at a time.
//!
//! The deserializer pulls tokens in strict order and never looks ahead; `None`
//! from [`Parser::next`] marks the end of the stream.

use vstd::prelude::*;

use crate::bytes::clone_bytes;
use crate::token::{SpecToken, Token};

verus! {

/// An exclusive cursor over a fixed, finite token stream.
pub struct Parser {
    tokens: Vec<Token>,
    pos: usize,
}

/// Copies one token into fresh storage.
fn clone_token(t: &Token) -> (r: Token)
    ensures
        r@ == t@,
{
    match t {
        Token::Attr { key, value } => Token::Attr {
            key: clone_bytes(key),
            value: clone_bytes(value),
        },
        Token::Open { open_key } => Token::Open { open_key: clone_bytes(open_key) },
        Token::Close { close_key } => Token::Close { close_key: clone_bytes(close_key) },
    }
}

impl Parser {
    /// The whole stream, as mathematical tokens.
    pub closed spec fn stream(&self) -> Seq<SpecToken> {
        self.tokens@.map_values(|t: Token| t@)
    }

    /// How many tokens have been handed out so far.
    pub closed spec fn pos(&self) -> int {
        self.pos as int
    }

    /// The cursor never runs past the end of the stream.
    pub open spec fn wf(&self) -> bool {
        0 <= self.pos() <= self.stream().len()
    }

    /// Builds a source positioned at the start of `tokens`.
    pub fn new(tokens: Vec<Token>) -> (r: Self)
        ensures
            r.wf(),
            r.stream() == tokens@.map_values(|t: Token| t@),
            r.pos() == 0,
    {
        Parser { tokens, pos: 0 }
    }

    /// Hands out the next token, or `None` at the end of the stream.
    pub fn next(&mut self) -> (r: Option<Token>)
        requires
            old(self).wf(),
        ensures
            final(self).wf(),
            final(self).stream() == old(self).stream(),
            old(self).pos() < old(self).stream().len() ==> {
                &&& final(self).pos() == old(self).pos() + 1
                &&& r matches Some(t) && t@ == old(self).stream()[old(self).pos()]
            },
            old(self).pos() == old(self).stream().len() ==> {
                &&& final(self).pos() == old(self).pos()
                &&& r is None
            },
    {
        if self.pos < self.tokens.len() {
            let t = clone_token(&self.tokens[self.pos]);
            self.pos = self.pos + 1;
            Some(t)
        } else {
            None
        }
    }
}

} // verus!
