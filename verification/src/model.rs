//! The mathematical model of a parse.
//!
//! Three mutually recursive spec functions mirror the run of the two cursors
//! over a token stream: [`attr_phase`] for a node's attribute prefix,
//! [`children_phase`] for the run of its children, and [`child_phase`] for one
//! child subtree followed by its younger siblings.  Each returns whether the
//! parse succeeds and the position just past the last token consumed, as a
//! function of the stream, the start position, and the visitor's state.

use vstd::prelude::*;

use crate::bytes::lex_lt;
use crate::de::{AttributeVisitor, ChildrenVisitor};
use crate::token::SpecToken;

verus! {

/// The outcome of running a cursor: whether it succeeded, and the position
/// just past the last token it consumed.
pub ghost struct ParseOut {
    pub ok: bool,
    pub end: int,
}

/// The enclosing key as a mathematical value: the key the current node must
/// match on `Close`, absent only at the document root.
pub open spec fn key_view(o: Option<&[u8]>) -> Option<Seq<u8>> {
    match o {
        Some(k) => Some(k@),
        None => None,
    }
}

/// Clamps a continuation position into `[pos + 1, toks.len()]` so that the
/// recursion below is visibly well-founded; on every reachable argument the
/// position is already in that range and the clamp changes nothing
/// (see `lemma_attr_phase_bounds`).
pub open spec fn step_bound(toks: Seq<SpecToken>, pos: int, end: int) -> int {
    let lo = if end < pos + 1 {
        pos + 1
    } else {
        end
    };
    if lo > toks.len() {
        toks.len() as int
    } else {
        lo
    }
}

/// One node's attribute prefix, from `pos`: consecutive attributes with
/// strictly increasing keys, each accepted by the visitor, then either the
/// node's boundary (a matching `Close`, or the end of the stream at the root)
/// or the first `Open`, which starts the node's children.
pub open spec fn attr_phase<V: AttributeVisitor>(
    toks: Seq<SpecToken>,
    pos: int,
    last: Seq<u8>,
    v: V,
    enclosing: Option<Seq<u8>>,
) -> ParseOut
    decreases toks.len() - pos, 0int,
        when 0 <= pos <= toks.len()
{
    if pos == toks.len() {
        ParseOut { ok: enclosing is None, end: pos }
    } else {
        match toks[pos] {
            SpecToken::Attr { key, value } => {
                if !lex_lt(last, key) {
                    ParseOut { ok: false, end: pos + 1 }
                } else if !v.accepts(key, value) {
                    ParseOut { ok: false, end: pos + 1 }
                } else {
                    attr_phase(toks, pos + 1, key, v.after_attribute(key, value), enclosing)
                }
            },
            SpecToken::Open { key } => child_phase::<V>(toks, pos + 1, key, v.children(), enclosing),
            SpecToken::Close { key } => ParseOut { ok: enclosing == Some(key), end: pos + 1 },
        }
    }
}

/// One child subtree whose `Open` (bearing `key`) was just consumed, followed
/// by the run of its younger siblings: the children visitor admits the child
/// or the parse aborts; the child's own body is a fresh attribute phase
/// enclosed by `key`; then the siblings continue from where it ended.
pub open spec fn child_phase<V: AttributeVisitor>(
    toks: Seq<SpecToken>,
    pos: int,
    key: Seq<u8>,
    cv: V::ChildrenVisitor,
    enclosing: Option<Seq<u8>>,
) -> ParseOut
    decreases toks.len() - pos, 1int,
        when 0 <= pos <= toks.len()
{
    if !cv.admits(key) {
        ParseOut { ok: false, end: pos }
    } else {
        let body = attr_phase::<V>(toks, pos, Seq::<u8>::empty(), cv.child(key), Some(key));
        if !body.ok {
            body
        } else {
            children_phase::<V>(
                toks,
                step_bound(toks, pos, body.end),
                cv.after_child(key),
                enclosing,
            )
        }
    }
}

/// The run of a node's children after the first child has been parsed, from
/// `pos`: further `Open` tokens start further children; an attribute here is
/// invalid; the node's boundary rules are those of the attribute phase.
pub open spec fn children_phase<V: AttributeVisitor>(
    toks: Seq<SpecToken>,
    pos: int,
    cv: V::ChildrenVisitor,
    enclosing: Option<Seq<u8>>,
) -> ParseOut
    decreases toks.len() - pos, 0int,
        when 0 <= pos <= toks.len()
{
    if pos == toks.len() {
        ParseOut { ok: enclosing is None, end: pos }
    } else {
        match toks[pos] {
            SpecToken::Attr { key, value } => ParseOut { ok: false, end: pos + 1 },
            SpecToken::Open { key } => child_phase::<V>(toks, pos + 1, key, cv, enclosing),
            SpecToken::Close { key } => ParseOut { ok: enclosing == Some(key), end: pos + 1 },
        }
    }
}

/// A cursor never moves backwards nor past the end of the stream, and a
/// successfully parsed non-root node consumes at least its closing token.
pub proof fn lemma_attr_phase_bounds<V: AttributeVisitor>(
    toks: Seq<SpecToken>,
    pos: int,
    last: Seq<u8>,
    v: V,
    enclosing: Option<Seq<u8>>,
)
    requires
        0 <= pos <= toks.len(),
    ensures
        ({
            let out = attr_phase(toks, pos, last, v, enclosing);
            &&& pos <= out.end <= toks.len()
            &&& (out.ok && enclosing is Some ==> out.end > pos)
        }),
    decreases toks.len() - pos, 0int,
{
    if pos < toks.len() {
        match toks[pos] {
            SpecToken::Attr { key, value } => {
                if lex_lt(last, key) && v.accepts(key, value) {
                    lemma_attr_phase_bounds(
                        toks,
                        pos + 1,
                        key,
                        v.after_attribute(key, value),
                        enclosing,
                    );
                }
            },
            SpecToken::Open { key } => {
                lemma_child_phase_bounds::<V>(toks, pos + 1, key, v.children(), enclosing);
            },
            SpecToken::Close { key } => {},
        }
    }
}

/// Companion of `lemma_attr_phase_bounds` for one child and its siblings.
pub proof fn lemma_child_phase_bounds<V: AttributeVisitor>(
    toks: Seq<SpecToken>,
    pos: int,
    key: Seq<u8>,
    cv: V::ChildrenVisitor,
    enclosing: Option<Seq<u8>>,
)
    requires
        0 <= pos <= toks.len(),
    ensures
        ({
            let out = child_phase::<V>(toks, pos, key, cv, enclosing);
            &&& pos <= out.end <= toks.len()
            &&& (out.ok && enclosing is Some ==> out.end > pos)
        }),
    decreases toks.len() - pos, 1int,
{
    if cv.admits(key) {
        lemma_attr_phase_bounds::<V>(toks, pos, Seq::<u8>::empty(), cv.child(key), Some(key));
        let body = attr_phase::<V>(toks, pos, Seq::<u8>::empty(), cv.child(key), Some(key));
        if body.ok {
            lemma_children_phase_bounds::<V>(
                toks,
                step_bound(toks, pos, body.end),
                cv.after_child(key),
                enclosing,
            );
        }
    }
}

/// Companion of `lemma_attr_phase_bounds` for the run of a node's children.
pub proof fn lemma_children_phase_bounds<V: AttributeVisitor>(
    toks: Seq<SpecToken>,
    pos: int,
    cv: V::ChildrenVisitor,
    enclosing: Option<Seq<u8>>,
)
    requires
        0 <= pos <= toks.len(),
    ensures
        ({
            let out = children_phase::<V>(toks, pos, cv, enclosing);
            &&& pos <= out.end <= toks.len()
            &&& (out.ok && enclosing is Some ==> out.end > pos)
        }),
    decreases toks.len() - pos, 0int,
{
    if pos < toks.len() {
        match toks[pos] {
            SpecToken::Attr { key, value } => {},
            SpecToken::Open { key } => {
                lemma_child_phase_bounds::<V>(toks, pos + 1, key, cv, enclosing);
            },
            SpecToken::Close { key } => {},
        }
    }
}

} // verus!
