//! Structural validity, and the laws of the parse.
//!
//! The `struct_*` functions recognise the structurally valid streams without
//! consulting any visitor.  The lemmas then relate every run of the cursors to
//! them: a visitor can veto a parse but never extend or divert one, the
//! all-accepting visitor succeeds exactly on the valid streams, and each kind
//! of structural fault aborts at the offending token with nothing read past
//! it.

use vstd::prelude::*;

use crate::bytes::lex_lt;
use crate::de::{AttributeVisitor, ChildrenVisitor};
use crate::model::{
    attr_phase, child_phase, children_phase, lemma_attr_phase_bounds, lemma_child_phase_bounds,
    step_bound, ParseOut,
};
use crate::token::SpecToken;
use crate::visitors::{AcceptAllChildren, AcceptAllVisitor};

verus! {

/// The attribute phase of the structural recognizer: like
/// [`attr_phase`](crate::model::attr_phase) but with no visitor to consult.
pub open spec fn struct_attr_phase(
    toks: Seq<SpecToken>,
    pos: int,
    last: Seq<u8>,
    enclosing: Option<Seq<u8>>,
) -> ParseOut
    decreases toks.len() - pos, 0int,
        when 0 <= pos <= toks.len()
{
    if pos == toks.len() {
        ParseOut { ok: enclosing is None, end: pos }
    } else {
        match toks[pos] {
            SpecToken::Attr { key, value } => {
                if !lex_lt(last, key) {
                    ParseOut { ok: false, end: pos + 1 }
                } else {
                    struct_attr_phase(toks, pos + 1, key, enclosing)
                }
            },
            SpecToken::Open { key } => struct_child_phase(toks, pos + 1, key, enclosing),
            SpecToken::Close { key } => ParseOut { ok: enclosing == Some(key), end: pos + 1 },
        }
    }
}

/// One child subtree and its younger siblings, structurally.
pub open spec fn struct_child_phase(
    toks: Seq<SpecToken>,
    pos: int,
    key: Seq<u8>,
    enclosing: Option<Seq<u8>>,
) -> ParseOut
    decreases toks.len() - pos, 1int,
        when 0 <= pos <= toks.len()
{
    let body = struct_attr_phase(toks, pos, Seq::<u8>::empty(), Some(key));
    if !body.ok {
        body
    } else {
        struct_children_phase(toks, step_bound(toks, pos, body.end), enclosing)
    }
}

/// The run of a node's children, structurally.
pub open spec fn struct_children_phase(
    toks: Seq<SpecToken>,
    pos: int,
    enclosing: Option<Seq<u8>>,
) -> ParseOut
    decreases toks.len() - pos, 0int,
        when 0 <= pos <= toks.len()
{
    if pos == toks.len() {
        ParseOut { ok: enclosing is None, end: pos }
    } else {
        match toks[pos] {
            SpecToken::Attr { key, value } => ParseOut { ok: false, end: pos + 1 },
            SpecToken::Open { key } => struct_child_phase(toks, pos + 1, key, enclosing),
            SpecToken::Close { key } => ParseOut { ok: enclosing == Some(key), end: pos + 1 },
        }
    }
}

/// A structurally valid document: a whole stream that one root node's body
/// consumes successfully.  Success at the root happens only at the end of the
/// stream, so a valid document is always consumed in full.
pub open spec fn valid_document(toks: Seq<SpecToken>) -> bool {
    struct_attr_phase(toks, 0, Seq::<u8>::empty(), None).ok
}

/// A visitor can veto a parse but never extend or divert one: whenever a run
/// of the attribute cursor succeeds, the stream is structurally valid there,
/// and the structural recognizer ends at the same position.
pub proof fn lemma_success_is_structural<V: AttributeVisitor>(
    toks: Seq<SpecToken>,
    pos: int,
    last: Seq<u8>,
    v: V,
    enclosing: Option<Seq<u8>>,
)
    requires
        0 <= pos <= toks.len(),
    ensures
        ({
            let out = attr_phase(toks, pos, last, v, enclosing);
            let sout = struct_attr_phase(toks, pos, last, enclosing);
            out.ok ==> sout.ok && sout.end == out.end
        }),
    decreases toks.len() - pos, 0int,
{
    if pos < toks.len() {
        match toks[pos] {
            SpecToken::Attr { key, value } => {
                if lex_lt(last, key) && v.accepts(key, value) {
                    lemma_success_is_structural(
                        toks,
                        pos + 1,
                        key,
                        v.after_attribute(key, value),
                        enclosing,
                    );
                }
            },
            SpecToken::Open { key } => {
                lemma_child_success_is_structural::<V>(toks, pos + 1, key, v.children(), enclosing);
            },
            SpecToken::Close { key } => {},
        }
    }
}

/// Companion of [`lemma_success_is_structural`] for one child and its siblings.
pub proof fn lemma_child_success_is_structural<V: AttributeVisitor>(
    toks: Seq<SpecToken>,
    pos: int,
    key: Seq<u8>,
    cv: V::ChildrenVisitor,
    enclosing: Option<Seq<u8>>,
)
    requires
        0 <= pos <= toks.len(),
    ensures
        ({
            let out = child_phase::<V>(toks, pos, key, cv, enclosing);
            let sout = struct_child_phase(toks, pos, key, enclosing);
            out.ok ==> sout.ok && sout.end == out.end
        }),
    decreases toks.len() - pos, 1int,
{
    if cv.admits(key) {
        lemma_success_is_structural::<V>(toks, pos, Seq::<u8>::empty(), cv.child(key), Some(key));
        let body = attr_phase::<V>(toks, pos, Seq::<u8>::empty(), cv.child(key), Some(key));
        if body.ok {
            lemma_children_success_is_structural::<V>(
                toks,
                step_bound(toks, pos, body.end),
                cv.after_child(key),
                enclosing,
            );
        }
    }
}

/// Companion of [`lemma_success_is_structural`] for the run of a node's
/// children.
pub proof fn lemma_children_success_is_structural<V: AttributeVisitor>(
    toks: Seq<SpecToken>,
    pos: int,
    cv: V::ChildrenVisitor,
    enclosing: Option<Seq<u8>>,
)
    requires
        0 <= pos <= toks.len(),
    ensures
        ({
            let out = children_phase::<V>(toks, pos, cv, enclosing);
            let sout = struct_children_phase(toks, pos, enclosing);
            out.ok ==> sout.ok && sout.end == out.end
        }),
    decreases toks.len() - pos, 0int,
{
    if pos < toks.len() {
        match toks[pos] {
            SpecToken::Attr { key, value } => {},
            SpecToken::Open { key } => {
                lemma_child_success_is_structural::<V>(toks, pos + 1, key, cv, enclosing);
            },
            SpecToken::Close { key } => {},
        }
    }
}

/// With the all-accepting visitor nothing can veto, so the run of the
/// attribute cursor coincides with the structural recognizer: it succeeds on
/// exactly the structurally valid streams and stops at the same position on
/// the invalid ones.
pub proof fn lemma_accept_all_is_structural(
    toks: Seq<SpecToken>,
    pos: int,
    last: Seq<u8>,
    v: AcceptAllVisitor,
    enclosing: Option<Seq<u8>>,
)
    requires
        0 <= pos <= toks.len(),
    ensures
        attr_phase(toks, pos, last, v, enclosing) == struct_attr_phase(toks, pos, last, enclosing),
    decreases toks.len() - pos, 0int,
{
    if pos < toks.len() {
        match toks[pos] {
            SpecToken::Attr { key, value } => {
                if lex_lt(last, key) {
                    lemma_accept_all_is_structural(
                        toks,
                        pos + 1,
                        key,
                        v.after_attribute(key, value),
                        enclosing,
                    );
                }
            },
            SpecToken::Open { key } => {
                lemma_accept_all_child_is_structural(toks, pos + 1, key, v.children(), enclosing);
            },
            SpecToken::Close { key } => {},
        }
    }
}

/// Companion of [`lemma_accept_all_is_structural`] for one child and its
/// siblings.
pub proof fn lemma_accept_all_child_is_structural(
    toks: Seq<SpecToken>,
    pos: int,
    key: Seq<u8>,
    cv: AcceptAllChildren,
    enclosing: Option<Seq<u8>>,
)
    requires
        0 <= pos <= toks.len(),
    ensures
        child_phase::<AcceptAllVisitor>(toks, pos, key, cv, enclosing) == struct_child_phase(
            toks,
            pos,
            key,
            enclosing,
        ),
    decreases toks.len() - pos, 1int,
{
    lemma_accept_all_is_structural(toks, pos, Seq::<u8>::empty(), cv.child(key), Some(key));
    let body = attr_phase::<AcceptAllVisitor>(
        toks,
        pos,
        Seq::<u8>::empty(),
        cv.child(key),
        Some(key),
    );
    if body.ok {
        lemma_accept_all_children_are_structural(
            toks,
            step_bound(toks, pos, body.end),
            cv.after_child(key),
            enclosing,
        );
    }
}

/// Companion of [`lemma_accept_all_is_structural`] for the run of a node's
/// children.
pub proof fn lemma_accept_all_children_are_structural(
    toks: Seq<SpecToken>,
    pos: int,
    cv: AcceptAllChildren,
    enclosing: Option<Seq<u8>>,
)
    requires
        0 <= pos <= toks.len(),
    ensures
        children_phase::<AcceptAllVisitor>(toks, pos, cv, enclosing) == struct_children_phase(
            toks,
            pos,
            enclosing,
        ),
    decreases toks.len() - pos, 0int,
{
    if pos < toks.len() {
        match toks[pos] {
            SpecToken::Attr { key, value } => {},
            SpecToken::Open { key } => {
                lemma_accept_all_child_is_structural(toks, pos + 1, key, cv, enclosing);
            },
            SpecToken::Close { key } => {},
        }
    }
}

/// An attribute whose key is not strictly greater than its predecessor's —
/// a duplicate or an out-of-order key — aborts the parse at that token, for
/// every visitor: nothing past the offending token is consumed or visited.
pub proof fn lemma_unordered_attribute_aborts<V: AttributeVisitor>(
    toks: Seq<SpecToken>,
    pos: int,
    last: Seq<u8>,
    v: V,
    enclosing: Option<Seq<u8>>,
)
    requires
        0 <= pos < toks.len(),
        toks[pos] matches SpecToken::Attr { key, value } && !lex_lt(last, key),
    ensures
        attr_phase(toks, pos, last, v, enclosing) == (ParseOut { ok: false, end: pos + 1 }),
{
}

/// An attribute seen anywhere in a node's children run — that is, after the
/// node's first child — aborts the parse at that token, for every visitor.
pub proof fn lemma_attribute_after_child_aborts<V: AttributeVisitor>(
    toks: Seq<SpecToken>,
    pos: int,
    cv: V::ChildrenVisitor,
    enclosing: Option<Seq<u8>>,
)
    requires
        0 <= pos < toks.len(),
        toks[pos] matches SpecToken::Attr { key, value },
    ensures
        children_phase::<V>(toks, pos, cv, enclosing) == (ParseOut { ok: false, end: pos + 1 }),
{
}

/// A close marker whose key differs from the enclosing open key — and any
/// close marker at the document root, where no key is in scope — aborts the
/// parse at that token, in either mode, for every visitor.
pub proof fn lemma_mismatched_close_aborts<V: AttributeVisitor>(
    toks: Seq<SpecToken>,
    pos: int,
    last: Seq<u8>,
    v: V,
    cv: V::ChildrenVisitor,
    enclosing: Option<Seq<u8>>,
)
    requires
        0 <= pos < toks.len(),
        toks[pos] matches SpecToken::Close { key } && enclosing != Some(key),
    ensures
        attr_phase(toks, pos, last, v, enclosing) == (ParseOut { ok: false, end: pos + 1 }),
        children_phase::<V>(toks, pos, cv, enclosing) == (ParseOut { ok: false, end: pos + 1 }),
{
}

/// At the end of the stream the parse succeeds exactly when no node is still
/// open: a truncated stream aborts, a balanced one succeeds, in either mode,
/// for every visitor.
pub proof fn lemma_end_of_stream_boundary<V: AttributeVisitor>(
    toks: Seq<SpecToken>,
    last: Seq<u8>,
    v: V,
    cv: V::ChildrenVisitor,
    enclosing: Option<Seq<u8>>,
)
    ensures
        attr_phase(toks, toks.len() as int, last, v, enclosing) == (ParseOut {
            ok: enclosing is None,
            end: toks.len() as int,
        }),
        children_phase::<V>(toks, toks.len() as int, cv, enclosing) == (ParseOut {
            ok: enclosing is None,
            end: toks.len() as int,
        }),
{
}

/// One visitor call as the consumer observes it: an attribute delivered to
/// `visit_attribute`, or a child key offered to `visit_child`.
pub ghost enum VisitEvent {
    Attribute { key: Seq<u8>, value: Seq<u8> },
    Child { key: Seq<u8> },
}

/// The visits a span of the stream calls for: one `Attribute` event per
/// `Attr` token and one `Child` event per `Open` token in `[pos, end)`, in
/// stream order; `Close` tokens call for none.
pub open spec fn stream_events(toks: Seq<SpecToken>, pos: int, end: int) -> Seq<VisitEvent>
    decreases end - pos,
{
    if pos >= end {
        Seq::empty()
    } else {
        match toks[pos] {
            SpecToken::Attr { key, value } => seq![VisitEvent::Attribute { key, value }]
                + stream_events(toks, pos + 1, end),
            SpecToken::Open { key } => seq![VisitEvent::Child { key }] + stream_events(
                toks,
                pos + 1,
                end,
            ),
            SpecToken::Close { key } => stream_events(toks, pos + 1, end),
        }
    }
}

/// The visitor calls an attribute-phase run makes, in the order it makes
/// them.  A token that fails the ordering check is never delivered; an
/// attribute the visitor rejects is delivered once and ends the run.
pub open spec fn attr_trace<V: AttributeVisitor>(
    toks: Seq<SpecToken>,
    pos: int,
    last: Seq<u8>,
    v: V,
    enclosing: Option<Seq<u8>>,
) -> Seq<VisitEvent>
    decreases toks.len() - pos, 0int,
        when 0 <= pos <= toks.len()
{
    if pos == toks.len() {
        Seq::empty()
    } else {
        match toks[pos] {
            SpecToken::Attr { key, value } => {
                if !lex_lt(last, key) {
                    Seq::empty()
                } else if !v.accepts(key, value) {
                    seq![VisitEvent::Attribute { key, value }]
                } else {
                    seq![VisitEvent::Attribute { key, value }] + attr_trace(
                        toks,
                        pos + 1,
                        key,
                        v.after_attribute(key, value),
                        enclosing,
                    )
                }
            },
            SpecToken::Open { key } => child_trace::<V>(toks, pos + 1, key, v.children(), enclosing),
            SpecToken::Close { key } => Seq::empty(),
        }
    }
}

/// The visitor calls made for one child subtree and its younger siblings:
/// the child's key is offered first, then come the visits of its own body,
/// then those of its siblings.
pub open spec fn child_trace<V: AttributeVisitor>(
    toks: Seq<SpecToken>,
    pos: int,
    key: Seq<u8>,
    cv: V::ChildrenVisitor,
    enclosing: Option<Seq<u8>>,
) -> Seq<VisitEvent>
    decreases toks.len() - pos, 1int,
        when 0 <= pos <= toks.len()
{
    if !cv.admits(key) {
        seq![VisitEvent::Child { key }]
    } else {
        let body = attr_phase::<V>(toks, pos, Seq::<u8>::empty(), cv.child(key), Some(key));
        let body_trace = attr_trace::<V>(toks, pos, Seq::<u8>::empty(), cv.child(key), Some(key));
        if !body.ok {
            seq![VisitEvent::Child { key }] + body_trace
        } else {
            seq![VisitEvent::Child { key }] + body_trace + children_trace::<V>(
                toks,
                step_bound(toks, pos, body.end),
                cv.after_child(key),
                enclosing,
            )
        }
    }
}

/// The visitor calls a children-phase run makes.  An attribute token here
/// aborts before any call, so it contributes no event.
pub open spec fn children_trace<V: AttributeVisitor>(
    toks: Seq<SpecToken>,
    pos: int,
    cv: V::ChildrenVisitor,
    enclosing: Option<Seq<u8>>,
) -> Seq<VisitEvent>
    decreases toks.len() - pos, 0int,
        when 0 <= pos <= toks.len()
{
    if pos == toks.len() {
        Seq::empty()
    } else {
        match toks[pos] {
            SpecToken::Attr { key, value } => Seq::empty(),
            SpecToken::Open { key } => child_trace::<V>(toks, pos + 1, key, cv, enclosing),
            SpecToken::Close { key } => Seq::empty(),
        }
    }
}

/// The visits called for by adjoining spans adjoin.
proof fn lemma_stream_events_concat(toks: Seq<SpecToken>, pos: int, mid: int, end: int)
    requires
        pos <= mid <= end,
    ensures
        stream_events(toks, pos, end) == stream_events(toks, pos, mid) + stream_events(
            toks,
            mid,
            end,
        ),
    decreases mid - pos,
{
    if pos == mid {
        assert(stream_events(toks, pos, mid) + stream_events(toks, mid, end) =~= stream_events(
            toks,
            pos,
            end,
        ));
    } else {
        lemma_stream_events_concat(toks, pos + 1, mid, end);
        assert(stream_events(toks, pos, end) =~= stream_events(toks, pos, mid) + stream_events(
            toks,
            mid,
            end,
        ));
    }
}

/// On a successful run every attribute and every child of the consumed span
/// is visited exactly once, in stream order: the trace of visitor calls is
/// exactly the visits the consumed span calls for.
pub proof fn lemma_success_visits_stream_in_order<V: AttributeVisitor>(
    toks: Seq<SpecToken>,
    pos: int,
    last: Seq<u8>,
    v: V,
    enclosing: Option<Seq<u8>>,
)
    requires
        0 <= pos <= toks.len(),
    ensures
        ({
            let out = attr_phase(toks, pos, last, v, enclosing);
            out.ok ==> attr_trace(toks, pos, last, v, enclosing) == stream_events(
                toks,
                pos,
                out.end,
            )
        }),
    decreases toks.len() - pos, 0int,
{
    let out = attr_phase(toks, pos, last, v, enclosing);
    if pos < toks.len() && out.ok {
        match toks[pos] {
            SpecToken::Attr { key, value } => {
                let v2 = v.after_attribute(key, value);
                lemma_success_visits_stream_in_order(toks, pos + 1, key, v2, enclosing);
                lemma_attr_phase_bounds(toks, pos + 1, key, v2, enclosing);
            },
            SpecToken::Open { key } => {
                lemma_child_visits_stream_in_order::<V>(toks, pos + 1, key, v.children(), enclosing);
                lemma_child_phase_bounds::<V>(toks, pos + 1, key, v.children(), enclosing);
            },
            SpecToken::Close { key } => {
                assert(stream_events(toks, pos + 1, out.end) =~= Seq::<VisitEvent>::empty());
                assert(stream_events(toks, pos, out.end) =~= Seq::<VisitEvent>::empty());
            },
        }
    } else if out.ok {
        assert(stream_events(toks, pos, out.end) =~= Seq::<VisitEvent>::empty());
    }
}

/// Companion of [`lemma_success_visits_stream_in_order`] for one child and
/// its siblings: the child's key is offered once, then the span's own visits
/// follow in stream order.
pub proof fn lemma_child_visits_stream_in_order<V: AttributeVisitor>(
    toks: Seq<SpecToken>,
    pos: int,
    key: Seq<u8>,
    cv: V::ChildrenVisitor,
    enclosing: Option<Seq<u8>>,
)
    requires
        0 <= pos <= toks.len(),
    ensures
        ({
            let out = child_phase::<V>(toks, pos, key, cv, enclosing);
            out.ok ==> child_trace::<V>(toks, pos, key, cv, enclosing) == seq![
                VisitEvent::Child { key },
            ] + stream_events(toks, pos, out.end)
        }),
    decreases toks.len() - pos, 1int,
{
    let out = child_phase::<V>(toks, pos, key, cv, enclosing);
    if out.ok {
        let body = attr_phase::<V>(toks, pos, Seq::<u8>::empty(), cv.child(key), Some(key));
        let body_trace = attr_trace::<V>(toks, pos, Seq::<u8>::empty(), cv.child(key), Some(key));
        lemma_success_visits_stream_in_order::<V>(
            toks,
            pos,
            Seq::<u8>::empty(),
            cv.child(key),
            Some(key),
        );
        lemma_attr_phase_bounds::<V>(toks, pos, Seq::<u8>::empty(), cv.child(key), Some(key));
        let sib_trace = children_trace::<V>(
            toks,
            step_bound(toks, pos, body.end),
            cv.after_child(key),
            enclosing,
        );
        lemma_children_visits_stream_in_order::<V>(
            toks,
            step_bound(toks, pos, body.end),
            cv.after_child(key),
            enclosing,
        );
        lemma_stream_events_concat(toks, pos, body.end, out.end);
        assert(seq![VisitEvent::Child { key }] + body_trace + sib_trace =~= seq![
            VisitEvent::Child { key },
        ] + (body_trace + sib_trace));
    }
}

/// Companion of [`lemma_success_visits_stream_in_order`] for the run of a
/// node's children.
pub proof fn lemma_children_visits_stream_in_order<V: AttributeVisitor>(
    toks: Seq<SpecToken>,
    pos: int,
    cv: V::ChildrenVisitor,
    enclosing: Option<Seq<u8>>,
)
    requires
        0 <= pos <= toks.len(),
    ensures
        ({
            let out = children_phase::<V>(toks, pos, cv, enclosing);
            out.ok ==> children_trace::<V>(toks, pos, cv, enclosing) == stream_events(
                toks,
                pos,
                out.end,
            )
        }),
    decreases toks.len() - pos, 0int,
{
    let out = children_phase::<V>(toks, pos, cv, enclosing);
    if pos < toks.len() && out.ok {
        match toks[pos] {
            SpecToken::Attr { key, value } => {},
            SpecToken::Open { key } => {
                lemma_child_visits_stream_in_order::<V>(toks, pos + 1, key, cv, enclosing);
                lemma_child_phase_bounds::<V>(toks, pos + 1, key, cv, enclosing);
            },
            SpecToken::Close { key } => {
                assert(stream_events(toks, pos + 1, out.end) =~= Seq::<VisitEvent>::empty());
                assert(stream_events(toks, pos, out.end) =~= Seq::<VisitEvent>::empty());
            },
        }
    } else if out.ok {
        assert(stream_events(toks, pos, out.end) =~= Seq::<VisitEvent>::empty());
    }
}

} // verus!
