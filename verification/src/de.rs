//! The two mutually recursive cursors and the visitor capability pair.
//!
//! [`AttributeDeserializer`] parses one node's attribute prefix and boundary;
//! [`ChildrenDeserializer`] parses the run of its children.  They recurse into
//! each other once per nesting level, so the call depth equals the document's
//! nesting depth.  Every structural fault — an attribute key not strictly
//! greater than its predecessor, an attribute after a child, an unbalanced or
//! mismatched close marker, a truncated stream — and every visitor rejection
//! aborts the whole parse; the single abort signal is `None`.

use vstd::prelude::*;

use crate::bytes::{bytes_eq, bytes_lt, clone_bytes};
use crate::model::{attr_phase, child_phase, children_phase, key_view, lemma_attr_phase_bounds};
use crate::parser::Parser;
use crate::token::Token;

verus! {

/// The consumer of one node's attributes.  Implementations model their own
/// behaviour through the three spec functions: which attributes they accept,
/// what state they move to, and which children visitor they become when the
/// node's children begin.  `start_children` consumes the visitor, so no
/// attribute can be delivered once a child has been seen.
pub trait AttributeVisitor: Sized {
    type ChildrenVisitor: ChildrenVisitor<AttributeVisitor = Self>;

    /// Whether this visitor, in its current state, accepts the attribute.
    /// Unverified implementations may leave the default in place; verified
    /// ones override it with their actual policy and prove their methods
    /// against it.
    open spec fn accepts(self, key: Seq<u8>, value: Seq<u8>) -> bool {
        true
    }

    /// The state after accepting the attribute.
    open spec fn after_attribute(self, key: Seq<u8>, value: Seq<u8>) -> Self {
        self
    }

    /// The children visitor this visitor turns into.
    open spec fn children(self) -> Self::ChildrenVisitor {
        vstd::pervasive::arbitrary()
    }

    /// Receives one attribute; `None` rejects it and aborts the parse.
    fn visit_attribute(&mut self, key: Vec<u8>, value: Vec<u8>) -> (r: Option<()>)
        ensures
            r is Some <==> old(self).accepts(key@, value@),
            old(self).accepts(key@, value@) ==> *final(self) == old(self).after_attribute(
                key@,
                value@,
            ),
    ;

    /// Ends the attribute run; the visitor is consumed.
    fn start_children(self) -> (r: Self::ChildrenVisitor)
        ensures
            r == self.children(),
    ;
}

/// The consumer of one node's children.  Per child it either hands out a
/// fresh attribute visitor scoped to that child's key, or refuses the key and
/// aborts the parse.
pub trait ChildrenVisitor: Sized {
    type AttributeVisitor;

    /// Whether this visitor, in its current state, admits a child so keyed.
    /// As with the attribute side, only verified implementations need to
    /// override the model.
    open spec fn admits(self, key: Seq<u8>) -> bool {
        true
    }

    /// The attribute visitor handed out for an admitted child.
    open spec fn child(self, key: Seq<u8>) -> Self::AttributeVisitor {
        vstd::pervasive::arbitrary()
    }

    /// The state after admitting the child.
    open spec fn after_child(self, key: Seq<u8>) -> Self {
        self
    }

    /// Offers one child; `None` refuses the key and aborts the parse.
    fn visit_child(&mut self, open_key: &[u8]) -> (r: Option<Self::AttributeVisitor>)
        ensures
            r is Some <==> old(self).admits(open_key@),
            old(self).admits(open_key@) ==> {
                &&& r == Some(old(self).child(open_key@))
                &&& *final(self) == old(self).after_child(open_key@)
            },
    ;
}

/// The cursor over one node's attribute prefix.
pub struct AttributeDeserializer {
    last_key: Vec<u8>,
}

impl AttributeDeserializer {
    /// The last attribute key accepted at this nesting level; empty at the
    /// start of a node, and every accepted key must exceed it.
    pub closed spec fn last(&self) -> Seq<u8> {
        self.last_key@
    }

    /// A cursor at the start of a node, with no attribute seen yet.
    pub fn new() -> (r: Self)
        ensures
            r.last() == Seq::<u8>::empty(),
    {
        AttributeDeserializer { last_key: Vec::new() }
    }

    /// Parses one node's body: its attribute prefix, then either its children
    /// or its boundary.  `outer_open_key` is the key the node's `Close` must
    /// carry, `None` only at the document root.  Returns `Some(())` exactly
    /// when the model [`attr_phase`] succeeds, and leaves the source at the
    /// position the model names — in particular, nothing is read past the
    /// offending token of an aborted parse.
    #[verifier::loop_isolation(false)]
    pub fn accept<V: AttributeVisitor>(
        self,
        parser: &mut Parser,
        visitor: V,
        outer_open_key: Option<&[u8]>,
    ) -> (r: Option<()>)
        requires
            old(parser).wf(),
        ensures
            final(parser).wf(),
            final(parser).stream() == old(parser).stream(),
            ({
                let out = attr_phase(
                    old(parser).stream(),
                    old(parser).pos(),
                    self.last(),
                    visitor,
                    key_view(outer_open_key),
                );
                &&& (r is Some <==> out.ok)
                &&& final(parser).pos() == out.end
            }),
        decreases old(parser).stream().len() - old(parser).pos(), 0int,
    {
        let ghost v0 = visitor;
        let ghost l0 = self.last();
        let mut de = self;
        let mut visitor = visitor;
        loop
            invariant
                parser.wf(),
                parser.stream() == old(parser).stream(),
                old(parser).pos() <= parser.pos(),
                attr_phase(
                    old(parser).stream(),
                    old(parser).pos(),
                    l0,
                    v0,
                    key_view(outer_open_key),
                ) == attr_phase(
                    parser.stream(),
                    parser.pos(),
                    de.last(),
                    visitor,
                    key_view(outer_open_key),
                ),
            decreases parser.stream().len() - parser.pos(),
        {
            match parser.next() {
                Some(Token::Attr { key, value }) => {
                    if !bytes_lt(de.last_key.as_slice(), key.as_slice()) {
                        return None;
                    }
                    de.last_key = clone_bytes(&key);
                    match visitor.visit_attribute(key, value) {
                        Some(()) => {},
                        None => {
                            return None;
                        },
                    }
                },
                Some(Token::Open { open_key }) => {
                    let cd = ChildrenDeserializer::new();
                    return cd.accept::<V>(
                        parser,
                        open_key,
                        outer_open_key,
                        visitor.start_children(),
                    );
                },
                Some(Token::Close { close_key }) => {
                    return match outer_open_key {
                        Some(open_key) => {
                            if bytes_eq(open_key, close_key.as_slice()) {
                                Some(())
                            } else {
                                None
                            }
                        },
                        None => None,
                    };
                },
                None => {
                    return if outer_open_key.is_some() {
                        None
                    } else {
                        Some(())
                    };
                },
            }
        }
    }
}

/// The cursor over the run of a node's children; it owns no state of its own.
struct ChildrenDeserializer {}

impl ChildrenDeserializer {
    /// A cursor for the children of the node whose first `Open` was just read.
    fn new() -> (r: Self) {
        ChildrenDeserializer {}
    }

    /// Parses the first child (whose `Open` bearing `first_open_key` was just
    /// consumed by the caller) and then the run of its siblings, up to the
    /// enclosing node's boundary.  Mirrors the model's [`child_phase`].
    #[verifier::loop_isolation(false)]
    fn accept<V: AttributeVisitor>(
        self,
        parser: &mut Parser,
        first_open_key: Vec<u8>,
        outer_open_key: Option<&[u8]>,
        visitor: V::ChildrenVisitor,
    ) -> (r: Option<()>)
        requires
            old(parser).wf(),
        ensures
            final(parser).wf(),
            final(parser).stream() == old(parser).stream(),
            ({
                let out = child_phase::<V>(
                    old(parser).stream(),
                    old(parser).pos(),
                    first_open_key@,
                    visitor,
                    key_view(outer_open_key),
                );
                &&& (r is Some <==> out.ok)
                &&& final(parser).pos() == out.end
            }),
        decreases old(parser).stream().len() - old(parser).pos(), 2int,
    {
        let ghost v0 = visitor;
        let mut cd = self;
        let mut visitor = visitor;
        match cd.accept_child::<V>(parser, first_open_key.as_slice(), &mut visitor) {
            Some(()) => {
                proof {
                    lemma_attr_phase_bounds::<V>(
                        old(parser).stream(),
                        old(parser).pos(),
                        Seq::<u8>::empty(),
                        v0.child(first_open_key@),
                        Some(first_open_key@),
                    );
                }
            },
            None => {
                return None;
            },
        }
        loop
            invariant
                parser.wf(),
                parser.stream() == old(parser).stream(),
                old(parser).pos() <= parser.pos(),
                child_phase::<V>(
                    old(parser).stream(),
                    old(parser).pos(),
                    first_open_key@,
                    v0,
                    key_view(outer_open_key),
                ) == children_phase::<V>(
                    parser.stream(),
                    parser.pos(),
                    visitor,
                    key_view(outer_open_key),
                ),
            decreases parser.stream().len() - parser.pos(),
        {
            match parser.next() {
                Some(Token::Attr { .. }) => {
                    return None;
                },
                Some(Token::Open { open_key }) => {
                    let ghost vprev = visitor;
                    let ghost p = parser.pos();
                    match cd.accept_child::<V>(parser, open_key.as_slice(), &mut visitor) {
                        Some(()) => {
                            proof {
                                lemma_attr_phase_bounds::<V>(
                                    parser.stream(),
                                    p,
                                    Seq::<u8>::empty(),
                                    vprev.child(open_key@),
                                    Some(open_key@),
                                );
                            }
                        },
                        None => {
                            return None;
                        },
                    }
                },
                Some(Token::Close { close_key }) => {
                    return match outer_open_key {
                        Some(open_key) => {
                            if bytes_eq(open_key, close_key.as_slice()) {
                                Some(())
                            } else {
                                None
                            }
                        },
                        None => None,
                    };
                },
                None => {
                    return if outer_open_key.is_some() {
                        None
                    } else {
                        Some(())
                    };
                },
            }
        }
    }

    /// Parses one child subtree: asks the children visitor for an attribute
    /// visitor scoped to `open_key` (refusal aborts without reading a token),
    /// then runs a fresh attribute cursor over the child's body with
    /// `open_key` as its enclosing key.
    fn accept_child<V: AttributeVisitor>(
        &mut self,
        parser: &mut Parser,
        open_key: &[u8],
        visitor: &mut V::ChildrenVisitor,
    ) -> (r: Option<()>)
        requires
            old(parser).wf(),
        ensures
            final(parser).wf(),
            final(parser).stream() == old(parser).stream(),
            old(visitor).admits(open_key@) ==> {
                let body = attr_phase(
                    old(parser).stream(),
                    old(parser).pos(),
                    Seq::<u8>::empty(),
                    old(visitor).child(open_key@),
                    Some(open_key@),
                );
                &&& (r is Some <==> body.ok)
                &&& final(parser).pos() == body.end
                &&& *final(visitor) == old(visitor).after_child(open_key@)
            },
            !old(visitor).admits(open_key@) ==> {
                &&& r is None
                &&& final(parser).pos() == old(parser).pos()
            },
        decreases old(parser).stream().len() - old(parser).pos(), 1int,
    {
        match visitor.visit_child(open_key) {
            Some(av) => {
                let de = AttributeDeserializer::new();
                de.accept(parser, av, Some(open_key))
            },
            None => None,
        }
    }
}

} // verus!
