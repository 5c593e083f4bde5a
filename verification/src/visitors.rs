//! Ready-made visitor implementations.
//!
//! [`AcceptAllVisitor`] consents to everything, so a parse driven by it
//! succeeds exactly on the structurally valid streams.  [`PolicyVisitor`]
//! consents or refuses wholesale according to two switches, which exercises
//! both rejection paths of the cursors.

use vstd::prelude::*;

use crate::de::{AttributeVisitor, ChildrenVisitor};

verus! {

/// An attribute visitor that accepts every attribute and admits every child:
/// with it, the outcome of a parse is structural validity alone.
pub struct AcceptAllVisitor {}

/// The children-mode face of [`AcceptAllVisitor`].
pub struct AcceptAllChildren {}

impl AcceptAllVisitor {
    /// A fresh all-accepting visitor.
    pub fn new() -> (r: Self) {
        AcceptAllVisitor {}
    }
}

impl AttributeVisitor for AcceptAllVisitor {
    type ChildrenVisitor = AcceptAllChildren;

    open spec fn accepts(self, key: Seq<u8>, value: Seq<u8>) -> bool {
        true
    }

    open spec fn after_attribute(self, key: Seq<u8>, value: Seq<u8>) -> Self {
        self
    }

    open spec fn children(self) -> AcceptAllChildren {
        AcceptAllChildren {}
    }

    fn visit_attribute(&mut self, key: Vec<u8>, value: Vec<u8>) -> (r: Option<()>) {
        Some(())
    }

    fn start_children(self) -> (r: AcceptAllChildren) {
        AcceptAllChildren {}
    }
}

impl ChildrenVisitor for AcceptAllChildren {
    type AttributeVisitor = AcceptAllVisitor;

    open spec fn admits(self, key: Seq<u8>) -> bool {
        true
    }

    open spec fn child(self, key: Seq<u8>) -> AcceptAllVisitor {
        AcceptAllVisitor {}
    }

    open spec fn after_child(self, key: Seq<u8>) -> Self {
        self
    }

    fn visit_child(&mut self, open_key: &[u8]) -> (r: Option<AcceptAllVisitor>) {
        Some(AcceptAllVisitor {})
    }
}

/// A visitor governed by two switches: whether attributes are accepted and
/// whether children are admitted.  The switches are inherited by every nested
/// visitor, so a refusal anywhere aborts the parse at the first occasion.
pub struct PolicyVisitor {
    pub accept_attributes: bool,
    pub admit_children: bool,
}

/// The children-mode face of [`PolicyVisitor`].
pub struct PolicyChildren {
    pub accept_attributes: bool,
    pub admit_children: bool,
}

impl PolicyVisitor {
    /// A visitor with the two consent switches as given.
    pub fn new(accept_attributes: bool, admit_children: bool) -> (r: Self)
        ensures
            r.accept_attributes == accept_attributes,
            r.admit_children == admit_children,
    {
        PolicyVisitor { accept_attributes, admit_children }
    }
}

impl AttributeVisitor for PolicyVisitor {
    type ChildrenVisitor = PolicyChildren;

    open spec fn accepts(self, key: Seq<u8>, value: Seq<u8>) -> bool {
        self.accept_attributes
    }

    open spec fn after_attribute(self, key: Seq<u8>, value: Seq<u8>) -> Self {
        self
    }

    open spec fn children(self) -> PolicyChildren {
        PolicyChildren {
            accept_attributes: self.accept_attributes,
            admit_children: self.admit_children,
        }
    }

    fn visit_attribute(&mut self, key: Vec<u8>, value: Vec<u8>) -> (r: Option<()>) {
        if self.accept_attributes {
            Some(())
        } else {
            None
        }
    }

    fn start_children(self) -> (r: PolicyChildren) {
        PolicyChildren {
            accept_attributes: self.accept_attributes,
            admit_children: self.admit_children,
        }
    }
}

impl ChildrenVisitor for PolicyChildren {
    type AttributeVisitor = PolicyVisitor;

    open spec fn admits(self, key: Seq<u8>) -> bool {
        self.admit_children
    }

    open spec fn child(self, key: Seq<u8>) -> PolicyVisitor {
        PolicyVisitor {
            accept_attributes: self.accept_attributes,
            admit_children: self.admit_children,
        }
    }

    open spec fn after_child(self, key: Seq<u8>) -> Self {
        self
    }

    fn visit_child(&mut self, open_key: &[u8]) -> (r: Option<PolicyVisitor>) {
        if self.admit_children {
            Some(PolicyVisitor {
                accept_attributes: self.accept_attributes,
                admit_children: self.admit_children,
            })
        } else {
            None
        }
    }
}

} // verus!
