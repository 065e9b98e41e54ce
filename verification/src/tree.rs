//! Traversable values: a value together with the rules it is traversed by.

use crate::node::Node;
use crate::node::NodeView;
use crate::run::typed_hooks;
use crate::run::walk_typed;
use crate::run_mut::typed_ran;
use crate::run_mut::walk_typed_mut;
use crate::schema::Schema;
use crate::visit::fed;
use crate::visit::signal;
use crate::visit::Hook;
use crate::visit::Visitor;
use crate::visit::VisitorMut;
use core::ops::ControlFlow;
use vstd::prelude::*;

verus! {

/// A value that a visitor can traverse.
pub trait Traversable {
    /// The hook calls of the traversal, in the order in which they are made
    /// where no hook breaks off: none, unless the type says otherwise.
    open spec fn hooks(&self) -> Seq<Hook> {
        Seq::empty()
    }

    /// Traverses the value with the given visitor.
    ///
    /// The visitor is fed the hook calls in order. The first hook that
    /// breaks off ends the traversal: no further hook is called, and the
    /// value it broke off with is returned as it is.
    fn traverse<V: Visitor>(&self, visitor: &mut V) -> (flow: ControlFlow<V::Break>)
        requires
            old(visitor).valid(),
        ensures
            final(visitor).valid(),
            fed(*old(visitor), self.hooks(), *final(visitor), signal(flow)),
    ;
}

/// A value that a visitor can traverse and rewrite on the way.
pub trait TraversableMut {
    /// The rules the value is traversed by; the type says which they are.
    open spec fn rules(&self) -> Schema {
        arbitrary()
    }

    /// The value as a tree; the type says which tree it is.
    open spec fn root(&self) -> NodeView {
        arbitrary()
    }

    /// Traverses the value with the given visitor, whose hooks may rewrite
    /// the nodes they are called on.
    ///
    /// The first hook that breaks off ends the traversal: no further hook
    /// is called, the value is left as it is at that point, and the value
    /// the hook broke off with is returned as it is.
    fn traverse_mut<V: VisitorMut>(&mut self, visitor: &mut V) -> (flow: ControlFlow<V::Break>)
        requires
            old(visitor).valid(),
        ensures
            final(visitor).valid(),
            final(self).rules() == old(self).rules(),
            typed_ran(
                old(self).rules(),
                *old(visitor),
                old(self).root(),
                (*final(visitor), final(self).root(), signal(flow)),
            ),
    ;
}

/// A value together with the schema it is traversed by.
#[derive(Debug, PartialEq, Eq)]
pub struct Tree {
    pub schema: Schema,
    pub root: Node,
}

impl Tree {
    /// The value `root`, to be traversed by the rules of `schema`.
    pub fn new(schema: Schema, root: Node) -> (tree: Tree)
        ensures
            tree.schema == schema,
            tree.root == root,
    {
        Tree { schema, root }
    }
}

impl Traversable for Tree {
    open spec fn hooks(&self) -> Seq<Hook> {
        typed_hooks(self.schema, self.root.deep_view())
    }

    fn traverse<V: Visitor>(&self, visitor: &mut V) -> (flow: ControlFlow<V::Break>) {
        walk_typed(&self.schema, &self.root, visitor)
    }
}

impl TraversableMut for Tree {
    open spec fn rules(&self) -> Schema {
        self.schema
    }

    open spec fn root(&self) -> NodeView {
        self.root.deep_view()
    }

    fn traverse_mut<V: VisitorMut>(&mut self, visitor: &mut V) -> (flow: ControlFlow<V::Break>) {
        walk_typed_mut(&self.schema, &mut self.root, visitor)
    }
}

} // verus!
