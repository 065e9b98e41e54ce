//! Values as trees of nodes: what a traversal walks over.

use vstd::prelude::*;

verus! {

/// A value, or a part of one. A node knows the type it is of, the variant it
/// holds where that type is a sum type, and its sub-values in declaration
/// order; a leaf carries its content as a number.
#[derive(Debug, PartialEq, Eq)]
pub struct Node {
    /// The identity of the node's type: what a visitor filters by.
    pub ty: u64,
    /// The position of the variant that the value holds; 0 for a record.
    pub variant: usize,
    /// The content of a leaf.
    pub scalar: i64,
    /// The sub-values, in declaration order.
    pub fields: Vec<Node>,
}

/// The mathematical value of a [`Node`]: the same tree, with sequences for
/// the lists of sub-values.
pub struct NodeView {
    pub ty: u64,
    pub variant: usize,
    pub scalar: i64,
    pub fields: Seq<NodeView>,
}

/// The tree that a node stands for.
pub open spec fn model(node: Node) -> NodeView
    decreases node,
{
    NodeView {
        ty: node.ty,
        variant: node.variant,
        scalar: node.scalar,
        fields: Seq::new(
            node.fields@.len(),
            |i: int|
                if 0 <= i < node.fields@.len() {
                    model(node.fields@[i])
                } else {
                    arbitrary()
                },
        ),
    }
}

impl DeepView for Node {
    type V = NodeView;

    open spec fn deep_view(&self) -> NodeView {
        model(*self)
    }
}

impl NodeView {
    /// The number of nodes on the longest way from this node down to a leaf.
    pub open spec fn height(self) -> nat
        decreases self,
    {
        1 + tallest(self.fields, self.fields.len() as int)
    }

    /// This node with the sub-value at position `k` replaced by `child`.
    pub open spec fn with_field(self, k: int, child: NodeView) -> NodeView {
        NodeView {
            ty: self.ty,
            variant: self.variant,
            scalar: self.scalar,
            fields: self.fields.update(k, child),
        }
    }
}

/// The greatest height among the first `n` of `nodes`, 0 where there is none.
pub open spec fn tallest(nodes: Seq<NodeView>, n: int) -> nat
    decreases nodes, n,
{
    if n <= 0 || n > nodes.len() {
        0
    } else {
        let last = nodes[n - 1].height();
        let rest = tallest(nodes, n - 1);
        if last > rest {
            last
        } else {
            rest
        }
    }
}

/// None of the first `n` nodes is higher than the tallest of them.
pub proof fn lemma_tallest_bounds(nodes: Seq<NodeView>, n: int, k: int)
    requires
        0 <= k < n <= nodes.len(),
    ensures
        nodes[k].height() <= tallest(nodes, n),
    decreases n,
{
    if k < n - 1 {
        lemma_tallest_bounds(nodes, n - 1, k);
    }
}

/// Where no node of one list is higher than the node at its position in
/// another, the tallest of the first is not higher than that of the second.
pub proof fn lemma_tallest_monotone(a: Seq<NodeView>, b: Seq<NodeView>, n: int)
    requires
        a.len() == b.len(),
        0 <= n <= a.len(),
        forall|k: int| 0 <= k < n ==> a[k].height() <= b[k].height(),
    ensures
        tallest(a, n) <= tallest(b, n),
    decreases n,
{
    if n > 0 {
        lemma_tallest_monotone(a, b, n - 1);
    }
}

/// A sub-value is lower than the node that holds it.
pub proof fn lemma_child_lower(node: NodeView, k: int)
    requires
        0 <= k < node.fields.len(),
    ensures
        node.fields[k].height() < node.height(),
{
    lemma_tallest_bounds(node.fields, node.fields.len() as int, k);
}

/// Replacing a sub-value by one that is not higher does not make the node
/// higher.
pub proof fn lemma_replace_not_higher(node: NodeView, k: int, child: NodeView)
    requires
        0 <= k < node.fields.len(),
        child.height() <= node.fields[k].height(),
    ensures
        node.with_field(k, child).height() <= node.height(),
{
    lemma_tallest_monotone(
        node.fields.update(k, child),
        node.fields,
        node.fields.len() as int,
    );
}

impl Node {
    /// A copy of this node and of everything below it.
    pub fn duplicate(&self) -> (copy: Node)
        ensures
            copy.deep_view() == self.deep_view(),
        decreases self,
    {
        let mut fields: Vec<Node> = Vec::new();
        let mut i: usize = 0;
        while i < self.fields.len()
            invariant
                i <= self.fields.len(),
                fields.len() == i,
                forall|j: int| 0 <= j < i ==> fields@[j].deep_view() == self.fields@[j].deep_view(),
            decreases self.fields.len() - i,
        {
            fields.push(self.fields[i].duplicate());
            i = i + 1;
        }
        let copy = Node { ty: self.ty, variant: self.variant, scalar: self.scalar, fields };
        assert(copy.deep_view().fields =~= self.deep_view().fields);
        copy
    }

    /// A leaf of the type `ty` with the content `scalar`.
    pub fn leaf(ty: u64, scalar: i64) -> (node: Node)
        ensures
            node.deep_view() == (NodeView { ty, variant: 0, scalar, fields: Seq::empty() }),
    {
        let node = Node { ty, variant: 0, scalar, fields: Vec::new() };
        assert(node.deep_view().fields =~= Seq::<NodeView>::empty());
        node
    }

    /// A record of the type `ty` with the sub-values `fields`.
    pub fn record(ty: u64, fields: Vec<Node>) -> (node: Node)
        ensures
            node.deep_view().ty == ty,
            node.deep_view().variant == 0,
            node.deep_view().scalar == 0,
            node.deep_view().fields == fields.deep_view(),
    {
        let ghost views = fields.deep_view();
        let node = Node { ty, variant: 0, scalar: 0, fields };
        node
    }

    /// A value of the sum type `ty` that holds the variant at position
    /// `variant` with the sub-values `fields`.
    pub fn of_variant(ty: u64, variant: usize, fields: Vec<Node>) -> (node: Node)
        ensures
            node.deep_view().ty == ty,
            node.deep_view().variant == variant,
            node.deep_view().scalar == 0,
            node.deep_view().fields == fields.deep_view(),
    {
        let ghost views = fields.deep_view();
        let node = Node { ty, variant, scalar: 0, fields };
        node
    }
}

} // verus!
