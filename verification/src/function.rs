//! Visitors made of functions or closures: the hooks act on the nodes of one
//! type and pass every other node by.

use crate::node::Node;
use crate::node::NodeView;
use crate::visit::fed;
use crate::visit::hooked;
use crate::visit::signal;
use crate::visit::Event;
use crate::visit::Hook;
use crate::visit::Visitor;
use crate::visit::VisitorMut;
use core::marker::PhantomData;
use core::ops::ControlFlow;
use vstd::prelude::*;

verus! {

/// A visitor that calls one function on entering and one on leaving the
/// nodes of a single type. Made by [`make_visitor`] and its relatives.
pub struct FnVisitor<B, F1, F2> {
    ty: u64,
    enter: Option<F1>,
    leave: Option<F2>,
    marker: PhantomData<B>,
}

impl<B, F1, F2> FnVisitor<B, F1, F2> {
    /// The identity of the type whose nodes the visitor acts on.
    pub closed spec fn ty(self) -> u64 {
        self.ty
    }

    /// The function that is called on entering a node, if there is one.
    pub closed spec fn on_enter(self) -> Option<F1> {
        self.enter
    }

    /// The function that is called on leaving a node, if there is one.
    pub closed spec fn on_leave(self) -> Option<F2> {
        self.leave
    }
}

/// Whether `f` can be called on every node.
pub open spec fn callable<B, F: Fn(&Node) -> ControlFlow<B>>(f: F) -> bool {
    forall|n: Node| call_requires(f, (&n,))
}

/// Whether `f` can signal `out` on a node that stands for the tree `node`.
pub open spec fn signals<B, F: Fn(&Node) -> ControlFlow<B>>(
    f: F,
    node: NodeView,
    out: Option<B>,
) -> bool {
    exists|n: Node, r: ControlFlow<B>|
        n.deep_view() == node && #[trigger] call_ensures(f, (&n,), r) && signal(r) == out
}

/// Whether the function `hook`, if there is one, can signal `out` on a node
/// of the type `ty`; on every other node, and without a function, the
/// visitor goes on.
pub open spec fn filtered<B, F: Fn(&Node) -> ControlFlow<B>>(
    ty: u64,
    hook: Option<F>,
    node: NodeView,
    out: Option<B>,
) -> bool {
    match hook {
        Some(f) => if node.ty == ty {
            signals(f, node, out)
        } else {
            out is None
        },
        None => out is None,
    }
}

fn call_filtered<B, F: Fn(&Node) -> ControlFlow<B>>(
    ty: u64,
    hook: &Option<F>,
    this: &Node,
) -> (flow: ControlFlow<B>)
    requires
        hook matches Some(f) ==> callable(*f),
    ensures
        filtered(ty, *hook, this.deep_view(), signal(flow)),
{
    match hook {
        Some(f) => {
            if this.ty == ty {
                let flow = f(this);
                flow
            } else {
                ControlFlow::Continue(())
            }
        },
        None => ControlFlow::Continue(()),
    }
}

impl<B, F1: Fn(&Node) -> ControlFlow<B>, F2: Fn(&Node) -> ControlFlow<B>> Visitor for FnVisitor<
    B,
    F1,
    F2,
> {
    type Break = B;

    open spec fn valid(self) -> bool {
        &&& self.on_enter() matches Some(f) ==> callable(f)
        &&& self.on_leave() matches Some(f) ==> callable(f)
    }

    open spec fn enters(self, node: NodeView, next: Self, out: Option<B>) -> bool {
        next == self && filtered(self.ty(), self.on_enter(), node, out)
    }

    open spec fn leaves(self, node: NodeView, next: Self, out: Option<B>) -> bool {
        next == self && filtered(self.ty(), self.on_leave(), node, out)
    }

    fn enter(&mut self, this: &Node) -> (flow: ControlFlow<B>) {
        call_filtered(self.ty, &self.enter, this)
    }

    fn leave(&mut self, this: &Node) -> (flow: ControlFlow<B>) {
        call_filtered(self.ty, &self.leave, this)
    }
}

/// What a visitor made of functions on read-only nodes does: it is valid
/// where its functions can be called on every node, it stays as it is, and
/// it signals what its function signals on a node of its type.
pub proof fn law_reads<B, F1, F2>(visitor: FnVisitor<B, F1, F2>)
    where
        F1: Fn(&Node) -> ControlFlow<B>,
        F2: Fn(&Node) -> ControlFlow<B>,
    ensures
        visitor.valid() == ((visitor.on_enter() matches Some(f) ==> callable(f)) && (
        visitor.on_leave() matches Some(f) ==> callable(f))),
        forall|node: NodeView, next: FnVisitor<B, F1, F2>, out: Option<B>| #[trigger]
            visitor.enters(node, next, out) == (next == visitor && filtered(
                visitor.ty(),
                visitor.on_enter(),
                node,
                out,
            )),
        forall|node: NodeView, next: FnVisitor<B, F1, F2>, out: Option<B>| #[trigger]
            visitor.leaves(node, next, out) == (next == visitor && filtered(
                visitor.ty(),
                visitor.on_leave(),
                node,
                out,
            )),
{
}

/// Whether the visitor's function for the event of `hook` can signal `out`
/// on the node of `hook`.
pub open spec fn answers<B, F1, F2>(
    ty: u64,
    enter: Option<F1>,
    leave: Option<F2>,
    hook: Hook,
    out: Option<B>,
) -> bool
    where
        F1: Fn(&Node) -> ControlFlow<B>,
        F2: Fn(&Node) -> ControlFlow<B>,
{
    match hook.event {
        Event::Enter => filtered(ty, enter, hook.node, out),
        Event::Exit => filtered(ty, leave, hook.node, out),
    }
}

/// A visitor made of functions stays as it is over a traversal. Of a
/// traversal that has a first hook call, the function for that call gives a
/// signal: where it breaks off, the traversal signals the same; where it
/// goes on, the traversal is that of the remaining calls.
pub proof fn law_first_call<B, F1, F2>(
    visitor: FnVisitor<B, F1, F2>,
    hooks: Seq<Hook>,
    end: FnVisitor<B, F1, F2>,
    out: Option<B>,
)
    where
        F1: Fn(&Node) -> ControlFlow<B>,
        F2: Fn(&Node) -> ControlFlow<B>,
    requires
        fed(visitor, hooks, end, out),
    ensures
        end == visitor,
        hooks.len() == 0 ==> out is None,
        hooks.len() > 0 ==> exists|o: Option<B>| #[trigger]
            answers(visitor.ty(), visitor.on_enter(), visitor.on_leave(), hooks[0], o) && if o
                is Some {
                out == o
            } else {
                fed(visitor, hooks.drop_first(), end, out)
            },
    decreases hooks.len(),
{
    if hooks.len() > 0 {
        let (next, o) = choose|next: FnVisitor<B, F1, F2>, o: Option<B>| #[trigger]
            hooked(visitor, hooks[0], next, o) && if o is Some {
                end == next && out == o
            } else {
                fed(next, hooks.drop_first(), end, out)
            };
        assert(answers(visitor.ty(), visitor.on_enter(), visitor.on_leave(), hooks[0], o));
        if o is None {
            law_first_call(next, hooks.drop_first(), end, out);
        }
    }
}

/// Whether `f` can be called on every node and makes no node higher.
pub open spec fn callable_mut<B, F: Fn(Node) -> (Node, ControlFlow<B>)>(f: F) -> bool {
    &&& forall|n: Node| call_requires(f, (n,))
    &&& forall|n: Node, r: (Node, ControlFlow<B>)| #[trigger]
        call_ensures(f, (n,), r) ==> r.0.deep_view().height() <= n.deep_view().height()
}

/// Whether `f` can make `changed` of a node that stands for the tree `node`
/// and signal `out`.
pub open spec fn rewrites<B, F: Fn(Node) -> (Node, ControlFlow<B>)>(
    f: F,
    node: NodeView,
    changed: NodeView,
    out: Option<B>,
) -> bool {
    exists|n: Node, r: (Node, ControlFlow<B>)|
        n.deep_view() == node && #[trigger] call_ensures(f, (n,), r) && r.0.deep_view() == changed
            && signal(r.1) == out
}

/// Whether the function `hook`, if there is one, can make `changed` of a
/// node of the type `ty` and signal `out`; every other node, and every node
/// without a function, is left as it is, and the visitor goes on.
pub open spec fn filtered_mut<B, F: Fn(Node) -> (Node, ControlFlow<B>)>(
    ty: u64,
    hook: Option<F>,
    node: NodeView,
    changed: NodeView,
    out: Option<B>,
) -> bool {
    match hook {
        Some(f) => if node.ty == ty {
            rewrites(f, node, changed, out)
        } else {
            changed == node && out is None
        },
        None => changed == node && out is None,
    }
}

fn call_filtered_mut<B, F: Fn(Node) -> (Node, ControlFlow<B>)>(
    ty: u64,
    hook: &Option<F>,
    this: &mut Node,
) -> (flow: ControlFlow<B>)
    requires
        hook matches Some(f) ==> callable_mut(*f),
    ensures
        filtered_mut(ty, *hook, old(this).deep_view(), final(this).deep_view(), signal(flow)),
        final(this).deep_view().height() <= old(this).deep_view().height(),
{
    match hook {
        Some(f) => {
            if this.ty == ty {
                let mut taken = Node::leaf(0, 0);
                core::mem::swap(this, &mut taken);
                let (node, flow) = f(taken);
                *this = node;
                flow
            } else {
                ControlFlow::Continue(())
            }
        },
        None => ControlFlow::Continue(()),
    }
}

impl<
    B,
    F1: Fn(Node) -> (Node, ControlFlow<B>),
    F2: Fn(Node) -> (Node, ControlFlow<B>),
> VisitorMut for FnVisitor<B, F1, F2> {
    type Break = B;

    open spec fn valid(self) -> bool {
        &&& self.on_enter() matches Some(f) ==> callable_mut(f)
        &&& self.on_leave() matches Some(f) ==> callable_mut(f)
    }

    open spec fn enters_mut(
        self,
        node: NodeView,
        next: Self,
        changed: NodeView,
        out: Option<B>,
    ) -> bool {
        next == self && filtered_mut(self.ty(), self.on_enter(), node, changed, out)
    }

    open spec fn leaves_mut(
        self,
        node: NodeView,
        next: Self,
        changed: NodeView,
        out: Option<B>,
    ) -> bool {
        next == self && filtered_mut(self.ty(), self.on_leave(), node, changed, out)
    }

    fn enter_mut(&mut self, this: &mut Node) -> (flow: ControlFlow<B>) {
        call_filtered_mut(self.ty, &self.enter, this)
    }

    fn leave_mut(&mut self, this: &mut Node) -> (flow: ControlFlow<B>) {
        call_filtered_mut(self.ty, &self.leave, this)
    }
}

/// What a visitor made of functions that rewrite nodes does: it is valid
/// where its functions can be called on every node and make no node higher,
/// it stays as it is, and it makes of a node of its type, and signals, what
/// its function does.
pub proof fn law_rewrites<B, F1, F2>(visitor: FnVisitor<B, F1, F2>)
    where
        F1: Fn(Node) -> (Node, ControlFlow<B>),
        F2: Fn(Node) -> (Node, ControlFlow<B>),
    ensures
        visitor.valid() == ((visitor.on_enter() matches Some(f) ==> callable_mut(f)) && (
        visitor.on_leave() matches Some(f) ==> callable_mut(f))),
        forall|node: NodeView, next: FnVisitor<B, F1, F2>, changed: NodeView, out: Option<B>|
            #[trigger] visitor.enters_mut(node, next, changed, out) == (next == visitor
                && filtered_mut(visitor.ty(), visitor.on_enter(), node, changed, out)),
        forall|node: NodeView, next: FnVisitor<B, F1, F2>, changed: NodeView, out: Option<B>|
            #[trigger] visitor.leaves_mut(node, next, changed, out) == (next == visitor
                && filtered_mut(visitor.ty(), visitor.on_leave(), node, changed, out)),
{
}

/// Makes a visitor that calls `enter` on entering and `leave` on leaving
/// every node of the type `ty`, and passes every other node by.
pub fn make_visitor<B, F1, F2>(ty: u64, enter: F1, leave: F2) -> (visitor: FnVisitor<B, F1, F2>)
    where
        F1: Fn(&Node) -> ControlFlow<B>,
        F2: Fn(&Node) -> ControlFlow<B>,
    ensures
        visitor.ty() == ty,
        visitor.on_enter() == Some(enter),
        visitor.on_leave() == Some(leave),
{
    FnVisitor { ty, enter: Some(enter), leave: Some(leave), marker: PhantomData }
}

/// Makes a visitor of mutable traversals that calls `enter` on entering and
/// `leave` on leaving every node of the type `ty`; each function takes the
/// node and hands back what it has made of it.
pub fn make_visitor_mut<B, F1, F2>(ty: u64, enter: F1, leave: F2) -> (visitor: FnVisitor<B, F1, F2>)
    where
        F1: Fn(Node) -> (Node, ControlFlow<B>),
        F2: Fn(Node) -> (Node, ControlFlow<B>),
    ensures
        visitor.ty() == ty,
        visitor.on_enter() == Some(enter),
        visitor.on_leave() == Some(leave),
{
    FnVisitor { ty, enter: Some(enter), leave: Some(leave), marker: PhantomData }
}

/// Makes a visitor of the nodes of the type `ty` from a pair of functions;
/// the same as [`make_visitor`].
pub fn visitor_fn<B, F1, F2>(ty: u64, enter: F1, leave: F2) -> (visitor: FnVisitor<B, F1, F2>)
    where
        F1: Fn(&Node) -> ControlFlow<B>,
        F2: Fn(&Node) -> ControlFlow<B>,
    ensures
        visitor.ty() == ty,
        visitor.on_enter() == Some(enter),
        visitor.on_leave() == Some(leave),
{
    make_visitor(ty, enter, leave)
}

/// Makes a visitor that calls `enter` on entering every node of the type
/// `ty` and does nothing on leaving.
pub fn visitor_enter_fn<B, F>(ty: u64, enter: F) -> (visitor: FnVisitor<B, F, F>)
    where
        F: Fn(&Node) -> ControlFlow<B>,
    ensures
        visitor.ty() == ty,
        visitor.on_enter() == Some(enter),
        visitor.on_leave() is None,
{
    FnVisitor { ty, enter: Some(enter), leave: None, marker: PhantomData }
}

/// Makes a visitor that calls `leave` on leaving every node of the type `ty`
/// and does nothing on entering.
pub fn visitor_leave_fn<B, F>(ty: u64, leave: F) -> (visitor: FnVisitor<B, F, F>)
    where
        F: Fn(&Node) -> ControlFlow<B>,
    ensures
        visitor.ty() == ty,
        visitor.on_enter() is None,
        visitor.on_leave() == Some(leave),
{
    FnVisitor { ty, enter: None, leave: Some(leave), marker: PhantomData }
}

/// Another name for [`visitor_leave_fn`].
pub fn visitor_exit_fn<B, F>(ty: u64, leave: F) -> (visitor: FnVisitor<B, F, F>)
    where
        F: Fn(&Node) -> ControlFlow<B>,
    ensures
        visitor.ty() == ty,
        visitor.on_enter() is None,
        visitor.on_leave() == Some(leave),
{
    visitor_leave_fn(ty, leave)
}

/// Makes a visitor of mutable traversals from a pair of functions; the same
/// as [`make_visitor_mut`].
pub fn visitor_fn_mut<B, F1, F2>(ty: u64, enter: F1, leave: F2) -> (visitor: FnVisitor<B, F1, F2>)
    where
        F1: Fn(Node) -> (Node, ControlFlow<B>),
        F2: Fn(Node) -> (Node, ControlFlow<B>),
    ensures
        visitor.ty() == ty,
        visitor.on_enter() == Some(enter),
        visitor.on_leave() == Some(leave),
{
    make_visitor_mut(ty, enter, leave)
}

/// Makes a visitor of mutable traversals that calls `enter` on entering
/// every node of the type `ty` and does nothing on leaving.
pub fn visitor_enter_fn_mut<B, F>(ty: u64, enter: F) -> (visitor: FnVisitor<B, F, F>)
    where
        F: Fn(Node) -> (Node, ControlFlow<B>),
    ensures
        visitor.ty() == ty,
        visitor.on_enter() == Some(enter),
        visitor.on_leave() is None,
{
    FnVisitor { ty, enter: Some(enter), leave: None, marker: PhantomData }
}

/// Makes a visitor of mutable traversals that calls `leave` on leaving
/// every node of the type `ty` and does nothing on entering.
pub fn visitor_leave_fn_mut<B, F>(ty: u64, leave: F) -> (visitor: FnVisitor<B, F, F>)
    where
        F: Fn(Node) -> (Node, ControlFlow<B>),
    ensures
        visitor.ty() == ty,
        visitor.on_enter() is None,
        visitor.on_leave() == Some(leave),
{
    FnVisitor { ty, enter: None, leave: Some(leave), marker: PhantomData }
}

/// Another name for [`visitor_leave_fn_mut`].
pub fn visitor_exit_fn_mut<B, F>(ty: u64, leave: F) -> (visitor: FnVisitor<B, F, F>)
    where
        F: Fn(Node) -> (Node, ControlFlow<B>),
    ensures
        visitor.ty() == ty,
        visitor.on_enter() is None,
        visitor.on_leave() == Some(leave),
{
    visitor_leave_fn_mut(ty, leave)
}

} // verus!
