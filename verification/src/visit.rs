//! The dispatch protocol between a traversal and a visitor: hooks around each
//! node, and a signal by which a hook ends the traversal early.

use crate::node::Node;
use crate::node::NodeView;
use core::ops::ControlFlow;
use vstd::prelude::*;

verus! {

/// Whether the visitor is entering or leaving a node.
#[derive(Clone, Copy, Debug, PartialEq, Eq, Structural)]
pub enum Event {
    /// The visitor is entering a node.
    Enter,
    /// The visitor is leaving a node.
    Exit,
}

/// One call of a hook: the event and the node it is called on.
pub struct Hook {
    pub event: Event,
    pub node: NodeView,
}

/// What a hook or a traversal signals: `None` to go on, `Some(b)` to break
/// off with the value `b`.
pub open spec fn signal<B>(flow: ControlFlow<B>) -> Option<B> {
    match flow {
        ControlFlow::Continue(_) => None,
        ControlFlow::Break(b) => Some(b),
    }
}

/// A visitor of read-only traversals.
///
/// [`Visitor::enters`] and [`Visitor::leaves`] say what the hooks can do:
/// which state of the visitor a call can lead to, and with which signal.
pub trait Visitor: Sized {
    /// The value that the visitor breaks off a traversal with.
    type Break;

    /// Whether the visitor is in a state its hooks can be called in. Every
    /// state is one, unless the visitor says otherwise.
    open spec fn valid(self) -> bool {
        true
    }

    /// Whether `enter` on `node` can take the visitor to the state `next`
    /// and signal `out`. Unless the visitor says otherwise, the hook does
    /// nothing and goes on.
    open spec fn enters(self, node: NodeView, next: Self, out: Option<Self::Break>) -> bool {
        next == self && out is None
    }

    /// Whether `leave` on `node` can take the visitor to the state `next`
    /// and signal `out`. Unless the visitor says otherwise, the hook does
    /// nothing and goes on.
    open spec fn leaves(self, node: NodeView, next: Self, out: Option<Self::Break>) -> bool {
        next == self && out is None
    }

    /// Called when the traversal reaches a node, before its sub-values.
    fn enter(&mut self, this: &Node) -> (flow: ControlFlow<Self::Break>)
        requires
            old(self).valid(),
        ensures
            final(self).valid(),
            old(self).enters(this.deep_view(), *final(self), signal(flow)),
    ;

    /// Called when the traversal is done with a node, after its sub-values.
    fn leave(&mut self, this: &Node) -> (flow: ControlFlow<Self::Break>)
        requires
            old(self).valid(),
        ensures
            final(self).valid(),
            old(self).leaves(this.deep_view(), *final(self), signal(flow)),
    ;
}

/// A visitor of mutable traversals: its hooks may rewrite the node they are
/// called on, as long as they do not make it higher.
pub trait VisitorMut: Sized {
    /// The value that the visitor breaks off a traversal with.
    type Break;

    /// Whether the visitor is in a state its hooks can be called in. Every
    /// state is one, unless the visitor says otherwise.
    open spec fn valid(self) -> bool {
        true
    }

    /// Whether `enter_mut` on `node` can take the visitor to the state
    /// `next`, make `changed` of the node and signal `out`. Unless the
    /// visitor says otherwise, the hook does nothing and goes on.
    open spec fn enters_mut(
        self,
        node: NodeView,
        next: Self,
        changed: NodeView,
        out: Option<Self::Break>,
    ) -> bool {
        next == self && changed == node && out is None
    }

    /// Whether `leave_mut` on `node` can take the visitor to the state
    /// `next`, make `changed` of the node and signal `out`. Unless the
    /// visitor says otherwise, the hook does nothing and goes on.
    open spec fn leaves_mut(
        self,
        node: NodeView,
        next: Self,
        changed: NodeView,
        out: Option<Self::Break>,
    ) -> bool {
        next == self && changed == node && out is None
    }

    /// Called when the traversal reaches a node, before its sub-values.
    fn enter_mut(&mut self, this: &mut Node) -> (flow: ControlFlow<Self::Break>)
        requires
            old(self).valid(),
        ensures
            final(self).valid(),
            old(self).enters_mut(
                old(this).deep_view(),
                *final(self),
                final(this).deep_view(),
                signal(flow),
            ),
            final(this).deep_view().height() <= old(this).deep_view().height(),
    ;

    /// Called when the traversal is done with a node, after its sub-values.
    fn leave_mut(&mut self, this: &mut Node) -> (flow: ControlFlow<Self::Break>)
        requires
            old(self).valid(),
        ensures
            final(self).valid(),
            old(self).leaves_mut(
                old(this).deep_view(),
                *final(self),
                final(this).deep_view(),
                signal(flow),
            ),
            final(this).deep_view().height() <= old(this).deep_view().height(),
    ;
}

/// A read-only visitor on a mutable traversal: each node is offered to the
/// read-only hooks through a shared view, and is left as it is.
pub struct Shared<V>(pub V);

impl<V: Visitor> VisitorMut for Shared<V> {
    type Break = V::Break;

    open spec fn valid(self) -> bool {
        self.0.valid()
    }

    open spec fn enters_mut(
        self,
        node: NodeView,
        next: Self,
        changed: NodeView,
        out: Option<V::Break>,
    ) -> bool {
        self.0.enters(node, next.0, out) && changed == node
    }

    open spec fn leaves_mut(
        self,
        node: NodeView,
        next: Self,
        changed: NodeView,
        out: Option<V::Break>,
    ) -> bool {
        self.0.leaves(node, next.0, out) && changed == node
    }

    fn enter_mut(&mut self, this: &mut Node) -> (flow: ControlFlow<V::Break>) {
        self.0.enter(&*this)
    }

    fn leave_mut(&mut self, this: &mut Node) -> (flow: ControlFlow<V::Break>) {
        self.0.leave(&*this)
    }
}

/// Whether the hook call `hook` can take the visitor to the state `next`
/// and signal `out`.
pub open spec fn hooked<V: Visitor>(
    visitor: V,
    hook: Hook,
    next: V,
    out: Option<V::Break>,
) -> bool {
    match hook.event {
        Event::Enter => visitor.enters(hook.node, next, out),
        Event::Exit => visitor.leaves(hook.node, next, out),
    }
}

/// Whether feeding the hook calls `hooks` to the visitor can take it to the
/// state `end` and signal `out`: the calls are made in order up to the
/// first that breaks off, and what that one signals is signalled; where none
/// breaks off, all are made.
pub open spec fn fed<V: Visitor>(
    visitor: V,
    hooks: Seq<Hook>,
    end: V,
    out: Option<V::Break>,
) -> bool
    decreases hooks.len(),
{
    if hooks.len() == 0 {
        end == visitor && out is None
    } else {
        exists|next: V, o: Option<V::Break>| #[trigger]
            hooked(visitor, hooks[0], next, o) && if o is Some {
                end == next && out == o
            } else {
                fed(next, hooks.drop_first(), end, out)
            }
    }
}

/// Feeding one hook call is making that call.
pub proof fn lemma_fed_one<V: Visitor>(visitor: V, hook: Hook, end: V, out: Option<V::Break>)
    ensures
        fed(visitor, seq![hook], end, out) <==> hooked(visitor, hook, end, out),
{
    let one = seq![hook];
    assert(one.drop_first() =~= Seq::<Hook>::empty());
    if hooked(visitor, hook, end, out) {
        assert(hooked(visitor, one[0], end, out));
        if out is None {
            assert(fed(end, one.drop_first(), end, out));
        }
    }
    if fed(visitor, one, end, out) {
        let (next, o) = choose|next: V, o: Option<V::Break>| #[trigger]
            hooked(visitor, one[0], next, o) && if o is Some {
                end == next && out == o
            } else {
                fed(next, one.drop_first(), end, out)
            };
        assert(end == next && out == o);
    }
}

/// Where feeding `a` goes on and leaves the visitor at `mid`, and feeding
/// `b` from there ends at `end` with `out`, feeding `a` and then `b` ends
/// at `end` with `out`.
pub proof fn lemma_fed_concat<V: Visitor>(
    visitor: V,
    a: Seq<Hook>,
    mid: V,
    b: Seq<Hook>,
    end: V,
    out: Option<V::Break>,
)
    requires
        fed(visitor, a, mid, None),
        fed(mid, b, end, out),
    ensures
        fed(visitor, a + b, end, out),
    decreases a.len(),
{
    if a.len() == 0 {
        assert(a + b =~= b);
    } else {
        let (next, o) = choose|next: V, o: Option<V::Break>| #[trigger]
            hooked(visitor, a[0], next, o) && if o is Some {
                mid == next && None::<V::Break> == o
            } else {
                fed(next, a.drop_first(), mid, None)
            };
        lemma_fed_concat(next, a.drop_first(), mid, b, end, out);
        assert((a + b).drop_first() =~= a.drop_first() + b);
        assert(hooked(visitor, (a + b)[0], next, o));
    }
}

/// Where feeding `a` breaks off, feeding `a` and then `b` breaks off in the
/// same way: no call of `b` is made.
pub proof fn lemma_fed_break<V: Visitor>(
    visitor: V,
    a: Seq<Hook>,
    b: Seq<Hook>,
    end: V,
    out: Option<V::Break>,
)
    requires
        fed(visitor, a, end, out),
        out is Some,
    ensures
        fed(visitor, a + b, end, out),
    decreases a.len(),
{
    if a.len() > 0 {
        let (next, o) = choose|next: V, o: Option<V::Break>| #[trigger]
            hooked(visitor, a[0], next, o) && if o is Some {
                end == next && out == o
            } else {
                fed(next, a.drop_first(), end, out)
            };
        if o is None {
            lemma_fed_break(next, a.drop_first(), b, end, out);
        }
        assert((a + b)[0] == a[0]);
        assert((a + b).drop_first() =~= a.drop_first() + b);
    }
}

/// Feeding `a` and then `b` either breaks off within `a`, or goes through
/// `a` and does from there what feeding `b` does.
pub proof fn lemma_fed_split<V: Visitor>(
    visitor: V,
    a: Seq<Hook>,
    b: Seq<Hook>,
    end: V,
    out: Option<V::Break>,
)
    requires
        fed(visitor, a + b, end, out),
    ensures
        (out is Some && fed(visitor, a, end, out)) || exists|mid: V| #[trigger]
            fed(visitor, a, mid, None) && fed(mid, b, end, out),
    decreases a.len(),
{
    if a.len() == 0 {
        assert(a + b =~= b);
        assert(fed(visitor, a, visitor, None));
    } else {
        assert((a + b).drop_first() =~= a.drop_first() + b);
        let (next, o) = choose|next: V, o: Option<V::Break>| #[trigger]
            hooked(visitor, (a + b)[0], next, o) && if o is Some {
                end == next && out == o
            } else {
                fed(next, (a + b).drop_first(), end, out)
            };
        assert(hooked(visitor, a[0], next, o));
        if o is None {
            lemma_fed_split(next, a.drop_first(), b, end, out);
            if !(out is Some && fed(next, a.drop_first(), end, out)) {
                let mid = choose|mid: V| #[trigger]
                    fed(next, a.drop_first(), mid, None) && fed(mid, b, end, out);
                assert(fed(visitor, a, mid, None));
            }
        }
    }
}

} // verus!
