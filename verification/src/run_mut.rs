//! Mutable traversal: running the rules of a schema over a value that the
//! visitor may rewrite on the way.

use crate::node::lemma_child_lower;
use crate::node::lemma_replace_not_higher;
use crate::node::Node;
use crate::node::NodeView;
use crate::routine::Body;
use crate::routine::Step;
use crate::routine::Via;
use crate::run::arm_index;
use crate::schema::Rule;
use crate::schema::Schema;
use crate::visit::signal;
use crate::visit::VisitorMut;
use core::ops::ControlFlow;
use vstd::prelude::*;

verus! {

/// Whether `enter_mut` on `node` can lead to `end`: the state of the visitor,
/// what has become of the node, and the signal.
pub open spec fn entering<V: VisitorMut>(
    visitor: V,
    node: NodeView,
    end: (V, NodeView, Option<V::Break>),
) -> bool {
    visitor.enters_mut(node, end.0, end.1, end.2)
}

/// Whether `leave_mut` on `node` can lead to `end`.
pub open spec fn leaving<V: VisitorMut>(
    visitor: V,
    node: NodeView,
    end: (V, NodeView, Option<V::Break>),
) -> bool {
    visitor.leaves_mut(node, end.0, end.1, end.2)
}

/// Whether what `end` makes of a node is not higher than `node`.
pub open spec fn settled<V: VisitorMut>(
    end: (V, NodeView, Option<V::Break>),
    node: NodeView,
) -> bool {
    end.1.height() <= node.height()
}

/// Whether the traversal of `node` by the function that `via` names can
/// lead to `end`. A function that the schema does not have does nothing.
pub open spec fn via_ran<V: VisitorMut>(
    schema: Schema,
    via: Via,
    visitor: V,
    node: NodeView,
    end: (V, NodeView, Option<V::Break>),
) -> bool
    decreases node.height(), 5int, 0int,
{
    match via {
        Via::Default => typed_ran(schema, visitor, node, end),
        Via::Custom(path) => match schema.function_rule(path@) {
            Some(rule) => ran(schema, rule, visitor, node, end),
            None => end == (visitor, node, None::<V::Break>),
        },
    }
}

/// Whether the traversal of `node` by the rule of its type can lead to
/// `end`. A value of a type without a rule is not traversed.
pub open spec fn typed_ran<V: VisitorMut>(
    schema: Schema,
    visitor: V,
    node: NodeView,
    end: (V, NodeView, Option<V::Break>),
) -> bool
    decreases node.height(), 4int, 0int,
{
    match schema.type_rule(node.ty) {
        Some(rule) => ran(schema, rule, visitor, node, end),
        None => end == (visitor, node, None::<V::Break>),
    }
}

/// Whether the traversal of `node` by `rule` can lead to `end`: the state of
/// the visitor, what has become of the node, and the signal.
///
/// The enter hook comes first, then the sub-values as the hook has left
/// them, then the leave hook. The first hook that breaks off ends the
/// traversal with what it signalled.
pub open spec fn ran<V: VisitorMut>(
    schema: Schema,
    rule: Rule,
    visitor: V,
    node: NodeView,
    end: (V, NodeView, Option<V::Break>),
) -> bool
    decreases node.height(), 3int, 0int,
{
    match rule {
        Rule::Blank => end == (visitor, node, None::<V::Break>),
        Rule::Trivial => exists|mid: (V, NodeView, Option<V::Break>)| #[trigger]
            entering(visitor, node, mid) && if mid.2 is Some {
                end == mid
            } else {
                leaving(mid.0, mid.1, end)
            },
        Rule::Each => each_ran(schema, visitor, node, 0, end),
        Rule::Derived(routine) => if routine.visit_self {
            exists|mid: (V, NodeView, Option<V::Break>)| #[trigger]
                entering(visitor, node, mid) && settled(mid, node) && if mid.2 is Some {
                    end == mid
                } else {
                    exists|done: (V, NodeView, Option<V::Break>)| #[trigger]
                        settled(done, mid.1) && body_ran(schema, routine.body, mid.0, mid.1, done)
                            && if done.2 is Some {
                            end == done
                        } else {
                            leaving(done.0, done.1, end)
                        }
                }
        } else {
            body_ran(schema, routine.body, visitor, node, end)
        },
    }
}

/// Whether the steps of a record, or the case of the variant that the node
/// holds, can lead to `end`.
pub open spec fn body_ran<V: VisitorMut>(
    schema: Schema,
    body: Body,
    visitor: V,
    node: NodeView,
    end: (V, NodeView, Option<V::Break>),
) -> bool
    decreases node.height(), 2int, 0int,
{
    match body {
        Body::Record(steps) => steps_ran(schema, steps@, visitor, node, 0, end),
        Body::Sum(arms) => {
            let at = arm_index(arms@, node.variant, 0);
            if at < arms@.len() {
                steps_ran(schema, arms@[at].steps@, visitor, node, 0, end)
            } else {
                end == (visitor, node, None::<V::Break>)
            }
        },
    }
}

/// Whether the steps from position `i` on, one after the other and up to
/// the first that breaks off, can lead to `end`.
pub open spec fn steps_ran<V: VisitorMut>(
    schema: Schema,
    steps: Seq<Step>,
    visitor: V,
    node: NodeView,
    i: int,
    end: (V, NodeView, Option<V::Break>),
) -> bool
    decreases node.height(), 1int, steps.len() - i,
{
    if i < 0 || i >= steps.len() {
        end == (visitor, node, None::<V::Break>)
    } else {
        exists|mid: (V, NodeView, Option<V::Break>)| #[trigger]
            settled(mid, node) && step_ran(schema, steps[i], visitor, node, mid) && if mid.2
                is Some {
                end == mid
            } else {
                steps_ran(schema, steps, mid.0, mid.1, i + 1, end)
            }
    }
}

/// Whether one step can lead to `end`: the sub-value at the step's position
/// is traversed, and the node holds what has become of it. A node without a
/// sub-value at that position is left as it is.
pub open spec fn step_ran<V: VisitorMut>(
    schema: Schema,
    step: Step,
    visitor: V,
    node: NodeView,
    end: (V, NodeView, Option<V::Break>),
) -> bool
    decreases node.height(), 0int, 0int,
{
    if step.field < node.fields.len() {
        proof {
            lemma_child_lower(node, step.field as int);
        }
        exists|sub: (V, NodeView, Option<V::Break>)| #[trigger]
            settled(sub, node.fields[step.field as int]) && via_ran(
                schema,
                step.via,
                visitor,
                node.fields[step.field as int],
                sub,
            ) && end == (sub.0, node.with_field(step.field as int, sub.1), sub.2)
    } else {
        end == (visitor, node, None::<V::Break>)
    }
}

/// Whether the traversal of the sub-values from position `i` on, each by
/// the rule of its type, can lead to `end`.
pub open spec fn each_ran<V: VisitorMut>(
    schema: Schema,
    visitor: V,
    node: NodeView,
    i: int,
    end: (V, NodeView, Option<V::Break>),
) -> bool
    decreases node.height(), 1int, node.fields.len() - i,
{
    if i < 0 || i >= node.fields.len() {
        end == (visitor, node, None::<V::Break>)
    } else {
        proof {
            lemma_child_lower(node, i);
        }
        exists|sub: (V, NodeView, Option<V::Break>)| #[trigger]
            settled(sub, node.fields[i]) && typed_ran(schema, visitor, node.fields[i], sub)
                && node.with_field(i, sub.1).height() <= node.height() && if sub.2 is Some {
                end == (sub.0, node.with_field(i, sub.1), sub.2)
            } else {
                each_ran(schema, sub.0, node.with_field(i, sub.1), i + 1, end)
            }
    }
}

/// Traverses `node` by the function that `via` names.
pub fn walk_via_mut<V: VisitorMut>(
    schema: &Schema,
    via: &Via,
    node: &mut Node,
    visitor: &mut V,
) -> (flow: ControlFlow<V::Break>)
    requires
        old(visitor).valid(),
    ensures
        final(visitor).valid(),
        via_ran(
            *schema,
            *via,
            *old(visitor),
            old(node).deep_view(),
            (*final(visitor), final(node).deep_view(), signal(flow)),
        ),
        final(node).deep_view().height() <= old(node).deep_view().height(),
    decreases old(node).deep_view().height(), 5int, 0int,
{
    match via {
        Via::Default => walk_typed_mut(schema, node, visitor),
        Via::Custom(path) => match schema.function_for(path) {
            Some(rule) => walk_mut(schema, rule, node, visitor),
            None => ControlFlow::Continue(()),
        },
    }
}

/// Traverses `node` by the rule of its type.
pub fn walk_typed_mut<V: VisitorMut>(schema: &Schema, node: &mut Node, visitor: &mut V) -> (flow:
    ControlFlow<V::Break>)
    requires
        old(visitor).valid(),
    ensures
        final(visitor).valid(),
        typed_ran(
            *schema,
            *old(visitor),
            old(node).deep_view(),
            (*final(visitor), final(node).deep_view(), signal(flow)),
        ),
        final(node).deep_view().height() <= old(node).deep_view().height(),
    decreases old(node).deep_view().height(), 4int, 0int,
{
    match schema.rule_for(node.ty) {
        Some(rule) => walk_mut(schema, rule, node, visitor),
        None => ControlFlow::Continue(()),
    }
}

/// Traverses `node` by `rule`, letting the visitor rewrite the nodes it is
/// called on.
///
/// The first hook that breaks off ends the traversal: no further hook is
/// called, the value is left as it is at that point, and the value the hook
/// broke off with is returned as it is.
pub fn walk_mut<V: VisitorMut>(
    schema: &Schema,
    rule: &Rule,
    node: &mut Node,
    visitor: &mut V,
) -> (flow: ControlFlow<V::Break>)
    requires
        old(visitor).valid(),
    ensures
        final(visitor).valid(),
        ran(
            *schema,
            *rule,
            *old(visitor),
            old(node).deep_view(),
            (*final(visitor), final(node).deep_view(), signal(flow)),
        ),
        final(node).deep_view().height() <= old(node).deep_view().height(),
    decreases old(node).deep_view().height(), 3int, 0int,
{
    let ghost start = *visitor;
    let ghost view = node.deep_view();
    match rule {
        Rule::Blank => ControlFlow::Continue(()),
        Rule::Trivial => {
            let entered = visitor.enter_mut(node);
            let ghost mid = (*visitor, node.deep_view(), signal(entered));
            assert(entering(start, view, mid));
            match entered {
                ControlFlow::Break(b) => {
                    return ControlFlow::Break(b);
                },
                ControlFlow::Continue(_) => {},
            }
            visitor.leave_mut(node)
        },
        Rule::Each => walk_each_mut(schema, node, visitor),
        Rule::Derived(routine) => {
            if routine.visit_self {
                let entered = visitor.enter_mut(node);
                let ghost mid = (*visitor, node.deep_view(), signal(entered));
                assert(entering(start, view, mid));
                match entered {
                    ControlFlow::Break(b) => {
                        return ControlFlow::Break(b);
                    },
                    ControlFlow::Continue(_) => {},
                }
                let walked = walk_body_mut(schema, &routine.body, node, visitor);
                let ghost done = (*visitor, node.deep_view(), signal(walked));
                assert(settled(done, mid.1));
                match walked {
                    ControlFlow::Break(b) => {
                        return ControlFlow::Break(b);
                    },
                    ControlFlow::Continue(_) => {},
                }
                visitor.leave_mut(node)
            } else {
                walk_body_mut(schema, &routine.body, node, visitor)
            }
        },
    }
}

/// Runs what a routine does between the hooks on the node itself.
pub fn walk_body_mut<V: VisitorMut>(
    schema: &Schema,
    body: &Body,
    node: &mut Node,
    visitor: &mut V,
) -> (flow: ControlFlow<V::Break>)
    requires
        old(visitor).valid(),
    ensures
        final(visitor).valid(),
        body_ran(
            *schema,
            *body,
            *old(visitor),
            old(node).deep_view(),
            (*final(visitor), final(node).deep_view(), signal(flow)),
        ),
        final(node).deep_view().height() <= old(node).deep_view().height(),
    decreases old(node).deep_view().height(), 2int, 0int,
{
    match body {
        Body::Record(steps) => walk_steps_mut(schema, steps, node, visitor),
        Body::Sum(arms) => {
            let mut at: usize = 0;
            while at < arms.len()
                invariant
                    at <= arms.len(),
                    *body == Body::Sum(*arms),
                    *visitor == *old(visitor),
                    *node == *old(node),
                    visitor.valid(),
                    arm_index(arms@, node.variant, at as int) == arm_index(
                        arms@,
                        node.variant,
                        0,
                    ),
                decreases arms.len() - at,
            {
                if arms[at].variant == node.variant {
                    return walk_steps_mut(schema, &arms[at].steps, node, visitor);
                }
                at = at + 1;
            }
            ControlFlow::Continue(())
        },
    }
}

/// Runs the steps of a routine over `node`, one after the other.
pub fn walk_steps_mut<V: VisitorMut>(
    schema: &Schema,
    steps: &Vec<Step>,
    node: &mut Node,
    visitor: &mut V,
) -> (flow: ControlFlow<V::Break>)
    requires
        old(visitor).valid(),
    ensures
        final(visitor).valid(),
        steps_ran(
            *schema,
            steps@,
            *old(visitor),
            old(node).deep_view(),
            0,
            (*final(visitor), final(node).deep_view(), signal(flow)),
        ),
        final(node).deep_view().height() <= old(node).deep_view().height(),
    decreases old(node).deep_view().height(), 1int, steps.len(),
{
    let mut i: usize = 0;
    while i < steps.len()
        invariant
            i <= steps.len(),
            visitor.valid(),
            node.deep_view().height() <= old(node).deep_view().height(),
            forall|end: (V, NodeView, Option<V::Break>)| #[trigger]
                steps_ran(*schema, steps@, *visitor, node.deep_view(), i as int, end)
                    ==> steps_ran(*schema, steps@, *old(visitor), old(node).deep_view(), 0, end),
        decreases steps.len() - i,
    {
        let ghost here = *visitor;
        let ghost view = node.deep_view();
        let flow = walk_step_mut(schema, &steps[i], node, visitor);
        let ghost mid = (*visitor, node.deep_view(), signal(flow));
        assert(settled(mid, view));
        match flow {
            ControlFlow::Break(b) => {
                assert(steps_ran(*schema, steps@, here, view, i as int, mid));
                return ControlFlow::Break(b);
            },
            ControlFlow::Continue(_) => {},
        }
        proof {
            let there = *visitor;
            let after = node.deep_view();
            assert forall|end: (V, NodeView, Option<V::Break>)| #[trigger]
                steps_ran(*schema, steps@, there, after, i + 1, end) implies steps_ran(
                *schema,
                steps@,
                *old(visitor),
                old(node).deep_view(),
                0,
                end,
            ) by {
                assert(steps_ran(*schema, steps@, here, view, i as int, end));
            }
        }
        i = i + 1;
    }
    proof {
        let end = (*visitor, node.deep_view(), None::<V::Break>);
        assert(steps_ran(*schema, steps@, *visitor, node.deep_view(), i as int, end));
    }
    ControlFlow::Continue(())
}

/// Runs one step: traverses the sub-value at the step's position.
pub fn walk_step_mut<V: VisitorMut>(
    schema: &Schema,
    step: &Step,
    node: &mut Node,
    visitor: &mut V,
) -> (flow: ControlFlow<V::Break>)
    requires
        old(visitor).valid(),
    ensures
        final(visitor).valid(),
        step_ran(
            *schema,
            *step,
            *old(visitor),
            old(node).deep_view(),
            (*final(visitor), final(node).deep_view(), signal(flow)),
        ),
        final(node).deep_view().height() <= old(node).deep_view().height(),
    decreases old(node).deep_view().height(), 0int, 0int,
{
    if step.field < node.fields.len() {
        let ghost before = node.deep_view();
        let ghost k = step.field as int;
        proof {
            lemma_child_lower(before, k);
        }
        let child = &mut node.fields[step.field];
        let flow = walk_via_mut(schema, &step.via, child, visitor);
        proof {
            let sub = (*visitor, node.fields@[k].deep_view(), signal(flow));
            assert(settled(sub, before.fields[k]));
            assert(node.deep_view().fields =~= before.fields.update(k, sub.1));
            lemma_replace_not_higher(before, k, sub.1);
        }
        flow
    } else {
        ControlFlow::Continue(())
    }
}

/// Traverses every sub-value of `node` in order, each by the rule of its
/// type.
pub fn walk_each_mut<V: VisitorMut>(schema: &Schema, node: &mut Node, visitor: &mut V) -> (flow:
    ControlFlow<V::Break>)
    requires
        old(visitor).valid(),
    ensures
        final(visitor).valid(),
        each_ran(
            *schema,
            *old(visitor),
            old(node).deep_view(),
            0,
            (*final(visitor), final(node).deep_view(), signal(flow)),
        ),
        final(node).deep_view().height() <= old(node).deep_view().height(),
    decreases old(node).deep_view().height(), 1int, old(node).fields.len(),
{
    let mut i: usize = 0;
    while i < node.fields.len()
        invariant
            i <= node.fields.len(),
            visitor.valid(),
            node.deep_view().height() <= old(node).deep_view().height(),
            forall|end: (V, NodeView, Option<V::Break>)| #[trigger]
                each_ran(*schema, *visitor, node.deep_view(), i as int, end) ==> each_ran(
                    *schema,
                    *old(visitor),
                    old(node).deep_view(),
                    0,
                    end,
                ),
        decreases node.fields.len() - i,
    {
        let ghost here = *visitor;
        let ghost before = node.deep_view();
        let ghost k = i as int;
        proof {
            lemma_child_lower(before, k);
        }
        let child = &mut node.fields[i];
        let flow = walk_typed_mut(schema, child, visitor);
        let ghost sub = (*visitor, node.fields@[k].deep_view(), signal(flow));
        proof {
            assert(settled(sub, before.fields[k]));
            assert(node.deep_view().fields =~= before.fields.update(k, sub.1));
            lemma_replace_not_higher(before, k, sub.1);
        }
        match flow {
            ControlFlow::Break(b) => {
                assert(each_ran(
                    *schema,
                    here,
                    before,
                    k,
                    (*visitor, node.deep_view(), Some(b)),
                ));
                return ControlFlow::Break(b);
            },
            ControlFlow::Continue(_) => {},
        }
        proof {
            let there = *visitor;
            let after = node.deep_view();
            assert forall|end: (V, NodeView, Option<V::Break>)| #[trigger]
                each_ran(*schema, there, after, k + 1, end) implies each_ran(
                *schema,
                *old(visitor),
                old(node).deep_view(),
                0,
                end,
            ) by {
                assert(each_ran(*schema, here, before, k, end));
            }
        }
        i = i + 1;
    }
    proof {
        let end = (*visitor, node.deep_view(), None::<V::Break>);
        assert(each_ran(*schema, *visitor, node.deep_view(), i as int, end));
    }
    ControlFlow::Continue(())
}

} // verus!

