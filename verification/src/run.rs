//! Read-only traversal: running the rules of a schema over a value.

use crate::node::Node;
use crate::node::NodeView;
use crate::routine::Arm;
use crate::routine::Body;
use crate::routine::Step;
use crate::routine::Via;
use crate::schema::Rule;
use crate::schema::Schema;
use crate::visit::fed;
use crate::visit::lemma_fed_break;
use crate::visit::lemma_fed_concat;
use crate::visit::lemma_fed_one;
use crate::visit::signal;
use crate::visit::Event;
use crate::visit::Hook;
use crate::visit::Visitor;
use core::ops::ControlFlow;
use vstd::prelude::*;

verus! {

/// The call of the enter hook on `node`.
pub open spec fn enter_hook(node: NodeView) -> Hook {
    Hook { event: Event::Enter, node }
}

/// The call of the leave hook on `node`.
pub open spec fn exit_hook(node: NodeView) -> Hook {
    Hook { event: Event::Exit, node }
}

/// The position of the first case from `from` on that is for the variant at
/// position `variant`, or the number of cases where there is none.
pub open spec fn arm_index(arms: Seq<Arm>, variant: usize, from: int) -> int
    decreases arms.len() - from,
{
    if from < 0 || from >= arms.len() {
        arms.len() as int
    } else if arms[from].variant == variant {
        from
    } else {
        arm_index(arms, variant, from + 1)
    }
}

/// The hook calls of the traversal of `node` by the function that `via`
/// names: the rule of the node's own type, or the function at a path. A
/// function that the schema does not have visits nothing.
pub open spec fn via_hooks(schema: Schema, via: Via, node: NodeView) -> Seq<Hook>
    decreases node, 5int, 0int,
{
    match via {
        Via::Default => typed_hooks(schema, node),
        Via::Custom(path) => match schema.function_rule(path@) {
            Some(rule) => hooks(schema, rule, node),
            None => Seq::empty(),
        },
    }
}

/// The hook calls of the traversal of `node` by the rule of its type. A
/// value of a type without a rule is not traversed.
pub open spec fn typed_hooks(schema: Schema, node: NodeView) -> Seq<Hook>
    decreases node, 4int, 0int,
{
    match schema.type_rule(node.ty) {
        Some(rule) => hooks(schema, rule, node),
        None => Seq::empty(),
    }
}

/// The hook calls of the traversal of `node` by `rule`, in the order in
/// which they are made where no hook breaks off.
pub open spec fn hooks(schema: Schema, rule: Rule, node: NodeView) -> Seq<Hook>
    decreases node, 3int, 0int,
{
    match rule {
        Rule::Blank => Seq::empty(),
        Rule::Trivial => seq![enter_hook(node), exit_hook(node)],
        Rule::Each => each_hooks(schema, node, 0),
        Rule::Derived(routine) => if routine.visit_self {
            seq![enter_hook(node)] + body_hooks(schema, routine.body, node) + seq![
                exit_hook(node),
            ]
        } else {
            body_hooks(schema, routine.body, node)
        },
    }
}

/// The hook calls between the hooks on the node itself: those of the steps
/// of a record, or those of the case of the variant that the node holds.
pub open spec fn body_hooks(schema: Schema, body: Body, node: NodeView) -> Seq<Hook>
    decreases node, 2int, 0int,
{
    match body {
        Body::Record(steps) => steps_hooks(schema, steps@, node, 0),
        Body::Sum(arms) => {
            let at = arm_index(arms@, node.variant, 0);
            if at < arms@.len() {
                steps_hooks(schema, arms@[at].steps@, node, 0)
            } else {
                Seq::empty()
            }
        },
    }
}

/// The hook calls of the steps from position `i` on, one step after the
/// other.
pub open spec fn steps_hooks(schema: Schema, steps: Seq<Step>, node: NodeView, i: int) -> Seq<
    Hook,
>
    decreases node, 1int, steps.len() - i,
{
    if i < 0 || i >= steps.len() {
        Seq::empty()
    } else {
        step_hooks(schema, steps[i], node) + steps_hooks(schema, steps, node, i + 1)
    }
}

/// The hook calls of one step: the traversal of the sub-value at the step's
/// position. A node without a sub-value at that position has nothing to
/// traverse there.
pub open spec fn step_hooks(schema: Schema, step: Step, node: NodeView) -> Seq<Hook>
    decreases node, 0int, 0int,
{
    if step.field < node.fields.len() {
        via_hooks(schema, step.via, node.fields[step.field as int])
    } else {
        Seq::empty()
    }
}

/// The hook calls of the traversal of the sub-values from position `i` on,
/// each by the rule of its type.
pub open spec fn each_hooks(schema: Schema, node: NodeView, i: int) -> Seq<Hook>
    decreases node, 1int, node.fields.len() - i,
{
    if i < 0 || i >= node.fields.len() {
        Seq::empty()
    } else {
        typed_hooks(schema, node.fields[i]) + each_hooks(schema, node, i + 1)
    }
}

/// Traverses `node` by the function that `via` names.
pub fn walk_via<V: Visitor>(schema: &Schema, via: &Via, node: &Node, visitor: &mut V) -> (flow:
    ControlFlow<V::Break>)
    requires
        old(visitor).valid(),
    ensures
        final(visitor).valid(),
        fed(
            *old(visitor),
            via_hooks(*schema, *via, node.deep_view()),
            *final(visitor),
            signal(flow),
        ),
    decreases node, 5int, 0int,
{
    match via {
        Via::Default => walk_typed(schema, node, visitor),
        Via::Custom(path) => match schema.function_for(path) {
            Some(rule) => walk(schema, rule, node, visitor),
            None => ControlFlow::Continue(()),
        },
    }
}

/// Traverses `node` by the rule of its type.
pub fn walk_typed<V: Visitor>(schema: &Schema, node: &Node, visitor: &mut V) -> (flow: ControlFlow<
    V::Break,
>)
    requires
        old(visitor).valid(),
    ensures
        final(visitor).valid(),
        fed(
            *old(visitor),
            typed_hooks(*schema, node.deep_view()),
            *final(visitor),
            signal(flow),
        ),
    decreases node, 4int, 0int,
{
    match schema.rule_for(node.ty) {
        Some(rule) => walk(schema, rule, node, visitor),
        None => ControlFlow::Continue(()),
    }
}

/// Traverses `node` by `rule`.
///
/// The visitor is fed the hook calls of the traversal in order. The first
/// hook that breaks off ends the traversal: no further hook is called, and
/// the value it broke off with is returned as it is.
pub fn walk<V: Visitor>(schema: &Schema, rule: &Rule, node: &Node, visitor: &mut V) -> (flow:
    ControlFlow<V::Break>)
    requires
        old(visitor).valid(),
    ensures
        final(visitor).valid(),
        fed(
            *old(visitor),
            hooks(*schema, *rule, node.deep_view()),
            *final(visitor),
            signal(flow),
        ),
    decreases node, 3int, 0int,
{
    let ghost start = *visitor;
    let ghost view = node.deep_view();
    match rule {
        Rule::Blank => ControlFlow::Continue(()),
        Rule::Trivial => {
            let ghost head = seq![enter_hook(view)];
            let ghost tail = seq![exit_hook(view)];
            assert(head + tail =~= seq![enter_hook(view), exit_hook(view)]);
            let entered = visitor.enter(node);
            let ghost inside = *visitor;
            proof {
                lemma_fed_one(start, enter_hook(view), inside, signal(entered));
            }
            match entered {
                ControlFlow::Break(b) => {
                    proof {
                        lemma_fed_break(start, head, tail, inside, Some(b));
                    }
                    return ControlFlow::Break(b);
                },
                ControlFlow::Continue(_) => {},
            }
            let left = visitor.leave(node);
            proof {
                lemma_fed_one(inside, exit_hook(view), *visitor, signal(left));
                lemma_fed_concat(start, head, inside, tail, *visitor, signal(left));
            }
            left
        },
        Rule::Each => walk_each(schema, node, visitor),
        Rule::Derived(routine) => {
            if routine.visit_self {
                let ghost inner = body_hooks(*schema, routine.body, view);
                let ghost head = seq![enter_hook(view)];
                let ghost tail = seq![exit_hook(view)];
                let entered = visitor.enter(node);
                let ghost inside = *visitor;
                proof {
                    lemma_fed_one(start, enter_hook(view), inside, signal(entered));
                }
                match entered {
                    ControlFlow::Break(b) => {
                        proof {
                            lemma_fed_break(start, head, inner, inside, Some(b));
                            lemma_fed_break(start, head + inner, tail, inside, Some(b));
                        }
                        return ControlFlow::Break(b);
                    },
                    ControlFlow::Continue(_) => {},
                }
                let walked = walk_body(schema, &routine.body, node, visitor);
                let ghost done = *visitor;
                proof {
                    lemma_fed_concat(start, head, inside, inner, done, signal(walked));
                }
                match walked {
                    ControlFlow::Break(b) => {
                        proof {
                            lemma_fed_break(start, head + inner, tail, done, Some(b));
                        }
                        return ControlFlow::Break(b);
                    },
                    ControlFlow::Continue(_) => {},
                }
                let left = visitor.leave(node);
                proof {
                    lemma_fed_one(done, exit_hook(view), *visitor, signal(left));
                    lemma_fed_concat(start, head + inner, done, tail, *visitor, signal(left));
                }
                left
            } else {
                walk_body(schema, &routine.body, node, visitor)
            }
        },
    }
}

/// Runs what a routine does between the hooks on the node itself.
pub fn walk_body<V: Visitor>(schema: &Schema, body: &Body, node: &Node, visitor: &mut V) -> (flow:
    ControlFlow<V::Break>)
    requires
        old(visitor).valid(),
    ensures
        final(visitor).valid(),
        fed(
            *old(visitor),
            body_hooks(*schema, *body, node.deep_view()),
            *final(visitor),
            signal(flow),
        ),
    decreases node, 2int, 0int,
{
    match body {
        Body::Record(steps) => walk_steps(schema, steps, node, visitor),
        Body::Sum(arms) => {
            let mut at: usize = 0;
            while at < arms.len()
                invariant
                    at <= arms.len(),
                    *body == Body::Sum(*arms),
                    *visitor == *old(visitor),
                    visitor.valid(),
                    arm_index(arms@, node.variant, at as int) == arm_index(
                        arms@,
                        node.variant,
                        0,
                    ),
                decreases arms.len() - at,
            {
                if arms[at].variant == node.variant {
                    return walk_steps(schema, &arms[at].steps, node, visitor);
                }
                at = at + 1;
            }
            ControlFlow::Continue(())
        },
    }
}

/// Runs the steps of a routine over `node`, one after the other.
pub fn walk_steps<V: Visitor>(
    schema: &Schema,
    steps: &Vec<Step>,
    node: &Node,
    visitor: &mut V,
) -> (flow: ControlFlow<V::Break>)
    requires
        old(visitor).valid(),
    ensures
        final(visitor).valid(),
        fed(
            *old(visitor),
            steps_hooks(*schema, steps@, node.deep_view(), 0),
            *final(visitor),
            signal(flow),
        ),
    decreases node, 1int, steps.len(),
{
    let ghost start = *visitor;
    let ghost view = node.deep_view();
    let mut i: usize = 0;
    while i < steps.len()
        invariant
            i <= steps.len(),
            view == node.deep_view(),
            start == *old(visitor),
            visitor.valid(),
            forall|end: V, out: Option<V::Break>| #[trigger]
                fed(*visitor, steps_hooks(*schema, steps@, view, i as int), end, out) ==> fed(
                    start,
                    steps_hooks(*schema, steps@, view, 0),
                    end,
                    out,
                ),
        decreases steps.len() - i,
    {
        let ghost here = *visitor;
        let ghost first = step_hooks(*schema, steps@[i as int], view);
        let ghost rest = steps_hooks(*schema, steps@, view, i + 1);
        let flow = walk_step(schema, &steps[i], node, visitor);
        match flow {
            ControlFlow::Break(b) => {
                proof {
                    lemma_fed_break(here, first, rest, *visitor, Some(b));
                    assert(fed(
                        here,
                        steps_hooks(*schema, steps@, view, i as int),
                        *visitor,
                        Some(b),
                    ));
                }
                return ControlFlow::Break(b);
            },
            ControlFlow::Continue(_) => {},
        }
        proof {
            let there = *visitor;
            assert forall|end: V, out: Option<V::Break>| #[trigger]
                fed(there, rest, end, out) implies fed(
                start,
                steps_hooks(*schema, steps@, view, 0),
                end,
                out,
            ) by {
                lemma_fed_concat(here, first, there, rest, end, out);
                assert(fed(here, steps_hooks(*schema, steps@, view, i as int), end, out));
            }
        }
        i = i + 1;
    }
    proof {
        assert(fed(*visitor, steps_hooks(*schema, steps@, view, i as int), *visitor, None));
    }
    ControlFlow::Continue(())
}

/// Runs one step: traverses the sub-value at the step's position.
pub fn walk_step<V: Visitor>(schema: &Schema, step: &Step, node: &Node, visitor: &mut V) -> (flow:
    ControlFlow<V::Break>)
    requires
        old(visitor).valid(),
    ensures
        final(visitor).valid(),
        fed(
            *old(visitor),
            step_hooks(*schema, *step, node.deep_view()),
            *final(visitor),
            signal(flow),
        ),
    decreases node, 0int, 0int,
{
    if step.field < node.fields.len() {
        walk_via(schema, &step.via, &node.fields[step.field], visitor)
    } else {
        ControlFlow::Continue(())
    }
}

/// Traverses every sub-value of `node` in order, each by the rule of its
/// type.
pub fn walk_each<V: Visitor>(schema: &Schema, node: &Node, visitor: &mut V) -> (flow: ControlFlow<
    V::Break,
>)
    requires
        old(visitor).valid(),
    ensures
        final(visitor).valid(),
        fed(
            *old(visitor),
            each_hooks(*schema, node.deep_view(), 0),
            *final(visitor),
            signal(flow),
        ),
    decreases node, 1int, node.fields.len(),
{
    let ghost start = *visitor;
    let ghost view = node.deep_view();
    let mut i: usize = 0;
    while i < node.fields.len()
        invariant
            i <= node.fields.len(),
            view == node.deep_view(),
            start == *old(visitor),
            visitor.valid(),
            forall|end: V, out: Option<V::Break>| #[trigger]
                fed(*visitor, each_hooks(*schema, view, i as int), end, out) ==> fed(
                    start,
                    each_hooks(*schema, view, 0),
                    end,
                    out,
                ),
        decreases node.fields.len() - i,
    {
        let ghost here = *visitor;
        let ghost first = typed_hooks(*schema, view.fields[i as int]);
        let ghost rest = each_hooks(*schema, view, i + 1);
        let flow = walk_typed(schema, &node.fields[i], visitor);
        match flow {
            ControlFlow::Break(b) => {
                proof {
                    lemma_fed_break(here, first, rest, *visitor, Some(b));
                    assert(fed(here, each_hooks(*schema, view, i as int), *visitor, Some(b)));
                }
                return ControlFlow::Break(b);
            },
            ControlFlow::Continue(_) => {},
        }
        proof {
            let there = *visitor;
            assert forall|end: V, out: Option<V::Break>| #[trigger]
                fed(there, rest, end, out) implies fed(
                start,
                each_hooks(*schema, view, 0),
                end,
                out,
            ) by {
                lemma_fed_concat(here, first, there, rest, end, out);
                assert(fed(here, each_hooks(*schema, view, i as int), end, out));
            }
        }
        i = i + 1;
    }
    proof {
        assert(fed(*visitor, each_hooks(*schema, view, i as int), *visitor, None));
    }
    ControlFlow::Continue(())
}

} // verus!
