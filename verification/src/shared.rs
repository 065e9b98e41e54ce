//! A read-only visitor on a mutable traversal does what it does on the
//! read-only traversal, and leaves the value as it is.

use crate::node::lemma_child_lower;
use crate::node::NodeView;
use crate::routine::Body;
use crate::routine::Step;
use crate::routine::Via;
use crate::run::arm_index;
use crate::run::body_hooks;
use crate::run::each_hooks;
use crate::run::enter_hook;
use crate::run::exit_hook;
use crate::run::hooks;
use crate::run::step_hooks;
use crate::run::steps_hooks;
use crate::run::typed_hooks;
use crate::run::via_hooks;
use crate::run_mut::body_ran;
use crate::run_mut::each_ran;
use crate::run_mut::entering;
use crate::run_mut::leaving;
use crate::run_mut::ran;
use crate::run_mut::settled;
use crate::run_mut::step_ran;
use crate::run_mut::steps_ran;
use crate::run_mut::typed_ran;
use crate::run_mut::via_ran;
use crate::schema::Rule;
use crate::schema::Schema;
use crate::visit::fed;
use crate::visit::lemma_fed_break;
use crate::visit::lemma_fed_concat;
use crate::visit::lemma_fed_one;
use crate::visit::lemma_fed_split;
use crate::visit::Hook;
use crate::visit::Shared;
use crate::visit::Visitor;
use vstd::prelude::*;

verus! {

/// Whether `end` leaves `node` as it is and is what feeding `hooks` to the
/// read-only visitor can lead to.
pub open spec fn read<V: Visitor>(
    visitor: V,
    node: NodeView,
    hooks: Seq<Hook>,
    end: (Shared<V>, NodeView, Option<V::Break>),
) -> bool {
    end.1 == node && fed(visitor, hooks, end.0.0, end.2)
}

/// A read-only visitor that is shared with the mutable traversal of a value
/// is fed the hook calls of the read-only traversal of the value, and the
/// value is left as it is.
pub proof fn law_shared_traversal<V: Visitor>(
    schema: Schema,
    visitor: V,
    node: NodeView,
    end: (Shared<V>, NodeView, Option<V::Break>),
)
    ensures
        typed_ran(schema, Shared(visitor), node, end) <==> read(
            visitor,
            node,
            typed_hooks(schema, node),
            end,
        ),
    decreases node.height(), 4int, 0int,
{
    match schema.type_rule(node.ty) {
        Some(rule) => {
            lemma_shared_rule(schema, rule, visitor, node, end);
        },
        None => {},
    }
}

/// The same of the traversal by the function that a step names.
pub proof fn lemma_shared_via<V: Visitor>(
    schema: Schema,
    via: Via,
    visitor: V,
    node: NodeView,
    end: (Shared<V>, NodeView, Option<V::Break>),
)
    ensures
        via_ran(schema, via, Shared(visitor), node, end) <==> read(
            visitor,
            node,
            via_hooks(schema, via, node),
            end,
        ),
    decreases node.height(), 5int, 0int,
{
    match via {
        Via::Default => {
            law_shared_traversal(schema, visitor, node, end);
        },
        Via::Custom(path) => match schema.function_rule(path@) {
            Some(rule) => {
                lemma_shared_rule(schema, rule, visitor, node, end);
            },
            None => {},
        },
    }
}

/// The same of the traversal by a rule.
pub proof fn lemma_shared_rule<V: Visitor>(
    schema: Schema,
    rule: Rule,
    visitor: V,
    node: NodeView,
    end: (Shared<V>, NodeView, Option<V::Break>),
)
    ensures
        ran(schema, rule, Shared(visitor), node, end) <==> read(
            visitor,
            node,
            hooks(schema, rule, node),
            end,
        ),
    decreases node.height(), 3int, 0int,
{
    let head = seq![enter_hook(node)];
    let tail = seq![exit_hook(node)];
    match rule {
        Rule::Blank => {},
        Rule::Trivial => {
            assert(head + tail =~= hooks(schema, rule, node));
            if ran(schema, rule, Shared(visitor), node, end) {
                let mid = choose|mid: (Shared<V>, NodeView, Option<V::Break>)| #[trigger]
                    entering(Shared(visitor), node, mid) && if mid.2 is Some {
                        end == mid
                    } else {
                        leaving(mid.0, mid.1, end)
                    };
                lemma_fed_one(visitor, enter_hook(node), mid.0.0, mid.2);
                if mid.2 is Some {
                    lemma_fed_break(visitor, head, tail, mid.0.0, mid.2);
                } else {
                    lemma_fed_one(mid.0.0, exit_hook(node), end.0.0, end.2);
                    lemma_fed_concat(visitor, head, mid.0.0, tail, end.0.0, end.2);
                }
            }
            if read(visitor, node, hooks(schema, rule, node), end) {
                lemma_fed_split(visitor, head, tail, end.0.0, end.2);
                if end.2 is Some && fed(visitor, head, end.0.0, end.2) {
                    lemma_fed_one(visitor, enter_hook(node), end.0.0, end.2);
                    assert(entering(Shared(visitor), node, end));
                } else {
                    let m = choose|m: V| #[trigger]
                        fed(visitor, head, m, None) && fed(m, tail, end.0.0, end.2);
                    lemma_fed_one(visitor, enter_hook(node), m, None);
                    lemma_fed_one(m, exit_hook(node), end.0.0, end.2);
                    let mid = (Shared(m), node, None::<V::Break>);
                    assert(entering(Shared(visitor), node, mid));
                    assert(leaving(mid.0, mid.1, end));
                }
            }
        },
        Rule::Each => {
            lemma_shared_each(schema, visitor, node, 0, end);
        },
        Rule::Derived(routine) => {
            let inner = body_hooks(schema, routine.body, node);
            if routine.visit_self {
                if ran(schema, rule, Shared(visitor), node, end) {
                    let mid = choose|mid: (Shared<V>, NodeView, Option<V::Break>)| #[trigger]
                        entering(Shared(visitor), node, mid) && settled(mid, node) && if mid.2
                            is Some {
                            end == mid
                        } else {
                            exists|done: (Shared<V>, NodeView, Option<V::Break>)| #[trigger]
                                settled(done, mid.1) && body_ran(
                                    schema,
                                    routine.body,
                                    mid.0,
                                    mid.1,
                                    done,
                                ) && if done.2 is Some {
                                    end == done
                                } else {
                                    leaving(done.0, done.1, end)
                                }
                        };
                    lemma_fed_one(visitor, enter_hook(node), mid.0.0, mid.2);
                    if mid.2 is Some {
                        lemma_fed_break(visitor, head, inner, mid.0.0, mid.2);
                        lemma_fed_break(visitor, head + inner, tail, mid.0.0, mid.2);
                    } else {
                        let done = choose|done: (Shared<V>, NodeView, Option<V::Break>)|
                            #[trigger] settled(done, mid.1) && body_ran(
                                schema,
                                routine.body,
                                mid.0,
                                mid.1,
                                done,
                            ) && if done.2 is Some {
                                end == done
                            } else {
                                leaving(done.0, done.1, end)
                            };
                        lemma_shared_body(schema, routine.body, mid.0.0, node, done);
                        lemma_fed_concat(visitor, head, mid.0.0, inner, done.0.0, done.2);
                        if done.2 is Some {
                            lemma_fed_break(visitor, head + inner, tail, done.0.0, done.2);
                        } else {
                            lemma_fed_one(done.0.0, exit_hook(node), end.0.0, end.2);
                            lemma_fed_concat(
                                visitor,
                                head + inner,
                                done.0.0,
                                tail,
                                end.0.0,
                                end.2,
                            );
                        }
                    }
                }
                if read(visitor, node, hooks(schema, rule, node), end) {
                    lemma_fed_split(visitor, head + inner, tail, end.0.0, end.2);
                    if end.2 is Some && fed(visitor, head + inner, end.0.0, end.2) {
                        lemma_fed_split(visitor, head, inner, end.0.0, end.2);
                        if fed(visitor, head, end.0.0, end.2) {
                            lemma_fed_one(visitor, enter_hook(node), end.0.0, end.2);
                            assert(entering(Shared(visitor), node, end));
                        } else {
                            let m = choose|m: V| #[trigger]
                                fed(visitor, head, m, None) && fed(m, inner, end.0.0, end.2);
                            lemma_fed_one(visitor, enter_hook(node), m, None);
                            let mid = (Shared(m), node, None::<V::Break>);
                            lemma_shared_body(schema, routine.body, m, node, end);
                            assert(entering(Shared(visitor), node, mid));
                            assert(settled(end, mid.1));
                        }
                    } else {
                        let d = choose|d: V| #[trigger]
                            fed(visitor, head + inner, d, None) && fed(d, tail, end.0.0, end.2);
                        lemma_fed_split(visitor, head, inner, d, None);
                        let m = choose|m: V| #[trigger]
                            fed(visitor, head, m, None) && fed(m, inner, d, None);
                        lemma_fed_one(visitor, enter_hook(node), m, None);
                        lemma_fed_one(d, exit_hook(node), end.0.0, end.2);
                        let mid = (Shared(m), node, None::<V::Break>);
                        let done = (Shared(d), node, None::<V::Break>);
                        lemma_shared_body(schema, routine.body, m, node, done);
                        assert(entering(Shared(visitor), node, mid));
                        assert(settled(done, mid.1));
                        assert(leaving(done.0, done.1, end));
                    }
                }
            } else {
                lemma_shared_body(schema, routine.body, visitor, node, end);
            }
        },
    }
}

/// The same of what a routine does between the hooks on the node itself.
pub proof fn lemma_shared_body<V: Visitor>(
    schema: Schema,
    body: Body,
    visitor: V,
    node: NodeView,
    end: (Shared<V>, NodeView, Option<V::Break>),
)
    ensures
        body_ran(schema, body, Shared(visitor), node, end) <==> read(
            visitor,
            node,
            body_hooks(schema, body, node),
            end,
        ),
    decreases node.height(), 2int, 0int,
{
    match body {
        Body::Record(steps) => {
            lemma_shared_steps(schema, steps@, visitor, node, 0, end);
        },
        Body::Sum(arms) => {
            let at = arm_index(arms@, node.variant, 0);
            if at < arms@.len() {
                lemma_shared_steps(schema, arms@[at].steps@, visitor, node, 0, end);
            }
        },
    }
}

/// The same of the steps from position `i` on.
pub proof fn lemma_shared_steps<V: Visitor>(
    schema: Schema,
    steps: Seq<Step>,
    visitor: V,
    node: NodeView,
    i: int,
    end: (Shared<V>, NodeView, Option<V::Break>),
)
    ensures
        steps_ran(schema, steps, Shared(visitor), node, i, end) <==> read(
            visitor,
            node,
            steps_hooks(schema, steps, node, i),
            end,
        ),
    decreases node.height(), 1int, steps.len() - i,
{
    if 0 <= i < steps.len() {
        let first = step_hooks(schema, steps[i], node);
        let rest = steps_hooks(schema, steps, node, i + 1);
        if steps_ran(schema, steps, Shared(visitor), node, i, end) {
            let mid = choose|mid: (Shared<V>, NodeView, Option<V::Break>)| #[trigger]
                settled(mid, node) && step_ran(schema, steps[i], Shared(visitor), node, mid)
                    && if mid.2 is Some {
                    end == mid
                } else {
                    steps_ran(schema, steps, mid.0, mid.1, i + 1, end)
                };
            lemma_shared_step(schema, steps[i], visitor, node, mid);
            if mid.2 is Some {
                lemma_fed_break(visitor, first, rest, mid.0.0, mid.2);
            } else {
                lemma_shared_steps(schema, steps, mid.0.0, node, i + 1, end);
                lemma_fed_concat(visitor, first, mid.0.0, rest, end.0.0, end.2);
            }
        }
        if read(visitor, node, steps_hooks(schema, steps, node, i), end) {
            lemma_fed_split(visitor, first, rest, end.0.0, end.2);
            if end.2 is Some && fed(visitor, first, end.0.0, end.2) {
                lemma_shared_step(schema, steps[i], visitor, node, end);
                assert(settled(end, node));
            } else {
                let m = choose|m: V| #[trigger]
                    fed(visitor, first, m, None) && fed(m, rest, end.0.0, end.2);
                let mid = (Shared(m), node, None::<V::Break>);
                lemma_shared_step(schema, steps[i], visitor, node, mid);
                lemma_shared_steps(schema, steps, m, node, i + 1, end);
                assert(settled(mid, node));
            }
        }
    }
}

/// The same of one step.
pub proof fn lemma_shared_step<V: Visitor>(
    schema: Schema,
    step: Step,
    visitor: V,
    node: NodeView,
    end: (Shared<V>, NodeView, Option<V::Break>),
)
    ensures
        step_ran(schema, step, Shared(visitor), node, end) <==> read(
            visitor,
            node,
            step_hooks(schema, step, node),
            end,
        ),
    decreases node.height(), 0int, 0int,
{
    if step.field < node.fields.len() {
        let k = step.field as int;
        let child = node.fields[k];
        lemma_child_lower(node, k);
        assert(node.with_field(k, child).fields =~= node.fields);
        if step_ran(schema, step, Shared(visitor), node, end) {
            let sub = choose|sub: (Shared<V>, NodeView, Option<V::Break>)| #[trigger]
                settled(sub, child) && via_ran(schema, step.via, Shared(visitor), child, sub)
                    && end == (sub.0, node.with_field(k, sub.1), sub.2);
            lemma_shared_via(schema, step.via, visitor, child, sub);
        }
        if read(visitor, node, step_hooks(schema, step, node), end) {
            let sub = (end.0, child, end.2);
            lemma_shared_via(schema, step.via, visitor, child, sub);
            assert(settled(sub, child));
        }
    }
}

/// The same of the traversal of the sub-values from position `i` on.
pub proof fn lemma_shared_each<V: Visitor>(
    schema: Schema,
    visitor: V,
    node: NodeView,
    i: int,
    end: (Shared<V>, NodeView, Option<V::Break>),
)
    ensures
        each_ran(schema, Shared(visitor), node, i, end) <==> read(
            visitor,
            node,
            each_hooks(schema, node, i),
            end,
        ),
    decreases node.height(), 1int, node.fields.len() - i,
{
    if 0 <= i < node.fields.len() {
        let child = node.fields[i];
        let first = typed_hooks(schema, child);
        let rest = each_hooks(schema, node, i + 1);
        lemma_child_lower(node, i);
        assert(node.with_field(i, child).fields =~= node.fields);
        if each_ran(schema, Shared(visitor), node, i, end) {
            let sub = choose|sub: (Shared<V>, NodeView, Option<V::Break>)| #[trigger]
                settled(sub, child) && typed_ran(schema, Shared(visitor), child, sub)
                    && node.with_field(i, sub.1).height() <= node.height() && if sub.2 is Some {
                    end == (sub.0, node.with_field(i, sub.1), sub.2)
                } else {
                    each_ran(schema, sub.0, node.with_field(i, sub.1), i + 1, end)
                };
            law_shared_traversal(schema, visitor, child, sub);
            if sub.2 is Some {
                lemma_fed_break(visitor, first, rest, sub.0.0, sub.2);
            } else {
                lemma_shared_each(schema, sub.0.0, node, i + 1, end);
                lemma_fed_concat(visitor, first, sub.0.0, rest, end.0.0, end.2);
            }
        }
        if read(visitor, node, each_hooks(schema, node, i), end) {
            lemma_fed_split(visitor, first, rest, end.0.0, end.2);
            if end.2 is Some && fed(visitor, first, end.0.0, end.2) {
                let sub = (end.0, child, end.2);
                law_shared_traversal(schema, visitor, child, sub);
                assert(settled(sub, child));
            } else {
                let m = choose|m: V| #[trigger]
                    fed(visitor, first, m, None) && fed(m, rest, end.0.0, end.2);
                let sub = (Shared(m), child, None::<V::Break>);
                law_shared_traversal(schema, visitor, child, sub);
                lemma_shared_each(schema, m, node, i + 1, end);
                assert(settled(sub, child));
            }
        }
    }
}

} // verus!
