//! What holds of synthesis and traversal as a whole.

use crate::error::joined;
use crate::error::ErrorKind;
use crate::error::ErrorView;
use crate::meta::AttributeView;
use crate::meta::MetaView;
use crate::node::NodeView;
use crate::params::allows;
use crate::params::extracted;
use crate::params::next_named;
use crate::params::next_unknown;
use crate::params::params_of_attrs;
use crate::params::validated;
use crate::routine::Arm;
use crate::routine::ArmView;
use crate::routine::Body;
use crate::routine::BodyView;
use crate::routine::Routine;
use crate::routine::RoutineView;
use crate::routine::Step;
use crate::routine::StepView;
use crate::run::arm_index;
use crate::run::body_hooks;
use crate::run::enter_hook;
use crate::run::exit_hook;
use crate::run::hooks;
use crate::run::step_hooks;
use crate::run::steps_hooks;
use crate::run_mut::body_ran;
use crate::run_mut::entering;
use crate::run_mut::ran;
use crate::run_mut::settled;
use crate::run_mut::step_ran;
use crate::run_mut::steps_ran;
use crate::schema::Rule;
use crate::schema::Schema;
use crate::shape::DeclarationView;
use crate::shape::FieldView;
use crate::shape::VariantView;
use crate::synth::arms_of;
use crate::synth::block_name;
use crate::synth::body_of;
use crate::synth::field_allowed;
use crate::synth::field_bound;
use crate::synth::field_step;
use crate::synth::node_allowed;
use crate::synth::routine_of;
use crate::synth::skip_of;
use crate::synth::steps_of;
use crate::synth::variant_arm;
use crate::visit::fed;
use crate::visit::lemma_fed_break;
use crate::visit::lemma_fed_concat;
use crate::visit::lemma_fed_one;
use crate::visit::lemma_fed_split;
use crate::visit::Hook;
use crate::visit::Visitor;
use crate::visit::VisitorMut;
use vstd::prelude::*;

verus! {

/// Synthesis is a function of what a declaration says: two declarations
/// that say the same give the same routine or the same error, and the two
/// modes give routines that differ in nothing but the mode.
pub proof fn law_synthesis_deterministic(
    first: DeclarationView,
    second: DeclarationView,
    mutable: bool,
)
    requires
        first == second,
    ensures
        routine_of(first, mutable) == routine_of(second, mutable),
        routine_of(first, true) is Ok <==> routine_of(first, false) is Ok,
        routine_of(first, true) matches Ok(a) ==> routine_of(first, false) matches Ok(b)
            && a.visit_self == b.visit_self && a.body == b.body,
        routine_of(first, true) matches Err(e) ==> routine_of(first, false) == Err::<
            RoutineView,
            ErrorView,
        >(e),
{
}

/// The flag `skip` on a type takes the hooks on the node itself out of its
/// routine and leaves the rest of the routine as it is.
pub proof fn law_skip_keeps_body(input: DeclarationView, mutable: bool)
    requires
        routine_of(input, mutable) is Ok,
    ensures
        skip_of(input.attrs, node_allowed()) is Ok,
        routine_of(input, mutable)->Ok_0.visit_self == !skip_of(
            input.attrs,
            node_allowed(),
        )->Ok_0,
        body_of(input.shape) == Ok::<BodyView, ErrorView>(
            routine_of(input, mutable)->Ok_0.body,
        ),
{
}

/// A routine without hooks on the node itself makes exactly the hook calls
/// of its sub-values, in the order of its steps; with them, the same calls
/// stand between the enter hook and the leave hook on the node.
pub proof fn law_self_skip(schema: Schema, routine: Routine, node: NodeView)
    ensures
        !routine.visit_self ==> hooks(schema, Rule::Derived(routine), node) == body_hooks(
            schema,
            routine.body,
            node,
        ),
        routine.visit_self ==> hooks(schema, Rule::Derived(routine), node) == seq![
            enter_hook(node),
        ] + body_hooks(schema, routine.body, node) + seq![exit_hook(node)],
{
}

/// On a mutable traversal, a routine without hooks on the node itself does
/// exactly what its steps do.
pub proof fn law_self_skip_mut<V: VisitorMut>(
    schema: Schema,
    routine: Routine,
    visitor: V,
    node: NodeView,
    end: (V, NodeView, Option<V::Break>),
)
    requires
        !routine.visit_self,
    ensures
        ran(schema, Rule::Derived(routine), visitor, node, end) == body_ran(
            schema,
            routine.body,
            visitor,
            node,
            end,
        ),
{
}

/// The steps over a list of fields are the steps of the fields that are not
/// skipped, in declaration order: each step is that of the field at its
/// position, the positions rise from step to step, and every field that has
/// a step is among them.
pub proof fn law_steps_in_order(fields: Seq<FieldView>, n: int)
    requires
        0 <= n <= usize::MAX,
        steps_of(fields, n) is Ok,
    ensures
        forall|i: int|
            0 <= i < steps_of(fields, n)->Ok_0.len() ==> {
                let step = #[trigger] steps_of(fields, n)->Ok_0[i];
                step.field < n && field_step(fields[step.field as int], step.field) == Ok::<
                    Option<StepView>,
                    ErrorView,
                >(Some(step))
            },
        forall|i: int, j: int|
            0 <= i < j < steps_of(fields, n)->Ok_0.len() ==> steps_of(fields, n)->Ok_0[i].field
                < steps_of(fields, n)->Ok_0[j].field,
        forall|k: int|
            0 <= k < n ==> (#[trigger] field_step(fields[k], k as usize) matches Ok(Some(step))
                ==> steps_of(fields, n)->Ok_0.contains(step)),
        forall|k: int|
            0 <= k < n ==> #[trigger] field_step(fields[k], k as usize) is Ok,
    decreases n,
{
    if n > 0 {
        law_steps_in_order(fields, n - 1);
        let before = steps_of(fields, n - 1)->Ok_0;
        let all = steps_of(fields, n)->Ok_0;
        if field_step(fields[n - 1], (n - 1) as usize) matches Ok(Some(_)) {
            assert(all[all.len() - 1] == field_step(fields[n - 1], (n - 1) as usize)->Ok_0->0);
            assert forall|k: int|
                0 <= k < n && (#[trigger] field_step(fields[k], k as usize) matches Ok(
                    Some(s),
                )) implies all.contains(field_step(fields[k], k as usize)->Ok_0->0) by {
                let s = field_step(fields[k], k as usize)->Ok_0->0;
                if k < n - 1 {
                    let at = choose|at: int| 0 <= at < before.len() && before[at] == s;
                    assert(all[at] == s);
                }
            }
        }
    }
}

/// A skipped field has no step, and a pattern does not bind it.
pub proof fn law_field_skip(fields: Seq<FieldView>, k: int)
    requires
        0 <= k < fields.len() <= usize::MAX,
        steps_of(fields, fields.len() as int) is Ok,
        skip_of(fields[k].attrs, field_allowed()) == Ok::<bool, ErrorView>(true),
    ensures
        forall|i: int|
            0 <= i < steps_of(fields, fields.len() as int)->Ok_0.len() ==> #[trigger] steps_of(
                fields,
                fields.len() as int,
            )->Ok_0[i].field != k,
        field_bound(fields[k]) == Ok::<bool, ErrorView>(false),
{
    law_steps_in_order(fields, fields.len() as int);
}

/// The sub-values that no step names do not matter to what the steps do:
/// two nodes that differ in such sub-values only give the same hook calls.
pub proof fn law_unnamed_field_unread(
    schema: Schema,
    steps: Seq<Step>,
    a: NodeView,
    b: NodeView,
    i: int,
)
    requires
        0 <= i,
        a.fields.len() == b.fields.len(),
        forall|j: int|
            i <= j < steps.len() && (#[trigger] steps[j]).field < a.fields.len()
                ==> a.fields[steps[j].field as int] == b.fields[steps[j].field as int],
    ensures
        steps_hooks(schema, steps, a, i) == steps_hooks(schema, steps, b, i),
    decreases steps.len() - i,
{
    if i < steps.len() {
        assert(step_hooks(schema, steps[i], a) == step_hooks(schema, steps[i], b));
        law_unnamed_field_unread(schema, steps, a, b, i + 1);
    }
}

/// On a mutable traversal the steps leave a sub-value that none of them
/// names as it is.
pub proof fn law_unnamed_field_untouched<V: VisitorMut>(
    schema: Schema,
    steps: Seq<Step>,
    visitor: V,
    node: NodeView,
    i: int,
    k: int,
    end: (V, NodeView, Option<V::Break>),
)
    requires
        0 <= i,
        0 <= k < node.fields.len(),
        forall|j: int| i <= j < steps.len() ==> (#[trigger] steps[j]).field != k,
        steps_ran(schema, steps, visitor, node, i, end),
    ensures
        end.1.fields.len() == node.fields.len(),
        end.1.fields[k] == node.fields[k],
    decreases steps.len() - i,
{
    if i < steps.len() {
        let mid = choose|mid: (V, NodeView, Option<V::Break>)| #[trigger]
            settled(mid, node) && step_ran(schema, steps[i], visitor, node, mid) && if mid.2
                is Some {
                end == mid
            } else {
                steps_ran(schema, steps, mid.0, mid.1, i + 1, end)
            };
        if mid.2 is None {
            law_unnamed_field_untouched(schema, steps, mid.0, mid.1, i + 1, k, end);
        }
    }
}

/// A traversal that is made in two parts either breaks off within the
/// first part, and then makes no call of the second, or goes through the
/// first part and does from there what the second part does. Either way the
/// value that a hook broke off with is signalled as it is.
pub proof fn law_break_ends_traversal<V: Visitor>(
    visitor: V,
    before: Seq<Hook>,
    after: Seq<Hook>,
    end: V,
    out: Option<V::Break>,
)
    ensures
        fed(visitor, before + after, end, out) <==> (out is Some && fed(
            visitor,
            before,
            end,
            out,
        )) || exists|mid: V| #[trigger]
            fed(visitor, before, mid, None) && fed(mid, after, end, out),
{
    if fed(visitor, before + after, end, out) {
        lemma_fed_split(visitor, before, after, end, out);
    }
    if out is Some && fed(visitor, before, end, out) {
        lemma_fed_break(visitor, before, after, end, out);
    }
    if exists|mid: V| #[trigger] fed(visitor, before, mid, None) && fed(mid, after, end, out) {
        let mid = choose|mid: V| #[trigger]
            fed(visitor, before, mid, None) && fed(mid, after, end, out);
        lemma_fed_concat(visitor, before, mid, after, end, out);
    }
}

/// Where the traversal of the sub-value of a step breaks off, the steps
/// from that one on break off with the same value and leave the visitor as
/// that traversal left it: no later step is run.
pub proof fn law_break_skips_siblings<V: Visitor>(
    schema: Schema,
    steps: Seq<Step>,
    node: NodeView,
    visitor: V,
    i: int,
    end: V,
    out: Option<V::Break>,
)
    requires
        0 <= i < steps.len(),
        fed(visitor, step_hooks(schema, steps[i], node), end, out),
        out is Some,
    ensures
        fed(visitor, steps_hooks(schema, steps, node, i), end, out),
{
    lemma_fed_break(
        visitor,
        step_hooks(schema, steps[i], node),
        steps_hooks(schema, steps, node, i + 1),
        end,
        out,
    );
}

/// Where the enter hook on a node breaks off, the traversal of the node
/// does nothing else. Where it goes on and the routine's steps break off,
/// the traversal breaks off with the same value and leaves the visitor as
/// the steps left it: the leave hook is not called.
pub proof fn law_break_skips_leave<V: Visitor>(
    schema: Schema,
    routine: Routine,
    node: NodeView,
    visitor: V,
    inside: V,
    end: V,
    out: Option<V::Break>,
)
    requires
        routine.visit_self,
        out is Some,
    ensures
        visitor.enters(node, end, out) ==> fed(
            visitor,
            hooks(schema, Rule::Derived(routine), node),
            end,
            out,
        ),
        visitor.enters(node, inside, None) && fed(
            inside,
            body_hooks(schema, routine.body, node),
            end,
            out,
        ) ==> fed(visitor, hooks(schema, Rule::Derived(routine), node), end, out),
{
    let head = seq![enter_hook(node)];
    let inner = body_hooks(schema, routine.body, node);
    let tail = seq![exit_hook(node)];
    if visitor.enters(node, end, out) {
        lemma_fed_one(visitor, enter_hook(node), end, out);
        lemma_fed_break(visitor, head, inner, end, out);
        lemma_fed_break(visitor, head + inner, tail, end, out);
    }
    if visitor.enters(node, inside, None) && fed(inside, inner, end, out) {
        lemma_fed_one(visitor, enter_hook(node), inside, None);
        lemma_fed_concat(visitor, head, inside, inner, end, out);
        lemma_fed_break(visitor, head + inner, tail, end, out);
    }
}

/// On a mutable traversal: where a step breaks off, the steps from that one
/// on break off with the same value, and leave the visitor and the node as
/// that step left them.
pub proof fn law_break_skips_siblings_mut<V: VisitorMut>(
    schema: Schema,
    steps: Seq<Step>,
    node: NodeView,
    visitor: V,
    i: int,
    end: (V, NodeView, Option<V::Break>),
)
    requires
        0 <= i < steps.len(),
        step_ran(schema, steps[i], visitor, node, end),
        settled(end, node),
        end.2 is Some,
    ensures
        steps_ran(schema, steps, visitor, node, i, end),
{
}

/// On a mutable traversal: where the enter hook on a node breaks off,
/// nothing else is done; where it goes on and the steps break off, the
/// leave hook is not called.
pub proof fn law_break_skips_leave_mut<V: VisitorMut>(
    schema: Schema,
    routine: Routine,
    node: NodeView,
    visitor: V,
    inside: (V, NodeView, Option<V::Break>),
    end: (V, NodeView, Option<V::Break>),
)
    requires
        routine.visit_self,
        end.2 is Some,
    ensures
        visitor.enters_mut(node, end.0, end.1, end.2) && settled(end, node) ==> ran(
            schema,
            Rule::Derived(routine),
            visitor,
            node,
            end,
        ),
        visitor.enters_mut(node, inside.0, inside.1, inside.2) && inside.2 is None && settled(
            inside,
            node,
        ) && body_ran(schema, routine.body, inside.0, inside.1, end) && settled(end, inside.1)
            ==> ran(schema, Rule::Derived(routine), visitor, node, end),
{
    if visitor.enters_mut(node, end.0, end.1, end.2) && settled(end, node) {
        assert(entering(visitor, node, end));
    }
    if visitor.enters_mut(node, inside.0, inside.1, inside.2) && inside.2 is None && settled(
        inside,
        node,
    ) && body_ran(schema, routine.body, inside.0, inside.1, end) && settled(end, inside.1) {
        assert(entering(visitor, node, inside));
    }
}

/// The traversal of a value of a sum type runs the steps of the first case
/// for the variant that the value holds, and nothing where no case is for
/// it: the steps of the other cases are not run.
pub proof fn law_variant_dispatch(schema: Schema, arms: Vec<Arm>, node: NodeView)
    ensures
        ({
            let at = arm_index(arms@, node.variant, 0);
            &&& 0 <= at <= arms@.len()
            &&& forall|j: int| 0 <= j < at ==> (#[trigger] arms@[j]).variant != node.variant
            &&& at < arms@.len() ==> arms@[at].variant == node.variant && body_hooks(
                schema,
                Body::Sum(arms),
                node,
            ) == steps_hooks(schema, arms@[at].steps@, node, 0)
            &&& at == arms@.len() ==> body_hooks(schema, Body::Sum(arms), node) == Seq::<
                Hook,
            >::empty()
        }),
{
    lemma_arm_index(arms@, node.variant, 0);
}

/// The first case for a variant from `from` on is the first whose variant
/// it is.
pub proof fn lemma_arm_index(arms: Seq<Arm>, variant: usize, from: int)
    requires
        0 <= from,
    ensures
        from <= arm_index(arms, variant, from) || arm_index(arms, variant, from) == arms.len(),
        arm_index(arms, variant, from) <= arms.len(),
        forall|j: int|
            from <= j < arm_index(arms, variant, from) ==> (#[trigger] arms[j]).variant != variant,
        arm_index(arms, variant, from) < arms.len() ==> arms[arm_index(
            arms,
            variant,
            from,
        )].variant == variant,
    decreases arms.len() - from,
{
    if from < arms.len() && arms[from].variant != variant {
        lemma_arm_index(arms, variant, from + 1);
    }
}

/// The cases of a sum type are those of the variants that are not skipped,
/// in declaration order: each case is that of the variant at its position,
/// and the positions rise from case to case, so no variant has two cases.
pub proof fn law_arms_in_order(variants: Seq<VariantView>, n: int)
    requires
        0 <= n <= usize::MAX,
        arms_of(variants, n) is Ok,
    ensures
        forall|i: int|
            0 <= i < arms_of(variants, n)->Ok_0.len() ==> {
                let arm = #[trigger] arms_of(variants, n)->Ok_0[i];
                arm.variant < n && variant_arm(variants[arm.variant as int], arm.variant) == Ok::<
                    Option<ArmView>,
                    ErrorView,
                >(Some(arm))
            },
        forall|i: int, j: int|
            0 <= i < j < arms_of(variants, n)->Ok_0.len() ==> arms_of(variants, n)->Ok_0[i].variant
                < arms_of(variants, n)->Ok_0[j].variant,
    decreases n,
{
    if n > 0 {
        law_arms_in_order(variants, n - 1);
    }
}

/// Two attribute blocks at one declaration point are an error: where two
/// attributes have the name of the block, extraction fails, and the error
/// is at the span of the second of them.
pub proof fn law_duplicate_attribute(attrs: Seq<AttributeView>, name: Seq<char>, i: int, j: int)
    requires
        0 <= i < j < attrs.len(),
        attrs[i].meta.path.is_ident(name),
        attrs[j].meta.path.is_ident(name),
    ensures
        ({
            let first = next_named(attrs, name, 0);
            let second = next_named(attrs, name, first + 1);
            &&& 0 <= first < second <= j
            &&& first <= i
            &&& attrs[first].meta.path.is_ident(name)
            &&& attrs[second].meta.path.is_ident(name)
            &&& forall|k: int|
                0 <= k < second && k != first ==> !(#[trigger] attrs[k]).meta.path.is_ident(name)
            &&& extracted(attrs, name) == Err::<Option<MetaView>, ErrorView>(
                ErrorView::plain(ErrorKind::DuplicateAttribute, attrs[second].span),
            )
            &&& params_of_attrs(attrs, name) == Err::<Seq<MetaView>, ErrorView>(
                ErrorView::plain(ErrorKind::DuplicateAttribute, attrs[second].span),
            )
        }),
{
    lemma_next_named(attrs, name, 0, i);
    let first = next_named(attrs, name, 0);
    lemma_next_named(attrs, name, first + 1, j);
}

/// Without an attribute named `name` nothing is extracted, and with exactly
/// one its content is: extraction fails only where there are two.
pub proof fn law_single_block(attrs: Seq<AttributeView>, name: Seq<char>)
    ensures
        extracted(attrs, name) == Ok::<Option<MetaView>, ErrorView>(None) <==> forall|k: int|
            0 <= k < attrs.len() ==> !(#[trigger] attrs[k]).meta.path.is_ident(name),
        extracted(attrs, name) matches Ok(Some(meta)) ==> exists|i: int|
            0 <= i < attrs.len() && (#[trigger] attrs[i]).meta == meta && attrs[i].meta.path.is_ident(
                name,
            ) && forall|k: int|
                0 <= k < attrs.len() && k != i ==> !(#[trigger] attrs[k]).meta.path.is_ident(name),
        extracted(attrs, name) is Err ==> exists|i: int, j: int|
            0 <= i < j < attrs.len() && (#[trigger] attrs[i]).meta.path.is_ident(name) && (
            #[trigger] attrs[j]).meta.path.is_ident(name),
{
    lemma_first_named(attrs, name, 0);
    let first = next_named(attrs, name, 0);
    if first < attrs.len() {
        lemma_first_named(attrs, name, first + 1);
        let second = next_named(attrs, name, first + 1);
        if second < attrs.len() {
            assert(attrs[first].meta.path.is_ident(name) && attrs[second].meta.path.is_ident(
                name,
            ));
        }
    }
}

/// The first attribute named `name` from `from` on is named so, and no
/// attribute between `from` and it is.
pub proof fn lemma_first_named(attrs: Seq<AttributeView>, name: Seq<char>, from: int)
    requires
        0 <= from,
    ensures
        from <= next_named(attrs, name, from) || next_named(attrs, name, from) == attrs.len(),
        next_named(attrs, name, from) <= attrs.len(),
        next_named(attrs, name, from) < attrs.len() ==> attrs[next_named(
            attrs,
            name,
            from,
        )].meta.path.is_ident(name),
        forall|k: int|
            from <= k < next_named(attrs, name, from) ==> !(#[trigger] attrs[k]).meta.path.is_ident(
                name,
            ),
    decreases attrs.len() - from,
{
    if from < attrs.len() && !attrs[from].meta.path.is_ident(name) {
        lemma_first_named(attrs, name, from + 1);
    }
}

/// The first attribute named `name` from `from` on stands at or before any
/// attribute named so from `from` on, and none before it is named so.
pub proof fn lemma_next_named(attrs: Seq<AttributeView>, name: Seq<char>, from: int, at: int)
    requires
        0 <= from <= at < attrs.len(),
        attrs[at].meta.path.is_ident(name),
    ensures
        from <= next_named(attrs, name, from) <= at,
        attrs[next_named(attrs, name, from)].meta.path.is_ident(name),
        forall|k: int|
            from <= k < next_named(attrs, name, from) ==> !(#[trigger] attrs[k]).meta.path.is_ident(
                name,
            ),
    decreases at - from,
{
    if !attrs[from].meta.path.is_ident(name) {
        lemma_next_named(attrs, name, from + 1, at);
    }
}

/// The message of the error for a parameter that is not allowed on a field.
pub open spec fn field_message() -> Seq<char> {
    "unknown parameter, supported: skip, with"@
}

/// A parameter on a field whose name is neither `skip` nor `with` is an
/// error: synthesis of the field's step fails with an error whose message
/// lists exactly these two names.
pub proof fn law_allow_list(field: FieldView, index: usize, k: int)
    requires
        params_of_attrs(field.attrs, block_name()) is Ok,
        0 <= k < params_of_attrs(field.attrs, block_name())->Ok_0.len(),
        !params_of_attrs(field.attrs, block_name())->Ok_0[k].path.is_ident("skip"@),
        !params_of_attrs(field.attrs, block_name())->Ok_0[k].path.is_ident("with"@),
    ensures
        field_step(field, index) is Err,
        field_step(field, index)->Err_0.kind == ErrorKind::UnknownParameter,
        field_step(field, index)->Err_0.message == field_message(),
{
    let params = params_of_attrs(field.attrs, block_name())->Ok_0;
    let allowed = field_allowed();
    assert(!allows(allowed, params[k].path));
    lemma_next_unknown(params, allowed, 0, k);
    reveal_strlit("unknown parameter, supported: skip, with");
    reveal_strlit("unknown parameter, supported: ");
    reveal_strlit("skip");
    reveal_strlit("with");
    reveal_strlit(", ");
    assert(joined(allowed, 2) == joined(allowed, 1) + ", "@ + allowed[1]);
}

/// The first entry from `from` on that is not allowed stands at or before
/// any entry from `from` on that is not allowed.
pub proof fn lemma_next_unknown(metas: Seq<MetaView>, allowed: Seq<Seq<char>>, from: int, at: int)
    requires
        0 <= from <= at < metas.len(),
        !allows(allowed, metas[at].path),
    ensures
        from <= next_unknown(metas, allowed, from) <= at,
    decreases at - from,
{
    if allows(allowed, metas[from].path) {
        lemma_next_unknown(metas, allowed, from + 1, at);
    }
}

} // verus!
