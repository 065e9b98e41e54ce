//! The synthesis of a traversal routine from a type declaration.

use crate::error::name_views;
use crate::error::result_view;
use crate::error::Error;
use crate::error::ErrorKind;
use crate::error::ErrorView;
use crate::meta::Attribute;
use crate::meta::AttributeView;
use crate::params::flag;
use crate::params::params_of_attrs;
use crate::params::taken;
use crate::params::validated;
use crate::params::without;
use crate::params::Param;
use crate::params::ParamView;
use crate::params::Params;
use crate::routine::Arm;
use crate::routine::ArmView;
use crate::routine::Body;
use crate::routine::BodyView;
use crate::routine::Pattern;
use crate::routine::PatternView;
use crate::routine::Routine;
use crate::routine::RoutineView;
use crate::routine::Step;
use crate::routine::StepView;
use crate::routine::Style;
use crate::routine::Via;
use crate::routine::ViaView;
use crate::shape::Declaration;
use crate::shape::DeclarationView;
use crate::shape::Field;
use crate::shape::FieldView;
use crate::shape::Fields;
use crate::shape::FieldsView;
use crate::shape::Shape;
use crate::shape::ShapeView;
use crate::shape::Variant;
use crate::shape::VariantView;
use vstd::prelude::*;

verus! {

/// The name of the attribute block that holds the parameters.
pub open spec fn block_name() -> Seq<char> {
    "traverse"@
}

/// The parameters allowed on a type and on a variant.
pub open spec fn node_allowed() -> Seq<Seq<char>> {
    seq!["skip"@]
}

/// The parameters allowed on a field.
pub open spec fn field_allowed() -> Seq<Seq<char>> {
    seq!["skip"@, "with"@]
}

/// Whether `text` is written as a path to a function.
pub uninterp spec fn path_syntax(text: Seq<char>) -> bool;

/// Asks `syn::parse_str::<syn::Path>` whether `text` parses as a path.
///
/// Trusted: the answer is taken to be a function of `text` alone, named
/// [`path_syntax`].
#[verifier::external_body]
pub(crate) fn path_parses(text: &str) -> (ok: bool)
    ensures
        ok == path_syntax(text@),
{
    syn::parse_str::<syn::Path>(text).is_ok()
}

/// Whether the value of the parameter `with`, where it is a string, is
/// written as a path.
pub open spec fn with_valid(param: Option<ParamView>) -> bool {
    match param {
        Some(ParamView::StringLiteral(_, text)) => path_syntax(text),
        _ => true,
    }
}

/// The traversal function that the parameter `with` selects, where `valid`
/// says whether its value is written as a path.
pub open spec fn via_of(param: Option<ParamView>, valid: bool) -> Result<ViaView, ErrorView> {
    match param {
        None => Ok(ViaView::Default),
        Some(p) => match p.string_literal() {
            Err(error) => Err(error),
            Ok(text) => if valid {
                Ok(ViaView::Custom(text))
            } else {
                Err(ErrorView::plain(ErrorKind::InvalidParameter, p.span()))
            },
        },
    }
}

/// The flag `skip` of a declaration point whose parameters must be among
/// `allowed`.
pub open spec fn skip_of(attrs: Seq<AttributeView>, allowed: Seq<Seq<char>>) -> Result<
    bool,
    ErrorView,
> {
    match params_of_attrs(attrs, block_name()) {
        Err(error) => Err(error),
        Ok(params) => match validated(params, allowed) {
            Err(error) => Err(error),
            Ok(()) => flag(params, "skip"@),
        },
    }
}

/// The step for the field at position `index`, or `None` where the field is
/// skipped.
pub open spec fn field_step(field: FieldView, index: usize) -> Result<Option<StepView>, ErrorView> {
    match skip_of(field.attrs, field_allowed()) {
        Err(error) => Err(error),
        Ok(true) => Ok(None),
        Ok(false) => {
            let params = params_of_attrs(field.attrs, block_name())->Ok_0;
            match taken(without(params, "skip"@), "with"@) {
                Err(error) => Err(error),
                Ok(param) => match via_of(param, with_valid(param)) {
                    Err(error) => Err(error),
                    Ok(via) => Ok(Some(StepView { field: index, via })),
                },
            }
        },
    }
}

/// The steps for the first `n` fields: one for each field that is not
/// skipped, in declaration order; or the error of the first field that has
/// one.
pub open spec fn steps_of(fields: Seq<FieldView>, n: int) -> Result<Seq<StepView>, ErrorView>
    decreases n,
{
    if n <= 0 {
        Ok(Seq::empty())
    } else {
        match steps_of(fields, n - 1) {
            Err(error) => Err(error),
            Ok(steps) => match field_step(fields[n - 1], (n - 1) as usize) {
                Err(error) => Err(error),
                Ok(None) => Ok(steps),
                Ok(Some(step)) => Ok(steps.push(step)),
            },
        }
    }
}

/// Whether a pattern binds the field: it does unless the field is skipped.
/// Here the field's parameters are read, not validated.
pub open spec fn field_bound(field: FieldView) -> Result<bool, ErrorView> {
    match params_of_attrs(field.attrs, block_name()) {
        Err(error) => Err(error),
        Ok(params) => match flag(params, "skip"@) {
            Err(error) => Err(error),
            Ok(skip) => Ok(!skip),
        },
    }
}

/// For the first `n` fields, whether a pattern binds each; or the error of
/// the first field that has one.
pub open spec fn bound_of(fields: Seq<FieldView>, n: int) -> Result<Seq<bool>, ErrorView>
    decreases n,
{
    if n <= 0 {
        Ok(Seq::empty())
    } else {
        match bound_of(fields, n - 1) {
            Err(error) => Err(error),
            Ok(bound) => match field_bound(fields[n - 1]) {
                Err(error) => Err(error),
                Ok(b) => Ok(bound.push(b)),
            },
        }
    }
}

/// The way fields are written.
pub open spec fn style_of(fields: FieldsView) -> Style {
    match fields {
        FieldsView::Named(_) => Style::Named,
        FieldsView::Unnamed(_) => Style::Unnamed,
        FieldsView::Unit => Style::Unit,
    }
}

/// The pattern that takes the fields of a variant apart.
pub open spec fn pattern_of(fields: FieldsView) -> Result<PatternView, ErrorView> {
    match bound_of(fields.list(), fields.list().len() as int) {
        Err(error) => Err(error),
        Ok(bound) => Ok(PatternView { style: style_of(fields), bound }),
    }
}

/// The case of the variant at position `index`, or `None` where the variant
/// is skipped.
pub open spec fn variant_arm(variant: VariantView, index: usize) -> Result<
    Option<ArmView>,
    ErrorView,
> {
    match skip_of(variant.attrs, node_allowed()) {
        Err(error) => Err(error),
        Ok(true) => Ok(None),
        Ok(false) => match pattern_of(variant.fields) {
            Err(error) => Err(error),
            Ok(pattern) => match steps_of(
                variant.fields.list(),
                variant.fields.list().len() as int,
            ) {
                Err(error) => Err(error),
                Ok(steps) => Ok(Some(ArmView { variant: index, pattern, steps })),
            },
        },
    }
}

/// The cases of the first `n` variants: one for each variant that is not
/// skipped, in declaration order; or the error of the first variant that has
/// one.
pub open spec fn arms_of(variants: Seq<VariantView>, n: int) -> Result<Seq<ArmView>, ErrorView>
    decreases n,
{
    if n <= 0 {
        Ok(Seq::empty())
    } else {
        match arms_of(variants, n - 1) {
            Err(error) => Err(error),
            Ok(arms) => match variant_arm(variants[n - 1], (n - 1) as usize) {
                Err(error) => Err(error),
                Ok(None) => Ok(arms),
                Ok(Some(arm)) => Ok(arms.push(arm)),
            },
        }
    }
}

/// What a routine does between the hooks on the node itself.
pub open spec fn body_of(shape: ShapeView) -> Result<BodyView, ErrorView> {
    match shape {
        ShapeView::Record(fields) => match steps_of(fields.list(), fields.list().len() as int) {
            Err(error) => Err(error),
            Ok(steps) => Ok(BodyView::Record(steps)),
        },
        ShapeView::Sum(variants) => match arms_of(variants, variants.len() as int) {
            Err(error) => Err(error),
            Ok(arms) => Ok(BodyView::Sum(arms)),
        },
        ShapeView::Opaque(span) => Err(ErrorView::plain(ErrorKind::UnsupportedShape, span)),
    }
}

/// The traversal routine of a declaration, for the read-only or the mutable
/// traversal.
pub open spec fn routine_of(input: DeclarationView, mutable: bool) -> Result<
    RoutineView,
    ErrorView,
> {
    match skip_of(input.attrs, node_allowed()) {
        Err(error) => Err(error),
        Ok(skip) => match body_of(input.shape) {
            Err(error) => Err(error),
            Ok(body) => Ok(RoutineView { mutable, visit_self: !skip, body }),
        },
    }
}

/// Reads the parameters of a declaration point, checks them against
/// `allowed`, and takes the flag `skip`. Returns the flag and the parameters
/// that are left.
fn read_skip(attrs: &Vec<Attribute>, allowed: &[&str]) -> (r: Result<(bool, Params), Error>)
    ensures
        match r {
            Ok((skip, rest)) => skip_of(attrs.deep_view(), name_views(allowed@)) == Ok::<
                bool,
                ErrorView,
            >(skip) && rest.deep_view() == without(
                params_of_attrs(attrs.deep_view(), block_name())->Ok_0,
                "skip"@,
            ),
            Err(error) => skip_of(attrs.deep_view(), name_views(allowed@)) == Err::<
                bool,
                ErrorView,
            >(error.deep_view()),
        },
{
    let mut params = match Params::from_attrs(attrs, "traverse") {
        Err(error) => {
            return Err(error);
        },
        Ok(params) => params,
    };
    match params.validate(allowed) {
        Err(error) => {
            return Err(error);
        },
        Ok(()) => {},
    }
    match params.flag("skip") {
        Err(error) => Err(error),
        Ok(skip) => Ok((skip, params)),
    }
}

/// Chooses the traversal function of a step from the parameter `with`, where
/// `valid` says whether the parameter's value is written as a path.
///
/// Without the parameter the default function is used. Otherwise the
/// parameter must be a string literal and `valid` must hold, else the call
/// fails with [`ErrorKind::InvalidParameter`]; the string is kept as written.
pub fn choose_via(param: Option<Param>, valid: bool) -> (r: Result<Via, Error>)
    ensures
        result_view(r) == via_of(param.deep_view(), valid),
{
    match param {
        None => Ok(Via::Default),
        Some(p) => {
            let span = p.span();
            match p.string_literal() {
                Err(error) => Err(error),
                Ok(text) => if valid {
                    Ok(Via::Custom(text))
                } else {
                    Err(Error::new(ErrorKind::InvalidParameter, span))
                },
            }
        },
    }
}

/// Synthesizes the step for the field at position `index`.
///
/// Only `skip` and `with` are allowed on a field. A skipped field gets no
/// step. Otherwise the step calls the function that `with` names, or the
/// default traversal function without it.
pub fn traverse_field(field: &Field, index: usize) -> (r: Result<Option<Step>, Error>)
    ensures
        result_view(r) == field_step(field.deep_view(), index),
{
    let allowed: [&str; 2] = ["skip", "with"];
    assert(name_views(allowed@) =~= field_allowed());
    let (skip, mut params) = match read_skip(&field.attrs, allowed.as_slice()) {
        Err(error) => {
            return Err(error);
        },
        Ok(found) => found,
    };
    if skip {
        return Ok(None);
    }
    let param = match params.param("with") {
        Err(error) => {
            return Err(error);
        },
        Ok(param) => param,
    };
    let valid = match &param {
        Some(Param::StringLiteral(_, text)) => path_parses(text.as_str()),
        _ => true,
    };
    match choose_via(param, valid) {
        Err(error) => Err(error),
        Ok(via) => Ok(Some(Step { field: index, via })),
    }
}

/// Synthesizes the steps over a list of fields, in declaration order.
fn traverse_fields(list: &Vec<Field>) -> (r: Result<Vec<Step>, Error>)
    ensures
        result_view(r) == steps_of(list.deep_view(), list.len() as int),
{
    let ghost fields = list.deep_view();
    let mut steps: Vec<Step> = Vec::new();
    let mut i: usize = 0;
    assert(steps.deep_view() =~= Seq::<StepView>::empty());
    while i < list.len()
        invariant
            i <= list.len(),
            fields == list.deep_view(),
            steps_of(fields, i as int) == Ok::<Seq<StepView>, ErrorView>(steps.deep_view()),
        decreases list.len() - i,
    {
        let ghost before = steps.deep_view();
        match traverse_field(&list[i], i) {
            Err(error) => {
                proof {
                    lemma_steps_error(fields, i + 1, list.len() as int);
                }
                return Err(error);
            },
            Ok(None) => {},
            Ok(Some(step)) => {
                let ghost s = step.deep_view();
                steps.push(step);
                assert(steps.deep_view() =~= before.push(s));
            },
        }
        i = i + 1;
    }
    Ok(steps)
}

/// An error among the first `n` fields is the error of every longer prefix.
pub proof fn lemma_steps_error(fields: Seq<FieldView>, n: int, m: int)
    requires
        0 <= n <= m,
        steps_of(fields, n) is Err,
    ensures
        steps_of(fields, m) == steps_of(fields, n),
    decreases m - n,
{
    if n < m {
        lemma_steps_error(fields, n, m - 1);
    }
}

/// An error among the first `n` fields is the error of every longer prefix.
pub proof fn lemma_bound_error(fields: Seq<FieldView>, n: int, m: int)
    requires
        0 <= n <= m,
        bound_of(fields, n) is Err,
    ensures
        bound_of(fields, m) == bound_of(fields, n),
    decreases m - n,
{
    if n < m {
        lemma_bound_error(fields, n, m - 1);
    }
}

/// An error among the first `n` variants is the error of every longer prefix.
pub proof fn lemma_arms_error(variants: Seq<VariantView>, n: int, m: int)
    requires
        0 <= n <= m,
        arms_of(variants, n) is Err,
    ensures
        arms_of(variants, m) == arms_of(variants, n),
    decreases m - n,
{
    if n < m {
        lemma_arms_error(variants, n, m - 1);
    }
}

/// Synthesizes the steps over the fields of a record: one for each field that
/// is not skipped, in declaration order.
pub fn traverse_struct(fields: &Fields) -> (r: Result<Vec<Step>, Error>)
    ensures
        result_view(r) == steps_of(
            fields.deep_view().list(),
            fields.deep_view().list().len() as int,
        ),
{
    match fields {
        Fields::Named(list) => traverse_fields(list),
        Fields::Unnamed(list) => traverse_fields(list),
        Fields::Unit => {
            let steps: Vec<Step> = Vec::new();
            assert(steps.deep_view() =~= Seq::<StepView>::empty());
            Ok(steps)
        },
    }
}

/// Reads, for each field of a list, whether a pattern binds it.
fn bind_fields(list: &Vec<Field>) -> (r: Result<Vec<bool>, Error>)
    ensures
        result_view(r) == bound_of(list.deep_view(), list.len() as int),
{
    let ghost fields = list.deep_view();
    let mut bound: Vec<bool> = Vec::new();
    let mut i: usize = 0;
    assert(bound.deep_view() =~= Seq::<bool>::empty());
    while i < list.len()
        invariant
            i <= list.len(),
            fields == list.deep_view(),
            bound_of(fields, i as int) == Ok::<Seq<bool>, ErrorView>(bound.deep_view()),
        decreases list.len() - i,
    {
        let ghost before = bound.deep_view();
        let mut params = match Params::from_attrs(&list[i].attrs, "traverse") {
            Err(error) => {
                proof {
                    lemma_bound_error(fields, i + 1, list.len() as int);
                }
                return Err(error);
            },
            Ok(params) => params,
        };
        match params.flag("skip") {
            Err(error) => {
                proof {
                    lemma_bound_error(fields, i + 1, list.len() as int);
                }
                return Err(error);
            },
            Ok(skip) => {
                bound.push(!skip);
                assert(bound.deep_view() =~= before.push(!skip));
            },
        }
        i = i + 1;
    }
    Ok(bound)
}

/// Synthesizes the pattern that takes the fields of a variant apart: a
/// skipped field is matched by a wildcard, every other field is bound.
pub fn destructure_fields(fields: &Fields) -> (r: Result<Pattern, Error>)
    ensures
        result_view(r) == pattern_of(fields.deep_view()),
{
    match fields {
        Fields::Named(list) => match bind_fields(list) {
            Err(error) => Err(error),
            Ok(bound) => Ok(Pattern { style: Style::Named, bound }),
        },
        Fields::Unnamed(list) => match bind_fields(list) {
            Err(error) => Err(error),
            Ok(bound) => Ok(Pattern { style: Style::Unnamed, bound }),
        },
        Fields::Unit => {
            let bound: Vec<bool> = Vec::new();
            assert(bound.deep_view() =~= Seq::<bool>::empty());
            Ok(Pattern { style: Style::Unit, bound })
        },
    }
}

/// Synthesizes the case of the variant at position `index`.
///
/// Only `skip` is allowed on a variant. A skipped variant gets no case.
/// Otherwise the case holds the pattern over the variant's fields and the
/// steps over the fields that the pattern binds.
pub fn traverse_variant(variant: &Variant, index: usize) -> (r: Result<Option<Arm>, Error>)
    ensures
        result_view(r) == variant_arm(variant.deep_view(), index),
{
    let allowed: [&str; 1] = ["skip"];
    assert(name_views(allowed@) =~= node_allowed());
    let skip = match read_skip(&variant.attrs, allowed.as_slice()) {
        Err(error) => {
            return Err(error);
        },
        Ok((skip, _)) => skip,
    };
    if skip {
        return Ok(None);
    }
    let pattern = match destructure_fields(&variant.fields) {
        Err(error) => {
            return Err(error);
        },
        Ok(pattern) => pattern,
    };
    match traverse_struct(&variant.fields) {
        Err(error) => Err(error),
        Ok(steps) => Ok(Some(Arm { variant: index, pattern, steps })),
    }
}

/// Synthesizes the cases of a sum type: one for each variant that is not
/// skipped, in declaration order.
pub fn traverse_enum(variants: &Vec<Variant>) -> (r: Result<Vec<Arm>, Error>)
    ensures
        result_view(r) == arms_of(variants.deep_view(), variants.len() as int),
{
    let ghost all = variants.deep_view();
    let mut arms: Vec<Arm> = Vec::new();
    let mut i: usize = 0;
    assert(arms.deep_view() =~= Seq::<ArmView>::empty());
    while i < variants.len()
        invariant
            i <= variants.len(),
            all == variants.deep_view(),
            arms_of(all, i as int) == Ok::<Seq<ArmView>, ErrorView>(arms.deep_view()),
        decreases variants.len() - i,
    {
        let ghost before = arms.deep_view();
        match traverse_variant(&variants[i], i) {
            Err(error) => {
                proof {
                    lemma_arms_error(all, i + 1, variants.len() as int);
                }
                return Err(error);
            },
            Ok(None) => {},
            Ok(Some(arm)) => {
                let ghost a = arm.deep_view();
                arms.push(arm);
                assert(arms.deep_view() =~= before.push(a));
            },
        }
        i = i + 1;
    }
    Ok(arms)
}

/// Synthesizes the traversal routine of a declaration, for the read-only
/// traversal or, with `mutable`, for the mutable one.
///
/// Only `skip` is allowed on the type; with it the routine calls no hooks on
/// the node itself. A record gets the steps over its fields, a sum type the
/// cases of its variants. Fails with [`ErrorKind::UnsupportedShape`] on a
/// declaration that cannot be traversed, and with the first error in the
/// attributes of the type, of a variant or of a field.
pub fn impl_traversable(input: &Declaration, mutable: bool) -> (r: Result<Routine, Error>)
    ensures
        result_view(r) == routine_of(input.deep_view(), mutable),
{
    let allowed: [&str; 1] = ["skip"];
    assert(name_views(allowed@) =~= node_allowed());
    let skip = match read_skip(&input.attrs, allowed.as_slice()) {
        Err(error) => {
            return Err(error);
        },
        Ok((skip, _)) => skip,
    };
    let body = match &input.shape {
        Shape::Record(fields) => match traverse_struct(fields) {
            Err(error) => {
                return Err(error);
            },
            Ok(steps) => Body::Record(steps),
        },
        Shape::Sum(variants) => match traverse_enum(variants) {
            Err(error) => {
                return Err(error);
            },
            Ok(arms) => Body::Sum(arms),
        },
        Shape::Opaque(span) => {
            return Err(Error::new(ErrorKind::UnsupportedShape, *span));
        },
    };
    Ok(Routine { mutable, visit_self: !skip, body })
}

} // verus!
