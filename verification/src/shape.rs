//! The shape of a declared type: what code generation reads of a declaration.

use crate::error::Span;
use crate::meta::Attribute;
use crate::meta::AttributeView;
use vstd::prelude::*;

verus! {

/// One field of a record or of a variant.
#[derive(Clone, Debug, PartialEq, Eq)]
pub struct Field {
    pub attrs: Vec<Attribute>,
    /// The field's name; `None` for a positional field.
    pub name: Option<String>,
}

/// The mathematical value of a [`Field`].
pub struct FieldView {
    pub attrs: Seq<AttributeView>,
    pub name: Option<Seq<char>>,
}

impl DeepView for Field {
    type V = FieldView;

    open spec fn deep_view(&self) -> FieldView {
        FieldView { attrs: self.attrs.deep_view(), name: self.name.deep_view() }
    }
}

/// The fields of a record or of a variant, in declaration order.
#[derive(Clone, Debug, PartialEq, Eq)]
pub enum Fields {
    /// Fields with names, written in braces.
    Named(Vec<Field>),
    /// Positional fields, written in parentheses.
    Unnamed(Vec<Field>),
    /// No fields at all.
    Unit,
}

/// The mathematical value of [`Fields`].
pub enum FieldsView {
    Named(Seq<FieldView>),
    Unnamed(Seq<FieldView>),
    Unit,
}

impl DeepView for Fields {
    type V = FieldsView;

    open spec fn deep_view(&self) -> FieldsView {
        match self {
            Fields::Named(list) => FieldsView::Named(list.deep_view()),
            Fields::Unnamed(list) => FieldsView::Unnamed(list.deep_view()),
            Fields::Unit => FieldsView::Unit,
        }
    }
}

impl FieldsView {
    /// The fields as one list, whatever way they are written.
    pub open spec fn list(self) -> Seq<FieldView> {
        match self {
            FieldsView::Named(list) => list,
            FieldsView::Unnamed(list) => list,
            FieldsView::Unit => Seq::empty(),
        }
    }
}

/// One variant of a sum type.
#[derive(Clone, Debug, PartialEq, Eq)]
pub struct Variant {
    pub attrs: Vec<Attribute>,
    pub name: String,
    pub fields: Fields,
}

/// The mathematical value of a [`Variant`].
pub struct VariantView {
    pub attrs: Seq<AttributeView>,
    pub name: Seq<char>,
    pub fields: FieldsView,
}

impl DeepView for Variant {
    type V = VariantView;

    open spec fn deep_view(&self) -> VariantView {
        VariantView {
            attrs: self.attrs.deep_view(),
            name: self.name@,
            fields: self.fields.deep_view(),
        }
    }
}

/// The shape of a declared type.
#[derive(Clone, Debug, PartialEq, Eq)]
pub enum Shape {
    /// A record: fields in declaration order.
    Record(Fields),
    /// A sum: variants in declaration order.
    Sum(Vec<Variant>),
    /// A declaration that cannot be traversed, such as a union; holds the
    /// span of its keyword.
    Opaque(Span),
}

/// The mathematical value of a [`Shape`].
pub enum ShapeView {
    Record(FieldsView),
    Sum(Seq<VariantView>),
    Opaque(Span),
}

impl DeepView for Shape {
    type V = ShapeView;

    open spec fn deep_view(&self) -> ShapeView {
        match self {
            Shape::Record(fields) => ShapeView::Record(fields.deep_view()),
            Shape::Sum(variants) => ShapeView::Sum(variants.deep_view()),
            Shape::Opaque(span) => ShapeView::Opaque(*span),
        }
    }
}

/// A type declaration: its attributes, its name and its shape.
#[derive(Clone, Debug, PartialEq, Eq)]
pub struct Declaration {
    pub attrs: Vec<Attribute>,
    pub name: String,
    pub shape: Shape,
}

/// The mathematical value of a [`Declaration`].
pub struct DeclarationView {
    pub attrs: Seq<AttributeView>,
    pub name: Seq<char>,
    pub shape: ShapeView,
}

impl DeepView for Declaration {
    type V = DeclarationView;

    open spec fn deep_view(&self) -> DeclarationView {
        DeclarationView {
            attrs: self.attrs.deep_view(),
            name: self.name@,
            shape: self.shape.deep_view(),
        }
    }
}

} // verus!
