//! Traversal routines: what to visit of a value, in which order and by which
//! traversal function.

use vstd::prelude::*;

verus! {

/// The traversal function that a step calls.
#[derive(Clone, Debug, PartialEq, Eq)]
pub enum Via {
    /// The traversal of the sub-value's own type.
    Default,
    /// The function at this path, used as it was written.
    Custom(String),
}

/// The mathematical value of a [`Via`].
pub enum ViaView {
    Default,
    Custom(Seq<char>),
}

impl DeepView for Via {
    type V = ViaView;

    open spec fn deep_view(&self) -> ViaView {
        match self {
            Via::Default => ViaView::Default,
            Via::Custom(path) => ViaView::Custom(path@),
        }
    }
}

/// One step of a routine: traverse the field at position `field` with the
/// traversal function `via`.
#[derive(Clone, Debug, PartialEq, Eq)]
pub struct Step {
    pub field: usize,
    pub via: Via,
}

/// The mathematical value of a [`Step`].
pub struct StepView {
    pub field: usize,
    pub via: ViaView,
}

impl DeepView for Step {
    type V = StepView;

    open spec fn deep_view(&self) -> StepView {
        StepView { field: self.field, via: self.via.deep_view() }
    }
}

/// The way the fields of a variant are written.
#[derive(Clone, Copy, Debug, PartialEq, Eq, Structural)]
pub enum Style {
    Named,
    Unnamed,
    Unit,
}

/// The pattern that takes a variant apart: for each field in declaration
/// order, whether it is bound to a name or matched by a wildcard.
#[derive(Clone, Debug, PartialEq, Eq)]
pub struct Pattern {
    pub style: Style,
    pub bound: Vec<bool>,
}

/// The mathematical value of a [`Pattern`].
pub struct PatternView {
    pub style: Style,
    pub bound: Seq<bool>,
}

impl DeepView for Pattern {
    type V = PatternView;

    open spec fn deep_view(&self) -> PatternView {
        PatternView { style: self.style, bound: self.bound.deep_view() }
    }
}

/// The case of one variant of a sum type: the position of the variant, the
/// pattern that takes it apart, and the steps over the fields it binds.
#[derive(Clone, Debug, PartialEq, Eq)]
pub struct Arm {
    pub variant: usize,
    pub pattern: Pattern,
    pub steps: Vec<Step>,
}

/// The mathematical value of an [`Arm`].
pub struct ArmView {
    pub variant: usize,
    pub pattern: PatternView,
    pub steps: Seq<StepView>,
}

impl DeepView for Arm {
    type V = ArmView;

    open spec fn deep_view(&self) -> ArmView {
        ArmView {
            variant: self.variant,
            pattern: self.pattern.deep_view(),
            steps: self.steps.deep_view(),
        }
    }
}

/// What a routine does between the hooks on the node itself.
#[derive(Clone, Debug, PartialEq, Eq)]
pub enum Body {
    /// The steps over the fields of a record.
    Record(Vec<Step>),
    /// The cases of a sum type; a variant without a case is passed over.
    Sum(Vec<Arm>),
}

/// The mathematical value of a [`Body`].
pub enum BodyView {
    Record(Seq<StepView>),
    Sum(Seq<ArmView>),
}

impl DeepView for Body {
    type V = BodyView;

    open spec fn deep_view(&self) -> BodyView {
        match self {
            Body::Record(steps) => BodyView::Record(steps.deep_view()),
            Body::Sum(arms) => BodyView::Sum(arms.deep_view()),
        }
    }
}

/// The traversal routine of a type.
#[derive(Clone, Debug, PartialEq, Eq)]
pub struct Routine {
    /// Whether the routine is that of the mutable traversal.
    pub mutable: bool,
    /// Whether the enter and leave hooks are called on the node itself.
    pub visit_self: bool,
    pub body: Body,
}

/// The mathematical value of a [`Routine`].
pub struct RoutineView {
    pub mutable: bool,
    pub visit_self: bool,
    pub body: BodyView,
}

impl DeepView for Routine {
    type V = RoutineView;

    open spec fn deep_view(&self) -> RoutineView {
        RoutineView {
            mutable: self.mutable,
            visit_self: self.visit_self,
            body: self.body.deep_view(),
        }
    }
}

} // verus!
