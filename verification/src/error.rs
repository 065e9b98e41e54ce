//! Source locations and the errors of code generation.

use vstd::prelude::*;
use vstd::string::StringExecFns;

verus! {

/// A range of bytes in the source text of a declaration.
#[derive(Clone, Copy, Debug, PartialEq, Eq, Structural)]
pub struct Span {
    pub start: usize,
    pub end: usize,
}

/// What went wrong while a declaration was processed.
#[derive(Clone, Copy, Debug, PartialEq, Eq, Structural)]
pub enum ErrorKind {
    /// A declaration point carries the attribute block more than once.
    DuplicateAttribute,
    /// The attribute is not of the form `name(...)`.
    InvalidAttribute,
    /// The content of an attribute block is no list of parameters.
    Syntax,
    /// A parameter name occurs twice in one attribute block.
    DuplicateParameter,
    /// A parameter has a value of the wrong shape for its role.
    InvalidParameter,
    /// A parameter name is not allowed at this declaration point.
    UnknownParameter,
    /// The declaration is of a shape that cannot be traversed.
    UnsupportedShape,
}

/// An error of code generation, anchored at the offending source span.
#[derive(Clone, Debug, PartialEq, Eq)]
pub struct Error {
    pub kind: ErrorKind,
    pub span: Span,
    pub message: String,
}

/// The mathematical value of an [`Error`].
pub struct ErrorView {
    pub kind: ErrorKind,
    pub span: Span,
    pub message: Seq<char>,
}

impl DeepView for Error {
    type V = ErrorView;

    open spec fn deep_view(&self) -> ErrorView {
        ErrorView { kind: self.kind, span: self.span, message: self.message@ }
    }
}

/// The mathematical value of the result of a fallible step.
pub open spec fn result_view<T: DeepView>(r: Result<T, Error>) -> Result<T::V, ErrorView> {
    match r {
        Ok(value) => Ok(value.deep_view()),
        Err(error) => Err(error.deep_view()),
    }
}

impl ErrorKind {
    /// The fixed part of the message of an error of this kind.
    pub open spec fn text(self) -> Seq<char> {
        match self {
            ErrorKind::DuplicateAttribute => "duplicate attribute"@,
            ErrorKind::InvalidAttribute => "invalid attribute"@,
            ErrorKind::Syntax => "invalid parameter list"@,
            ErrorKind::DuplicateParameter => "duplicate parameter"@,
            ErrorKind::InvalidParameter => "invalid parameter"@,
            ErrorKind::UnknownParameter => "unknown parameter, supported: "@,
            ErrorKind::UnsupportedShape => "unions are not supported"@,
        }
    }

    /// The fixed part of the message as an owned string.
    pub fn label(self) -> (s: String)
        ensures
            s@ == self.text(),
    {
        match self {
            ErrorKind::DuplicateAttribute => String::from_str("duplicate attribute"),
            ErrorKind::InvalidAttribute => String::from_str("invalid attribute"),
            ErrorKind::Syntax => String::from_str("invalid parameter list"),
            ErrorKind::DuplicateParameter => String::from_str("duplicate parameter"),
            ErrorKind::InvalidParameter => String::from_str("invalid parameter"),
            ErrorKind::UnknownParameter => String::from_str("unknown parameter, supported: "),
            ErrorKind::UnsupportedShape => String::from_str("unions are not supported"),
        }
    }
}

/// The names of `names[..n]`, separated by `", "`.
pub open spec fn joined(names: Seq<Seq<char>>, n: int) -> Seq<char>
    decreases n,
{
    if n <= 0 {
        Seq::<char>::empty()
    } else if n == 1 {
        names[0]
    } else {
        joined(names, n - 1) + ", "@ + names[n - 1]
    }
}

/// The views of a list of names.
pub open spec fn name_views(names: Seq<&str>) -> Seq<Seq<char>> {
    Seq::new(names.len(), |i: int| names[i]@)
}

impl ErrorView {
    /// The error of kind `kind` at `span` with the fixed message of its kind.
    pub open spec fn plain(kind: ErrorKind, span: Span) -> ErrorView {
        ErrorView { kind, span, message: kind.text() }
    }

    /// The error for a parameter outside the allowed set, whose message lists
    /// that set.
    pub open spec fn unknown(span: Span, allowed: Seq<Seq<char>>) -> ErrorView {
        ErrorView {
            kind: ErrorKind::UnknownParameter,
            span,
            message: ErrorKind::UnknownParameter.text() + joined(allowed, allowed.len() as int),
        }
    }
}

impl Error {
    /// An error of the given kind at the given span.
    pub fn new(kind: ErrorKind, span: Span) -> (e: Error)
        ensures
            e.deep_view() == ErrorView::plain(kind, span),
    {
        Error { kind, span, message: kind.label() }
    }

    /// The error for a parameter that is not in `allowed`; the message
    /// enumerates the allowed names.
    pub fn unknown_parameter(span: Span, allowed: &[&str]) -> (e: Error)
        ensures
            e.deep_view() == ErrorView::unknown(span, name_views(allowed@)),
    {
        let mut message = ErrorKind::UnknownParameter.label();
        let mut i: usize = 0;
        while i < allowed.len()
            invariant
                i <= allowed@.len(),
                message@ == ErrorKind::UnknownParameter.text() + joined(
                    name_views(allowed@),
                    i as int,
                ),
            decreases allowed@.len() - i,
        {
            if i > 0 {
                message.append(", ");
            }
            message.append(allowed[i]);
            i = i + 1;
        }
        Error { kind: ErrorKind::UnknownParameter, span, message }
    }

    /// The message of this error.
    pub fn to_string(&self) -> (s: String)
        ensures
            s@ == self.message@,
    {
        self.message.clone()
    }
}

} // verus!
