//! Attributes and the entries of an attribute block.

use crate::error::Error;
use crate::error::ErrorKind;
use crate::error::ErrorView;
use crate::error::Span;
use crate::token::Token;
use crate::token::TokenKind;
use crate::token::TokenView;
use vstd::prelude::*;
use vstd::string::StringExecFns;

verus! {

/// A path of names separated by `::`, such as `skip` or `a::b`.
#[derive(Clone, Debug, PartialEq, Eq)]
pub struct Path {
    pub leading_colon: bool,
    pub segments: Vec<String>,
}

/// The mathematical value of a [`Path`].
pub struct PathView {
    pub leading_colon: bool,
    pub segments: Seq<Seq<char>>,
}

impl DeepView for Path {
    type V = PathView;

    open spec fn deep_view(&self) -> PathView {
        PathView { leading_colon: self.leading_colon, segments: self.segments.deep_view() }
    }
}

impl PathView {
    /// The path that consists of the one name `name`.
    pub open spec fn ident(name: Seq<char>) -> PathView {
        PathView { leading_colon: false, segments: seq![name] }
    }

    /// Whether this path is the one name `name`.
    pub open spec fn is_ident(self, name: Seq<char>) -> bool {
        self == PathView::ident(name)
    }
}

/// What follows the path of an attribute or of an entry.
#[derive(Clone, Debug, PartialEq, Eq)]
pub enum Argument {
    /// Nothing: a bare name.
    Bare,
    /// A delimited group; holds its content.
    List(String),
    /// `= literal`; holds the literal as written.
    Literal(String),
    /// `= tokens` where the tokens are not one literal.
    Expression,
}

/// The mathematical value of an [`Argument`].
pub enum ArgumentView {
    Bare,
    List(Seq<char>),
    Literal(Seq<char>),
    Expression,
}

impl DeepView for Argument {
    type V = ArgumentView;

    open spec fn deep_view(&self) -> ArgumentView {
        match self {
            Argument::Bare => ArgumentView::Bare,
            Argument::List(tokens) => ArgumentView::List(tokens@),
            Argument::Literal(repr) => ArgumentView::Literal(repr@),
            Argument::Expression => ArgumentView::Expression,
        }
    }
}

/// The content of an attribute, or one entry of an attribute block.
#[derive(Clone, Debug, PartialEq, Eq)]
pub struct Meta {
    pub path: Path,
    pub argument: Argument,
    pub span: Span,
}

/// The mathematical value of a [`Meta`].
pub struct MetaView {
    pub path: PathView,
    pub argument: ArgumentView,
    pub span: Span,
}

impl DeepView for Meta {
    type V = MetaView;

    open spec fn deep_view(&self) -> MetaView {
        MetaView {
            path: self.path.deep_view(),
            argument: self.argument.deep_view(),
            span: self.span,
        }
    }
}

/// An attribute attached to a type, a variant or a field.
#[derive(Clone, Debug, PartialEq, Eq)]
pub struct Attribute {
    pub meta: Meta,
    pub span: Span,
}

/// The mathematical value of an [`Attribute`].
pub struct AttributeView {
    pub meta: MetaView,
    pub span: Span,
}

impl DeepView for Attribute {
    type V = AttributeView;

    open spec fn deep_view(&self) -> AttributeView {
        AttributeView { meta: self.meta.deep_view(), span: self.span }
    }
}

/// A copy of a list of names.
pub fn duplicate_names(names: &Vec<String>) -> (copy: Vec<String>)
    ensures
        copy.deep_view() == names.deep_view(),
{
    let mut copy: Vec<String> = Vec::new();
    let mut i: usize = 0;
    while i < names.len()
        invariant
            i <= names.len(),
            copy.len() == i,
            forall|j: int| 0 <= j < i ==> copy@[j]@ == names@[j]@,
        decreases names.len() - i,
    {
        copy.push(names[i].clone());
        i = i + 1;
    }
    copy
}

impl Path {
    /// A copy of this path.
    pub fn duplicate(&self) -> (copy: Path)
        ensures
            copy.deep_view() == self.deep_view(),
    {
        Path { leading_colon: self.leading_colon, segments: duplicate_names(&self.segments) }
    }
}

impl Argument {
    /// A copy of this argument.
    pub fn duplicate(&self) -> (copy: Argument)
        ensures
            copy.deep_view() == self.deep_view(),
    {
        match self {
            Argument::Bare => Argument::Bare,
            Argument::List(tokens) => Argument::List(tokens.clone()),
            Argument::Literal(repr) => Argument::Literal(repr.clone()),
            Argument::Expression => Argument::Expression,
        }
    }
}

impl Meta {
    /// A copy of this entry.
    pub fn duplicate(&self) -> (copy: Meta)
        ensures
            copy.deep_view() == self.deep_view(),
    {
        Meta {
            path: self.path.duplicate(),
            argument: self.argument.duplicate(),
            span: self.span,
        }
    }
}

/// Whether `t` is the punctuation character `c`.
pub open spec fn is_punct(t: TokenView, c: Seq<char>) -> bool {
    t.kind == TokenKind::Punct && t.text == c
}

/// Whether `::` stands at position `p`.
pub open spec fn colons_at(ts: Seq<TokenView>, p: int) -> bool {
    &&& 0 <= p
    &&& p + 1 < ts.len()
    &&& is_punct(ts[p], ":"@)
    &&& ts[p].joint
    &&& is_punct(ts[p + 1], ":"@)
}

/// Whether a name stands at position `p`.
pub open spec fn ident_at(ts: Seq<TokenView>, p: int) -> bool {
    0 <= p < ts.len() && ts[p].kind == TokenKind::Ident
}

/// Whether a further segment, `::` and a name, stands at position `p`.
pub open spec fn segment_at(ts: Seq<TokenView>, p: int) -> bool {
    colons_at(ts, p) && ident_at(ts, p + 2)
}

/// The names of the segments that follow from position `p` on.
pub open spec fn segments_at(ts: Seq<TokenView>, p: int) -> Seq<Seq<char>>
    decreases ts.len() - p,
{
    if segment_at(ts, p) {
        seq![ts[p + 2].text] + segments_at(ts, p + 3)
    } else {
        Seq::empty()
    }
}

/// The position behind the segments that follow from position `p` on.
pub open spec fn path_end(ts: Seq<TokenView>, p: int) -> int
    decreases ts.len() - p,
{
    if segment_at(ts, p) {
        path_end(ts, p + 3)
    } else {
        p
    }
}

/// Whether a single `=` stands at position `p`: one that is not the start of
/// `==` or `=>`.
pub open spec fn assign_at(ts: Seq<TokenView>, p: int) -> bool {
    &&& 0 <= p < ts.len()
    &&& is_punct(ts[p], "="@)
    &&& !(ts[p].joint && p + 1 < ts.len() && (is_punct(ts[p + 1], "="@) || is_punct(
        ts[p + 1],
        ">"@,
    )))
}

/// The position of the first `,` from `p` on, or the end of the tokens.
pub open spec fn value_end(ts: Seq<TokenView>, p: int) -> int
    decreases ts.len() - p,
{
    if p < 0 || p >= ts.len() {
        p
    } else if is_punct(ts[p], ","@) {
        p
    } else {
        value_end(ts, p + 1)
    }
}

/// The argument that the value tokens `ts[from..to]` stand for.
pub open spec fn value_of(ts: Seq<TokenView>, from: int, to: int) -> ArgumentView {
    if to == from + 1 && ts[from].kind == TokenKind::Literal {
        ArgumentView::Literal(ts[from].text)
    } else {
        ArgumentView::Expression
    }
}

/// The entry that starts at position `p` and the position behind it, or
/// `None` where no entry starts there.
///
/// An entry is a path, then nothing, a delimited group, or `=` and a value
/// that runs up to the next `,`.
pub open spec fn entry_at(ts: Seq<TokenView>, p: int, span: Span) -> Option<(MetaView, int)> {
    let lead = colons_at(ts, p);
    let first = if lead {
        p + 2
    } else {
        p
    };
    if !ident_at(ts, first) {
        None
    } else {
        let end = path_end(ts, first + 1);
        let path = PathView {
            leading_colon: lead,
            segments: seq![ts[first].text] + segments_at(ts, first + 1),
        };
        if 0 <= end < ts.len() && ts[end].kind == TokenKind::Group {
            Some((MetaView { path, argument: ArgumentView::List(ts[end].text), span }, end + 1))
        } else if assign_at(ts, end) {
            let stop = value_end(ts, end + 1);
            if stop == end + 1 {
                None
            } else {
                Some((MetaView { path, argument: value_of(ts, end + 1, stop), span }, stop))
            }
        } else {
            Some((MetaView { path, argument: ArgumentView::Bare, span }, end))
        }
    }
}

/// The entries of the comma-separated list that starts at position `p`, or
/// `None` where the tokens from `p` on are no such list. A trailing comma is
/// accepted.
pub open spec fn entries_at(ts: Seq<TokenView>, p: int, span: Span) -> Option<Seq<MetaView>>
    decreases ts.len() - p,
{
    if p < 0 || p >= ts.len() {
        Some(Seq::empty())
    } else {
        match entry_at(ts, p, span) {
            None => None,
            Some((meta, q)) => {
                if q <= p || q >= ts.len() {
                    Some(seq![meta])
                } else if is_punct(ts[q], ","@) {
                    match entries_at(ts, q + 1, span) {
                        None => None,
                        Some(rest) => Some(seq![meta] + rest),
                    }
                } else {
                    None
                }
            },
        }
    }
}

/// The entries that the tokens of an attribute block stand for.
pub open spec fn entries(ts: Seq<TokenView>, span: Span) -> Option<Seq<MetaView>> {
    entries_at(ts, 0, span)
}

/// The position behind a path is not before its start and not behind the
/// end of the tokens.
pub proof fn lemma_path_end_bounds(ts: Seq<TokenView>, p: int)
    requires
        0 <= p <= ts.len(),
    ensures
        p <= path_end(ts, p) <= ts.len(),
    decreases ts.len() - p,
{
    if segment_at(ts, p) {
        lemma_path_end_bounds(ts, p + 3);
    }
}

/// A value ends not before its start and not behind the end of the tokens.
pub proof fn lemma_value_end_bounds(ts: Seq<TokenView>, p: int)
    requires
        0 <= p <= ts.len(),
    ensures
        p <= value_end(ts, p) <= ts.len(),
    decreases ts.len() - p,
{
    if p < ts.len() && !is_punct(ts[p], ","@) {
        lemma_value_end_bounds(ts, p + 1);
    }
}

/// An entry that starts at `p` ends behind `p` and within the tokens.
pub proof fn lemma_entry_advances(ts: Seq<TokenView>, p: int, span: Span)
    requires
        0 <= p <= ts.len(),
    ensures
        entry_at(ts, p, span) matches Some((_, q)) ==> p < q <= ts.len(),
{
    let first = if colons_at(ts, p) {
        p + 2
    } else {
        p
    };
    if ident_at(ts, first) {
        lemma_path_end_bounds(ts, first + 1);
        let end = path_end(ts, first + 1);
        if assign_at(ts, end) {
            lemma_value_end_bounds(ts, end + 1);
        }
    }
}

fn punct_at(tokens: &Vec<Token>, p: usize, c: &str) -> (r: bool)
    ensures
        r == (p < tokens.len() && is_punct(tokens.deep_view()[p as int], c@)),
{
    if p < tokens.len() {
        match tokens[p].kind {
            TokenKind::Punct => tokens[p].text == String::from_str(c),
            _ => false,
        }
    } else {
        false
    }
}

fn has_colons(tokens: &Vec<Token>, p: usize) -> (r: bool)
    ensures
        r == colons_at(tokens.deep_view(), p as int),
{
    if p < tokens.len() && p + 1 < tokens.len() {
        punct_at(tokens, p, ":") && tokens[p].joint && punct_at(tokens, p + 1, ":")
    } else {
        false
    }
}

fn has_ident(tokens: &Vec<Token>, p: usize) -> (r: bool)
    ensures
        r == ident_at(tokens.deep_view(), p as int),
{
    if p < tokens.len() {
        match tokens[p].kind {
            TokenKind::Ident => true,
            _ => false,
        }
    } else {
        false
    }
}

fn has_segment(tokens: &Vec<Token>, p: usize) -> (r: bool)
    ensures
        r == segment_at(tokens.deep_view(), p as int),
        r ==> p + 2 < tokens.len(),
{
    if has_colons(tokens, p) {
        let n = tokens.len();
        assert(p + 1 < n);
        has_ident(tokens, p + 2)
    } else {
        false
    }
}

fn has_assign(tokens: &Vec<Token>, p: usize) -> (r: bool)
    ensures
        r == assign_at(tokens.deep_view(), p as int),
{
    if punct_at(tokens, p, "=") {
        if tokens[p].joint && p + 1 < tokens.len() {
            !(punct_at(tokens, p + 1, "=") || punct_at(tokens, p + 1, ">"))
        } else {
            true
        }
    } else {
        false
    }
}

/// Reads the path whose first name stands at `first`.
fn read_path(tokens: &Vec<Token>, lead: bool, first: usize) -> (r: (Path, usize))
    requires
        ident_at(tokens.deep_view(), first as int),
    ensures
        r.0.deep_view() == (PathView {
            leading_colon: lead,
            segments: seq![tokens.deep_view()[first as int].text] + segments_at(
                tokens.deep_view(),
                first + 1,
            ),
        }),
        r.1 == path_end(tokens.deep_view(), first + 1),
        first < r.1 <= tokens.len(),
{
    let ghost ts = tokens.deep_view();
    let n = tokens.len();
    assert(first < n);
    let mut segments: Vec<String> = Vec::new();
    segments.push(tokens[first].text.clone());
    let mut p: usize = first + 1;
    while has_segment(tokens, p)
        invariant
            ts == tokens.deep_view(),
            first < p <= tokens.len(),
            segments.deep_view() + segments_at(ts, p as int) == seq![ts[first as int].text]
                + segments_at(ts, first + 1),
            path_end(ts, p as int) == path_end(ts, first + 1),
        decreases tokens.len() - p,
    {
        let ghost before = segments.deep_view();
        segments.push(tokens[p + 2].text.clone());
        assert(before.push(ts[p + 2].text) + segments_at(ts, p + 3) =~= before + segments_at(
            ts,
            p as int,
        ));
        p = p + 3;
    }
    (Path { leading_colon: lead, segments }, p)
}

/// Finds the end of the value that starts at `p`.
fn read_value_end(tokens: &Vec<Token>, p: usize) -> (r: usize)
    requires
        p <= tokens.len(),
    ensures
        r == value_end(tokens.deep_view(), p as int),
        p <= r <= tokens.len(),
{
    let mut q: usize = p;
    while q < tokens.len() && !punct_at(tokens, q, ",")
        invariant
            p <= q <= tokens.len(),
            value_end(tokens.deep_view(), q as int) == value_end(tokens.deep_view(), p as int),
        decreases tokens.len() - q,
    {
        q = q + 1;
    }
    q
}

/// Reads the entry that starts at `p`.
fn read_entry(tokens: &Vec<Token>, p: usize, span: Span) -> (r: Option<(Meta, usize)>)
    requires
        p < tokens.len(),
    ensures
        match entry_at(tokens.deep_view(), p as int, span) {
            Some((meta, q)) => r matches Some((m, at)) && m.deep_view() == meta && at == q && p
                < at <= tokens.len(),
            None => r is None,
        },
{
    let ghost ts = tokens.deep_view();
    proof {
        lemma_entry_advances(ts, p as int, span);
    }
    let lead = has_colons(tokens, p);
    let first: usize = if lead {
        p + 2
    } else {
        p
    };
    if !has_ident(tokens, first) {
        return None;
    }
    let (path, end) = read_path(tokens, lead, first);
    if end < tokens.len() && tokens[end].kind == TokenKind::Group {
        let argument = Argument::List(tokens[end].text.clone());
        Some((Meta { path, argument, span }, end + 1))
    } else if has_assign(tokens, end) {
        let stop = read_value_end(tokens, end + 1);
        if stop == end + 1 {
            None
        } else {
            let argument = if stop == end + 2 && tokens[end + 1].kind == TokenKind::Literal {
                Argument::Literal(tokens[end + 1].text.clone())
            } else {
                Argument::Expression
            };
            Some((Meta { path, argument, span }, stop))
        }
    } else {
        Some((Meta { path, argument: Argument::Bare, span }, end))
    }
}

/// Joins what was read so far with what the rest of the tokens stands for.
pub open spec fn prepend(head: Seq<MetaView>, rest: Option<Seq<MetaView>>) -> Option<
    Seq<MetaView>,
> {
    match rest {
        Some(tail) => Some(head + tail),
        None => None,
    }
}

/// Reads the content of an attribute block: a comma-separated list of
/// entries, each a bare name, a name with a delimited group, or a name
/// assigned a value.
///
/// Every entry gets the span of the block. Fails with a
/// [`ErrorKind::Syntax`] error at that span exactly where the tokens are no
/// such list.
pub fn parse_tokens(tokens: &Vec<Token>, span: Span) -> (r: Result<Vec<Meta>, Error>)
    ensures
        match entries(tokens.deep_view(), span) {
            Some(metas) => r matches Ok(v) && v.deep_view() == metas,
            None => r matches Err(e) && e.deep_view() == ErrorView::plain(ErrorKind::Syntax, span),
        },
{
    let ghost ts = tokens.deep_view();
    let mut metas: Vec<Meta> = Vec::new();
    let mut p: usize = 0;
    assert(prepend(metas.deep_view(), entries_at(ts, 0, span)) =~= entries(ts, span));
    while p < tokens.len()
        invariant
            ts == tokens.deep_view(),
            p <= tokens.len(),
            prepend(metas.deep_view(), entries_at(ts, p as int, span)) == entries(ts, span),
        decreases tokens.len() - p,
    {
        match read_entry(tokens, p, span) {
            None => {
                return Err(Error::new(ErrorKind::Syntax, span));
            },
            Some((meta, q)) => {
                metas.push(meta);
                if q >= tokens.len() {
                    return Ok(metas);
                } else if punct_at(tokens, q, ",") {
                    p = q + 1;
                } else {
                    return Err(Error::new(ErrorKind::Syntax, span));
                }
            },
        }
    }
    Ok(metas)
}

} // verus!
