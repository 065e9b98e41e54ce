//! The parameters of one attribute block: extracted from the attributes of a
//! declaration point, validated against an allow-list, and consumed by name.

use crate::error::name_views;
use crate::error::result_view;
use crate::error::Error;
use crate::error::ErrorKind;
use crate::error::ErrorView;
use crate::error::Span;
use crate::meta::entries;
use crate::meta::parse_tokens;
use crate::meta::Argument;
use crate::meta::ArgumentView;
use crate::meta::Attribute;
use crate::meta::AttributeView;
use crate::meta::Meta;
use crate::meta::MetaView;
use crate::meta::Path;
use crate::meta::PathView;
use crate::token::lex;
use crate::token::lexed;
use crate::token::Token;
use crate::token::TokenView;
use vstd::prelude::*;
use vstd::string::StringExecFns;

verus! {

/// The value of the string literal that is written as `repr`, or `None`
/// where `repr` is no string literal.
pub uninterp spec fn string_value(repr: Seq<char>) -> Option<Seq<char>>;

/// Reads `repr` as a string literal with `syn::parse_str::<syn::LitStr>` and
/// takes its value with `syn::LitStr::value`.
///
/// Trusted: the result is taken to be a function of `repr` alone, named
/// [`string_value`]; text that is no string literal gives `None`.
#[verifier::external_body]
pub(crate) fn literal_value(repr: &str) -> (value: Option<String>)
    ensures
        value.deep_view() == string_value(repr@),
{
    syn::parse_str::<syn::LitStr>(repr).ok().map(|literal| literal.value())
}

/// Whether `a` and `b` are the same path.
pub fn same_path(a: &Path, b: &Path) -> (r: bool)
    ensures
        r == (a.deep_view() == b.deep_view()),
{
    if a.leading_colon != b.leading_colon || a.segments.len() != b.segments.len() {
        assert(a.segments.deep_view().len() != b.segments.deep_view().len()
            || a.leading_colon != b.leading_colon);
        return false;
    }
    let mut i: usize = 0;
    while i < a.segments.len()
        invariant
            i <= a.segments.len(),
            a.segments.len() == b.segments.len(),
            forall|j: int| 0 <= j < i ==> a.segments.deep_view()[j] == b.segments.deep_view()[j],
        decreases a.segments.len() - i,
    {
        if !(a.segments[i] == b.segments[i]) {
            assert(a.segments.deep_view()[i as int] != b.segments.deep_view()[i as int]);
            return false;
        }
        i = i + 1;
    }
    assert(a.segments.deep_view() =~= b.segments.deep_view());
    true
}

/// Whether `path` is the one name `name`.
pub fn path_is(path: &Path, name: &str) -> (r: bool)
    ensures
        r == path.deep_view().is_ident(name@),
{
    if path.leading_colon || path.segments.len() != 1 {
        assert(path.segments.deep_view().len() != 1 || path.leading_colon);
        false
    } else {
        let same = path.segments[0] == String::from_str(name);
        assert(path.segments.deep_view() =~= seq![path.segments.deep_view()[0]]);
        same
    }
}

/// The position of the first attribute from `from` on whose path is the one
/// name `name`, or the number of attributes where there is none.
pub open spec fn next_named(attrs: Seq<AttributeView>, name: Seq<char>, from: int) -> int
    decreases attrs.len() - from,
{
    if from < 0 || from >= attrs.len() {
        attrs.len() as int
    } else if attrs[from].meta.path.is_ident(name) {
        from
    } else {
        next_named(attrs, name, from + 1)
    }
}

/// What [`extract_meta`] returns: the content of the one attribute named
/// `name`, nothing where there is none, and an error at the second where there
/// are several.
pub open spec fn extracted(attrs: Seq<AttributeView>, name: Seq<char>) -> Result<
    Option<MetaView>,
    ErrorView,
> {
    let first = next_named(attrs, name, 0);
    if first >= attrs.len() {
        Ok(None)
    } else {
        let second = next_named(attrs, name, first + 1);
        if second < attrs.len() {
            Err(ErrorView::plain(ErrorKind::DuplicateAttribute, attrs[second].span))
        } else {
            Ok(Some(attrs[first].meta))
        }
    }
}

fn find_named(attrs: &Vec<Attribute>, name: &str, from: usize) -> (at: usize)
    requires
        from <= attrs.len(),
    ensures
        at == next_named(attrs.deep_view(), name@, from as int),
        from <= at <= attrs.len(),
{
    let mut i: usize = from;
    while i < attrs.len()
        invariant
            from <= i <= attrs.len(),
            next_named(attrs.deep_view(), name@, i as int) == next_named(
                attrs.deep_view(),
                name@,
                from as int,
            ),
        decreases attrs.len() - i,
    {
        if path_is(&attrs[i].meta.path, name) {
            return i;
        }
        i = i + 1;
    }
    i
}

/// Finds the attribute named `attr_name` among the attributes of one
/// declaration point.
///
/// Returns its content, or `None` where no attribute has that name. Where
/// more than one has it, fails with a [`ErrorKind::DuplicateAttribute`] error
/// at the span of the second.
pub fn extract_meta(attrs: &Vec<Attribute>, attr_name: &str) -> (r: Result<Option<Meta>, Error>)
    ensures
        result_view(r) == extracted(attrs.deep_view(), attr_name@),
{
    let first = find_named(attrs, attr_name, 0);
    if first >= attrs.len() {
        return Ok(None);
    }
    let second = find_named(attrs, attr_name, first + 1);
    if second < attrs.len() {
        return Err(Error::new(ErrorKind::DuplicateAttribute, attrs[second].span));
    }
    Ok(Some(attrs[first].meta.duplicate()))
}

/// One parameter of an attribute block, with the span it was written at.
#[derive(Clone, Debug, PartialEq, Eq)]
pub enum Param {
    /// A flag that is present or not, such as `skip`.
    Unit(Span),
    /// A name assigned a string literal; holds the literal's value.
    StringLiteral(Span, String),
    /// A name with a nested list.
    NestedParams(Span),
}

/// The mathematical value of a [`Param`].
pub enum ParamView {
    Unit(Span),
    StringLiteral(Span, Seq<char>),
    NestedParams(Span),
}

impl DeepView for Param {
    type V = ParamView;

    open spec fn deep_view(&self) -> ParamView {
        match self {
            Param::Unit(span) => ParamView::Unit(*span),
            Param::StringLiteral(span, value) => ParamView::StringLiteral(*span, value@),
            Param::NestedParams(span) => ParamView::NestedParams(*span),
        }
    }
}

impl ParamView {
    /// The span the parameter was written at.
    pub open spec fn span(self) -> Span {
        match self {
            ParamView::Unit(span) => span,
            ParamView::StringLiteral(span, _) => span,
            ParamView::NestedParams(span) => span,
        }
    }

    /// The parameter as a flag: only a unit is one.
    pub open spec fn unit(self) -> Result<(), ErrorView> {
        match self {
            ParamView::Unit(_) => Ok(()),
            _ => Err(ErrorView::plain(ErrorKind::InvalidParameter, self.span())),
        }
    }

    /// The parameter as a string: only a string literal is one.
    pub open spec fn string_literal(self) -> Result<Seq<char>, ErrorView> {
        match self {
            ParamView::StringLiteral(_, value) => Ok(value),
            _ => Err(ErrorView::plain(ErrorKind::InvalidParameter, self.span())),
        }
    }
}

/// The parameter that an entry stands for, where `decoded` is the value of
/// the entry's literal as a string, if it has one.
pub open spec fn param_of(meta: MetaView, decoded: Option<Seq<char>>) -> Result<
    ParamView,
    ErrorView,
> {
    match meta.argument {
        ArgumentView::Bare => Ok(ParamView::Unit(meta.span)),
        ArgumentView::List(_) => Ok(ParamView::NestedParams(meta.span)),
        ArgumentView::Literal(_) => match decoded {
            Some(value) => Ok(ParamView::StringLiteral(meta.span, value)),
            None => Err(ErrorView::plain(ErrorKind::InvalidParameter, meta.span)),
        },
        ArgumentView::Expression => Err(ErrorView::plain(ErrorKind::InvalidParameter, meta.span)),
    }
}

/// The value of the literal of an entry as a string, if the entry has a
/// literal and the literal is a string.
pub open spec fn decoded(meta: MetaView) -> Option<Seq<char>> {
    match meta.argument {
        ArgumentView::Literal(repr) => string_value(repr),
        _ => None,
    }
}

/// The parameter that an entry stands for.
pub open spec fn meta_param(meta: MetaView) -> Result<ParamView, ErrorView> {
    param_of(meta, decoded(meta))
}

impl Param {
    /// Turns an entry into a parameter, given the value of its literal as a
    /// string, if it has one.
    ///
    /// A bare name is a unit, a name with a group holds nested parameters,
    /// and a name assigned a string literal is a string. A name assigned
    /// anything else fails with [`ErrorKind::InvalidParameter`].
    pub fn with_value(meta: Meta, decoded: Option<String>) -> (r: Result<Param, Error>)
        ensures
            result_view(r) == param_of(meta.deep_view(), decoded.deep_view()),
    {
        match meta.argument {
            Argument::Bare => Ok(Param::Unit(meta.span)),
            Argument::List(_) => Ok(Param::NestedParams(meta.span)),
            Argument::Literal(_) => match decoded {
                Some(value) => Ok(Param::StringLiteral(meta.span, value)),
                None => Err(Error::new(ErrorKind::InvalidParameter, meta.span)),
            },
            Argument::Expression => Err(Error::new(ErrorKind::InvalidParameter, meta.span)),
        }
    }

    /// Turns an entry into a parameter.
    pub fn from_meta(meta: Meta) -> (r: Result<Param, Error>)
        ensures
            result_view(r) == meta_param(meta.deep_view()),
    {
        let value = match &meta.argument {
            Argument::Literal(repr) => literal_value(repr.as_str()),
            _ => None,
        };
        Param::with_value(meta, value)
    }

    /// The span the parameter was written at.
    pub fn span(&self) -> (span: Span)
        ensures
            span == self.deep_view().span(),
    {
        match self {
            Param::Unit(span) => *span,
            Param::StringLiteral(span, _) => *span,
            Param::NestedParams(span) => *span,
        }
    }

    /// Takes the parameter as a flag; fails with
    /// [`ErrorKind::InvalidParameter`] where it is anything but a unit.
    pub fn unit(self) -> (r: Result<(), Error>)
        ensures
            result_view(r) == self.deep_view().unit(),
    {
        match self {
            Param::Unit(_) => Ok(()),
            other => Err(Error::new(ErrorKind::InvalidParameter, other.span())),
        }
    }

    /// Takes the parameter as a string; fails with
    /// [`ErrorKind::InvalidParameter`] where it is anything but a string
    /// literal.
    pub fn string_literal(self) -> (r: Result<String, Error>)
        ensures
            result_view(r) == self.deep_view().string_literal(),
    {
        match self {
            Param::StringLiteral(_, value) => Ok(value),
            other => Err(Error::new(ErrorKind::InvalidParameter, other.span())),
        }
    }
}

/// Whether no two entries have the same path.
pub open spec fn distinct(metas: Seq<MetaView>) -> bool {
    forall|i: int, j: int| 0 <= i < j < metas.len() ==> metas[i].path != metas[j].path
}

/// Whether an entry before `j` has the path of entry `j`.
pub open spec fn repeats(metas: Seq<MetaView>, j: int) -> bool {
    exists|i: int| 0 <= i < j && metas[i].path == metas[j].path
}

/// The position of the first entry from `from` on that repeats the path of an
/// entry before it, or the number of entries where there is none.
pub open spec fn next_repeat(metas: Seq<MetaView>, from: int) -> int
    decreases metas.len() - from,
{
    if from < 0 || from >= metas.len() {
        metas.len() as int
    } else if repeats(metas, from) {
        from
    } else {
        next_repeat(metas, from + 1)
    }
}

/// The parameter set of a list of entries: the entries themselves, or an
/// error at the first entry that repeats a name.
pub open spec fn params_of_metas(metas: Seq<MetaView>) -> Result<Seq<MetaView>, ErrorView> {
    let at = next_repeat(metas, 0);
    if at < metas.len() {
        Err(ErrorView::plain(ErrorKind::DuplicateParameter, metas[at].span))
    } else {
        Ok(metas)
    }
}

/// The parameter set of the tokens of an attribute block.
pub open spec fn params_of_tokens(
    tokens: Option<Seq<TokenView>>,
    span: Span,
) -> Result<Seq<MetaView>, ErrorView> {
    match tokens {
        None => Err(ErrorView::plain(ErrorKind::Syntax, span)),
        Some(ts) => match entries(ts, span) {
            None => Err(ErrorView::plain(ErrorKind::Syntax, span)),
            Some(metas) => params_of_metas(metas),
        },
    }
}

/// The parameter set of an attribute block with the content `text`.
pub open spec fn params_of_list(text: Seq<char>, span: Span) -> Result<
    Seq<MetaView>,
    ErrorView,
> {
    params_of_tokens(lexed(text), span)
}

/// The parameter set of the attributes of one declaration point: that of the
/// block named `name`, the empty set where there is no such block.
pub open spec fn params_of_attrs(attrs: Seq<AttributeView>, name: Seq<char>) -> Result<
    Seq<MetaView>,
    ErrorView,
> {
    match extracted(attrs, name) {
        Err(error) => Err(error),
        Ok(None) => Ok(Seq::empty()),
        Ok(Some(meta)) => match meta.argument {
            ArgumentView::List(text) => params_of_list(text, meta.span),
            _ => Err(ErrorView::plain(ErrorKind::InvalidAttribute, meta.span)),
        },
    }
}

/// Whether `path` is one of the names in `allowed`.
pub open spec fn allows(allowed: Seq<Seq<char>>, path: PathView) -> bool {
    exists|k: int| 0 <= k < allowed.len() && path.is_ident(#[trigger] allowed[k])
}

/// The position of the first entry from `from` on whose name is not in
/// `allowed`, or the number of entries where there is none.
pub open spec fn next_unknown(metas: Seq<MetaView>, allowed: Seq<Seq<char>>, from: int) -> int
    decreases metas.len() - from,
{
    if from < 0 || from >= metas.len() {
        metas.len() as int
    } else if !allows(allowed, metas[from].path) {
        from
    } else {
        next_unknown(metas, allowed, from + 1)
    }
}

/// What validation against `allowed` gives: an error at the first entry whose
/// name is not allowed, with a message that lists the allowed names.
pub open spec fn validated(metas: Seq<MetaView>, allowed: Seq<Seq<char>>) -> Result<
    (),
    ErrorView,
> {
    let at = next_unknown(metas, allowed, 0);
    if at < metas.len() {
        Err(ErrorView::unknown(metas[at].span, allowed))
    } else {
        Ok(())
    }
}

/// The position of the first entry from `from` on whose path is the one name
/// `name`, or the number of entries where there is none.
pub open spec fn position(metas: Seq<MetaView>, name: Seq<char>, from: int) -> int
    decreases metas.len() - from,
{
    if from < 0 || from >= metas.len() {
        metas.len() as int
    } else if metas[from].path.is_ident(name) {
        from
    } else {
        position(metas, name, from + 1)
    }
}

/// What reading the flag `name` returns: whether it is present, and an error
/// where it is present with a value.
pub open spec fn flag(metas: Seq<MetaView>, name: Seq<char>) -> Result<bool, ErrorView> {
    match taken(metas, name) {
        Err(error) => Err(error),
        Ok(None) => Ok(false),
        Ok(Some(param)) => match param.unit() {
            Err(error) => Err(error),
            Ok(()) => Ok(true),
        },
    }
}

/// The entries that are left when the parameter `name` is taken.
pub open spec fn without(metas: Seq<MetaView>, name: Seq<char>) -> Seq<MetaView> {
    let at = position(metas, name, 0);
    if at < metas.len() {
        metas.remove(at)
    } else {
        metas
    }
}

/// What taking the parameter `name` returns.
pub open spec fn taken(metas: Seq<MetaView>, name: Seq<char>) -> Result<
    Option<ParamView>,
    ErrorView,
> {
    let at = position(metas, name, 0);
    if at < metas.len() {
        match meta_param(metas[at]) {
            Ok(param) => Ok(Some(param)),
            Err(error) => Err(error),
        }
    } else {
        Ok(None)
    }
}

/// Entries make a parameter set exactly where no two of them have the same
/// path, and the set then holds the entries as they are.
pub proof fn law_distinct_names(metas: Seq<MetaView>)
    ensures
        params_of_metas(metas) is Ok <==> distinct(metas),
        params_of_metas(metas) is Ok ==> params_of_metas(metas) == Ok::<
            Seq<MetaView>,
            ErrorView,
        >(metas),
        params_of_metas(metas) matches Err(error) ==> error.kind == ErrorKind::DuplicateParameter,
{
    lemma_next_repeat(metas, 0);
    let at = next_repeat(metas, 0);
    if at < metas.len() {
        let i = choose|i: int| 0 <= i < at && metas[i].path == metas[at].path;
    } else {
        assert forall|i: int, j: int| 0 <= i < j < metas.len() implies metas[i].path
            != metas[j].path by {
            assert(!repeats(metas, j));
        }
    }
}

/// The first repeat from `from` on is a repeat, and no entry between `from`
/// and it is one.
pub proof fn lemma_next_repeat(metas: Seq<MetaView>, from: int)
    requires
        0 <= from,
    ensures
        from <= next_repeat(metas, from) || next_repeat(metas, from) == metas.len(),
        next_repeat(metas, from) <= metas.len(),
        next_repeat(metas, from) < metas.len() ==> repeats(metas, next_repeat(metas, from)),
        forall|j: int| from <= j < next_repeat(metas, from) ==> !repeats(metas, j),
    decreases metas.len() - from,
{
    if from < metas.len() && !repeats(metas, from) {
        lemma_next_repeat(metas, from + 1);
    }
}

/// The first entry named `name` from `from` on is named so, and no entry
/// between `from` and it is.
pub proof fn lemma_position(metas: Seq<MetaView>, name: Seq<char>, from: int)
    requires
        0 <= from,
    ensures
        from <= position(metas, name, from) || position(metas, name, from) == metas.len(),
        position(metas, name, from) <= metas.len(),
        position(metas, name, from) < metas.len() ==> metas[position(
            metas,
            name,
            from,
        )].path.is_ident(name),
        forall|j: int|
            from <= j < position(metas, name, from) ==> !(#[trigger] metas[j]).path.is_ident(name),
    decreases metas.len() - from,
{
    if from < metas.len() && !metas[from].path.is_ident(name) {
        lemma_position(metas, name, from + 1);
    }
}

/// Taking a parameter is idempotent: once taken, the parameter is absent, so
/// that taking it again returns nothing and leaves the set as it is.
pub proof fn law_take_once(metas: Seq<MetaView>, name: Seq<char>)
    requires
        distinct(metas),
    ensures
        distinct(without(metas, name)),
        taken(without(metas, name), name) == Ok::<Option<ParamView>, ErrorView>(None),
        without(without(metas, name), name) == without(metas, name),
        forall|j: int|
            0 <= j < without(metas, name).len() ==> !(#[trigger] without(
                metas,
                name,
            )[j]).path.is_ident(name),
{
    lemma_position(metas, name, 0);
    let at = position(metas, name, 0);
    let rest = without(metas, name);
    assert forall|j: int| 0 <= j < rest.len() implies !(#[trigger] rest[j]).path.is_ident(
        name,
    ) by {
        if at <= j && at < metas.len() {
            assert(rest[j] == metas[j + 1]);
        }
    }
    lemma_absent(rest, name, 0);
}

/// Where no entry from `from` on is named `name`, none is found.
pub proof fn lemma_absent(metas: Seq<MetaView>, name: Seq<char>, from: int)
    requires
        0 <= from,
        forall|j: int| from <= j < metas.len() ==> !(#[trigger] metas[j]).path.is_ident(name),
    ensures
        position(metas, name, from) == metas.len(),
    decreases metas.len() - from,
{
    if from < metas.len() {
        lemma_absent(metas, name, from + 1);
    }
}

/// The parameters of one attribute block, in the order they were written.
/// No name occurs twice.
#[derive(Debug)]
pub struct Params {
    entries: Vec<Meta>,
}

impl DeepView for Params {
    type V = Seq<MetaView>;

    closed spec fn deep_view(&self) -> Seq<MetaView> {
        self.entries.deep_view()
    }
}

fn locate(entries: &Vec<Meta>, name: &str) -> (at: usize)
    ensures
        at == position(entries.deep_view(), name@, 0),
        at <= entries.len(),
{
    let mut i: usize = 0;
    while i < entries.len()
        invariant
            i <= entries.len(),
            position(entries.deep_view(), name@, i as int) == position(
                entries.deep_view(),
                name@,
                0,
            ),
        decreases entries.len() - i,
    {
        if path_is(&entries[i].path, name) {
            return i;
        }
        i = i + 1;
    }
    i
}

fn name_allowed(allowed: &[&str], path: &Path) -> (r: bool)
    ensures
        r == allows(name_views(allowed@), path.deep_view()),
{
    let ghost names = name_views(allowed@);
    let mut k: usize = 0;
    while k < allowed.len()
        invariant
            k <= allowed@.len(),
            names == name_views(allowed@),
            forall|j: int| 0 <= j < k ==> !path.deep_view().is_ident(#[trigger] names[j]),
        decreases allowed@.len() - k,
    {
        if path_is(path, allowed[k]) {
            assert(path.deep_view().is_ident(names[k as int]));
            return true;
        }
        k = k + 1;
    }
    false
}

impl Params {
    #[verifier::type_invariant]
    spec fn well_formed(self) -> bool {
        distinct(self.entries.deep_view())
    }

    /// The empty parameter set.
    pub fn new() -> (params: Params)
        ensures
            params.deep_view() == Seq::<MetaView>::empty(),
    {
        let entries: Vec<Meta> = Vec::new();
        Params { entries }
    }

    /// The number of parameters that have not been taken.
    pub fn len(&self) -> (n: usize)
        ensures
            n == self.deep_view().len(),
    {
        self.entries.len()
    }

    /// Makes a parameter set of the entries of an attribute block.
    ///
    /// Fails with a [`ErrorKind::DuplicateParameter`] error at the first
    /// entry whose name an earlier entry has.
    pub fn from_metas(metas: Vec<Meta>) -> (r: Result<Params, Error>)
        ensures
            result_view(r) == params_of_metas(metas.deep_view()),
    {
        let ghost ms = metas.deep_view();
        let mut j: usize = 0;
        while j < metas.len()
            invariant
                j <= metas.len(),
                ms == metas.deep_view(),
                next_repeat(ms, j as int) == next_repeat(ms, 0),
                forall|a: int, b: int| 0 <= a < b < j ==> ms[a].path != ms[b].path,
            decreases metas.len() - j,
        {
            let mut i: usize = 0;
            while i < j
                invariant
                    i <= j < metas.len(),
                    ms == metas.deep_view(),
                    next_repeat(ms, j as int) == next_repeat(ms, 0),
                    forall|a: int| 0 <= a < i ==> ms[a].path != ms[j as int].path,
                decreases j - i,
            {
                if same_path(&metas[i].path, &metas[j].path) {
                    assert(ms[i as int].path == ms[j as int].path);
                    return Err(Error::new(ErrorKind::DuplicateParameter, metas[j].span));
                }
                i = i + 1;
            }
            j = j + 1;
        }
        Ok(Params { entries: metas })
    }

    /// Reads the content of an attribute block as a parameter set.
    ///
    /// Fails with [`ErrorKind::Syntax`] where `text` is no comma-separated
    /// list of entries, and with [`ErrorKind::DuplicateParameter`] where a
    /// name occurs twice; both errors are at `span`.
    pub fn from_meta_list(text: &str, span: Span) -> (r: Result<Params, Error>)
        ensures
            result_view(r) == params_of_list(text@, span),
    {
        Params::from_tokens(lex(text), span)
    }

    /// Makes a parameter set of the tokens of an attribute block, where
    /// `None` says that the block's content is no sequence of tokens.
    pub fn from_tokens(tokens: Option<Vec<Token>>, span: Span) -> (r: Result<Params, Error>)
        ensures
            result_view(r) == params_of_tokens(tokens.deep_view(), span),
    {
        match tokens {
            None => Err(Error::new(ErrorKind::Syntax, span)),
            Some(tokens) => match parse_tokens(&tokens, span) {
                Err(error) => Err(error),
                Ok(metas) => Params::from_metas(metas),
            },
        }
    }

    /// Reads the parameters of one declaration point from its attributes.
    ///
    /// The block is the attribute named `attr_name`; without one the set is
    /// empty. Fails where there are several such attributes, where the
    /// attribute is not of the form `name(...)`, and where its content is no
    /// parameter set.
    pub fn from_attrs(attrs: &Vec<Attribute>, attr_name: &str) -> (r: Result<Params, Error>)
        ensures
            result_view(r) == params_of_attrs(attrs.deep_view(), attr_name@),
    {
        match extract_meta(attrs, attr_name) {
            Err(error) => Err(error),
            Ok(None) => Ok(Params::new()),
            Ok(Some(meta)) => match &meta.argument {
                Argument::List(text) => Params::from_meta_list(text.as_str(), meta.span),
                _ => Err(Error::new(ErrorKind::InvalidAttribute, meta.span)),
            },
        }
    }

    /// Checks that every parameter name is in `allowed_params`.
    ///
    /// Fails with a [`ErrorKind::UnknownParameter`] error at the first
    /// parameter whose name is not; the message lists the allowed names.
    pub fn validate(&self, allowed_params: &[&str]) -> (r: Result<(), Error>)
        ensures
            result_view(r) == validated(self.deep_view(), name_views(allowed_params@)),
    {
        let ghost ms = self.entries.deep_view();
        let ghost names = name_views(allowed_params@);
        let mut i: usize = 0;
        while i < self.entries.len()
            invariant
                i <= self.entries.len(),
                ms == self.entries.deep_view(),
                names == name_views(allowed_params@),
                next_unknown(ms, names, i as int) == next_unknown(ms, names, 0),
            decreases self.entries.len() - i,
        {
            if !name_allowed(allowed_params, &self.entries[i].path) {
                return Err(Error::unknown_parameter(self.entries[i].span, allowed_params));
            }
            i = i + 1;
        }
        Ok(())
    }

    /// Takes the parameter named `name` out of the set.
    ///
    /// Returns `None`, and leaves the set as it is, where no parameter has
    /// that name. Otherwise the parameter leaves the set, also where its
    /// value is of no valid shape and the call fails with
    /// [`ErrorKind::InvalidParameter`].
    pub fn param(&mut self, name: &str) -> (r: Result<Option<Param>, Error>)
        ensures
            final(self).deep_view() == without(old(self).deep_view(), name@),
            result_view(r) == taken(old(self).deep_view(), name@),
    {
        proof {
            use_type_invariant(&*self);
        }
        let ghost ms = self.entries.deep_view();
        let i = locate(&self.entries, name);
        if i < self.entries.len() {
            let mut entries: Vec<Meta> = Vec::new();
            core::mem::swap(&mut self.entries, &mut entries);
            let meta = entries.remove(i);
            assert(entries.deep_view() =~= ms.remove(i as int));
            self.entries = entries;
            match Param::from_meta(meta) {
                Ok(param) => Ok(Some(param)),
                Err(error) => Err(error),
            }
        } else {
            Ok(None)
        }
    }

    /// Takes the flag named `name` out of the set and says whether it was
    /// there.
    ///
    /// Fails with [`ErrorKind::InvalidParameter`] where the name is there
    /// with a value or a nested list.
    pub fn flag(&mut self, name: &str) -> (r: Result<bool, Error>)
        ensures
            final(self).deep_view() == without(old(self).deep_view(), name@),
            result_view(r) == flag(old(self).deep_view(), name@),
    {
        match self.param(name) {
            Err(error) => Err(error),
            Ok(None) => Ok(false),
            Ok(Some(param)) => match param.unit() {
                Err(error) => Err(error),
                Ok(()) => Ok(true),
            },
        }
    }

    /// Takes the first parameter out of the set, or returns `None` where the
    /// set is empty.
    pub fn next(&mut self) -> (r: Option<Result<Param, Error>>)
        ensures
            final(self).deep_view() == (if old(self).deep_view().len() == 0 {
                old(self).deep_view()
            } else {
                old(self).deep_view().drop_first()
            }),
            match r {
                None => old(self).deep_view().len() == 0,
                Some(first) => old(self).deep_view().len() > 0 && result_view(first)
                    == meta_param(old(self).deep_view()[0]),
            },
    {
        proof {
            use_type_invariant(&*self);
        }
        let ghost ms = self.entries.deep_view();
        if self.entries.len() == 0 {
            None
        } else {
            let mut entries: Vec<Meta> = Vec::new();
            core::mem::swap(&mut self.entries, &mut entries);
            let meta = entries.remove(0);
            assert(entries.deep_view() =~= ms.drop_first());
            self.entries = entries;
            Some(Param::from_meta(meta))
        }
    }
}

} // verus!
