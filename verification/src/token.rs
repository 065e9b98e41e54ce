//! The tokens of an attribute block.

use proc_macro2::Spacing;
use proc_macro2::TokenStream;
use proc_macro2::TokenTree;
use std::str::FromStr;
use vstd::prelude::*;

verus! {

/// The four kinds of token tree.
#[derive(Clone, Copy, Debug, PartialEq, Eq, Structural)]
pub enum TokenKind {
    /// A word: a name or a keyword.
    Ident,
    /// A single punctuation character.
    Punct,
    /// A literal, in its source form.
    Literal,
    /// A delimited group, taken as one token.
    Group,
}

/// One token tree of an attribute block.
#[derive(Clone, Debug, PartialEq, Eq)]
pub struct Token {
    pub kind: TokenKind,
    /// The word, the punctuation character, the literal as written, or the
    /// content of the group without its delimiters.
    pub text: String,
    /// For punctuation: whether the next token follows without a gap.
    pub joint: bool,
}

/// The mathematical value of a [`Token`].
pub struct TokenView {
    pub kind: TokenKind,
    pub text: Seq<char>,
    pub joint: bool,
}

impl DeepView for Token {
    type V = TokenView;

    open spec fn deep_view(&self) -> TokenView {
        TokenView { kind: self.kind, text: self.text@, joint: self.joint }
    }
}

/// The token trees that `text` consists of, or `None` where `text` is not a
/// sequence of tokens.
pub uninterp spec fn lexed(text: Seq<char>) -> Option<Seq<TokenView>>;

/// Splits `text` into its top-level token trees with
/// `proc_macro2::TokenStream::from_str`.
///
/// Trusted: the result is taken to be a function of `text` alone, named
/// [`lexed`]; the crate is built without its bridge to the compiler, so that
/// its own lexer is at work in every process. Each tree of the stream
/// becomes one [`Token`] that holds the tree's kind, its text and, for
/// punctuation, its spacing; a lexing failure becomes `None`.
#[verifier::external_body]
pub(crate) fn lex(text: &str) -> (tokens: Option<Vec<Token>>)
    ensures
        tokens.deep_view() == lexed(text@),
{
    let stream = TokenStream::from_str(text).ok()?;
    Some(stream.into_iter().map(|tree| {
        let (kind, text, joint) = match tree {
            TokenTree::Ident(i) => (TokenKind::Ident, i.to_string(), false),
            TokenTree::Punct(p) => {
                (TokenKind::Punct, p.as_char().to_string(), p.spacing() == Spacing::Joint)
            },
            TokenTree::Literal(l) => (TokenKind::Literal, l.to_string(), false),
            TokenTree::Group(g) => (TokenKind::Group, g.stream().to_string(), false),
        };
        Token { kind, text, joint }
    }).collect())
}

} // verus!
