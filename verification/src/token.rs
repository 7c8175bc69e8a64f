//! Tokens: the atoms of templates, template bindings and generated output.

use vstd::prelude::*;

verus! {

/// How a group of tokens is bracketed.
#[derive(Clone, Copy, Debug, PartialEq, Eq, Structural)]
pub enum Delimiter {
    /// `( ... )`
    Parenthesis,
    /// `[ ... ]`
    Bracket,
    /// `{ ... }`
    Brace,
    /// A group without visible brackets.
    Invisible,
}

/// Whether a punctuation character is glued to the punctuation that follows
/// it, as the first colon of `::` is.
#[derive(Clone, Copy, Debug, PartialEq, Eq, Structural)]
pub enum Spacing {
    Alone,
    Joint,
}

/// One token. The text of an identifier or a literal is kept as written; it is
/// not checked to be well formed.
#[derive(Debug, PartialEq, Eq)]
pub enum Token {
    Ident(String),
    Literal(String),
    Punct(char, Spacing),
    Group(Delimiter, Vec<Token>),
}

/// The mathematical value of a [`Token`].
pub enum TokenView {
    Ident(Seq<char>),
    Literal(Seq<char>),
    Punct(char, Spacing),
    Group(Delimiter, Seq<TokenView>),
}

impl View for Token {
    type V = TokenView;

    open spec fn view(&self) -> TokenView
        decreases self,
    {
        match self {
            Token::Ident(text) => TokenView::Ident(text@),
            Token::Literal(text) => TokenView::Literal(text@),
            Token::Punct(ch, spacing) => TokenView::Punct(*ch, *spacing),
            Token::Group(delimiter, inner) => TokenView::Group(*delimiter, tokens_view(inner@)),
        }
    }
}

/// The values of a sequence of tokens, in order.
pub open spec fn tokens_view(tokens: Seq<Token>) -> Seq<TokenView>
    decreases tokens,
{
    Seq::new(tokens.len(), |i: int| if 0 <= i < tokens.len() { tokens[i]@ } else { arbitrary() })
}

impl Clone for Token {
    fn clone(&self) -> (copy: Token)
        ensures
            copy@ == self@,
        decreases self,
    {
        match self {
            Token::Ident(text) => Token::Ident(text.clone()),
            Token::Literal(text) => Token::Literal(text.clone()),
            Token::Punct(ch, spacing) => Token::Punct(*ch, *spacing),
            Token::Group(delimiter, inner) => Token::Group(*delimiter, clone_tokens(inner)),
        }
    }
}

/// Copies a sequence of tokens.
pub fn clone_tokens(tokens: &Vec<Token>) -> (copy: Vec<Token>)
    ensures
        tokens_view(copy@) == tokens_view(tokens@),
    decreases tokens,
{
    let mut copy: Vec<Token> = Vec::new();
    let mut i: usize = 0;
    while i < tokens.len()
        invariant
            i <= tokens.len(),
            copy.len() == i,
            forall|j: int| 0 <= j < i ==> copy[j]@ == tokens[j]@,
        decreases tokens.len() - i,
    {
        copy.push(tokens[i].clone());
        i += 1;
    }
    copy
}

} // verus!
