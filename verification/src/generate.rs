//! The macro: its input, and the expansion of its template over the
//! implementers found in a scanned package.

use crate::errors::{ExpandError, InputError};
use crate::scanner::ast::{AstNodeView, File};
use crate::scanner::lookup::{implementers, root_path};
use crate::template::context::{root_context, Context};
use crate::template::expand::{expand, outcome_view};
use crate::token::{clone_tokens, tokens_view, Delimiter, Spacing, Token, TokenView};
use vstd::prelude::*;

verus! {

/// The input of the macro: the capability to look for, and the template to
/// expand over its implementers.
#[derive(Debug, PartialEq, Eq)]
pub struct GenerateInput {
    pub trait_name: String,
    pub body: Vec<Token>,
}

/// The mathematical value of a [`GenerateInput`].
pub struct GenerateInputView {
    pub trait_name: Seq<char>,
    pub body: Seq<TokenView>,
}

impl View for GenerateInput {
    type V = GenerateInputView;

    open spec fn view(&self) -> GenerateInputView {
        GenerateInputView { trait_name: self.trait_name@, body: tokens_view(self.body@) }
    }
}

/// Whether `tokens` hold the arrow `=>` at `position`.
pub open spec fn arrow_at(tokens: Seq<TokenView>, position: int) -> bool {
    &&& 0 <= position && position + 1 < tokens.len()
    &&& tokens[position] == TokenView::Punct('=', Spacing::Joint)
    &&& tokens[position + 1] matches TokenView::Punct(ch, _) && ch == '>'
}

/// What `tokens` say as input of the macro.
///
/// The input is a parenthesized group that holds one identifier, the arrow
/// `=>`, and a group in braces, and nothing else. The identifier, whichever
/// it is, names the capability and the braces hold the template. Of several
/// faults the one that comes first in the order of [`InputError`] is reported.
pub open spec fn parse_input(tokens: Seq<TokenView>) -> Result<GenerateInputView, InputError> {
    if !(tokens.len() > 0 && tokens[0] matches TokenView::Group(Delimiter::Parenthesis, _)) {
        Err(InputError::ExpectedParentheses)
    } else if !arrow_at(tokens, 1) {
        Err(InputError::ExpectedArrow)
    } else if !(tokens.len() > 3 && tokens[3] matches TokenView::Group(Delimiter::Brace, _)) {
        Err(InputError::ExpectedBraces)
    } else {
        let sig = tokens[0]->Group_1;
        if !(sig.len() > 0 && sig[0] is Ident) {
            Err(InputError::ExpectedIdentifier)
        } else if sig.len() > 1 || tokens.len() > 4 {
            Err(InputError::UnexpectedToken)
        } else {
            Ok(GenerateInputView { trait_name: sig[0]->Ident_0, body: tokens[3]->Group_1 })
        }
    }
}

/// What the macro generates for `input` in the package with the items `tree`:
/// the expansion of the template in the context of the implementers of the
/// capability, in the order in which they stand in the tree.
pub open spec fn generated(input: GenerateInputView, tree: Seq<AstNodeView>) -> Result<
    Seq<TokenView>,
    ExpandError,
> {
    expand(input.body, root_context(implementers(tree, root_path(), input.trait_name)))
}

impl GenerateInput {
    /// Reads the input of the macro.
    pub fn parse(input: &Vec<Token>) -> (parsed: Result<GenerateInput, InputError>)
        ensures
            parse_input(tokens_view(input@)) == match parsed {
                Ok(read) => Ok(read@),
                Err(error) => Err(error),
            },
    {
        let ghost tokens = tokens_view(input@);
        if input.len() == 0 {
            return Err(InputError::ExpectedParentheses);
        }
        proof {
            assert(tokens[0] == input[0]@);
        }
        let sig = match &input[0] {
            Token::Group(Delimiter::Parenthesis, sig) => sig,
            _ => {
                return Err(InputError::ExpectedParentheses);
            },
        };
        if input.len() < 3 {
            return Err(InputError::ExpectedArrow);
        }
        proof {
            assert(tokens[1] == input[1]@);
            assert(tokens[2] == input[2]@);
        }
        match (&input[1], &input[2]) {
            (Token::Punct('=', Spacing::Joint), Token::Punct('>', _)) => {},
            _ => {
                return Err(InputError::ExpectedArrow);
            },
        }
        if input.len() < 4 {
            return Err(InputError::ExpectedBraces);
        }
        proof {
            assert(tokens[3] == input[3]@);
        }
        let body = match &input[3] {
            Token::Group(Delimiter::Brace, body) => body,
            _ => {
                return Err(InputError::ExpectedBraces);
            },
        };
        if sig.len() == 0 {
            return Err(InputError::ExpectedIdentifier);
        }
        proof {
            assert(tokens_view(sig@)[0] == sig[0]@);
        }
        let trait_name = match &sig[0] {
            Token::Ident(name) => name,
            _ => {
                return Err(InputError::ExpectedIdentifier);
            },
        };
        if sig.len() > 1 || input.len() > 4 {
            return Err(InputError::UnexpectedToken);
        }
        Ok(GenerateInput { trait_name: trait_name.clone(), body: clone_tokens(body) })
    }
}

/// Expands the template of `input` over the implementers of its capability
/// in the scanned package `tree`.
pub fn generate(input: &GenerateInput, tree: &File) -> (output: Result<Vec<Token>, ExpandError>)
    ensures
        outcome_view(output) == generated(input@, tree@),
{
    let implementers = tree.lookup(input.trait_name.as_str());
    Context::from_iter(implementers).translate(&input.body)
}

} // verus!
