//! The expansion of a template.

use crate::errors::ExpandError;
use crate::template::context::{contexts_view, Context, ContextView};
use crate::template::lemmas::lemma_glue_fails_on_groups;
use crate::text::{trim_quotes, trim_quotes_text};
use crate::token::{clone_tokens, tokens_view, Delimiter, Token, TokenView};
use vstd::prelude::*;

verus! {

/// The character that introduces a template expression.
pub open spec fn escape_marker() -> char {
    '$'
}

/// `pieces` put in front of a later result; a later failure stays a failure.
pub open spec fn prepend(
    pieces: Seq<TokenView>,
    later: Result<Seq<TokenView>, ExpandError>,
) -> Result<Seq<TokenView>, ExpandError> {
    match later {
        Ok(rest) => Ok(pieces + rest),
        Err(error) => Err(error),
    }
}

/// The first failure among `results`, or else all their tokens in order.
pub open spec fn collect(results: Seq<Result<Seq<TokenView>, ExpandError>>) -> Result<
    Seq<TokenView>,
    ExpandError,
>
    decreases results.len(),
{
    if results.len() == 0 {
        Ok(Seq::empty())
    } else {
        match results.first() {
            Ok(pieces) => prepend(pieces, collect(results.drop_first())),
            Err(error) => Err(error),
        }
    }
}

/// What one token adds to a synthesized identifier. A group adds nothing
/// and makes the synthesis fail: see [`glue`].
pub open spec fn fragment(token: TokenView) -> Seq<char> {
    match token {
        TokenView::Ident(text) => text,
        TokenView::Literal(text) => trim_quotes(text),
        TokenView::Punct(ch, _) => seq![ch],
        TokenView::Group(_, _) => Seq::empty(),
    }
}

/// The identifier synthesized from `pieces`: their fragments in order, or
/// nothing where a group is among them.
pub open spec fn glue(pieces: Seq<TokenView>) -> Option<Seq<char>>
    decreases pieces.len(),
{
    if pieces.len() == 0 {
        Some(Seq::empty())
    } else {
        match (glue(pieces.drop_last()), pieces.last()) {
            (_, TokenView::Group(_, _)) => None,
            (None, _) => None,
            (Some(front), token) => Some(front + fragment(token)),
        }
    }
}

/// Whether `tokens` begin with a repetition modifier, `+` or `*`.
pub open spec fn has_modifier(tokens: Seq<TokenView>) -> bool {
    tokens.len() > 0 && (tokens[0] matches TokenView::Punct(ch, _) && (ch == '+' || ch == '*'))
}

/// Whether `tokens` begin with the modifier `+`.
pub open spec fn requires_some(tokens: Seq<TokenView>) -> bool {
    tokens.len() > 0 && (tokens[0] matches TokenView::Punct(ch, _) && ch == '+')
}

/// How many tokens the expression at the head of `tokens` takes up: a
/// repetition with a modifier two, anything else one.
pub open spec fn expression_len(tokens: Seq<TokenView>) -> int {
    if tokens.len() > 0 && (tokens[0] matches TokenView::Group(Delimiter::Parenthesis, _))
        && has_modifier(tokens.skip(1)) {
        2
    } else {
        1
    }
}

/// The expansion of `template` in `context`.
///
/// Tokens are taken from the left. The escape marker starts an expression,
/// see [`expression`]; a group is expanded inside and keeps its delimiter;
/// any other token stands for itself. The first failure met is the result.
pub open spec fn expand(template: Seq<TokenView>, context: ContextView) -> Result<
    Seq<TokenView>,
    ExpandError,
>
    decreases template, 1nat,
{
    if template.len() == 0 {
        Ok(Seq::empty())
    } else {
        let rest = template.skip(1);
        match template[0] {
            TokenView::Punct(ch, _) if ch == escape_marker() => {
                if rest.len() == 0 {
                    Err(ExpandError::UnexpectedEnd)
                } else {
                    match expression(rest, context) {
                        Ok(pieces) => prepend(
                            pieces,
                            expand(rest.skip(expression_len(rest)), context),
                        ),
                        Err(error) => Err(error),
                    }
                }
            },
            TokenView::Group(delimiter, inner) => match expand(inner, context) {
                Ok(pieces) => prepend(
                    seq![TokenView::Group(delimiter, pieces)],
                    expand(rest, context),
                ),
                Err(error) => Err(error),
            },
            token => prepend(seq![token], expand(rest, context)),
        }
    }
}

/// What the expression at the head of `tokens` expands to in `context`;
/// `tokens` is what follows an escape marker and is not empty.
///
/// - An identifier is a variable: the tokens bound to it.
/// - A bracketed group is an identifier synthesis: the group is expanded and
///   the result glued into one identifier, see [`glue`].
/// - A parenthesized group is a repetition: the group is expanded once in
///   each child context, and the results follow each other. After the
///   modifier `+` there must be a child.
pub open spec fn expression(tokens: Seq<TokenView>, context: ContextView) -> Result<
    Seq<TokenView>,
    ExpandError,
>
    recommends
        tokens.len() > 0,
    decreases tokens, 0nat,
{
    if tokens.len() == 0 {
        Err(ExpandError::UnexpectedEnd)
    } else {
        match tokens[0] {
            TokenView::Ident(name) => if context.vars.contains_key(name) {
                Ok(context.vars[name])
            } else {
                Err(ExpandError::UnboundVariable)
            },
            TokenView::Group(Delimiter::Bracket, inner) => match synthesis(inner, context) {
                Ok(name) => Ok(seq![TokenView::Ident(name)]),
                Err(error) => Err(error),
            },
            TokenView::Group(Delimiter::Parenthesis, body) => match context.repeatable {
                Some(children) => match collect(expansions(body, children)) {
                    Ok(pieces) => if requires_some(tokens.skip(1)) && children.len() == 0 {
                        Err(ExpandError::EmptyRequiredRepetition)
                    } else {
                        Ok(pieces)
                    },
                    Err(error) => Err(error),
                },
                None => Err(ExpandError::RepetitionContextMissing),
            },
            _ => Err(ExpandError::UnsupportedExpression),
        }
    }
}

/// The identifier synthesized from the expansion of `inner` in `context`.
pub open spec fn synthesis(inner: Seq<TokenView>, context: ContextView) -> Result<
    Seq<char>,
    ExpandError,
>
    decreases inner, 2nat,
{
    match expand(inner, context) {
        Ok(pieces) => match glue(pieces) {
            Some(name) => Ok(name),
            None => Err(ExpandError::InvalidSynthesisInput),
        },
        Err(error) => Err(error),
    }
}

/// The expansion of `body` in each of `children`, in order.
pub open spec fn expansions(body: Seq<TokenView>, children: Seq<ContextView>) -> Seq<
    Result<Seq<TokenView>, ExpandError>,
>
    decreases body, 2nat,
{
    children.map_values(|child: ContextView| expand(body, child))
}

/// The value of the outcome of an expansion.
pub open spec fn outcome_view(outcome: Result<Vec<Token>, ExpandError>) -> Result<
    Seq<TokenView>,
    ExpandError,
> {
    match outcome {
        Ok(tokens) => Ok(tokens_view(tokens@)),
        Err(error) => Err(error),
    }
}

/// Putting two runs of pieces in front, one after the other, is putting both
/// in front at once.
proof fn lemma_prepend_twice(
    first: Seq<TokenView>,
    second: Seq<TokenView>,
    later: Result<Seq<TokenView>, ExpandError>,
)
    ensures
        prepend(first, prepend(second, later)) == prepend(first + second, later),
{
    if let Ok(rest) = later {
        assert(first + (second + rest) =~= (first + second) + rest);
    }
}

/// The values of tokens with one more token.
proof fn lemma_tokens_view_push(tokens: Seq<Token>, token: Token)
    ensures
        tokens_view(tokens.push(token)) == tokens_view(tokens) + seq![token@],
{
    assert(tokens_view(tokens.push(token)) =~= tokens_view(tokens) + seq![token@]);
}

/// The values of two runs of tokens, one after the other.
proof fn lemma_tokens_view_concat(front: Seq<Token>, back: Seq<Token>)
    ensures
        tokens_view(front + back) == tokens_view(front) + tokens_view(back),
{
    assert(tokens_view(front + back) =~= tokens_view(front) + tokens_view(back));
}

impl Context {
    /// Expands `input` in this context.
    pub fn translate(&self, input: &Vec<Token>) -> (output: Result<Vec<Token>, ExpandError>)
        ensures
            outcome_view(output) == expand(tokens_view(input@), self@),
        decreases input, 1nat,
    {
        let ghost template = tokens_view(input@);
        let mut output: Vec<Token> = Vec::new();
        let mut i: usize = 0;
        proof {
            assert(template.skip(0) =~= template);
            assert(Seq::<TokenView>::empty() + expand(template, self@)->Ok_0 =~= expand(
                template,
                self@,
            )->Ok_0);
        }
        while i < input.len()
            invariant
                i <= input.len(),
                template == tokens_view(input@),
                expand(template, self@) == prepend(
                    tokens_view(output@),
                    expand(template.skip(i as int), self@),
                ),
            decreases input.len() - i,
        {
            let ghost here = template.skip(i as int);
            let ghost rest = here.skip(1);
            let ghost before = tokens_view(output@);
            proof {
                assert(here[0] == input[i as int]@);
                assert(rest =~= template.skip(i + 1));
            }
            match &input[i] {
                Token::Punct(ch, _) if *ch == '$' => {
                    if i + 1 >= input.len() {
                        return Err(ExpandError::UnexpectedEnd);
                    }
                    match self.translate_expression(input, i + 1) {
                        Ok((mut pieces, next)) => {
                            proof {
                                lemma_tokens_view_concat(output@, pieces@);
                                lemma_prepend_twice(
                                    before,
                                    tokens_view(pieces@),
                                    expand(rest.skip(expression_len(rest)), self@),
                                );
                                assert(rest.skip(expression_len(rest)) =~= template.skip(
                                    next as int,
                                ));
                            }
                            output.append(&mut pieces);
                            i = next;
                        },
                        Err(error) => {
                            return Err(error);
                        },
                    }
                },
                Token::Group(delimiter, inner) => {
                    match self.translate(inner) {
                        Ok(pieces) => {
                            let group = Token::Group(*delimiter, pieces);
                            proof {
                                lemma_tokens_view_push(output@, group);
                                lemma_prepend_twice(before, seq![group@], expand(rest, self@));
                            }
                            output.push(group);
                            i += 1;
                        },
                        Err(error) => {
                            return Err(error);
                        },
                    }
                },
                token => {
                    let copy = token.clone();
                    proof {
                        lemma_tokens_view_push(output@, copy);
                        lemma_prepend_twice(before, seq![copy@], expand(rest, self@));
                    }
                    output.push(copy);
                    i += 1;
                },
            }
        }
        proof {
            assert(tokens_view(output@) + Seq::<TokenView>::empty() =~= tokens_view(output@));
        }
        Ok(output)
    }

    /// Expands the expression that begins at `position` of `input`, behind an
    /// escape marker. Returns its tokens and the position behind it.
    fn translate_expression(&self, input: &Vec<Token>, position: usize) -> (output: Result<
        (Vec<Token>, usize),
        ExpandError,
    >)
        requires
            position < input.len(),
        ensures
            expression(tokens_view(input@).skip(position as int), self@) == match output {
                Ok((pieces, _)) => Ok(tokens_view(pieces@)),
                Err(error) => Err(error),
            },
            output matches Ok((_, next)) ==> next <= input.len() && next == position
                + expression_len(tokens_view(input@).skip(position as int)),
        decreases input, 0nat,
    {
        let ghost tokens = tokens_view(input@).skip(position as int);
        proof {
            assert(tokens[0] == input[position as int]@);
        }
        match &input[position] {
            Token::Ident(name) => match self.get(name) {
                Some(bound) => Ok((clone_tokens(bound), position + 1)),
                None => Err(ExpandError::UnboundVariable),
            },
            Token::Group(Delimiter::Bracket, inner) => match self.make_ident(inner) {
                Ok(name) => {
                    let mut pieces: Vec<Token> = Vec::new();
                    let ident = Token::Ident(name);
                    proof {
                        lemma_tokens_view_push(pieces@, ident);
                        assert(tokens_view(pieces@) =~= Seq::<TokenView>::empty());
                    }
                    pieces.push(ident);
                    Ok((pieces, position + 1))
                },
                Err(error) => Err(error),
            },
            Token::Group(Delimiter::Parenthesis, body) => match &self.repeatable {
                Some(children) => {
                    let ghost results = expansions(tokens_view(body@), contexts_view(children@));
                    let mut output: Vec<Token> = Vec::new();
                    let mut k: usize = 0;
                    proof {
                        assert(results.skip(0) =~= results);
                        assert(Seq::<TokenView>::empty() + collect(results)->Ok_0 =~= collect(
                            results,
                        )->Ok_0);
                    }
                    while k < children.len()
                        invariant
                            k <= children.len(),
                            results == expansions(tokens_view(body@), contexts_view(children@)),
                            results.len() == children.len(),
                            collect(results) == prepend(
                                tokens_view(output@),
                                collect(results.skip(k as int)),
                            ),
                            position < input.len(),
                            tokens == tokens_view(input@).skip(position as int),
                            collect(results) is Err ==> expression(tokens, self@) == collect(
                                results,
                            ),
                            decreases_to!(input => body),
                        decreases children.len() - k,
                    {
                        let ghost before = tokens_view(output@);
                        let ghost rest = results.skip(k as int);
                        proof {
                            assert(rest.first() == expand(
                                tokens_view(body@),
                                children[k as int]@,
                            ));
                            assert(rest.drop_first() =~= results.skip(k + 1));
                        }
                        match children[k].translate(body) {
                            Ok(mut pieces) => {
                                proof {
                                    lemma_tokens_view_concat(output@, pieces@);
                                    lemma_prepend_twice(
                                        before,
                                        tokens_view(pieces@),
                                        collect(rest.drop_first()),
                                    );
                                }
                                output.append(&mut pieces);
                            },
                            Err(error) => {
                                return Err(error);
                            },
                        }
                        k += 1;
                    }
                    proof {
                        assert(tokens_view(output@) + Seq::<TokenView>::empty() =~= tokens_view(
                            output@,
                        ));
                        assert(tokens.skip(1) =~= tokens_view(input@).skip(position + 1));
                    }
                    let mut next = position + 1;
                    if next < input.len() {
                        proof {
                            assert(tokens.skip(1)[0] == input[next as int]@);
                        }
                        match &input[next] {
                            Token::Punct(ch, _) => {
                                if *ch == '+' {
                                    if children.len() == 0 {
                                        return Err(ExpandError::EmptyRequiredRepetition);
                                    }
                                    next += 1;
                                } else if *ch == '*' {
                                    next += 1;
                                }
                            },
                            _ => {},
                        }
                    }
                    Ok((output, next))
                },
                None => Err(ExpandError::RepetitionContextMissing),
            },
            _ => Err(ExpandError::UnsupportedExpression),
        }
    }

    /// Expands `input` and glues the result into the text of one identifier.
    fn make_ident(&self, input: &Vec<Token>) -> (name: Result<String, ExpandError>)
        ensures
            synthesis(tokens_view(input@), self@) == match name {
                Ok(text) => Ok(text@),
                Err(error) => Err(error),
            },
        decreases input, 2nat,
    {
        let pieces = match self.translate(input) {
            Ok(pieces) => pieces,
            Err(error) => {
                return Err(error);
            },
        };
        let ghost views = tokens_view(pieces@);
        let mut name = String::new();
        let mut i: usize = 0;
        while i < pieces.len()
            invariant
                i <= pieces.len(),
                views == tokens_view(pieces@),
                expand(tokens_view(input@), self@) == Ok::<Seq<TokenView>, ExpandError>(views),
                glue(views.take(i as int)) == Some(name@),
            decreases pieces.len() - i,
        {
            proof {
                assert(views.take(i + 1).drop_last() =~= views.take(i as int));
                assert(views.take(i + 1).last() == pieces[i as int]@);
            }
            match &pieces[i] {
                Token::Group(_, _) => {
                    proof {
                        lemma_glue_fails_on_groups(views);
                    }
                    return Err(ExpandError::InvalidSynthesisInput);
                },
                Token::Ident(text) => {
                    name.append(text.as_str());
                },
                Token::Punct(ch, _) => {
                    name.push(*ch);
                    assert(name@ =~= glue(views.take(i as int))->0 + seq![*ch]);
                },
                Token::Literal(text) => {
                    name.append(trim_quotes_text(text.as_str()));
                },
            }
            i += 1;
        }
        proof {
            assert(views.take(pieces.len() as int) =~= views);
        }
        Ok(name)
    }
}

} // verus!
