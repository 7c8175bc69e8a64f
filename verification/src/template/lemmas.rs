//! What holds of every expansion.

use crate::errors::ExpandError;
use crate::template::context::ContextView;
use crate::template::expand::{
    collect, expand, expansions, expression, expression_len, fragment, glue, prepend,
};
use crate::token::{Delimiter, Spacing, TokenView};
use vstd::prelude::*;

verus! {

/// The empty template expands to nothing, in any context.
pub proof fn lemma_empty_template(context: ContextView)
    ensures
        expand(Seq::empty(), context) == Ok::<Seq<TokenView>, ExpandError>(Seq::empty()),
{
}

/// The tokens of each of `results`, in order; of a failure none.
pub open spec fn outputs(results: Seq<Result<Seq<TokenView>, ExpandError>>) -> Seq<
    Seq<TokenView>,
> {
    results.map_values(
        |result: Result<Seq<TokenView>, ExpandError>|
            match result {
                Ok(pieces) => pieces,
                Err(_) => Seq::empty(),
            },
    )
}

/// Where none of `results` is a failure, they collect to their tokens one
/// after the other.
pub proof fn lemma_collect_concatenates(results: Seq<Result<Seq<TokenView>, ExpandError>>)
    requires
        forall|k: int| 0 <= k < results.len() ==> results[k] is Ok,
    ensures
        collect(results) == Ok::<Seq<TokenView>, ExpandError>(outputs(results).flatten()),
    decreases results.len(),
{
    if results.len() > 0 {
        let rest = results.drop_first();
        lemma_collect_concatenates(rest);
        assert(outputs(results).drop_first() =~= outputs(rest));
    } else {
        assert(outputs(results).flatten() =~= Seq::<TokenView>::empty());
    }
}

/// Where nothing follows an expression, the template that begins with it
/// expands to what the expression expands to.
proof fn lemma_expression_alone(tokens: Seq<TokenView>, context: ContextView)
    requires
        tokens.len() > 0,
        tokens.len() == expression_len(tokens),
    ensures
        prepend(
            expression(tokens, context)->Ok_0,
            expand(tokens.skip(expression_len(tokens)), context),
        ) == Ok::<Seq<TokenView>, ExpandError>(expression(tokens, context)->Ok_0),
{
    let pieces = expression(tokens, context)->Ok_0;
    assert(tokens.skip(expression_len(tokens)) =~= Seq::<TokenView>::empty());
    assert(pieces + Seq::<TokenView>::empty() =~= pieces);
}

/// A repetition of `body` without modifier, or with the modifier `*`,
/// expands to the expansions of `body` in each child of the context, one
/// after the other in the order of the children: nothing where there is no
/// child. It fails where the expansion in a child fails.
pub proof fn lemma_repetition(
    body: Seq<TokenView>,
    context: ContextView,
    marker: Spacing,
    star: Spacing,
)
    requires
        context.repeatable is Some,
    ensures
        ({
            let children = context.repeatable->0;
            let repetition = seq![
                TokenView::Punct('$', marker),
                TokenView::Group(Delimiter::Parenthesis, body),
            ];
            let each = expansions(body, children);
            &&& each.len() == children.len()
            &&& forall|k: int| 0 <= k < children.len() ==> each[k] == expand(body, children[k])
            &&& expand(repetition, context) == collect(each)
            &&& expand(repetition.push(TokenView::Punct('*', star)), context) == collect(each)
            &&& (forall|k: int| 0 <= k < each.len() ==> each[k] is Ok) ==> collect(each) == Ok::<
                Seq<TokenView>,
                ExpandError,
            >(outputs(each).flatten())
            &&& children.len() == 0 ==> collect(each) == Ok::<Seq<TokenView>, ExpandError>(
                Seq::empty(),
            )
        }),
{
    let children = context.repeatable->0;
    let group = TokenView::Group(Delimiter::Parenthesis, body);
    let repetition = seq![TokenView::Punct('$', marker), group];
    let starred = repetition.push(TokenView::Punct('*', star));
    let each = expansions(body, children);
    lemma_expression_alone(seq![group], context);
    assert(repetition.skip(1) =~= seq![group]);
    assert(repetition.skip(1).skip(1) =~= Seq::<TokenView>::empty());
    let after = seq![group, TokenView::Punct('*', star)];
    assert(starred.skip(1) =~= after);
    assert(after.skip(1) =~= seq![TokenView::Punct('*', star)]);
    assert(after.skip(2) =~= Seq::<TokenView>::empty());
    lemma_expression_alone(after, context);
    if forall|k: int| 0 <= k < each.len() ==> each[k] is Ok {
        lemma_collect_concatenates(each);
    }
}

/// A repetition of `body` with the modifier `+` fails with
/// [`ExpandError::EmptyRequiredRepetition`] in a context without children,
/// and expands like the repetition without modifier in any other.
pub proof fn lemma_required_repetition(
    body: Seq<TokenView>,
    context: ContextView,
    marker: Spacing,
    plus: Spacing,
)
    requires
        context.repeatable is Some,
    ensures
        ({
            let children = context.repeatable->0;
            let required = seq![
                TokenView::Punct('$', marker),
                TokenView::Group(Delimiter::Parenthesis, body),
                TokenView::Punct('+', plus),
            ];
            expand(required, context) == if children.len() == 0 {
                Err(ExpandError::EmptyRequiredRepetition)
            } else {
                collect(expansions(body, children))
            }
        }),
{
    let group = TokenView::Group(Delimiter::Parenthesis, body);
    let required = seq![TokenView::Punct('$', marker), group, TokenView::Punct('+', plus)];
    let after = seq![group, TokenView::Punct('+', plus)];
    assert(required.skip(1) =~= after);
    assert(after.skip(1) =~= seq![TokenView::Punct('+', plus)]);
    assert(after.skip(2) =~= Seq::<TokenView>::empty());
    lemma_expression_alone(after, context);
}

/// Nothing is glued exactly where a group is among the pieces.
pub proof fn lemma_glue_fails_on_groups(pieces: Seq<TokenView>)
    ensures
        glue(pieces) is None <==> exists|i: int| 0 <= i < pieces.len() && pieces[i] is Group,
    decreases pieces.len(),
{
    if pieces.len() > 0 {
        let front = pieces.drop_last();
        lemma_glue_fails_on_groups(front);
        if glue(pieces) is None {
            if pieces.last() is Group {
                assert(pieces[pieces.len() - 1] is Group);
            } else {
                let i = choose|i: int| 0 <= i < front.len() && front[i] is Group;
                assert(pieces[i] is Group);
            }
        }
        if exists|i: int| 0 <= i < pieces.len() && pieces[i] is Group {
            let i = choose|i: int| 0 <= i < pieces.len() && pieces[i] is Group;
            if i < front.len() {
                assert(front[i] is Group);
            }
        }
    }
}

/// Pieces are glued in their order: what is glued from two runs of pieces,
/// one after the other, is what is glued from the first followed by what is
/// glued from the second.
pub proof fn lemma_glue_in_order(first: Seq<TokenView>, second: Seq<TokenView>)
    ensures
        glue(first + second) == match (glue(first), glue(second)) {
            (Some(front), Some(back)) => Some(front + back),
            _ => None,
        },
    decreases second.len(),
{
    if second.len() == 0 {
        assert(first + second =~= first);
        if let Some(front) = glue(first) {
            assert(front + Seq::<char>::empty() =~= front);
        }
    } else {
        assert((first + second).drop_last() =~= first + second.drop_last());
        lemma_glue_in_order(first, second.drop_last());
        if let (Some(front), Some(middle)) = (glue(first), glue(second.drop_last())) {
            let last = fragment(second.last());
            assert((front + middle) + last =~= front + (middle + last));
        }
    }
}

/// A synthesis from a variable and an identifier: where `name` is bound to
/// the single identifier `bound`, the template `$[$name suffix]` expands to
/// the single identifier that is `bound` with `suffix` behind it.
pub proof fn lemma_synthesis_appends(
    context: ContextView,
    name: Seq<char>,
    bound: Seq<char>,
    suffix: Seq<char>,
    outer: Spacing,
    inner: Spacing,
)
    requires
        context.vars.contains_key(name),
        context.vars[name] == seq![TokenView::Ident(bound)],
    ensures
        expand(
            seq![
                TokenView::Punct('$', outer),
                TokenView::Group(
                    Delimiter::Bracket,
                    seq![
                        TokenView::Punct('$', inner),
                        TokenView::Ident(name),
                        TokenView::Ident(suffix),
                    ],
                ),
            ],
            context,
        ) == Ok::<Seq<TokenView>, ExpandError>(seq![TokenView::Ident(bound + suffix)]),
{
    let parts = seq![
        TokenView::Punct('$', inner),
        TokenView::Ident(name),
        TokenView::Ident(suffix),
    ];
    let group = TokenView::Group(Delimiter::Bracket, parts);
    let template = seq![TokenView::Punct('$', outer), group];
    let pieces = seq![TokenView::Ident(bound), TokenView::Ident(suffix)];
    // the group expands to the bound identifier and the suffix
    let after = parts.skip(1);
    assert(after =~= seq![TokenView::Ident(name), TokenView::Ident(suffix)]);
    assert(after.skip(expression_len(after)) =~= seq![TokenView::Ident(suffix)]);
    let last = seq![TokenView::Ident(suffix)];
    assert(last.skip(1) =~= Seq::<TokenView>::empty());
    assert(expand(last.skip(1), context) == Ok::<Seq<TokenView>, ExpandError>(Seq::empty()));
    assert(expand(last, context) == Ok::<Seq<TokenView>, ExpandError>(last)) by {
        assert(last + Seq::<TokenView>::empty() =~= last);
    }
    assert(expression(after, context) == Ok::<Seq<TokenView>, ExpandError>(
        seq![TokenView::Ident(bound)],
    ));
    assert(expand(parts, context) == Ok::<Seq<TokenView>, ExpandError>(pieces)) by {
        assert(seq![TokenView::Ident(bound)] + last =~= pieces);
    }
    // and the two are glued
    assert(glue(pieces) == Some(bound + suffix)) by {
        reveal_with_fuel(glue, 3);
        assert(pieces.drop_last() =~= seq![TokenView::Ident(bound)]);
        assert(pieces.drop_last().drop_last() =~= Seq::<TokenView>::empty());
        assert(Seq::<char>::empty() + bound =~= bound);
    }
    assert(template.skip(1) =~= seq![group]);
    lemma_expression_alone(seq![group], context);
}

} // verus!
