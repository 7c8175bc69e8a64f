//! The contexts that templates are expanded in.

use crate::scanner::implementer::{implementers_view, Implementer, ImplementerView};
use crate::text::{decimal, decimal_text, split_path, split_path_text, strings_view};
use crate::token::{tokens_view, Spacing, Token, TokenView};
use vstd::prelude::*;

verus! {

/// A variable of a context: its name and the tokens it stands for.
#[derive(Debug, PartialEq, Eq)]
pub struct Binding {
    pub name: String,
    pub tokens: Vec<Token>,
}

/// What a template is expanded against. Where `vars` binds a name
/// more than once, the last binding counts.
#[derive(Debug, PartialEq, Eq)]
pub struct Context {
    /// Variables that can be used in this context, such as `$count`.
    pub vars: Vec<Binding>,
    /// The child contexts that a repetition such as `$( $ty, )*` runs over.
    pub repeatable: Option<Vec<Context>>,
}

/// The mathematical value of a [`Context`].
pub struct ContextView {
    pub vars: Map<Seq<char>, Seq<TokenView>>,
    pub repeatable: Option<Seq<ContextView>>,
}

/// The mapping that a list of bindings stands for.
pub open spec fn bindings_map(bindings: Seq<Binding>) -> Map<Seq<char>, Seq<TokenView>>
    decreases bindings.len(),
{
    if bindings.len() == 0 {
        Map::empty()
    } else {
        bindings_map(bindings.drop_last()).insert(
            bindings.last().name@,
            tokens_view(bindings.last().tokens@),
        )
    }
}

/// The values of a sequence of contexts, in order.
pub open spec fn contexts_view(contexts: Seq<Context>) -> Seq<ContextView>
    decreases contexts,
{
    Seq::new(
        contexts.len(),
        |i: int| if 0 <= i < contexts.len() { contexts[i]@ } else { arbitrary() },
    )
}

impl View for Context {
    type V = ContextView;

    open spec fn view(&self) -> ContextView
        decreases self,
    {
        ContextView {
            vars: bindings_map(self.vars@),
            repeatable: match self.repeatable {
                Some(children) => Some(contexts_view(children@)),
                None => None,
            },
        }
    }
}

/// A name is bound exactly if some binding carries it, and then to the tokens
/// of the last such binding.
proof fn lemma_bindings_map(bindings: Seq<Binding>, name: Seq<char>)
    ensures
        bindings_map(bindings).contains_key(name) <==> exists|i: int|
            0 <= i < bindings.len() && #[trigger] bindings[i].name@ == name,
        forall|i: int|
            0 <= i < bindings.len() && #[trigger] bindings[i].name@ == name && (forall|j: int|
                i < j < bindings.len() ==> #[trigger] bindings[j].name@ != name)
                ==> bindings_map(bindings)[name] == tokens_view(bindings[i].tokens@),
    decreases bindings.len(),
{
    if bindings.len() > 0 {
        let front = bindings.drop_last();
        lemma_bindings_map(front, name);
        if bindings.last().name@ != name {
            assert forall|i: int|
                0 <= i < bindings.len() && #[trigger] bindings[i].name@ == name && (forall|j: int|
                    i < j < bindings.len() ==> #[trigger] bindings[j].name@ != name)
                implies bindings_map(bindings)[name] == tokens_view(bindings[i].tokens@) by {
                assert(front[i] == bindings[i]);
                assert forall|j: int| i < j < front.len() implies #[trigger] front[j].name@
                    != name by {
                    assert(front[j] == bindings[j]);
                }
            }
            if bindings_map(bindings).contains_key(name) {
                let i = choose|i: int| 0 <= i < front.len() && #[trigger] front[i].name@ == name;
                assert(bindings[i] == front[i]);
            }
            if exists|i: int| 0 <= i < bindings.len() && #[trigger] bindings[i].name@ == name {
                let i = choose|i: int|
                    0 <= i < bindings.len() && #[trigger] bindings[i].name@ == name;
                assert(front[i] == bindings[i]);
            }
        } else {
            assert(bindings[bindings.len() - 1].name@ == name);
        }
    }
}

impl Default for Context {
    /// The context without variables and without a repeatable list.
    fn default() -> (context: Context)
        ensures
            context@ == (ContextView { vars: Map::empty(), repeatable: None }),
    {
        Context { vars: Vec::new(), repeatable: None }
    }
}

/// The tokens of a path: its segments as identifiers with `::` between them.
pub open spec fn path_tokens(segments: Seq<Seq<char>>) -> Seq<TokenView>
    decreases segments.len(),
{
    if segments.len() == 0 {
        Seq::empty()
    } else if segments.len() == 1 {
        seq![TokenView::Ident(segments[0])]
    } else {
        path_tokens(segments.drop_last()) + seq![
            TokenView::Punct(':', Spacing::Joint),
            TokenView::Punct(':', Spacing::Alone),
            TokenView::Ident(segments.last()),
        ]
    }
}

/// The context of the implementer at position `index`. It binds `index` to
/// the position as a number, `ty` to the implementer's name, and `ty_full` to
/// the segments of its path and its name with `::` between them.
pub open spec fn implementer_context(index: nat, implementer: ImplementerView) -> ContextView {
    ContextView {
        vars: Map::empty().insert("index"@, seq![TokenView::Literal(decimal(index))]).insert(
            "ty"@,
            seq![TokenView::Ident(implementer.name)],
        ).insert("ty_full"@, path_tokens(split_path(implementer.path).push(implementer.name))),
        repeatable: None,
    }
}

/// The context that a template is expanded in for a list of implementers. It
/// binds `count` to their number and repeats over one context for each, in
/// their order.
pub open spec fn root_context(implementers: Seq<ImplementerView>) -> ContextView {
    ContextView {
        vars: Map::empty().insert(
            "count"@,
            seq![TokenView::Literal(decimal(implementers.len()))],
        ),
        repeatable: Some(
            Seq::new(
                implementers.len(),
                |i: int| implementer_context(i as nat, implementers[i]),
            ),
        ),
    }
}

/// Writes the segments of a path as tokens.
fn path_tokens_of(segments: &Vec<String>) -> (tokens: Vec<Token>)
    ensures
        tokens_view(tokens@) == path_tokens(strings_view(segments@)),
{
    let ghost views = strings_view(segments@);
    let mut tokens: Vec<Token> = Vec::new();
    let mut i: usize = 0;
    assert(tokens_view(tokens@) =~= path_tokens(views.take(0)));
    while i < segments.len()
        invariant
            i <= segments.len(),
            views == strings_view(segments@),
            tokens_view(tokens@) == path_tokens(views.take(i as int)),
        decreases segments.len() - i,
    {
        let ghost before = tokens_view(tokens@);
        proof {
            assert(views.take(i + 1).drop_last() =~= views.take(i as int));
        }
        if i > 0 {
            tokens.push(Token::Punct(':', Spacing::Joint));
            tokens.push(Token::Punct(':', Spacing::Alone));
        }
        tokens.push(Token::Ident(segments[i].clone()));
        proof {
            if i > 0 {
                assert(tokens_view(tokens@) =~= before + seq![
                    TokenView::Punct(':', Spacing::Joint),
                    TokenView::Punct(':', Spacing::Alone),
                    TokenView::Ident(segments[i as int]@),
                ]);
            } else {
                assert(tokens_view(tokens@) =~= seq![TokenView::Ident(segments[i as int]@)]);
            }
        }
        i += 1;
    }
    proof {
        assert(views.take(segments.len() as int) =~= views);
    }
    tokens
}

/// A binding of `name` to a single `token`.
fn bind_one(name: &str, token: Token) -> (binding: Binding)
    ensures
        binding.name@ == name@,
        tokens_view(binding.tokens@) == seq![token@],
{
    let mut tokens: Vec<Token> = Vec::new();
    tokens.push(token);
    assert(tokens_view(tokens@) =~= seq![token@]);
    Binding { name: name.to_owned(), tokens }
}

impl Context {
    /// The tokens bound to `name`, if any.
    pub fn get(&self, name: &String) -> (tokens: Option<&Vec<Token>>)
        ensures
            match tokens {
                Some(found) => self@.vars.contains_key(name@) && tokens_view(found@)
                    == self@.vars[name@],
                None => !self@.vars.contains_key(name@),
            },
    {
        let mut i: usize = self.vars.len();
        while i > 0
            invariant
                i <= self.vars.len(),
                forall|j: int| i <= j < self.vars.len() ==> #[trigger] self.vars[j].name@ != name@,
            decreases i,
        {
            i -= 1;
            if self.vars[i].name == *name {
                proof {
                    lemma_bindings_map(self.vars@, name@);
                }
                return Some(&self.vars[i].tokens);
            }
        }
        proof {
            lemma_bindings_map(self.vars@, name@);
        }
        None
    }

    /// The context for a list of implementers, in the order in which they
    /// were found.
    pub fn from_iter(implementers: Vec<Implementer>) -> (context: Context)
        ensures
            context@ == root_context(implementers_view(implementers@)),
    {
        let ghost views = implementers_view(implementers@);
        let mut children: Vec<Context> = Vec::new();
        let mut index: usize = 0;
        while index < implementers.len()
            invariant
                index <= implementers.len(),
                views == implementers_view(implementers@),
                children.len() == index,
                forall|i: int|
                    0 <= i < index ==> (#[trigger] children[i])@ == implementer_context(
                        i as nat,
                        views[i],
                    ),
            decreases implementers.len() - index,
        {
            let implementer = &implementers[index];
            let mut segments = split_path_text(implementer.path.as_str());
            proof {
                assert(strings_view(segments@.push(implementer.name)) =~= split_path(
                    implementer.path@,
                ).push(implementer.name@));
            }
            segments.push(implementer.name.clone());
            let mut vars: Vec<Binding> = Vec::new();
            vars.push(bind_one("index", Token::Literal(decimal_text(index))));
            vars.push(bind_one("ty", Token::Ident(implementer.name.clone())));
            vars.push(Binding { name: "ty_full".to_owned(), tokens: path_tokens_of(&segments) });
            let child = Context { vars, repeatable: None };
            proof {
                reveal_with_fuel(bindings_map, 4);
                let all = vars@;
                assert(all.drop_last().drop_last().drop_last() =~= Seq::<Binding>::empty());
                assert(child@.vars =~= implementer_context(index as nat, views[index as int]).vars);
            }
            children.push(child);
            index += 1;
        }
        let mut vars: Vec<Binding> = Vec::new();
        vars.push(bind_one("count", Token::Literal(decimal_text(implementers.len()))));
        let context = Context { vars, repeatable: Some(children) };
        proof {
            reveal_with_fuel(bindings_map, 2);
            assert(vars@.drop_last() =~= Seq::<Binding>::empty());
            assert(context@.vars =~= root_context(views).vars);
            assert(context@.repeatable->0 =~= root_context(views).repeatable->0);
        }
        context
    }
}

} // verus!
