use proc_macro2::{Delimiter as LexDelimiter, Spacing as LexSpacing, TokenStream, TokenTree};
use traitable::scanner::Implementer;
use traitable::errors::ExpandError;
use traitable::template::{Binding, Context};
use traitable::token::{clone_tokens, Delimiter, Spacing, Token};

fn tokens(stream: TokenStream) -> Vec<Token> {
    stream
        .into_iter()
        .map(|tree| match tree {
            TokenTree::Ident(ident) => Token::Ident(ident.to_string()),
            TokenTree::Literal(literal) => Token::Literal(literal.to_string()),
            TokenTree::Punct(punct) => Token::Punct(
                punct.as_char(),
                match punct.spacing() {
                    LexSpacing::Alone => Spacing::Alone,
                    LexSpacing::Joint => Spacing::Joint,
                },
            ),
            TokenTree::Group(group) => Token::Group(
                match group.delimiter() {
                    LexDelimiter::Parenthesis => Delimiter::Parenthesis,
                    LexDelimiter::Bracket => Delimiter::Bracket,
                    LexDelimiter::Brace => Delimiter::Brace,
                    LexDelimiter::None => Delimiter::Invisible,
                },
                tokens(group.stream()),
            ),
        })
        .collect()
}

fn lex(text: &str) -> Vec<Token> {
    tokens(text.parse::<TokenStream>().unwrap())
}

fn ident(text: &str) -> Token {
    Token::Ident(text.to_string())
}

fn bind(name: &str, tokens: Vec<Token>) -> Binding {
    Binding { name: name.to_string(), tokens }
}

fn leaf(vars: Vec<Binding>) -> Context {
    Context { vars, repeatable: None }
}

fn named(name: &str) -> Context {
    leaf(vec![bind("name", vec![ident(name)])])
}

fn implementer(path: &str, name: &str) -> Implementer {
    Implementer { name: name.to_string(), path: path.to_string() }
}

#[test]
fn test_simple_translation() {
    let input = lex("pub struct Foobar ( usize, String )");

    let output = Context::default().translate(&input);

    assert_eq!(output, Ok(lex("pub struct Foobar ( usize, String )")));
}

#[test]
fn test_simple_vars() {
    let ctx = Context {
        vars: vec![bind("foo", vec![ident("Foobar")])],
        repeatable: None,
    };

    let input = lex("pub struct $foo;");

    assert_eq!(ctx.translate(&input), Ok(lex("pub struct Foobar;")));
}

#[test]
fn test_identifiers() {
    let ctx = Context {
        vars: vec![
            bind("name", vec![ident("DoLogin")]),
            bind(
                "path",
                vec![
                    ident("foo"),
                    Token::Punct(':', Spacing::Joint),
                    Token::Punct(':', Spacing::Alone),
                    ident("bar"),
                ],
            ),
        ],
        repeatable: None,
    };

    let input = lex("enum Bar { $[ $name _Req \"123\" ]($path :: $name) }");

    assert_eq!(
        ctx.translate(&input),
        Ok(lex("enum Bar { DoLogin_Req123(foo::bar :: DoLogin) }"))
    );
}

#[test]
fn test_repetition() {
    let ctx = Context {
        vars: vec![],
        repeatable: Some(vec![named("DoLogin"), named("DoLogout")]),
    };

    assert_eq!(
        lex("foo::bar::Goo"),
        vec![
            ident("foo"),
            Token::Punct(':', Spacing::Joint),
            Token::Punct(':', Spacing::Alone),
            ident("bar"),
            Token::Punct(':', Spacing::Joint),
            Token::Punct(':', Spacing::Alone),
            ident("Goo"),
        ]
    );

    let input = lex("enum Bar { $($[ $name _Req \"123\" ](usize),)+ }");

    assert_eq!(
        ctx.translate(&input),
        Ok(lex("enum Bar { DoLogin_Req123(usize), DoLogout_Req123(usize), }"))
    );
}

#[test]
fn empty_template_expands_to_nothing() {
    assert_eq!(Context::default().translate(&vec![]), Ok(vec![]));
    assert_eq!(named("Login").translate(&vec![]), Ok(vec![]));
    let root = Context { vars: vec![], repeatable: Some(vec![named("A")]) };
    assert_eq!(root.translate(&vec![]), Ok(vec![]));
}

#[test]
fn plain_tokens_are_copied() {
    let input = lex("fn f<'a>(x: &'a [u8; 4]) -> Option<u8> { x.get(0).copied() } 1.5 \"s\" 'c'");
    assert_eq!(Context::default().translate(&input), Ok(clone_tokens(&input)));
}

#[test]
fn groups_keep_their_delimiter_and_are_expanded_inside() {
    let ctx = named("Login");
    assert_eq!(ctx.translate(&lex("( $name ) [ $name ] { $name }")), Ok(lex("(Login) [Login] {Login}")));
    assert_eq!(ctx.translate(&lex("{ ( [ $name ] ) }")), Ok(lex("{ ( [ Login ] ) }")));
    let invisible = vec![Token::Group(Delimiter::Invisible, lex("$name"))];
    assert_eq!(
        ctx.translate(&invisible),
        Ok(vec![Token::Group(Delimiter::Invisible, vec![ident("Login")])])
    );
}

#[test]
fn variable_is_spliced_verbatim() {
    let ctx = leaf(vec![bind("body", lex("$other ( $x )"))]);
    assert_eq!(ctx.translate(&lex("a $body b")), Ok(lex("a $other ( $x ) b")));
}

#[test]
fn last_binding_of_a_name_counts() {
    let ctx = leaf(vec![
        bind("x", vec![ident("first")]),
        bind("y", vec![ident("other")]),
        bind("x", vec![ident("second")]),
    ]);
    assert_eq!(ctx.translate(&lex("$x $y")), Ok(lex("second other")));
    assert_eq!(ctx.get(&"x".to_string()), Some(&vec![ident("second")]));
    assert_eq!(ctx.get(&"z".to_string()), None);
}

#[test]
fn identifier_synthesis_glues_fragments() {
    let ctx = named("Login");
    assert_eq!(ctx.translate(&lex("$[$name _Req]")), Ok(vec![ident("Login_Req")]));
    assert_eq!(ctx.translate(&lex("$[ a - b ]")), Ok(vec![ident("a-b")]));
    assert_eq!(ctx.translate(&lex("$[ get_ \"\"\"x\"\"\" ]")).is_ok(), true);
    assert_eq!(ctx.translate(&lex("$[ \"pre\" $name 1 ]")), Ok(vec![ident("preLogin1")]));
    assert_eq!(ctx.translate(&lex("$[]")), Ok(vec![ident("")]));
}

#[test]
fn synthesis_strips_every_surrounding_quote() {
    let ctx = Context::default();
    let input = vec![
        Token::Punct('$', Spacing::Alone),
        Token::Group(
            Delimiter::Bracket,
            vec![
                Token::Literal("\"\"a\"b\"\"\"".to_string()),
                Token::Literal("\"\"".to_string()),
                Token::Literal("c\"".to_string()),
            ],
        ),
    ];
    assert_eq!(ctx.translate(&input), Ok(vec![ident("a\"bc")]));
}

#[test]
fn synthesis_from_a_group_fails() {
    let ctx = named("Login");
    assert_eq!(
        ctx.translate(&lex("$[ $name (x) ]")),
        Err(ExpandError::InvalidSynthesisInput)
    );
    assert_eq!(ctx.translate(&lex("$[ [] ]")), Err(ExpandError::InvalidSynthesisInput));
    let grouped = leaf(vec![bind("g", lex("{ }"))]);
    assert_eq!(grouped.translate(&lex("$[ a $g ]")), Err(ExpandError::InvalidSynthesisInput));
}

#[test]
fn escape_marker_at_the_end_fails() {
    let ctx = named("Login");
    assert_eq!(ctx.translate(&lex("a $")), Err(ExpandError::UnexpectedEnd));
    assert_eq!(ctx.translate(&lex("( $ ) $name")), Err(ExpandError::UnexpectedEnd));
    assert_eq!(ctx.translate(&lex("$[ $ ]")), Err(ExpandError::UnexpectedEnd));
}

#[test]
fn escape_marker_before_other_tokens_fails() {
    let ctx = Context { vars: vec![], repeatable: Some(vec![]) };
    assert_eq!(ctx.translate(&lex("$ 1")), Err(ExpandError::UnsupportedExpression));
    assert_eq!(ctx.translate(&lex("$ { }")), Err(ExpandError::UnsupportedExpression));
    assert_eq!(ctx.translate(&lex("$ $ x")), Err(ExpandError::UnsupportedExpression));
    assert_eq!(ctx.translate(&lex("$ + ")), Err(ExpandError::UnsupportedExpression));
}

#[test]
fn unbound_variable_fails() {
    let ctx = named("Login");
    assert_eq!(ctx.translate(&lex("$nam")), Err(ExpandError::UnboundVariable));
    assert_eq!(ctx.translate(&lex("$name $Name")), Err(ExpandError::UnboundVariable));
    assert_eq!(Context::default().translate(&lex("$count")), Err(ExpandError::UnboundVariable));
}

#[test]
fn child_context_does_not_see_parent_variables() {
    let root = Context {
        vars: vec![bind("outer", vec![ident("o")])],
        repeatable: Some(vec![named("A")]),
    };
    assert_eq!(root.translate(&lex("$outer $( $name )*")), Ok(lex("o A")));
    assert_eq!(root.translate(&lex("$( $outer )*")), Err(ExpandError::UnboundVariable));
    assert_eq!(root.translate(&lex("$name")), Err(ExpandError::UnboundVariable));
}

#[test]
fn repetition_without_repeatable_list_fails() {
    let ctx = named("Login");
    assert_eq!(ctx.translate(&lex("$( x )")), Err(ExpandError::RepetitionContextMissing));
    assert_eq!(ctx.translate(&lex("$( x )*")), Err(ExpandError::RepetitionContextMissing));
    assert_eq!(ctx.translate(&lex("$( x )+")), Err(ExpandError::RepetitionContextMissing));
    let root = Context { vars: vec![], repeatable: Some(vec![named("A")]) };
    assert_eq!(
        root.translate(&lex("$( $( x )* )*")),
        Err(ExpandError::RepetitionContextMissing)
    );
}

#[test]
fn repetition_expands_once_per_child_in_order() {
    let children = vec![named("A"), named("B"), named("C")];
    let root = Context { vars: vec![], repeatable: Some(children) };
    assert_eq!(root.translate(&lex("$( $name ; )")), Ok(lex("A ; B ; C ;")));
    assert_eq!(root.translate(&lex("$( $name ; )*")), Ok(lex("A ; B ; C ;")));
    assert_eq!(root.translate(&lex("$( $name ; )+")), Ok(lex("A ; B ; C ;")));
    assert_eq!(root.translate(&lex("$( x )* $( y )+")), Ok(lex("x x x y y y")));
    assert_eq!(root.translate(&lex("$()*")), Ok(vec![]));
}

#[test]
fn repetition_over_no_children() {
    let root = Context { vars: vec![], repeatable: Some(vec![]) };
    assert_eq!(root.translate(&lex("a $( $name ; ) b")), Ok(lex("a b")));
    assert_eq!(root.translate(&lex("a $( $name ; )* b")), Ok(lex("a b")));
    assert_eq!(
        root.translate(&lex("a $( $name ; )+ b")),
        Err(ExpandError::EmptyRequiredRepetition)
    );
}

#[test]
fn only_plus_and_star_are_modifiers() {
    let root = Context { vars: vec![], repeatable: Some(vec![named("A"), named("B")]) };
    assert_eq!(root.translate(&lex("$( $name ) ?")), Ok(lex("A B ?")));
    assert_eq!(root.translate(&lex("$( $name ) , x")), Ok(lex("A B , x")));
    assert_eq!(root.translate(&lex("$( $name ) * *")), Ok(lex("A B *")));
    assert_eq!(root.translate(&lex("$( $name ) + +")), Ok(lex("A B +")));
    assert_eq!(root.translate(&lex("$( $name ) x")), Ok(lex("A B x")));
    let none = Context { vars: vec![], repeatable: Some(vec![]) };
    assert_eq!(none.translate(&lex("$( x ) ? +")), Ok(lex("? +")));
}

#[test]
fn failure_in_a_child_comes_before_the_count_check() {
    let root = Context { vars: vec![], repeatable: Some(vec![named("A"), leaf(vec![])]) };
    assert_eq!(root.translate(&lex("$( $name )+")), Err(ExpandError::UnboundVariable));
}

#[test]
fn first_failure_from_the_left_is_reported() {
    let ctx = named("Login");
    assert_eq!(ctx.translate(&lex("$missing $( x )")), Err(ExpandError::UnboundVariable));
    assert_eq!(
        ctx.translate(&lex("$( x ) $missing")),
        Err(ExpandError::RepetitionContextMissing)
    );
    assert_eq!(ctx.translate(&lex("( $[ () ] ) $")), Err(ExpandError::InvalidSynthesisInput));
}

#[test]
fn context_from_implementers() {
    let root = Context::from_iter(vec![
        implementer("crate", "A"),
        implementer("crate::shapes::round", "Circle"),
    ]);

    let first = Context {
        vars: vec![
            bind("index", vec![Token::Literal("0".to_string())]),
            bind("ty", vec![ident("A")]),
            bind("ty_full", lex("crate::A")),
        ],
        repeatable: None,
    };
    let second = Context {
        vars: vec![
            bind("index", vec![Token::Literal("1".to_string())]),
            bind("ty", vec![ident("Circle")]),
            bind("ty_full", lex("crate::shapes::round::Circle")),
        ],
        repeatable: None,
    };
    let expected = Context {
        vars: vec![bind("count", vec![Token::Literal("2".to_string())])],
        repeatable: Some(vec![first, second]),
    };
    assert_eq!(root, expected);
}

#[test]
fn context_from_no_implementers() {
    let root = Context::from_iter(vec![]);
    assert_eq!(
        root,
        Context {
            vars: vec![bind("count", vec![Token::Literal("0".to_string())])],
            repeatable: Some(vec![]),
        }
    );
    assert_eq!(root.translate(&lex("[$count] $( $ty )*")), Ok(lex("[0]")));
    assert_eq!(
        root.translate(&lex("$( $ty )+")),
        Err(ExpandError::EmptyRequiredRepetition)
    );
}

#[test]
fn context_numbers_match_the_lexer() {
    let many: Vec<Implementer> = (0..12).map(|i| implementer("crate", &format!("T{}", i))).collect();
    let root = Context::from_iter(many);
    assert_eq!(
        root.get(&"count".to_string()),
        Some(&tokens(TokenStream::from(TokenTree::Literal(
            proc_macro2::Literal::usize_unsuffixed(12)
        ))))
    );
    let children = root.repeatable.as_ref().unwrap();
    for (index, child) in children.iter().enumerate() {
        assert_eq!(
            child.get(&"index".to_string()),
            Some(&tokens(TokenStream::from(TokenTree::Literal(
                proc_macro2::Literal::usize_unsuffixed(index)
            ))))
        );
    }
}

#[test]
fn template_over_implementers() {
    let root = Context::from_iter(vec![
        implementer("crate::users", "Login"),
        implementer("crate", "Logout"),
    ]);
    let template = lex(
        "pub const COUNT: usize = $count; \
         pub enum Request { $( $[$ty _Req]($ty_full) = $index , )+ }",
    );
    assert_eq!(
        root.translate(&template),
        Ok(lex(
            "pub const COUNT: usize = 2; \
             pub enum Request { Login_Req(crate::users::Login) = 0 , Logout_Req(crate::Logout) = 1 , }"
        ))
    );
}
