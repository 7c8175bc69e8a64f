use std::collections::HashMap;

use proc_macro2::{Delimiter as LexDelimiter, Spacing as LexSpacing, TokenStream, TokenTree};
use traitable::scanner::declaration::{Attribute, Declaration, ItemImpl, ItemMod, ItemStruct};
use traitable::errors::ScanError;
use traitable::scanner::scan::{to_ast, Stop};
use traitable::paths::{join_text, split_at_last_slash};
use traitable::scanner::sources::{FileState, SourceFile, SourceFiles};
use traitable::scanner::{parse, AstNode, Context, File, Implementer};
use traitable::token::{Delimiter, Spacing, Token};

fn tokens(stream: TokenStream) -> Vec<Token> {
    stream
        .into_iter()
        .map(|tree| match tree {
            TokenTree::Ident(ident) => Token::Ident(ident.to_string()),
            TokenTree::Literal(literal) => Token::Literal(literal.to_string()),
            TokenTree::Punct(punct) => Token::Punct(
                punct.as_char(),
                match punct.spacing() {
                    LexSpacing::Alone => Spacing::Alone,
                    LexSpacing::Joint => Spacing::Joint,
                },
            ),
            TokenTree::Group(group) => Token::Group(
                match group.delimiter() {
                    LexDelimiter::Parenthesis => Delimiter::Parenthesis,
                    LexDelimiter::Bracket => Delimiter::Bracket,
                    LexDelimiter::Brace => Delimiter::Brace,
                    LexDelimiter::None => Delimiter::Invisible,
                },
                tokens(group.stream()),
            ),
        })
        .collect()
}

fn segments(path: &syn::Path) -> Vec<String> {
    path.segments.iter().map(|segment| segment.ident.to_string()).collect()
}

fn attribute(attr: syn::Attribute) -> Attribute {
    match attr.meta {
        syn::Meta::List(list) => Attribute::List {
            path: segments(&list.path),
            tokens: tokens(list.tokens),
        },
        _ => Attribute::Other,
    }
}

fn declaration(item: syn::Item) -> Declaration {
    match item {
        syn::Item::Mod(item) => Declaration::Mod(ItemMod {
            ident: item.ident.to_string(),
            content: item.content.map(|(_, items)| declarations(items)),
        }),
        syn::Item::Struct(item) => Declaration::Struct(ItemStruct {
            ident: item.ident.to_string(),
            attrs: item.attrs.into_iter().map(attribute).collect(),
        }),
        syn::Item::Impl(item) => Declaration::Impl(ItemImpl {
            trait_path: item.trait_.map(|(_, path, _)| segments(&path)),
            self_path: match *item.self_ty {
                syn::Type::Path(ty) => Some(segments(&ty.path)),
                _ => None,
            },
        }),
        _ => Declaration::Other,
    }
}

fn declarations(items: Vec<syn::Item>) -> Vec<Declaration> {
    items.into_iter().map(declaration).collect()
}

fn source(text: &str) -> Vec<Declaration> {
    declarations(syn::parse_file(text).unwrap().items)
}

/// Scans `entry` over the files in `disk`, entering each file that the scan
/// asks for. Returns the outcome and the paths asked for, in order.
fn scan(entry: &str, disk: &HashMap<&str, &str>) -> (Result<File, ScanError>, Vec<String>) {
    let mut sources = SourceFiles::new();
    let mut asked = Vec::new();
    loop {
        match parse(entry, &sources) {
            Ok(file) => return (Ok(file), asked),
            Err(Stop::Fails(error)) => return (Err(error), asked),
            Err(Stop::Needs(path)) => {
                assert!(!asked.contains(&path));
                let state = match disk.get(path.as_str()) {
                    None => FileState::Absent,
                    Some(text) => match syn::parse_file(text) {
                        Ok(file) => FileState::Source(declarations(file.items)),
                        Err(_) => FileState::Malformed,
                    },
                };
                asked.push(path.clone());
                sources.insert(path, state);
            }
        }
    }
}

fn module(name: &str, items: Vec<AstNode>) -> AstNode {
    AstNode::Module { name: name.to_string(), items }
}

fn structure(name: &str) -> AstNode {
    AstNode::Struct { name: name.to_string() }
}

fn derive(trait_name: &str, target: &str) -> AstNode {
    AstNode::Derive { trait_name: trait_name.to_string(), target: target.to_string() }
}

fn trait_impl(trait_name: &str, target: &str) -> AstNode {
    AstNode::TraitImpl { trait_name: trait_name.to_string(), target: target.to_string() }
}

fn implementer(path: &str, name: &str) -> Implementer {
    Implementer { name: name.to_string(), path: path.to_string() }
}

fn fold(text: &str) -> Vec<AstNode> {
    let mut ctx = Context::new("src".to_string());
    match to_ast(&source(text), &mut ctx, &full_disk()) {
        Ok(nodes) => nodes,
        Err(stop) => panic!("{:?}", stop),
    }
}

/// A table in which every module file that the tests below could ask for is
/// absent.
fn full_disk() -> SourceFiles {
    let mut sources = SourceFiles::new();
    for name in ["m", "gone", "outer", "inner"] {
        for dir in ["src", "src/outer"] {
            sources.insert(format!("{}/{}.rs", dir, name), FileState::Absent);
            sources.insert(format!("{}/{}/mod.rs", dir, name), FileState::Absent);
        }
    }
    sources
}

#[test]
fn scenario_tree_and_lookup() {
    let disk = HashMap::from([(
        "src/lib.rs",
        "#[derive(Foo, Bar)] struct A; mod m { struct B; impl Foo for B {} }",
    )]);
    let (file, asked) = scan("src/lib.rs", &disk);
    let file = file.unwrap();
    assert_eq!(asked, vec!["src/lib.rs"]);
    assert_eq!(
        file.items(),
        &vec![
            structure("A"),
            derive("Foo", "A"),
            derive("Bar", "A"),
            module("m", vec![structure("B"), trait_impl("Foo", "B")]),
        ]
    );
    assert_eq!(
        file.lookup("Foo"),
        vec![implementer("crate", "A"), implementer("crate::m", "B")]
    );
    assert_eq!(file.lookup("Bar"), vec![implementer("crate", "A")]);
    assert_eq!(file.lookup("Baz"), vec![]);
    assert_eq!(file.lookup("A"), vec![]);
}

#[test]
fn lookup_follows_source_order() {
    let file = File::new(fold(
        "mod a { mod e { struct E; impl T for E {} } struct A; impl T for A {} } \
         mod b { mod c { #[derive(T)] struct C; } #[derive(T)] struct B; } \
         struct Main; impl T for Main {}",
    ));
    assert_eq!(
        file.lookup("T"),
        vec![
            implementer("crate::a::e", "E"),
            implementer("crate::a", "A"),
            implementer("crate::b::c", "C"),
            implementer("crate::b", "B"),
            implementer("crate", "Main"),
        ]
    );
}

#[test]
fn lookup_is_the_same_every_time() {
    let file = File::new(fold(
        "#[derive(T)] struct A; mod m { struct B; impl T for B {} impl T for A {} }",
    ));
    let first = file.lookup("T");
    assert_eq!(first.len(), 3);
    for _ in 0..5 {
        assert_eq!(file.lookup("T"), first);
    }
}

#[test]
fn derive_and_impl_of_one_type_are_both_reported() {
    let file = File::new(fold("#[derive(T)] struct A; impl T for A {}"));
    assert_eq!(
        file.lookup("T"),
        vec![implementer("crate", "A"), implementer("crate", "A")]
    );
    let twice = File::new(vec![derive("T", "A"), derive("T", "A"), trait_impl("T", "A")]);
    assert_eq!(twice.lookup("T").len(), 3);
}

#[test]
fn lookup_matches_the_whole_capability_name() {
    let file = File::new(vec![derive("Clone", "A"), trait_impl("CloneMore", "B"), structure("Clone")]);
    assert_eq!(file.lookup("Clone"), vec![implementer("crate", "A")]);
    assert_eq!(file.lookup("Clon"), vec![]);
    assert_eq!(file.lookup(""), vec![]);
    assert_eq!(File::new(vec![]).lookup("Clone"), vec![]);
}

#[test]
fn implementer_from_qualified_name() {
    assert_eq!(Implementer::from("crate::a::B"), implementer("crate::a", "B"));
    assert_eq!(Implementer::from("crate::B"), implementer("crate", "B"));
    assert_eq!(Implementer::from("B"), implementer("", "B"));
    assert_eq!(Implementer::from(""), implementer("", ""));
    assert_eq!(Implementer::from("a::"), implementer("a", ""));
    assert_eq!(Implementer::from("a:::b"), implementer("a", ":b"));
    assert_eq!(Implementer::from("a::::b"), implementer("a::", "b"));
    let made: Implementer = "crate::m::T".into();
    assert_eq!(made, implementer("crate::m", "T"));
}

#[test]
fn struct_contributes_its_declaration_and_its_derives() {
    assert_eq!(fold("struct A;"), vec![structure("A")]);
    assert_eq!(fold("#[derive()] struct A;"), vec![structure("A")]);
    assert_eq!(
        fold("#[derive(Clone, Debug,)] #[repr(C)] #[derive(Eq)] struct A { x: u8 }"),
        vec![structure("A"), derive("Clone", "A"), derive("Debug", "A"), derive("Eq", "A")]
    );
    assert_eq!(
        fold("#[doc = \"text\"] #[non_exhaustive] #[cfg(derive)] struct A;"),
        vec![structure("A")]
    );
}

#[test]
fn derive_names_are_the_identifiers_before_a_comma_or_the_end() {
    assert_eq!(
        fold("#[derive(serde::Serialize, Clone)] struct A;"),
        vec![structure("A"), derive("Serialize", "A"), derive("Clone", "A")]
    );
    assert_eq!(fold("#[derive(a::b)] struct A;"), vec![structure("A"), derive("b", "A")]);
    assert_eq!(fold("#[derive(a b, c d)] struct A;"), vec![structure("A"), derive("b", "A"), derive("d", "A")]);
    assert_eq!(fold("#[derive(X(Y), Z)] struct A;"), vec![structure("A"), derive("Z", "A")]);
    assert_eq!(fold("#[derive::more(X)] struct A;"), vec![structure("A"), derive("X", "A")]);
    assert_eq!(fold("#[more::derive(X)] struct A;"), vec![structure("A")]);
}

#[test]
fn impl_contributes_where_trait_and_target_are_paths() {
    assert_eq!(fold("impl T for A {}"), vec![trait_impl("T", "A")]);
    assert_eq!(fold("impl a::b::T for c::d::A {}"), vec![trait_impl("T", "A")]);
    assert_eq!(fold("impl<X> T<X> for A<X> {}"), vec![trait_impl("T", "A")]);
    assert_eq!(fold("impl !T for A {}"), vec![trait_impl("T", "A")]);
    assert_eq!(fold("impl A { fn f() {} }"), vec![]);
    assert_eq!(fold("impl T for &A {}"), vec![]);
    assert_eq!(fold("impl T for (A, B) {}"), vec![]);
    assert_eq!(fold("impl T for [A] {}"), vec![]);
    assert_eq!(fold("impl<X> T for X {}"), vec![trait_impl("T", "X")]);
}

#[test]
fn impl_without_segments_is_dropped() {
    let mut ctx = Context::new("src".to_string());
    let sources = SourceFiles::new();
    let blocks = vec![
        Declaration::Impl(ItemImpl { trait_path: Some(vec![]), self_path: Some(vec!["A".to_string()]) }),
        Declaration::Impl(ItemImpl { trait_path: Some(vec!["T".to_string()]), self_path: Some(vec![]) }),
        Declaration::Impl(ItemImpl { trait_path: None, self_path: Some(vec!["A".to_string()]) }),
        Declaration::Impl(ItemImpl { trait_path: Some(vec!["T".to_string()]), self_path: None }),
        Declaration::Impl(ItemImpl {
            trait_path: Some(vec!["x".to_string(), "T".to_string()]),
            self_path: Some(vec!["y".to_string(), "A".to_string()]),
        }),
    ];
    assert_eq!(to_ast(&blocks, &mut ctx, &sources), Ok(vec![trait_impl("T", "A")]));
}

#[test]
fn other_declarations_contribute_nothing() {
    assert_eq!(
        fold("use a::b; fn f() {} enum E { X } trait T {} const C: u8 = 0; type X = u8; static S: u8 = 0;"),
        vec![]
    );
    assert_eq!(fold(""), vec![]);
}

#[test]
fn entry_must_be_lib_or_main() {
    let sources = SourceFiles::new();
    assert_eq!(parse("src/mod.rs", &sources), Err(Stop::Fails(ScanError::UnrecognizedEntry)));
    assert_eq!(parse("src/lib.rs.bak", &sources), Err(Stop::Fails(ScanError::UnrecognizedEntry)));
    assert_eq!(parse("lib.rs/x", &sources), Err(Stop::Fails(ScanError::UnrecognizedEntry)));
    assert_eq!(parse("src/xlib.rs", &sources), Err(Stop::Fails(ScanError::UnrecognizedEntry)));
    assert_eq!(parse("", &sources), Err(Stop::Fails(ScanError::UnrecognizedEntry)));
    assert_eq!(parse("src/lib.rs", &sources), Err(Stop::Needs("src/lib.rs".to_string())));
    assert_eq!(parse("src/main.rs", &sources), Err(Stop::Needs("src/main.rs".to_string())));
    assert_eq!(parse("main.rs", &sources), Err(Stop::Needs("main.rs".to_string())));
    assert_eq!(parse("/lib.rs", &sources), Err(Stop::Needs("/lib.rs".to_string())));
}

#[test]
fn entry_that_cannot_be_read_or_parsed_fails() {
    for (state, error) in [
        (FileState::Absent, ScanError::Io),
        (FileState::Unreadable, ScanError::Io),
        (FileState::Malformed, ScanError::Parse),
    ] {
        let mut sources = SourceFiles::new();
        sources.insert("src/lib.rs".to_string(), state);
        assert_eq!(parse("src/lib.rs", &sources), Err(Stop::Fails(error)));
    }
    let (outcome, asked) = scan("src/lib.rs", &HashMap::from([("src/lib.rs", "struct {")]));
    assert_eq!(outcome, Err(ScanError::Parse));
    assert_eq!(asked, vec!["src/lib.rs"]);
    let (outcome, _) = scan("src/lib.rs", &HashMap::new());
    assert_eq!(outcome, Err(ScanError::Io));
}

#[test]
fn module_file_beside_is_tried_first() {
    let disk = HashMap::from([
        ("pkg/src/main.rs", "mod m; struct Root;"),
        ("pkg/src/m.rs", "struct Beside;"),
        ("pkg/src/m/mod.rs", "struct Below;"),
    ]);
    let (file, asked) = scan("pkg/src/main.rs", &disk);
    assert_eq!(
        file.unwrap().items(),
        &vec![module("m", vec![structure("Beside")]), structure("Root")]
    );
    assert_eq!(asked, vec!["pkg/src/main.rs", "pkg/src/m.rs"]);
}

#[test]
fn module_file_in_its_directory_is_tried_second() {
    let disk = HashMap::from([
        ("src/lib.rs", "mod m;"),
        ("src/m/mod.rs", "#[derive(T)] struct Below;"),
    ]);
    let (file, asked) = scan("src/lib.rs", &disk);
    let file = file.unwrap();
    assert_eq!(
        file.items(),
        &vec![module("m", vec![structure("Below"), derive("T", "Below")])]
    );
    assert_eq!(asked, vec!["src/lib.rs", "src/m.rs", "src/m/mod.rs"]);
    assert_eq!(file.lookup("T"), vec![implementer("crate::m", "Below")]);
}

#[test]
fn module_without_file_is_empty() {
    let disk = HashMap::from([("src/lib.rs", "mod gone; struct A;")]);
    let (file, asked) = scan("src/lib.rs", &disk);
    assert_eq!(file.unwrap().items(), &vec![module("gone", vec![]), structure("A")]);
    assert_eq!(asked, vec!["src/lib.rs", "src/gone.rs", "src/gone/mod.rs"]);
}

#[test]
fn modules_of_a_module_file_are_looked_for_below_it() {
    let disk = HashMap::from([
        ("src/lib.rs", "mod outer;"),
        ("src/outer.rs", "mod inner; struct O;"),
        ("src/outer/inner.rs", "struct I; mod deep;"),
        ("src/outer/inner/deep/mod.rs", "impl T for I {}"),
        ("src/inner.rs", "struct Wrong;"),
    ]);
    let (file, asked) = scan("src/lib.rs", &disk);
    let file = file.unwrap();
    assert_eq!(
        file.items(),
        &vec![module(
            "outer",
            vec![
                module(
                    "inner",
                    vec![structure("I"), module("deep", vec![trait_impl("T", "I")])]
                ),
                structure("O"),
            ]
        )]
    );
    assert_eq!(
        asked,
        vec![
            "src/lib.rs",
            "src/outer.rs",
            "src/outer/inner.rs",
            "src/outer/inner/deep.rs",
            "src/outer/inner/deep/mod.rs",
        ]
    );
    assert_eq!(file.lookup("T"), vec![implementer("crate::outer::inner::deep", "I")]);
}

#[test]
fn modules_of_an_inline_module_are_looked_for_in_the_same_directory() {
    let disk = HashMap::from([
        ("src/lib.rs", "mod outer { mod inner; }"),
        ("src/inner.rs", "struct Same;"),
        ("src/outer/inner.rs", "struct Below;"),
    ]);
    let (file, asked) = scan("src/lib.rs", &disk);
    assert_eq!(
        file.unwrap().items(),
        &vec![module("outer", vec![module("inner", vec![structure("Same")])])]
    );
    assert_eq!(asked, vec!["src/lib.rs", "src/inner.rs"]);
}

#[test]
fn module_file_that_cannot_be_read_or_parsed_fails_the_scan() {
    let disk = HashMap::from([
        ("src/lib.rs", "struct A; mod m; mod n;"),
        ("src/m.rs", "struct ;"),
        ("src/n.rs", "struct N;"),
    ]);
    let (outcome, asked) = scan("src/lib.rs", &disk);
    assert_eq!(outcome, Err(ScanError::Parse));
    assert_eq!(asked, vec!["src/lib.rs", "src/m.rs"]);

    let mut sources = SourceFiles::new();
    sources.insert("src/lib.rs".to_string(), FileState::Source(source("mod m;")));
    sources.insert("src/m.rs".to_string(), FileState::Absent);
    sources.insert("src/m/mod.rs".to_string(), FileState::Unreadable);
    assert_eq!(parse("src/lib.rs", &sources), Err(Stop::Fails(ScanError::Io)));
}

#[test]
fn entries_for_files_not_asked_for_change_nothing() {
    let mut sources = SourceFiles::new();
    sources.insert("src/lib.rs".to_string(), FileState::Source(source("mod m; mod n;")));
    sources.insert("src/m.rs".to_string(), FileState::Source(source("struct M;")));
    assert_eq!(parse("src/lib.rs", &sources), Err(Stop::Needs("src/n.rs".to_string())));
    sources.insert("src/m/mod.rs".to_string(), FileState::Source(source("struct Other;")));
    sources.insert("src/m/deep.rs".to_string(), FileState::Malformed);
    sources.insert("elsewhere/n.rs".to_string(), FileState::Unreadable);
    assert_eq!(parse("src/lib.rs", &sources), Err(Stop::Needs("src/n.rs".to_string())));
    sources.insert("src/n.rs".to_string(), FileState::Source(source("struct N;")));
    let complete = File::new(vec![
        module("m", vec![structure("M")]),
        module("n", vec![structure("N")]),
    ]);
    assert_eq!(parse("src/lib.rs", &sources), Ok(File::new(vec![
        module("m", vec![structure("M")]),
        module("n", vec![structure("N")]),
    ])));
    sources.insert("src/n/mod.rs".to_string(), FileState::Malformed);
    sources.insert("src/x.rs".to_string(), FileState::Absent);
    assert_eq!(parse("src/lib.rs", &sources), Ok(complete));
}

#[test]
fn last_entry_for_a_path_counts() {
    let mut sources = SourceFiles::new();
    sources.insert("src/lib.rs".to_string(), FileState::Malformed);
    sources.insert("src/other.rs".to_string(), FileState::Absent);
    sources.insert("src/lib.rs".to_string(), FileState::Source(source("struct A;")));
    assert_eq!(sources.get("src/lib.rs"), Some(&FileState::Source(source("struct A;"))));
    assert_eq!(sources.get("src/other.rs"), Some(&FileState::Absent));
    assert_eq!(sources.get("src/none.rs"), None);
    assert_eq!(parse("src/lib.rs", &sources), Ok(File::new(vec![structure("A")])));
    assert_eq!(
        sources.files[0],
        SourceFile { path: "src/lib.rs".to_string(), state: FileState::Malformed }
    );
}

#[test]
fn entry_without_directory_searches_the_current_one() {
    let disk = HashMap::from([("lib.rs", "mod m;"), ("./m.rs", "struct A;")]);
    let (file, asked) = scan("lib.rs", &disk);
    assert_eq!(file.unwrap().items(), &vec![module("m", vec![structure("A")])]);
    assert_eq!(asked, vec!["lib.rs", "./m.rs"]);
    let disk = HashMap::from([("/lib.rs", "mod m;"), ("/m/mod.rs", "struct A;")]);
    let (file, asked) = scan("/lib.rs", &disk);
    assert_eq!(file.unwrap().items(), &vec![module("m", vec![structure("A")])]);
    assert_eq!(asked, vec!["/lib.rs", "/m.rs", "/m/mod.rs"]);
}

#[test]
fn scan_context_pairs_push_and_pop() {
    let mut ctx = Context::new("src".to_string());
    assert_eq!(ctx.search_dir(), "src");
    ctx.push_mod("a", true);
    assert_eq!(ctx.search_dir(), "src/a");
    ctx.push_mod("b", false);
    assert_eq!(ctx.search_dir(), "src/a");
    ctx.push_mod("c", true);
    assert_eq!(ctx.search_dir(), "src/a/c");
    ctx.pop_mod();
    assert_eq!(ctx.search_dir(), "src/a");
    assert_eq!(ctx.depth(), 2);
    ctx.pop_mod();
    ctx.pop_mod();
    assert_eq!(ctx, Context::new("src".to_string()));
    ctx.pop_mod();
    assert_eq!(ctx, Context::new("src".to_string()));
    assert_eq!(ctx.depth(), 0);
    assert_eq!(ctx.search_dir(), "src");
}

#[test]
fn scan_leaves_the_context_as_it_was() {
    let mut ctx = Context::new("src".to_string());
    ctx.push_mod("a", true);
    let mut expected = Context::new("src".to_string());
    expected.push_mod("a", true);
    let mut sources = SourceFiles::new();
    sources.insert("src/a/m.rs".to_string(), FileState::Source(source("mod n { struct A; }")));
    assert!(to_ast(&source("mod m;"), &mut ctx, &sources).is_ok());
    assert_eq!(ctx, expected);
    assert_eq!(
        to_ast(&source("mod m; mod x;"), &mut ctx, &sources),
        Err(Stop::Needs("src/a/x.rs".to_string()))
    );
    assert_eq!(ctx, expected);
}

#[test]
fn paths_are_split_and_joined_at_slashes() {
    assert_eq!(split_at_last_slash("a/b/lib.rs"), ("a/b".to_string(), "lib.rs".to_string()));
    assert_eq!(split_at_last_slash("lib.rs"), (".".to_string(), "lib.rs".to_string()));
    assert_eq!(split_at_last_slash("/lib.rs"), ("".to_string(), "lib.rs".to_string()));
    assert_eq!(split_at_last_slash("a/"), ("a".to_string(), "".to_string()));
    assert_eq!(split_at_last_slash(""), (".".to_string(), "".to_string()));
    assert_eq!(join_text("a/b", "c"), "a/b/c");
    assert_eq!(join_text("", "c"), "/c");
}
