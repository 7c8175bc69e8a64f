//! The scan of a package: from the declarations of its entry file to the
//! module tree, through the files of its modules.

use crate::errors::ScanError;
use crate::paths::{
    file_name, join, module_dir_file, module_dir_file_text, module_file, module_file_text, parent,
    split_at_last_slash,
};
use crate::scanner::ast::{nodes_view, AstNode, AstNodeView, File};
use crate::scanner::context::Context;
use crate::scanner::declaration::{declarations_view, Declaration, DeclarationView, ItemMod};
use crate::scanner::fold::{impl_nodes, struct_nodes};
use crate::scanner::lemmas::{lemma_package_asks_for_unknown, lemma_stop_is_final};
use crate::scanner::sources::{
    lemma_known_path_is_bounded, longest_path, state_of, FileState, FileStateView,
    SourceFileView, SourceFiles,
};
use crate::text::same_text;
use vstd::prelude::*;

verus! {

/// Why a scan stopped before the tree was complete.
#[derive(Debug, PartialEq, Eq)]
pub enum Stop {
    /// Nothing is known yet of the file at this path. This is no failure:
    /// the scan can be made again once the file is entered.
    Needs(String),
    /// The scan failed.
    Fails(ScanError),
}

/// The mathematical value of a [`Stop`].
pub enum StopView {
    Needs(Seq<char>),
    Fails(ScanError),
}

impl View for Stop {
    type V = StopView;

    open spec fn view(&self) -> StopView {
        match self {
            Stop::Needs(path) => StopView::Needs(path@),
            Stop::Fails(error) => StopView::Fails(*error),
        }
    }
}

/// How far below `dir` the longest path among `files` reaches: a bound on
/// the chain of module files that can be found one below the other.
pub open spec fn headroom(files: Seq<SourceFileView>, dir: Seq<char>) -> nat {
    if dir.len() < longest_path(files) {
        (longest_path(files) - dir.len()) as nat
    } else {
        0
    }
}

/// The outcome of the search for the file of a module.
pub enum Located {
    /// Nothing is known yet of the file at this path.
    Unknown(Seq<char>),
    /// The module has no file.
    Nowhere,
    /// The file of the module was found in this state.
    At(FileStateView),
}

/// Looks for the file of the module `ident` from the search directory `dir`:
/// first `dir/ident.rs`, then `dir/ident/mod.rs`. The first of the two that is
/// not absent counts.
pub open spec fn locate(files: Seq<SourceFileView>, dir: Seq<char>, ident: Seq<char>) -> Located {
    match state_of(files, module_file(dir, ident)) {
        None => Located::Unknown(module_file(dir, ident)),
        Some(FileStateView::Absent) => match state_of(files, module_dir_file(dir, ident)) {
            None => Located::Unknown(module_dir_file(dir, ident)),
            Some(FileStateView::Absent) => Located::Nowhere,
            Some(state) => Located::At(state),
        },
        Some(state) => Located::At(state),
    }
}

/// A module file that was found lies deeper than the directory in which its
/// own modules are looked for.
pub proof fn lemma_located_below(files: Seq<SourceFileView>, dir: Seq<char>, ident: Seq<char>)
    requires
        locate(files, dir, ident) is At,
    ensures
        headroom(files, join(dir, ident)) < headroom(files, dir),
{
    if state_of(files, module_file(dir, ident)) != Some(FileStateView::Absent) {
        lemma_known_path_is_bounded(files, module_file(dir, ident));
    } else {
        lemma_known_path_is_bounded(files, module_dir_file(dir, ident));
    }
}

/// The module `name` with `items`, as the one node that a module declaration
/// contributes; a stop stays a stop.
pub open spec fn module_node(
    name: Seq<char>,
    items: Result<Seq<AstNodeView>, StopView>,
) -> Result<Seq<AstNodeView>, StopView> {
    match items {
        Ok(items) => Ok(seq![AstNodeView::Module { name, items }]),
        Err(stop) => Err(stop),
    }
}

/// The items of the module `ident` declared in a file whose search directory
/// is `dir`.
///
/// With a body in place they are the nodes of the body, scanned with the same
/// search directory. Without one they stand in the module's file, see
/// [`locate`]: a module without file has no items, and the declarations of a
/// file that was found are scanned with the search directory `dir/ident`.
pub open spec fn module_items(
    files: Seq<SourceFileView>,
    dir: Seq<char>,
    ident: Seq<char>,
    content: Option<Seq<DeclarationView>>,
) -> Result<Seq<AstNodeView>, StopView>
    decreases headroom(files, dir), content, 0nat,
{
    match content {
        Some(body) => scan_declarations(files, dir, body),
        None => match locate(files, dir, ident) {
            Located::Unknown(path) => Err(StopView::Needs(path)),
            Located::Nowhere => Ok(Seq::empty()),
            Located::At(FileStateView::Source(declarations)) => {
                proof {
                    lemma_located_below(files, dir, ident);
                }
                scan_declarations(files, join(dir, ident), declarations)
            },
            Located::At(FileStateView::Malformed) => Err(StopView::Fails(ScanError::Parse)),
            Located::At(_) => Err(StopView::Fails(ScanError::Io)),
        },
    }
}

/// The nodes that one declaration contributes to the module it stands in.
pub open spec fn scan_declaration(
    files: Seq<SourceFileView>,
    dir: Seq<char>,
    declaration: DeclarationView,
) -> Result<Seq<AstNodeView>, StopView>
    decreases headroom(files, dir), declaration, 1nat,
{
    match declaration {
        DeclarationView::Mod { ident, content } => module_node(
            ident,
            module_items(files, dir, ident, content),
        ),
        DeclarationView::Struct { ident, attrs } => Ok(struct_nodes(ident, attrs)),
        DeclarationView::Impl { trait_path, self_path } => Ok(impl_nodes(trait_path, self_path)),
        DeclarationView::Other => Ok(Seq::empty()),
    }
}

/// The nodes that `declarations` contribute, in source order. The scan stops
/// at the first declaration that stops it.
pub open spec fn scan_declarations(
    files: Seq<SourceFileView>,
    dir: Seq<char>,
    declarations: Seq<DeclarationView>,
) -> Result<Seq<AstNodeView>, StopView>
    decreases headroom(files, dir), declarations, 2nat,
{
    if declarations.len() == 0 {
        Ok(Seq::empty())
    } else {
        match scan_declarations(files, dir, declarations.drop_last()) {
            Ok(front) => match scan_declaration(files, dir, declarations.last()) {
                Ok(nodes) => Ok(front + nodes),
                Err(stop) => Err(stop),
            },
            Err(stop) => Err(stop),
        }
    }
}

/// The scan of the package whose entry file is `entry`.
///
/// The entry file is named `lib.rs` or `main.rs`. Its declarations are
/// scanned with its own directory as search directory.
pub open spec fn scan_package(files: Seq<SourceFileView>, entry: Seq<char>) -> Result<
    Seq<AstNodeView>,
    StopView,
> {
    if file_name(entry) != seq!['l', 'i', 'b', '.', 'r', 's'] && file_name(entry) != seq![
        'm',
        'a',
        'i',
        'n',
        '.',
        'r',
        's',
    ] {
        Err(StopView::Fails(ScanError::UnrecognizedEntry))
    } else {
        match state_of(files, entry) {
            None => Err(StopView::Needs(entry)),
            Some(FileStateView::Source(declarations)) => scan_declarations(
                files,
                parent(entry),
                declarations,
            ),
            Some(FileStateView::Malformed) => Err(StopView::Fails(ScanError::Parse)),
            Some(_) => Err(StopView::Fails(ScanError::Io)),
        }
    }
}

/// The value of the outcome of a scan.
pub open spec fn scan_view(outcome: Result<Vec<AstNode>, Stop>) -> Result<
    Seq<AstNodeView>,
    StopView,
> {
    match outcome {
        Ok(nodes) => Ok(nodes_view(nodes@)),
        Err(stop) => Err(stop@),
    }
}

impl ItemMod {
    /// The value of this declaration.
    pub open spec fn content_view(&self) -> Option<Seq<DeclarationView>> {
        match self.content {
            Some(body) => Some(declarations_view(body@)),
            None => None,
        }
    }

    /// The items of this module, declared where the search directory is
    /// `search`; `ctx` has entered the module.
    fn items(&self, search: &str, ctx: &mut Context, sources: &SourceFiles) -> (items: Result<
        Vec<AstNode>,
        Stop,
    >)
        requires
            old(ctx)@.search_dir() == if self.content is None {
                join(search@, self.ident@)
            } else {
                search@
            },
        ensures
            final(ctx)@ == old(ctx)@,
            scan_view(items) == module_items(sources@, search@, self.ident@, self.content_view()),
        decreases headroom(sources@, search@), self, 0nat,
    {
        match &self.content {
            Some(body) => to_ast(body, ctx, sources),
            None => {
                let beside = module_file_text(search, self.ident.as_str());
                let found = match sources.get(beside.as_str()) {
                    None => {
                        return Err(Stop::Needs(beside));
                    },
                    Some(FileState::Absent) => {
                        let below = module_dir_file_text(search, self.ident.as_str());
                        match sources.get(below.as_str()) {
                            None => {
                                return Err(Stop::Needs(below));
                            },
                            Some(FileState::Absent) => {
                                let none: Vec<AstNode> = Vec::new();
                                assert(nodes_view(none@) =~= Seq::<AstNodeView>::empty());
                                return Ok(none);
                            },
                            Some(state) => state,
                        }
                    },
                    Some(state) => state,
                };
                assert(locate(sources@, search@, self.ident@) == Located::At(found@));
                match found {
                    FileState::Source(declarations) => {
                        proof {
                            lemma_located_below(sources@, search@, self.ident@);
                        }
                        to_ast(declarations, ctx, sources)
                    },
                    FileState::Malformed => Err(Stop::Fails(ScanError::Parse)),
                    _ => Err(Stop::Fails(ScanError::Io)),
                }
            },
        }
    }

    /// The node that this declaration contributes to the module it stands
    /// in. Enters the module in `ctx` and leaves it again, whatever the outcome.
    pub fn to_ast(&self, ctx: &mut Context, sources: &SourceFiles) -> (ast: Result<
        Vec<AstNode>,
        Stop,
    >)
        ensures
            final(ctx)@ == old(ctx)@,
            scan_view(ast) == module_node(
                self.ident@,
                module_items(sources@, old(ctx)@.search_dir(), self.ident@, self.content_view()),
            ),
        decreases headroom(sources@, old(ctx)@.search_dir()), self, 1nat,
    {
        let search = ctx.search_dir().clone();
        ctx.push_mod(self.ident.as_str(), self.content.is_none());
        let items = self.items(search.as_str(), ctx, sources);
        ctx.pop_mod();
        proof {
            assert(ctx@.search_paths =~= old(ctx)@.search_paths);
            assert(ctx@.module_names =~= old(ctx)@.module_names);
        }
        match items {
            Ok(items) => {
                let mut ast: Vec<AstNode> = Vec::new();
                let node = AstNode::Module { name: self.ident.clone(), items };
                ast.push(node);
                assert(nodes_view(ast@) =~= seq![node@]);
                Ok(ast)
            },
            Err(stop) => Err(stop),
        }
    }
}

impl Declaration {
    /// The nodes that this declaration contributes to the module it stands in.
    pub fn to_ast(&self, ctx: &mut Context, sources: &SourceFiles) -> (ast: Result<
        Vec<AstNode>,
        Stop,
    >)
        ensures
            final(ctx)@ == old(ctx)@,
            scan_view(ast) == scan_declaration(sources@, old(ctx)@.search_dir(), self@),
        decreases headroom(sources@, old(ctx)@.search_dir()), self, 2nat,
    {
        match self {
            Declaration::Mod(item) => item.to_ast(ctx, sources),
            Declaration::Struct(item) => Ok(item.to_ast()),
            Declaration::Impl(item) => Ok(item.to_ast()),
            Declaration::Other => {
                let none: Vec<AstNode> = Vec::new();
                assert(nodes_view(none@) =~= Seq::<AstNodeView>::empty());
                Ok(none)
            },
        }
    }
}

/// The nodes that `declarations` contribute to the module they stand in, in
/// source order.
pub fn to_ast(declarations: &Vec<Declaration>, ctx: &mut Context, sources: &SourceFiles) -> (ast:
    Result<Vec<AstNode>, Stop>)
    ensures
        final(ctx)@ == old(ctx)@,
        scan_view(ast) == scan_declarations(
            sources@,
            old(ctx)@.search_dir(),
            declarations_view(declarations@),
        ),
    decreases headroom(sources@, old(ctx)@.search_dir()), declarations, 3nat,
{
    let ghost start = ctx@;
    let ghost dir = ctx@.search_dir();
    let ghost all = declarations_view(declarations@);
    let mut ast: Vec<AstNode> = Vec::new();
    let mut i: usize = 0;
    assert(nodes_view(ast@) =~= Seq::<AstNodeView>::empty());
    while i < declarations.len()
        invariant
            i <= declarations.len(),
            ctx@ == start,
            start == old(ctx)@,
            dir == start.search_dir(),
            all == declarations_view(declarations@),
            scan_declarations(sources@, dir, all.take(i as int)) == Ok::<
                Seq<AstNodeView>,
                StopView,
            >(nodes_view(ast@)),
        decreases declarations.len() - i,
    {
        proof {
            assert(all.take(i + 1).drop_last() =~= all.take(i as int));
            assert(all.take(i + 1).last() == declarations[i as int]@);
        }
        match declarations[i].to_ast(ctx, sources) {
            Ok(mut nodes) => {
                proof {
                    assert(nodes_view(ast@ + nodes@) =~= nodes_view(ast@) + nodes_view(nodes@));
                }
                ast.append(&mut nodes);
            },
            Err(stop) => {
                proof {
                    lemma_stop_is_final(sources@, dir, all, i + 1);
                }
                return Err(stop);
            },
        }
        i += 1;
    }
    proof {
        assert(all.take(declarations.len() as int) =~= all);
    }
    Ok(ast)
}

/// Scans the package whose entry file is `entry`, with what `sources` know
/// of its files.
///
/// The scan is complete when it returns the tree. It stops with
/// [`Stop::Needs`] at the first file of which `sources` know nothing: enter
/// what is found there and scan again.
pub fn parse(entry: &str, sources: &SourceFiles) -> (result: Result<File, Stop>)
    ensures
        match result {
            Ok(file) => scan_package(sources@, entry@) == Ok::<Seq<AstNodeView>, StopView>(file@),
            Err(stop) => scan_package(sources@, entry@) == Err::<Seq<AstNodeView>, StopView>(
                stop@,
            ),
        },
        result matches Err(Stop::Needs(path)) ==> state_of(sources@, path@) is None,
{
    proof {
        lemma_package_asks_for_unknown(sources@, entry@);
    }
    let (dir, name) = split_at_last_slash(entry);
    proof {
        reveal_strlit("lib.rs");
        reveal_strlit("main.rs");
        assert("lib.rs"@ =~= seq!['l', 'i', 'b', '.', 'r', 's']);
        assert("main.rs"@ =~= seq!['m', 'a', 'i', 'n', '.', 'r', 's']);
    }
    if !same_text(name.as_str(), "lib.rs") && !same_text(name.as_str(), "main.rs") {
        return Err(Stop::Fails(ScanError::UnrecognizedEntry));
    }
    match sources.get(entry) {
        None => Err(Stop::Needs(entry.to_owned())),
        Some(FileState::Source(declarations)) => {
            let mut ctx = Context::new(dir);
            match to_ast(declarations, &mut ctx, sources) {
                Ok(items) => Ok(File::new(items)),
                Err(stop) => Err(stop),
            }
        },
        Some(FileState::Malformed) => Err(Stop::Fails(ScanError::Parse)),
        Some(_) => Err(Stop::Fails(ScanError::Io)),
    }
}

} // verus!
