//! What holds of every lookup and of every scan.

use crate::paths::{join, parent};
use crate::scanner::ast::{AstNodeView, File};
use crate::scanner::declaration::DeclarationView;
use crate::scanner::fold::{derive_nodes, names_capability};
use crate::token::{Spacing, TokenView};
use crate::scanner::implementer::{
    implementers_view, qualified_implementer, Implementer, ImplementerView,
};
use crate::scanner::lookup::{child_path, implementers, node_implementers, relation, root_path};
use crate::scanner::scan::{
    headroom, lemma_located_below, locate, scan_declaration, scan_declarations, scan_package,
    Located, StopView,
};
use crate::scanner::sources::{state_of, FileStateView, SourceFileView};
use crate::text::{join_path, lemma_split_then_join, split_path};
use vstd::prelude::*;

verus! {

/// Looking a capability up twice in one tree gives the same implementers
/// in the same order.
pub proof fn lemma_lookup_is_deterministic(
    file: &File,
    trait_subject: &str,
    first: Vec<Implementer>,
    second: Vec<Implementer>,
)
    requires
        call_ensures(File::lookup, (file, trait_subject), first),
        call_ensures(File::lookup, (file, trait_subject), second),
    ensures
        implementers_view(first@) == implementers_view(second@),
{
}

/// How many nodes among `items` and in the modules below them relate
/// `capability` to a type.
pub open spec fn relation_count(items: Seq<AstNodeView>, capability: Seq<char>) -> nat
    decreases items,
{
    if items.len() == 0 {
        0
    } else {
        relation_count(items.drop_last(), capability) + node_relation_count(
            items.last(),
            capability,
        )
    }
}

/// How many nodes relate `capability` to a type in `node`.
pub open spec fn node_relation_count(node: AstNodeView, capability: Seq<char>) -> nat
    decreases node,
{
    match node {
        AstNodeView::Module { items, .. } => relation_count(items, capability),
        _ => match relation(node) {
            Some((trait_name, _)) if trait_name == capability => 1,
            _ => 0,
        },
    }
}

/// Every relation is reported: there are as many implementers of a
/// capability as there are implementations and derives of it in the tree,
/// also where several of them name one type.
pub proof fn lemma_no_implementer_is_merged(
    items: Seq<AstNodeView>,
    path: Seq<char>,
    capability: Seq<char>,
)
    ensures
        implementers(items, path, capability).len() == relation_count(items, capability),
    decreases items,
{
    reveal_with_fuel(implementers, 2);
    reveal_with_fuel(relation_count, 2);
    if items.len() > 0 {
        lemma_no_implementer_is_merged(items.drop_last(), path, capability);
        if let AstNodeView::Module { name, items: inner } = items.last() {
            lemma_no_implementer_is_merged(inner, child_path(path, name), capability);
        }
    }
}

/// Whether the module reached from `items` through the nested modules named
/// in `chain` holds a node that relates `capability` to `target`.
pub open spec fn declares(
    items: Seq<AstNodeView>,
    chain: Seq<Seq<char>>,
    capability: Seq<char>,
    target: Seq<char>,
) -> bool
    decreases chain.len(),
{
    if chain.len() == 0 {
        exists|i: int|
            0 <= i < items.len() && relation(#[trigger] items[i]) == Some((capability, target))
    } else {
        exists|i: int|
            0 <= i < items.len() && (#[trigger] items[i] matches AstNodeView::Module {
                name,
                items: inner,
            } && name == chain[0] && declares(inner, chain.skip(1), capability, target))
    }
}

/// The path of the module reached from the package root through the modules
/// named in `chain`: the root and the names, joined by `::`.
pub open spec fn qualified_path(chain: Seq<Seq<char>>) -> Seq<char> {
    join_path(seq![root_path()] + chain)
}

/// The path of a module is the path of its parent with its name joined on.
proof fn lemma_child_path(outer: Seq<Seq<char>>, name: Seq<char>)
    requires
        outer.len() > 0,
    ensures
        child_path(join_path(outer), name) == join_path(outer.push(name)),
{
    assert(outer.push(name).drop_last() =~= outer);
}

/// Each implementer found among `items`, the items of the module reached
/// through `outer`, is declared below that module, and its path is that of
/// the chain that leads there.
proof fn lemma_implementers_are_qualified(
    items: Seq<AstNodeView>,
    outer: Seq<Seq<char>>,
    capability: Seq<char>,
    k: int,
) -> (chain: Seq<Seq<char>>)
    requires
        outer.len() > 0,
        0 <= k < implementers(items, join_path(outer), capability).len(),
    ensures
        declares(items, chain, capability, implementers(items, join_path(outer), capability)[k].name),
        implementers(items, join_path(outer), capability)[k].path == join_path(outer + chain),
    decreases items,
{
    reveal_with_fuel(implementers, 2);
    let path = join_path(outer);
    let front = implementers(items.drop_last(), path, capability);
    let last = items.len() - 1;
    if k < front.len() {
        let chain = lemma_implementers_are_qualified(items.drop_last(), outer, capability, k);
        lemma_declares_in_front(
            items,
            chain,
            capability,
            implementers(items, path, capability)[k].name,
        );
        chain
    } else {
        match items.last() {
            AstNodeView::Module { name, items: inner } => {
                lemma_child_path(outer, name);
                let below = lemma_implementers_are_qualified(
                    inner,
                    outer.push(name),
                    capability,
                    k - front.len(),
                );
                let chain = seq![name] + below;
                assert(chain.skip(1) =~= below);
                assert(outer + chain =~= outer.push(name) + below);
                assert(items[last] == items.last());
                chain
            },
            _ => {
                let chain = Seq::<Seq<char>>::empty();
                assert(outer + chain =~= outer);
                assert(items[last] == items.last());
                chain
            },
        }
    }
}

/// What is declared among the first items is declared among them all.
proof fn lemma_declares_in_front(
    items: Seq<AstNodeView>,
    chain: Seq<Seq<char>>,
    capability: Seq<char>,
    target: Seq<char>,
)
    requires
        items.len() > 0,
        declares(items.drop_last(), chain, capability, target),
    ensures
        declares(items, chain, capability, target),
{
    let front = items.drop_last();
    if chain.len() == 0 {
        let i = choose|i: int|
            0 <= i < front.len() && relation(#[trigger] front[i]) == Some((capability, target));
        assert(items[i] == front[i]);
    } else {
        let i = choose|i: int|
            0 <= i < front.len() && (#[trigger] front[i] matches AstNodeView::Module {
                name,
                items: inner,
            } && name == chain[0] && declares(inner, chain.skip(1), capability, target));
        assert(items[i] == front[i]);
    }
}

/// Each implementer found in a tree is declared in it: some chain of nested
/// modules leads from the root to a node that relates the capability to the
/// implementer's name, and the implementer's path is the root and the names
/// of that chain joined by `::`. With an empty chain it is the root path alone.
pub proof fn lemma_paths_are_qualified(tree: Seq<AstNodeView>, capability: Seq<char>, k: int) -> (chain:
    Seq<Seq<char>>)
    requires
        0 <= k < implementers(tree, root_path(), capability).len(),
    ensures
        declares(tree, chain, capability, implementers(tree, root_path(), capability)[k].name),
        implementers(tree, root_path(), capability)[k].path == qualified_path(chain),
        chain.len() == 0 ==> implementers(tree, root_path(), capability)[k].path == root_path(),
{
    let outer = seq![root_path()];
    assert(join_path(outer) == root_path());
    let chain = lemma_implementers_are_qualified(tree, outer, capability, k);
    if chain.len() == 0 {
        assert(outer + chain =~= outer);
    }
    chain
}

/// What one item gives is among what all items give.
proof fn lemma_item_implementers_are_found(
    items: Seq<AstNodeView>,
    i: int,
    path: Seq<char>,
    capability: Seq<char>,
    found: ImplementerView,
)
    requires
        0 <= i < items.len(),
        node_implementers(items[i], path, capability).contains(found),
    ensures
        implementers(items, path, capability).contains(found),
    decreases items.len(),
{
    let front = implementers(items.drop_last(), path, capability);
    let back = node_implementers(items.last(), path, capability);
    if i == items.len() - 1 {
        let j = choose|j: int| 0 <= j < back.len() && back[j] == found;
        assert((front + back)[front.len() + j] == found);
    } else {
        assert(items.drop_last()[i] == items[i]);
        lemma_item_implementers_are_found(items.drop_last(), i, path, capability, found);
        let j = choose|j: int| 0 <= j < front.len() && front[j] == found;
        assert((front + back)[j] == found);
    }
}

/// Each relation declared below the module reached through `outer` is found
/// with the path of the chain that leads to it.
proof fn lemma_declared_below_is_found(
    items: Seq<AstNodeView>,
    outer: Seq<Seq<char>>,
    chain: Seq<Seq<char>>,
    capability: Seq<char>,
    target: Seq<char>,
)
    requires
        outer.len() > 0,
        declares(items, chain, capability, target),
    ensures
        implementers(items, join_path(outer), capability).contains(
            ImplementerView { name: target, path: join_path(outer + chain) },
        ),
    decreases chain.len(),
{
    let path = join_path(outer);
    let found = ImplementerView { name: target, path: join_path(outer + chain) };
    if chain.len() == 0 {
        let i = choose|i: int|
            0 <= i < items.len() && relation(#[trigger] items[i]) == Some((capability, target));
        assert(outer + chain =~= outer);
        assert(node_implementers(items[i], path, capability)[0] == found);
        lemma_item_implementers_are_found(items, i, path, capability, found);
    } else {
        let i = choose|i: int|
            0 <= i < items.len() && (#[trigger] items[i] matches AstNodeView::Module {
                name,
                items: inner,
            } && name == chain[0] && declares(inner, chain.skip(1), capability, target));
        if let AstNodeView::Module { name, items: inner } = items[i] {
            lemma_child_path(outer, name);
            lemma_declared_below_is_found(
                inner,
                outer.push(name),
                chain.skip(1),
                capability,
                target,
            );
            assert(outer.push(name) + chain.skip(1) =~= outer + chain);
            lemma_item_implementers_are_found(items, i, path, capability, found);
        }
    }
}

/// Each relation declared in a tree is found: where a chain of nested
/// modules leads from the root to a node that relates the capability to a
/// type, that type is among the implementers, with the path of that chain.
pub proof fn lemma_declared_is_found(
    tree: Seq<AstNodeView>,
    chain: Seq<Seq<char>>,
    capability: Seq<char>,
    target: Seq<char>,
)
    requires
        declares(tree, chain, capability, target),
    ensures
        implementers(tree, root_path(), capability).contains(
            ImplementerView { name: target, path: qualified_path(chain) },
        ),
{
    let outer = seq![root_path()];
    assert(join_path(outer) == root_path());
    lemma_declared_below_is_found(tree, outer, chain, capability, target);
}

/// The implementer made from a qualified name gives the name back: where
/// the name holds a `::`, it is the path and the name of the implementer with
/// `::` between them; where it holds none, it is the name of the implementer,
/// whose path is empty.
pub proof fn lemma_qualified_name_is_kept(value: Seq<char>)
    ensures
        ({
            let made = qualified_implementer(value);
            if split_path(value).len() > 1 {
                child_path(made.path, made.name) == value
            } else {
                made.name == value && made.path.len() == 0
            }
        }),
{
    lemma_split_then_join(value);
}

/// A derive list as it is written: `names` with a comma between each two.
pub open spec fn comma_list(names: Seq<Seq<char>>) -> Seq<TokenView>
    decreases names.len(),
{
    if names.len() == 0 {
        Seq::empty()
    } else if names.len() == 1 {
        seq![TokenView::Ident(names[0])]
    } else {
        comma_list(names.drop_last()) + seq![
            TokenView::Punct(',', Spacing::Alone),
            TokenView::Ident(names.last()),
        ]
    }
}

/// The derive nodes of the first tokens of a list do not depend on what
/// follows them, as long as a comma follows.
proof fn lemma_derive_nodes_of_front(
    front: Seq<TokenView>,
    back: Seq<TokenView>,
    target: Seq<char>,
    count: int,
)
    requires
        0 <= count <= front.len(),
        back.len() > 0,
        back[0] matches TokenView::Punct(ch, _) && ch == ',',
    ensures
        derive_nodes(front + back, target, count) == derive_nodes(front, target, count),
    decreases count,
{
    if count > 0 {
        lemma_derive_nodes_of_front(front, back, target, count - 1);
        let all = front + back;
        assert(all[count - 1] == front[count - 1]);
        if count < front.len() {
            assert(all[count] == front[count]);
        } else {
            assert(all[count] == back[0]);
        }
        assert(names_capability(all, count - 1) == names_capability(front, count - 1));
    }
}

/// A derive list of names with commas between them contributes one derive
/// node for each name, in the order of the list.
pub proof fn lemma_derive_list(names: Seq<Seq<char>>, target: Seq<char>)
    ensures
        derive_nodes(comma_list(names), target, comma_list(names).len() as int) == Seq::new(
            names.len(),
            |i: int| AstNodeView::Derive { trait_name: names[i], target },
        ),
    decreases names.len(),
{
    let tokens = comma_list(names);
    let nodes = Seq::new(names.len(), |i: int| AstNodeView::Derive { trait_name: names[i], target });
    if names.len() == 0 {
        assert(derive_nodes(tokens, target, 0) =~= nodes);
    } else if names.len() == 1 {
        assert(derive_nodes(tokens, target, 1) =~= nodes) by {
            reveal_with_fuel(derive_nodes, 2);
        }
    } else {
        let front = comma_list(names.drop_last());
        let back = seq![TokenView::Punct(',', Spacing::Alone), TokenView::Ident(names.last())];
        lemma_derive_list(names.drop_last(), target);
        lemma_derive_nodes_of_front(front, back, target, front.len() as int);
        let n = tokens.len() as int;
        assert(tokens[n - 1] == back[1]);
        assert(tokens[n - 2] == back[0]);
        assert(names_capability(tokens, n - 1));
        assert(!names_capability(tokens, n - 2));
        assert(derive_nodes(tokens, target, n) == derive_nodes(tokens, target, n - 2).push(
            AstNodeView::Derive { trait_name: names.last(), target },
        )) by {
            reveal_with_fuel(derive_nodes, 3);
        }
        assert(derive_nodes(tokens, target, n) =~= nodes);
    }
}

/// `files` with one more entry.
pub open spec fn entered(
    files: Seq<SourceFileView>,
    path: Seq<char>,
    state: FileStateView,
) -> Seq<SourceFileView> {
    files.push(SourceFileView { path, state })
}

/// A scan asks only for files of which nothing is known.
pub proof fn lemma_scan_asks_for_unknown(
    files: Seq<SourceFileView>,
    dir: Seq<char>,
    declarations: Seq<DeclarationView>,
)
    ensures
        scan_declarations(files, dir, declarations) matches Err(StopView::Needs(path))
            ==> state_of(files, path) is None,
    decreases headroom(files, dir), declarations, 2nat,
{
    if declarations.len() > 0 {
        lemma_scan_asks_for_unknown(files, dir, declarations.drop_last());
        lemma_declaration_asks_for_unknown(files, dir, declarations.last());
    }
}

/// The scan of one declaration asks only for files of which nothing is known.
proof fn lemma_declaration_asks_for_unknown(
    files: Seq<SourceFileView>,
    dir: Seq<char>,
    declaration: DeclarationView,
)
    ensures
        scan_declaration(files, dir, declaration) matches Err(StopView::Needs(path))
            ==> state_of(files, path) is None,
    decreases headroom(files, dir), declaration, 1nat,
{
    if let DeclarationView::Mod { ident, content } = declaration {
        match content {
            Some(body) => {
                lemma_scan_asks_for_unknown(files, dir, body);
            },
            None => {
                if let Located::At(FileStateView::Source(inner)) = locate(files, dir, ident) {
                    lemma_located_below(files, dir, ident);
                    lemma_scan_asks_for_unknown(files, join(dir, ident), inner);
                }
            },
        }
    }
}

/// The scan of a package asks only for files of which nothing is known.
pub proof fn lemma_package_asks_for_unknown(files: Seq<SourceFileView>, entry: Seq<char>)
    ensures
        scan_package(files, entry) matches Err(StopView::Needs(path)) ==> state_of(files, path)
            is None,
{
    if let Some(FileStateView::Source(declarations)) = state_of(files, entry) {
        lemma_scan_asks_for_unknown(files, parent(entry), declarations);
    }
}

/// What is entered for a file that the scan did not ask for does not change
/// the scan: whether it is complete, what it found, how it failed, and what
/// else it asks for.
pub proof fn lemma_scan_is_stable(
    files: Seq<SourceFileView>,
    dir: Seq<char>,
    declarations: Seq<DeclarationView>,
    path: Seq<char>,
    state: FileStateView,
)
    requires
        state_of(files, path) is None,
        scan_declarations(files, dir, declarations) != Err::<Seq<AstNodeView>, StopView>(
            StopView::Needs(path),
        ),
    ensures
        scan_declarations(entered(files, path, state), dir, declarations) == scan_declarations(
            files,
            dir,
            declarations,
        ),
    decreases headroom(files, dir), declarations, 2nat,
{
    if declarations.len() > 0 {
        lemma_scan_is_stable(files, dir, declarations.drop_last(), path, state);
        if scan_declarations(files, dir, declarations.drop_last()) is Ok {
            lemma_declaration_is_stable(files, dir, declarations.last(), path, state);
        }
    }
}

/// What is entered for a file that the scan of one declaration did not ask
/// for does not change that scan.
proof fn lemma_declaration_is_stable(
    files: Seq<SourceFileView>,
    dir: Seq<char>,
    declaration: DeclarationView,
    path: Seq<char>,
    state: FileStateView,
)
    requires
        state_of(files, path) is None,
        scan_declaration(files, dir, declaration) != Err::<Seq<AstNodeView>, StopView>(
            StopView::Needs(path),
        ),
    ensures
        scan_declaration(entered(files, path, state), dir, declaration) == scan_declaration(
            files,
            dir,
            declaration,
        ),
    decreases headroom(files, dir), declaration, 1nat,
{
    let more = entered(files, path, state);
    assert(more.drop_last() =~= files);
    if let DeclarationView::Mod { ident, content } = declaration {
        match content {
            Some(body) => {
                lemma_scan_is_stable(files, dir, body, path, state);
            },
            None => {
                assert(locate(more, dir, ident) == locate(files, dir, ident));
                if let Located::At(FileStateView::Source(inner)) = locate(files, dir, ident) {
                    lemma_located_below(files, dir, ident);
                    lemma_scan_is_stable(files, join(dir, ident), inner, path, state);
                }
            },
        }
    }
}

/// What is entered for a file that the scan of a package did not ask for
/// does not change that scan.
pub proof fn lemma_package_scan_is_stable(
    files: Seq<SourceFileView>,
    entry: Seq<char>,
    path: Seq<char>,
    state: FileStateView,
)
    requires
        state_of(files, path) is None,
        scan_package(files, entry) != Err::<Seq<AstNodeView>, StopView>(StopView::Needs(path)),
    ensures
        scan_package(entered(files, path, state), entry) == scan_package(files, entry),
{
    let more = entered(files, path, state);
    assert(more.drop_last() =~= files);
    if let Some(FileStateView::Source(declarations)) = state_of(files, entry) {
        if scan_package(files, entry) == scan_declarations(files, parent(entry), declarations) {
            lemma_scan_is_stable(files, parent(entry), declarations, path, state);
        }
    }
}

/// A stop among the first declarations stops the scan of them all.
pub proof fn lemma_stop_is_final(
    files: Seq<SourceFileView>,
    dir: Seq<char>,
    declarations: Seq<DeclarationView>,
    k: int,
)
    requires
        0 <= k <= declarations.len(),
        scan_declarations(files, dir, declarations.take(k)) is Err,
    ensures
        scan_declarations(files, dir, declarations) == scan_declarations(
            files,
            dir,
            declarations.take(k),
        ),
    decreases declarations.len() - k,
{
    if k < declarations.len() {
        assert(declarations.take(k + 1).drop_last() =~= declarations.take(k));
        lemma_stop_is_final(files, dir, declarations, k + 1);
    } else {
        assert(declarations.take(k) =~= declarations);
    }
}

} // verus!
