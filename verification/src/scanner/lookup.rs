//! The search for the implementers of a capability in a scanned tree.

use crate::scanner::ast::{nodes_view, AstNode, AstNodeView, File};
use crate::scanner::implementer::{implementers_view, Implementer, ImplementerView};
use crate::text::same_text;
use vstd::prelude::*;

verus! {

/// The path of the package root.
pub open spec fn root_path() -> Seq<char> {
    seq!['c', 'r', 'a', 't', 'e']
}

/// The path of the module `name` declared in the module at `path`.
pub open spec fn child_path(path: Seq<char>, name: Seq<char>) -> Seq<char> {
    path + seq![':', ':'] + name
}

/// The capability and the target of a node that relates the two.
pub open spec fn relation(node: AstNodeView) -> Option<(Seq<char>, Seq<char>)> {
    match node {
        AstNodeView::TraitImpl { trait_name, target } => Some((trait_name, target)),
        AstNodeView::Derive { trait_name, target } => Some((trait_name, target)),
        _ => None,
    }
}

/// The implementers of `capability` that `node`, an item of the module at
/// `path`, gives: one for a matching implementation or derive, those of its
/// items for a module, none for a type declaration.
pub open spec fn node_implementers(
    node: AstNodeView,
    path: Seq<char>,
    capability: Seq<char>,
) -> Seq<ImplementerView>
    decreases node,
{
    match node {
        AstNodeView::Module { name, items } => implementers(
            items,
            child_path(path, name),
            capability,
        ),
        _ => match relation(node) {
            Some((trait_name, target)) if trait_name == capability => seq![
                ImplementerView { name: target, path },
            ],
            _ => Seq::empty(),
        },
    }
}

/// The implementers of `capability` among `items`, the items of the module at
/// `path`: what each item gives, in source order.
pub open spec fn implementers(
    items: Seq<AstNodeView>,
    path: Seq<char>,
    capability: Seq<char>,
) -> Seq<ImplementerView>
    decreases items,
{
    if items.len() == 0 {
        Seq::empty()
    } else {
        implementers(items.drop_last(), path, capability) + node_implementers(
            items.last(),
            path,
            capability,
        )
    }
}

/// The implementers of `trait_subject` among `items`, the items of the module
/// at `path`.
fn find_impl(items: &Vec<AstNode>, path: &str, trait_subject: &str) -> (result: Vec<Implementer>)
    ensures
        implementers_view(result@) == implementers(nodes_view(items@), path@, trait_subject@),
    decreases items,
{
    let ghost nodes = nodes_view(items@);
    let mut result: Vec<Implementer> = Vec::new();
    let mut i: usize = 0;
    while i < items.len()
        invariant
            i <= items.len(),
            nodes == nodes_view(items@),
            implementers_view(result@) == implementers(
                nodes.take(i as int),
                path@,
                trait_subject@,
            ),
        decreases items.len() - i,
    {
        let ghost before = implementers_view(result@);
        proof {
            assert(nodes.take(i + 1).drop_last() =~= nodes.take(i as int));
            assert(nodes.take(i + 1).last() == items[i as int]@);
        }
        match &items[i] {
            AstNode::Module { name, items: inner } => {
                let mut nested_path = path.to_owned();
                nested_path.append("::");
                nested_path.append(name.as_str());
                proof {
                    reveal_strlit("::");
                    assert(nested_path@ =~= child_path(path@, name@));
                }
                let mut nested = find_impl(inner, nested_path.as_str(), trait_subject);
                proof {
                    assert(implementers_view(result@ + nested@) =~= before + implementers_view(
                        nested@,
                    ));
                }
                result.append(&mut nested);
            },
            AstNode::TraitImpl { trait_name, target } => {
                if same_text(trait_name.as_str(), trait_subject) {
                    let found = Implementer { path: path.to_owned(), name: target.clone() };
                    proof {
                        assert(implementers_view(result@.push(found)) =~= before + seq![found@]);
                    }
                    result.push(found);
                }
            },
            AstNode::Derive { trait_name, target } => {
                if same_text(trait_name.as_str(), trait_subject) {
                    let found = Implementer { path: path.to_owned(), name: target.clone() };
                    proof {
                        assert(implementers_view(result@.push(found)) =~= before + seq![found@]);
                    }
                    result.push(found);
                }
            },
            AstNode::Struct { .. } => {},
        }
        assert(implementers_view(result@) == before + node_implementers(
            items[i as int]@,
            path@,
            trait_subject@,
        ));
        i += 1;
    }
    proof {
        assert(nodes.take(items.len() as int) =~= nodes);
    }
    result
}

impl File {
    /// The types that implement or derive `trait_subject`, each with the path
    /// of its module, in the order of the source.
    pub fn lookup(&self, trait_subject: &str) -> (result: Vec<Implementer>)
        ensures
            implementers_view(result@) == implementers(self@, root_path(), trait_subject@),
    {
        proof {
            reveal_strlit("crate");
            assert("crate"@ =~= root_path());
        }
        find_impl(self.items(), "crate", trait_subject)
    }
}

} // verus!
