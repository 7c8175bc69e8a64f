//! The scanned module tree.

use vstd::prelude::*;

verus! {

/// One item of the scanned module tree.
#[derive(Debug, PartialEq, Eq)]
pub enum AstNode {
    /// A module and its items, in source order.
    Module { name: String, items: Vec<AstNode> },
    /// The declaration of a type.
    Struct { name: String },
    /// An explicit implementation of `trait_name` for the type `target`.
    TraitImpl { trait_name: String, target: String },
    /// `trait_name` in a derive annotation on the type `target`.
    Derive { trait_name: String, target: String },
}

/// The mathematical value of an [`AstNode`].
pub enum AstNodeView {
    Module { name: Seq<char>, items: Seq<AstNodeView> },
    Struct { name: Seq<char> },
    TraitImpl { trait_name: Seq<char>, target: Seq<char> },
    Derive { trait_name: Seq<char>, target: Seq<char> },
}

impl View for AstNode {
    type V = AstNodeView;

    open spec fn view(&self) -> AstNodeView
        decreases self,
    {
        match self {
            AstNode::Module { name, items } => AstNodeView::Module {
                name: name@,
                items: nodes_view(items@),
            },
            AstNode::Struct { name } => AstNodeView::Struct { name: name@ },
            AstNode::TraitImpl { trait_name, target } => AstNodeView::TraitImpl {
                trait_name: trait_name@,
                target: target@,
            },
            AstNode::Derive { trait_name, target } => AstNodeView::Derive {
                trait_name: trait_name@,
                target: target@,
            },
        }
    }
}

/// The values of a sequence of nodes, in order.
pub open spec fn nodes_view(nodes: Seq<AstNode>) -> Seq<AstNodeView>
    decreases nodes,
{
    Seq::new(nodes.len(), |i: int| if 0 <= i < nodes.len() { nodes[i]@ } else { arbitrary() })
}

/// A scanned package: the items of its root module.
#[derive(Debug, PartialEq, Eq)]
pub struct File {
    items: Vec<AstNode>,
}

impl View for File {
    type V = Seq<AstNodeView>;

    closed spec fn view(&self) -> Seq<AstNodeView> {
        nodes_view(self.items@)
    }
}

impl File {
    /// The package whose root module holds `items`.
    pub fn new(items: Vec<AstNode>) -> (file: File)
        ensures
            file@ == nodes_view(items@),
    {
        File { items }
    }

    /// The items of the root module.
    pub fn items(&self) -> (items: &Vec<AstNode>)
        ensures
            nodes_view(items@) == self@,
    {
        &self.items
    }
}

} // verus!
