//! What a struct declaration and an implementation block contribute to the
//! module tree.

use crate::scanner::ast::{nodes_view, AstNode, AstNodeView};
use crate::scanner::declaration::{
    attributes_view, optional_path_view, Attribute, AttributeView, ItemImpl, ItemStruct,
};
use crate::text::same_text;
use crate::token::{tokens_view, Token, TokenView};
use vstd::prelude::*;

verus! {

/// The name of the attribute that lists derived capabilities.
pub open spec fn derive_word() -> Seq<char> {
    seq!['d', 'e', 'r', 'i', 'v', 'e']
}

/// Whether the token at `position` of a derive list names a capability: it
/// is an identifier, and a comma or the end of the list follows.
pub open spec fn names_capability(tokens: Seq<TokenView>, position: int) -> bool {
    &&& 0 <= position < tokens.len()
    &&& tokens[position] is Ident
    &&& (position + 1 == tokens.len() || (tokens[position + 1] matches TokenView::Punct(ch, _)
        && ch == ','))
}

/// What the first `count` tokens of the derive list on the type `target`
/// contribute: a derive node for each of them that names a capability.
pub open spec fn derive_nodes(tokens: Seq<TokenView>, target: Seq<char>, count: int) -> Seq<
    AstNodeView,
>
    decreases count,
{
    if count <= 0 {
        Seq::empty()
    } else if names_capability(tokens, count - 1) {
        derive_nodes(tokens, target, count - 1).push(
            AstNodeView::Derive { trait_name: tokens[count - 1]->Ident_0, target },
        )
    } else {
        derive_nodes(tokens, target, count - 1)
    }
}

/// What one attribute on the type `target` contributes: the derive nodes of
/// its list where the first segment of its path is `derive`, nothing otherwise.
pub open spec fn attribute_nodes(attribute: AttributeView, target: Seq<char>) -> Seq<AstNodeView> {
    match attribute {
        AttributeView::List { path, tokens } if path.len() > 0 && path[0] == derive_word() =>
        derive_nodes(tokens, target, tokens.len() as int),
        _ => Seq::empty(),
    }
}

/// What the attributes on the type `target` contribute, in their order.
pub open spec fn attributes_nodes(attributes: Seq<AttributeView>, target: Seq<char>) -> Seq<
    AstNodeView,
>
    decreases attributes.len(),
{
    if attributes.len() == 0 {
        Seq::empty()
    } else {
        attributes_nodes(attributes.drop_last(), target) + attribute_nodes(
            attributes.last(),
            target,
        )
    }
}

/// What a struct declaration contributes: the declaration of the type, then
/// a derive node for each capability that its derive annotations list.
pub open spec fn struct_nodes(ident: Seq<char>, attrs: Seq<AttributeView>) -> Seq<AstNodeView> {
    seq![AstNodeView::Struct { name: ident }] + attributes_nodes(attrs, ident)
}

/// What an implementation block contributes: where it names a trait and is
/// written for a type that is a plain path, the implementation of the trait's
/// last segment for the type's last segment; nothing otherwise.
pub open spec fn impl_nodes(
    trait_path: Option<Seq<Seq<char>>>,
    self_path: Option<Seq<Seq<char>>>,
) -> Seq<AstNodeView> {
    match (trait_path, self_path) {
        (Some(capability), Some(target)) if capability.len() > 0 && target.len() > 0 => seq![
            AstNodeView::TraitImpl { trait_name: capability.last(), target: target.last() },
        ],
        _ => Seq::empty(),
    }
}

/// Appends to `ast` the derive nodes of one derive list.
fn push_derives(ast: &mut Vec<AstNode>, tokens: &Vec<Token>, target: &String)
    ensures
        nodes_view(final(ast)@) == nodes_view(old(ast)@) + derive_nodes(
            tokens_view(tokens@),
            target@,
            tokens.len() as int,
        ),
{
    let ghost list = tokens_view(tokens@);
    let ghost before = nodes_view(ast@);
    let mut i: usize = 0;
    assert(before + derive_nodes(list, target@, 0) =~= before);
    while i < tokens.len()
        invariant
            i <= tokens.len(),
            list == tokens_view(tokens@),
            nodes_view(ast@) == before + derive_nodes(list, target@, i as int),
        decreases tokens.len() - i,
    {
        if let Token::Ident(id) = &tokens[i] {
            let listed = if i + 1 == tokens.len() {
                true
            } else {
                match &tokens[i + 1] {
                    Token::Punct(ch, _) => *ch == ',',
                    _ => false,
                }
            };
            if listed {
                let node = AstNode::Derive { trait_name: id.clone(), target: target.clone() };
                proof {
                    assert(nodes_view(ast@.push(node)) =~= nodes_view(ast@).push(node@));
                    assert((before + derive_nodes(list, target@, i as int)).push(node@) =~= before
                        + derive_nodes(list, target@, i as int).push(node@));
                }
                ast.push(node);
            }
        }
        i += 1;
    }
}

impl ItemStruct {
    /// The nodes that this declaration contributes to its module.
    pub fn to_ast(&self) -> (ast: Vec<AstNode>)
        ensures
            nodes_view(ast@) == struct_nodes(self.ident@, attributes_view(self.attrs@)),
    {
        let ghost attributes = attributes_view(self.attrs@);
        let mut ast: Vec<AstNode> = Vec::new();
        let declared = AstNode::Struct { name: self.ident.clone() };
        ast.push(declared);
        let ghost head = seq![declared@];
        let mut i: usize = 0;
        proof {
            assert(nodes_view(ast@) =~= head + attributes_nodes(attributes.take(0), self.ident@));
        }
        while i < self.attrs.len()
            invariant
                i <= self.attrs.len(),
                attributes == attributes_view(self.attrs@),
                nodes_view(ast@) == head + attributes_nodes(
                    attributes.take(i as int),
                    self.ident@,
                ),
            decreases self.attrs.len() - i,
        {
            let ghost before = nodes_view(ast@);
            proof {
                assert(attributes.take(i + 1).drop_last() =~= attributes.take(i as int));
                assert(attributes.take(i + 1).last() == self.attrs[i as int]@);
            }
            if let Attribute::List { path, tokens } = &self.attrs[i] {
                proof {
                    reveal_strlit("derive");
                    assert("derive"@ =~= derive_word());
                }
                if path.len() > 0 && same_text(path[0].as_str(), "derive") {
                    push_derives(&mut ast, tokens, &self.ident);
                }
            }
            proof {
                let added = attribute_nodes(self.attrs[i as int]@, self.ident@);
                assert(nodes_view(ast@) == before + added) by {
                    assert(before + Seq::<AstNodeView>::empty() =~= before);
                }
                assert(before + added =~= head + (attributes_nodes(
                    attributes.take(i as int),
                    self.ident@,
                ) + added));
            }
            i += 1;
        }
        proof {
            assert(attributes.take(self.attrs.len() as int) =~= attributes);
        }
        ast
    }
}

impl ItemImpl {
    /// The nodes that this block contributes to its module.
    pub fn to_ast(&self) -> (ast: Vec<AstNode>)
        ensures
            nodes_view(ast@) == impl_nodes(
                optional_path_view(self.trait_path),
                optional_path_view(self.self_path),
            ),
    {
        let mut ast: Vec<AstNode> = Vec::new();
        if let Some(capability) = &self.trait_path {
            if let Some(target) = &self.self_path {
                if capability.len() > 0 && target.len() > 0 {
                    let node = AstNode::TraitImpl {
                        trait_name: capability[capability.len() - 1].clone(),
                        target: target[target.len() - 1].clone(),
                    };
                    ast.push(node);
                    assert(nodes_view(ast@) =~= seq![node@]);
                    return ast;
                }
            }
        }
        assert(nodes_view(ast@) =~= Seq::<AstNodeView>::empty());
        ast
    }
}

} // verus!
