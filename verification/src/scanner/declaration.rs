//! The top-level declarations of a source file, as a parser hands them over.

use crate::text::strings_view;
use crate::token::{tokens_view, Token, TokenView};
use vstd::prelude::*;

verus! {

/// A path such as `std::fmt::Debug`: its segments in order.
pub type Path = Vec<String>;

/// An attribute on a declaration.
#[derive(Debug, PartialEq, Eq)]
pub enum Attribute {
    /// `#[path(tokens)]`, such as `#[derive(Clone, Debug)]`.
    List { path: Path, tokens: Vec<Token> },
    /// An attribute of any other form.
    Other,
}

/// A module declaration. Without `content` its body stands in a file of its own.
#[derive(Debug, PartialEq, Eq)]
pub struct ItemMod {
    pub ident: String,
    pub content: Option<Vec<Declaration>>,
}

/// A struct declaration.
#[derive(Debug, PartialEq, Eq)]
pub struct ItemStruct {
    pub ident: String,
    pub attrs: Vec<Attribute>,
}

/// An implementation block. `trait_path` is the trait it implements, if it
/// names one; `self_path` is the type it is written for, where that type is a
/// plain path.
#[derive(Debug, PartialEq, Eq)]
pub struct ItemImpl {
    pub trait_path: Option<Path>,
    pub self_path: Option<Path>,
}

/// One top-level declaration.
#[derive(Debug, PartialEq, Eq)]
pub enum Declaration {
    Mod(ItemMod),
    Struct(ItemStruct),
    Impl(ItemImpl),
    /// A declaration of any other kind.
    Other,
}

/// The mathematical value of an [`Attribute`].
pub enum AttributeView {
    List { path: Seq<Seq<char>>, tokens: Seq<TokenView> },
    Other,
}

/// The mathematical value of a [`Declaration`].
pub enum DeclarationView {
    Mod { ident: Seq<char>, content: Option<Seq<DeclarationView>> },
    Struct { ident: Seq<char>, attrs: Seq<AttributeView> },
    Impl { trait_path: Option<Seq<Seq<char>>>, self_path: Option<Seq<Seq<char>>> },
    Other,
}

/// The value of an optional path.
pub open spec fn optional_path_view(path: Option<Path>) -> Option<Seq<Seq<char>>> {
    match path {
        Some(path) => Some(strings_view(path@)),
        None => None,
    }
}

impl View for Attribute {
    type V = AttributeView;

    open spec fn view(&self) -> AttributeView {
        match self {
            Attribute::List { path, tokens } => AttributeView::List {
                path: strings_view(path@),
                tokens: tokens_view(tokens@),
            },
            Attribute::Other => AttributeView::Other,
        }
    }
}

/// The values of a sequence of attributes, in order.
pub open spec fn attributes_view(attributes: Seq<Attribute>) -> Seq<AttributeView> {
    Seq::new(attributes.len(), |i: int| attributes[i]@)
}

impl View for Declaration {
    type V = DeclarationView;

    open spec fn view(&self) -> DeclarationView
        decreases self,
    {
        match self {
            Declaration::Mod(item) => DeclarationView::Mod {
                ident: item.ident@,
                content: match item.content {
                    Some(body) => Some(declarations_view(body@)),
                    None => None,
                },
            },
            Declaration::Struct(item) => DeclarationView::Struct {
                ident: item.ident@,
                attrs: attributes_view(item.attrs@),
            },
            Declaration::Impl(item) => DeclarationView::Impl {
                trait_path: optional_path_view(item.trait_path),
                self_path: optional_path_view(item.self_path),
            },
            Declaration::Other => DeclarationView::Other,
        }
    }
}

/// The values of a sequence of declarations, in order.
pub open spec fn declarations_view(declarations: Seq<Declaration>) -> Seq<DeclarationView>
    decreases declarations,
{
    Seq::new(
        declarations.len(),
        |i: int| if 0 <= i < declarations.len() { declarations[i]@ } else { arbitrary() },
    )
}

} // verus!
