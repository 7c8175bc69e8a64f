//! The types that implement a capability.

use crate::text::{join_path, join_path_text, split_path, split_path_text, strings_view};
use vstd::prelude::*;
use vstd::std_specs::convert::FromSpecImpl;

verus! {

/// A type that implements a capability: its name and the path of the module
/// that declares it.
#[derive(Debug, PartialEq, Eq)]
pub struct Implementer {
    pub name: String,
    pub path: String,
}

/// The mathematical value of an [`Implementer`].
pub struct ImplementerView {
    pub name: Seq<char>,
    pub path: Seq<char>,
}

impl View for Implementer {
    type V = ImplementerView;

    open spec fn view(&self) -> ImplementerView {
        ImplementerView { name: self.name@, path: self.path@ }
    }
}

/// The values of a sequence of implementers, in order.
pub open spec fn implementers_view(implementers: Seq<Implementer>) -> Seq<ImplementerView> {
    Seq::new(implementers.len(), |i: int| implementers[i]@)
}

/// The implementer that a qualified name such as `crate::shapes::Circle`
/// stands for: the last segment is its name, what stands before the last
/// `::` its path.
pub open spec fn qualified_implementer(value: Seq<char>) -> ImplementerView {
    let segments = split_path(value);
    ImplementerView { name: segments.last(), path: join_path(segments.drop_last()) }
}

impl From<&str> for Implementer {
    fn from(value: &str) -> (implementer: Implementer)
        ensures
            implementer@ == qualified_implementer(value@),
    {
        let mut segments = split_path_text(value);
        let ghost all = strings_view(segments@);
        let name = match segments.pop() {
            Some(name) => name,
            None => String::new(),
        };
        proof {
            assert(strings_view(segments@) =~= all.drop_last());
        }
        let path = join_path_text(&segments);
        Implementer { name, path }
    }
}

/// Two implementers of the same texts need not be the same value, so the
/// conversion is stated over views, on `from` itself.
impl FromSpecImpl<&str> for Implementer {
    open spec fn obeys_from_spec() -> bool {
        false
    }

    open spec fn from_spec(value: &str) -> Implementer {
        arbitrary()
    }
}

} // verus!
