//! The state of a scan: which modules it has entered, and where it looks for
//! the files of their modules.

use crate::paths::{join, join_text};
use vstd::prelude::*;

verus! {

/// A module that a scan has entered.
#[derive(Debug, PartialEq, Eq)]
struct Entered {
    name: String,
    search_dir: String,
}

/// The state of a scan: the modules that it has entered and not left,
/// outermost first, each with its name and its search directory, above the
/// search directory of the package root.
#[derive(Debug, PartialEq, Eq)]
pub struct Context {
    root_dir: String,
    entered: Vec<Entered>,
}

/// The mathematical value of a [`Context`]: the stack of search directories,
/// with that of the package root at the bottom and one for each module
/// entered, and the stack of the names of those modules beside it.
pub struct ContextView {
    pub search_paths: Seq<Seq<char>>,
    pub module_names: Seq<Seq<char>>,
}

impl ContextView {
    /// The directory in which the files of modules are looked for: the top
    /// of the stack of search directories.
    pub open spec fn search_dir(self) -> Seq<char> {
        self.search_paths.last()
    }

    /// The state after the module `name` was entered with the search
    /// directory `dir`.
    pub open spec fn push(self, name: Seq<char>, dir: Seq<char>) -> ContextView {
        ContextView {
            search_paths: self.search_paths.push(dir),
            module_names: self.module_names.push(name),
        }
    }

    /// The state after the innermost module was left.
    pub open spec fn pop(self) -> ContextView {
        ContextView {
            search_paths: self.search_paths.drop_last(),
            module_names: self.module_names.drop_last(),
        }
    }
}

impl View for Context {
    type V = ContextView;

    closed spec fn view(&self) -> ContextView {
        ContextView {
            search_paths: seq![self.root_dir@] + Seq::new(
                self.entered.len() as nat,
                |i: int| self.entered[i].search_dir@,
            ),
            module_names: Seq::new(self.entered.len() as nat, |i: int| self.entered[i].name@),
        }
    }
}

impl Context {
    /// The state at the start of a scan that looks for files in `dir`: the
    /// stack of search directories holds `dir` alone, and no module is entered.
    pub fn new(dir: String) -> (ctx: Context)
        ensures
            ctx@ == (ContextView { search_paths: seq![dir@], module_names: Seq::empty() }),
    {
        let ctx = Context { root_dir: dir, entered: Vec::new() };
        assert(ctx@.search_paths =~= seq![dir@]);
        assert(ctx@.module_names =~= Seq::<Seq<char>>::empty());
        ctx
    }

    /// There is a search directory for the root and one for each module
    /// entered.
    pub proof fn lemma_stacks_are_parallel(&self)
        ensures
            self@.search_paths.len() == self@.module_names.len() + 1,
    {
    }

    /// The directory in which the files of modules are looked for.
    pub fn search_dir(&self) -> (dir: &String)
        ensures
            dir@ == self@.search_dir(),
    {
        if self.entered.len() == 0 {
            &self.root_dir
        } else {
            &self.entered[self.entered.len() - 1].search_dir
        }
    }

    /// How many modules are entered.
    pub fn depth(&self) -> (depth: usize)
        ensures
            depth == self@.module_names.len(),
    {
        self.entered.len()
    }

    /// Enters the module `name`. The files of its modules are looked for in
    /// the directory `name` under the current one if `descend` is set, and
    /// in the current one otherwise.
    pub fn push_mod(&mut self, name: &str, descend: bool)
        ensures
            final(self)@ == old(self)@.push(
                name@,
                if descend {
                    join(old(self)@.search_dir(), name@)
                } else {
                    old(self)@.search_dir()
                },
            ),
    {
        let top = self.search_dir();
        let search_dir = if descend {
            join_text(top.as_str(), name)
        } else {
            top.clone()
        };
        self.entered.push(Entered { name: name.to_owned(), search_dir });
        proof {
            assert(self@.module_names =~= old(self)@.module_names.push(name@));
            assert(self@.search_paths =~= old(self)@.search_paths.push(search_dir@));
        }
    }

    /// Leaves the module that was entered last, if there is one.
    pub fn pop_mod(&mut self)
        ensures
            final(self)@ == if old(self)@.module_names.len() > 0 {
                old(self)@.pop()
            } else {
                old(self)@
            },
    {
        if self.entered.len() > 0 {
            self.entered.pop();
            proof {
                assert(self@.module_names =~= old(self)@.module_names.drop_last());
                assert(self@.search_paths =~= old(self)@.search_paths.drop_last());
            }
        }
    }
}

} // verus!
