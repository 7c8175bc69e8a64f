//! What is known of the source files of a package.

use crate::scanner::declaration::{declarations_view, Declaration, DeclarationView};
use crate::text::same_text;
use vstd::prelude::*;

verus! {

/// What is known of the file at one path.
#[derive(Debug, PartialEq, Eq)]
pub enum FileState {
    /// No file is there.
    Absent,
    /// A file is there and could not be read.
    Unreadable,
    /// A file is there and is not valid source text.
    Malformed,
    /// A file is there and holds these declarations.
    Source(Vec<Declaration>),
}

/// A path with what is known of the file there.
#[derive(Debug, PartialEq, Eq)]
pub struct SourceFile {
    pub path: String,
    pub state: FileState,
}

/// The files known so far. Where a path is entered more than once, the last
/// entry counts.
#[derive(Debug, PartialEq, Eq)]
pub struct SourceFiles {
    pub files: Vec<SourceFile>,
}

/// The mathematical value of a [`FileState`].
pub enum FileStateView {
    Absent,
    Unreadable,
    Malformed,
    Source(Seq<DeclarationView>),
}

/// The mathematical value of a [`SourceFile`].
pub struct SourceFileView {
    pub path: Seq<char>,
    pub state: FileStateView,
}

impl View for FileState {
    type V = FileStateView;

    open spec fn view(&self) -> FileStateView {
        match self {
            FileState::Absent => FileStateView::Absent,
            FileState::Unreadable => FileStateView::Unreadable,
            FileState::Malformed => FileStateView::Malformed,
            FileState::Source(declarations) => FileStateView::Source(
                declarations_view(declarations@),
            ),
        }
    }
}

impl View for SourceFile {
    type V = SourceFileView;

    open spec fn view(&self) -> SourceFileView {
        SourceFileView { path: self.path@, state: self.state@ }
    }
}

impl View for SourceFiles {
    type V = Seq<SourceFileView>;

    open spec fn view(&self) -> Seq<SourceFileView> {
        Seq::new(self.files.len() as nat, |i: int| self.files[i]@)
    }
}

/// What `files` know of the file at `path`, if anything.
pub open spec fn state_of(files: Seq<SourceFileView>, path: Seq<char>) -> Option<FileStateView>
    decreases files.len(),
{
    if files.len() == 0 {
        None
    } else if files.last().path == path {
        Some(files.last().state)
    } else {
        state_of(files.drop_last(), path)
    }
}

/// The length of the longest path among `files`.
pub open spec fn longest_path(files: Seq<SourceFileView>) -> nat
    decreases files.len(),
{
    if files.len() == 0 {
        0
    } else if files.last().path.len() > longest_path(files.drop_last()) {
        files.last().path.len()
    } else {
        longest_path(files.drop_last())
    }
}

/// A path that `files` know of is no longer than their longest.
pub proof fn lemma_known_path_is_bounded(files: Seq<SourceFileView>, path: Seq<char>)
    requires
        state_of(files, path) is Some,
    ensures
        path.len() <= longest_path(files),
    decreases files.len(),
{
    if files.len() > 0 && files.last().path != path {
        lemma_known_path_is_bounded(files.drop_last(), path);
    }
}

impl SourceFiles {
    /// Nothing known yet.
    pub fn new() -> (sources: SourceFiles)
        ensures
            sources@ == Seq::<SourceFileView>::empty(),
    {
        let sources = SourceFiles { files: Vec::new() };
        assert(sources@ =~= Seq::<SourceFileView>::empty());
        sources
    }

    /// Enters what was found at `path`.
    pub fn insert(&mut self, path: String, state: FileState)
        ensures
            final(self)@ == old(self)@.push(SourceFileView { path: path@, state: state@ }),
    {
        self.files.push(SourceFile { path, state });
        assert(self@ =~= old(self)@.push(SourceFileView { path: path@, state: state@ }));
    }

    /// What is known of the file at `path`.
    pub fn get(&self, path: &str) -> (state: Option<&FileState>)
        ensures
            match state {
                Some(known) => state_of(self@, path@) == Some(known@),
                None => state_of(self@, path@) is None,
            },
    {
        let mut i: usize = self.files.len();
        assert(self@.take(i as int) =~= self@);
        while i > 0
            invariant
                i <= self.files.len(),
                state_of(self@, path@) == state_of(self@.take(i as int), path@),
            decreases i,
        {
            assert(self@.take(i as int).drop_last() =~= self@.take(i - 1));
            i -= 1;
            if same_text(self.files[i].path.as_str(), path) {
                return Some(&self.files[i].state);
            }
        }
        None
    }
}

} // verus!
