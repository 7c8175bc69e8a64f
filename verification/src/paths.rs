//! Paths as text: their directories, their last components, and the places
//! where the file of a module can stand.

use crate::text::chars_of;
use vstd::prelude::*;

verus! {

/// The position of the last `/` in `path`, or -1 where there is none.
pub open spec fn last_slash(path: Seq<char>) -> int
    decreases path.len(),
{
    if path.len() == 0 {
        -1
    } else if path.last() == '/' {
        path.len() - 1
    } else {
        last_slash(path.drop_last())
    }
}

/// The last component of `path`: what follows its last `/`.
pub open spec fn file_name(path: Seq<char>) -> Seq<char> {
    path.subrange(last_slash(path) + 1, path.len() as int)
}

/// The directory of `path`: what stands before its last `/`, or `.` where it
/// has none.
pub open spec fn parent(path: Seq<char>) -> Seq<char> {
    if last_slash(path) < 0 {
        seq!['.']
    } else {
        path.subrange(0, last_slash(path))
    }
}

/// The path of `name` in the directory `dir`.
pub open spec fn join(dir: Seq<char>, name: Seq<char>) -> Seq<char> {
    dir + seq!['/'] + name
}

/// The file of the module `ident` beside the files of `dir`.
pub open spec fn module_file(dir: Seq<char>, ident: Seq<char>) -> Seq<char> {
    join(dir, ident) + seq!['.', 'r', 's']
}

/// The file of the module `ident` in a directory of its own under `dir`.
pub open spec fn module_dir_file(dir: Seq<char>, ident: Seq<char>) -> Seq<char> {
    join(join(dir, ident), seq!['m', 'o', 'd', '.', 'r', 's'])
}

/// Splits `path` at its last `/` into its directory and its last component.
pub fn split_at_last_slash(path: &str) -> (parts: (String, String))
    ensures
        parts.0@ == parent(path@),
        parts.1@ == file_name(path@),
{
    let chars = chars_of(path);
    let n = chars.len();
    let mut end: usize = n;
    assert(path@.subrange(0, n as int) =~= path@);
    while end > 0 && chars[end - 1] != '/'
        invariant
            end <= n,
            chars@ == path@,
            n == path@.len(),
            last_slash(path@) == last_slash(path@.subrange(0, end as int)),
        decreases end,
    {
        assert(path@.subrange(0, end as int).drop_last() =~= path@.subrange(0, end - 1));
        end -= 1;
    }
    if end == 0 {
        proof {
            reveal_strlit(".");
            assert("."@ =~= seq!['.']);
        }
        (".".to_owned(), path.to_owned())
    } else {
        (path.substring_char(0, end - 1).to_owned(), path.substring_char(end, n).to_owned())
    }
}

/// `dir/name`.
pub fn join_text(dir: &str, name: &str) -> (path: String)
    ensures
        path@ == join(dir@, name@),
{
    let mut path = dir.to_owned();
    path.push('/');
    path.append(name);
    path
}

/// `dir/ident.rs`.
pub fn module_file_text(dir: &str, ident: &str) -> (path: String)
    ensures
        path@ == module_file(dir@, ident@),
{
    let mut path = join_text(dir, ident);
    proof {
        reveal_strlit(".rs");
        assert(".rs"@ =~= seq!['.', 'r', 's']);
    }
    path.append(".rs");
    path
}

/// `dir/ident/mod.rs`.
pub fn module_dir_file_text(dir: &str, ident: &str) -> (path: String)
    ensures
        path@ == module_dir_file(dir@, ident@),
{
    let below = join_text(dir, ident);
    proof {
        reveal_strlit("mod.rs");
        assert("mod.rs"@ =~= seq!['m', 'o', 'd', '.', 'r', 's']);
    }
    join_text(below.as_str(), "mod.rs")
}

} // verus!
