//! The entry file of a package, from the outcome of reading its manifest.

use crate::cargo::manifest::{resolved_entry, Manifest};
use crate::errors::{Error, ErrorView};
use vstd::prelude::*;

verus! {

/// The entry file of the package `crate_name`, from the outcome of reading
/// its manifest and from which of the two candidate entry files exist.
///
/// A manifest that could not be read or parsed fails with the error of that.
/// Otherwise the entry file is the one that [`Manifest::get_entry`] resolves.
/// Neither `crate_name` nor `bin_name` has a part in the choice.
pub fn entry_file(
    manifest: Result<Manifest, Error>,
    crate_name: &str,
    bin_name: Option<&str>,
    lib_exists: bool,
    main_exists: bool,
) -> (entry: Result<String, Error>)
    ensures
        match (manifest, entry) {
            (Ok(manifest), Ok(path)) => resolved_entry(
                manifest.path_view(),
                lib_exists,
                main_exists,
            ) == Some(path@),
            (Ok(manifest), Err(error)) => error@ == ErrorView::EntryNotFound && resolved_entry(
                manifest.path_view(),
                lib_exists,
                main_exists,
            ) is None,
            (Err(cause), Err(error)) => error@ == cause@,
            (Err(_), Ok(_)) => false,
        },
{
    match manifest {
        Ok(manifest) => manifest.get_entry(lib_exists, main_exists),
        Err(cause) => Err(cause),
    }
}

} // verus!
