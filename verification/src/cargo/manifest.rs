//! The manifest of a package and the entry file it leads to.

use crate::errors::{Error, ErrorView};
use crate::paths::{join, join_text, parent, split_at_last_slash};
use vstd::prelude::*;

verus! {

/// The `[package]` table of a manifest.
#[derive(Debug, PartialEq, Eq)]
pub struct Package {
    name: String,
}

/// What is read from a manifest.
#[derive(Debug, PartialEq, Eq)]
pub struct ManifestData {
    package: Option<Package>,
}

/// A manifest and the path of its file.
#[derive(Debug, PartialEq, Eq)]
pub struct Manifest {
    data: ManifestData,
    path: String,
}

impl Package {
    /// The package table that names the package `name`.
    pub fn new(name: String) -> (package: Package)
        ensures
            package.name_view() == name@,
    {
        Package { name }
    }

    /// The name of the package.
    pub closed spec fn name_view(&self) -> Seq<char> {
        self.name@
    }

    /// The name of the package.
    pub fn name(&self) -> (name: &String)
        ensures
            name@ == self.name_view(),
    {
        &self.name
    }
}

impl ManifestData {
    /// The manifest with this `[package]` table, or without one.
    pub fn new(package: Option<Package>) -> (data: ManifestData)
        ensures
            data.package_view() == package,
    {
        ManifestData { package }
    }

    /// The `[package]` table, if the manifest has one.
    pub closed spec fn package_view(&self) -> Option<Package> {
        self.package
    }

    /// The `[package]` table, if the manifest has one.
    pub fn package(&self) -> (package: &Option<Package>)
        ensures
            *package == self.package_view(),
    {
        &self.package
    }
}

/// The library entry file of the package whose manifest is at `manifest`.
pub open spec fn lib_entry(manifest: Seq<char>) -> Seq<char> {
    join(parent(manifest), "src/lib.rs"@)
}

/// The binary entry file of the package whose manifest is at `manifest`.
pub open spec fn main_entry(manifest: Seq<char>) -> Seq<char> {
    join(parent(manifest), "src/main.rs"@)
}

/// The entry file of the package whose manifest is at `manifest`: the
/// library entry file if it exists, else the binary entry file if it exists.
pub open spec fn resolved_entry(manifest: Seq<char>, lib_exists: bool, main_exists: bool) -> Option<
    Seq<char>,
> {
    if lib_exists {
        Some(lib_entry(manifest))
    } else if main_exists {
        Some(main_entry(manifest))
    } else {
        None
    }
}

impl Manifest {
    /// The manifest read from the file at `path`.
    pub fn new(data: ManifestData, path: String) -> (manifest: Manifest)
        ensures
            manifest.path_view() == path@,
            manifest.data_view() == data,
    {
        Manifest { data, path }
    }

    /// The path of the manifest file.
    pub closed spec fn path_view(&self) -> Seq<char> {
        self.path@
    }

    /// What was read from the manifest.
    pub closed spec fn data_view(&self) -> ManifestData {
        self.data
    }

    /// The path of the manifest file.
    pub fn path(&self) -> (path: &String)
        ensures
            path@ == self.path_view(),
    {
        &self.path
    }

    /// What was read from the manifest.
    pub fn data(&self) -> (data: &ManifestData)
        ensures
            *data == self.data_view(),
    {
        &self.data
    }

    /// Where the library entry file of the package would be.
    pub fn lib_entry(&self) -> (entry: String)
        ensures
            entry@ == lib_entry(self.path_view()),
    {
        let (dir, _) = split_at_last_slash(self.path.as_str());
        join_text(dir.as_str(), "src/lib.rs")
    }

    /// Where the binary entry file of the package would be.
    pub fn main_entry(&self) -> (entry: String)
        ensures
            entry@ == main_entry(self.path_view()),
    {
        let (dir, _) = split_at_last_slash(self.path.as_str());
        join_text(dir.as_str(), "src/main.rs")
    }

    /// The entry file of the package, given which of the two candidates
    /// exist: see [`resolved_entry`]. Fails with [`Error::EntryNotFound`]
    /// exactly if neither exists.
    pub fn get_entry(&self, lib_exists: bool, main_exists: bool) -> (entry: Result<String, Error>)
        ensures
            match entry {
                Ok(path) => resolved_entry(self.path_view(), lib_exists, main_exists) == Some(
                    path@,
                ),
                Err(error) => error@ == ErrorView::EntryNotFound && resolved_entry(
                    self.path_view(),
                    lib_exists,
                    main_exists,
                ) is None,
            },
    {
        if lib_exists {
            return Ok(self.lib_entry());
        }
        if main_exists {
            return Ok(self.main_entry());
        }
        Err(Error::EntryNotFound)
    }
}

} // verus!
