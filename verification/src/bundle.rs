//! The workstation bundle: a manifest and its dotfiles extracted under one
//! directory.

use vstd::prelude::*;
use crate::paths::{join_path, path_join};

verus! {

/// A temporary extraction of the embedded manifest and dotfiles.
#[derive(Debug, Clone, PartialEq, Eq)]
pub struct ExtractedBundle {
    root: String,
}

impl View for ExtractedBundle {
    type V = Seq<char>;

    /// The directory that the bundle was extracted under.
    closed spec fn view(&self) -> Seq<char> {
        self.root@
    }
}

impl ExtractedBundle {
    /// The bundle extracted under the directory `root`.
    pub fn at(root: String) -> (b: Self)
        ensures
            b@ == root@,
    {
        ExtractedBundle { root }
    }

    /// Returns the directory that the bundle was extracted under.
    pub fn root(&self) -> (r: &str)
        ensures
            r@ == self@,
    {
        self.root.as_str()
    }

    /// Returns the extracted manifest path.
    pub fn manifest_path(&self) -> (p: String)
        ensures
            p@ == path_join(self@, "replica.toml"@),
    {
        join_path(self.root.as_str(), "replica.toml")
    }
}

} // verus!
