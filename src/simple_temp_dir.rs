//! Naming of the staging directories that downloads are unpacked into.
//!
//! A staging directory sits in the working directory under a name made of a
//! prefix and a suffix unique to the attempt (the time in nanoseconds). Making
//! and removing it is the caller's part.

use vstd::prelude::*;
use crate::locate::{join, join_path};

verus! {

pub struct SimpleTempDir {
    path: String,
}

impl SimpleTempDir {
    pub closed spec fn view(&self) -> Seq<char> {
        self.path@
    }

    /// The staging directory `prefix` + `unique` inside `base`.
    pub fn new(base: &str, prefix: &str, unique: &str) -> (r: SimpleTempDir)
        ensures
            r.view() == join_path(base@, prefix@ + unique@),
    {
        let name = String::from_str(prefix).concat(unique);
        SimpleTempDir { path: join(base, name.as_str()) }
    }

    pub fn path(&self) -> (r: &str)
        ensures
            r@ == self.view(),
    {
        self.path.as_str()
    }
}

} // verus!
