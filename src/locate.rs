//! Finding a binary in an unpacked archive whose layout is not known in advance.
//!
//! The search is a depth-first walk over an explicit worklist of directories:
//! the caller lists each directory that `next_dir` hands out and passes the
//! listing to `visit`, until a match is found or the worklist runs dry.

use vstd::prelude::*;
use crate::error::AcquireError;

verus! {

/// One entry of a directory listing.
#[derive(Debug, Clone)]
pub struct DirEntry {
    pub name: String,
    pub is_file: bool,
    pub is_dir: bool,
}

/// The path of `name` inside `dir`.
pub open spec fn join_path(dir: Seq<char>, name: Seq<char>) -> Seq<char> {
    dir + "/"@ + name
}

pub fn join(dir: &str, name: &str) -> (r: String)
    ensures
        r@ == join_path(dir@, name@),
{
    String::from_str(dir).concat("/").concat(name)
}

/// Entry `i` is the first file of the listing named `name`.
pub open spec fn first_file_named(entries: Seq<DirEntry>, name: Seq<char>, i: int) -> bool {
    &&& 0 <= i < entries.len()
    &&& entries[i].is_file && entries[i].name@ == name
    &&& forall|j: int| 0 <= j < i ==> !(entries[j].is_file && entries[j].name@ == name)
}

pub open spec fn has_file_named(entries: Seq<DirEntry>, name: Seq<char>) -> bool {
    exists|i: int| first_file_named(entries, name, i)
}

/// The paths of the subdirectories of a listing of `dir`, in listing order.
pub open spec fn subdirs(dir: Seq<char>, entries: Seq<DirEntry>) -> Seq<Seq<char>>
    decreases entries.len(),
{
    if entries.len() == 0 {
        Seq::empty()
    } else {
        let rest = subdirs(dir, entries.drop_last());
        if entries.last().is_dir {
            rest.push(join_path(dir, entries.last().name@))
        } else {
            rest
        }
    }
}

/// A depth-first search for a file of an exact name.
pub struct Locator {
    root: String,
    target: String,
    pending: Vec<String>,
}

impl Locator {
    /// The directories still to list, the last one next.
    pub closed spec fn pending(&self) -> Seq<Seq<char>> {
        self.pending@.map_values(|s: String| s@)
    }

    pub closed spec fn target(&self) -> Seq<char> {
        self.target@
    }

    pub closed spec fn root(&self) -> Seq<char> {
        self.root@
    }

    /// A search for a file named `target` under `root`.
    pub fn new(root: &str, target: &str) -> (r: Locator)
        ensures
            r.pending() == seq![root@],
            r.target() == target@,
            r.root() == root@,
    {
        let mut pending: Vec<String> = Vec::new();
        pending.push(String::from_str(root));
        let r = Locator { root: String::from_str(root), target: String::from_str(target), pending };
        assert(r.pending() =~= seq![root@]);
        r
    }

    /// The next directory to list, taken off the worklist; `None` once the
    /// whole tree has been listed.
    pub fn next_dir(&mut self) -> (r: Option<String>)
        ensures
            final(self).target() == old(self).target(),
            final(self).root() == old(self).root(),
            old(self).pending().len() == 0 ==> r is None && final(self).pending() == old(
                self,
            ).pending(),
            old(self).pending().len() > 0 ==> (r matches Some(d) && d@ == old(
                self,
            ).pending().last() && final(self).pending() == old(self).pending().drop_last()),
    {
        let r = self.pending.pop();
        assert(self.pending() =~= old(self).pending().take(self.pending@.len() as int));
        r
    }

    /// Takes the listing of `dir`. Gives the path of the first file named as the
    /// target, if there is one; otherwise puts every subdirectory on the worklist.
    pub fn visit(&mut self, dir: &str, entries: &Vec<DirEntry>) -> (r: Option<String>)
        ensures
            final(self).target() == old(self).target(),
            final(self).root() == old(self).root(),
            r is Some <==> has_file_named(entries@, old(self).target()),
            r matches Some(p) ==> exists|i: int|
                first_file_named(entries@, old(self).target(), i) && p@ == join_path(
                    dir@,
                    entries@[i].name@,
                ),
            r matches Some(_) ==> final(self).pending() == old(self).pending(),
            r is None ==> final(self).pending() == old(self).pending() + subdirs(dir@, entries@),
    {
        let mut i: usize = 0;
        while i < entries.len()
            invariant
                i <= entries@.len(),
                forall|j: int|
                    0 <= j < i ==> !(entries@[j].is_file && entries@[j].name@ == self.target@),
            decreases entries@.len() - i,
        {
            if entries[i].is_file && entries[i].name == self.target {
                let p = join(dir, entries[i].name.as_str());
                assert(first_file_named(entries@, self.target@, i as int) && p@ == join_path(
                    dir@,
                    entries@[i as int].name@,
                ));
                return Some(p);
            }
            i = i + 1;
        }
        assert(!has_file_named(entries@, self.target@));
        let ghost start = self.pending();
        let mut k: usize = 0;
        while k < entries.len()
            invariant
                k <= entries@.len(),
                self.target == old(self).target,
                self.root == old(self).root,
                self.pending() == start + subdirs(dir@, entries@.take(k as int)),
            decreases entries@.len() - k,
        {
            assert(entries@.take(k + 1).drop_last() =~= entries@.take(k as int));
            assert(entries@.take(k + 1).last() == entries@[k as int]);
            if entries[k].is_dir {
                let p = join(dir, entries[k].name.as_str());
                let ghost before = self.pending();
                self.pending.push(p);
                assert(self.pending() =~= before.push(p@));
                assert(self.pending() =~= start + subdirs(dir@, entries@.take(k + 1)));
            }
            k = k + 1;
        }
        assert(entries@.take(k as int) =~= entries@);
        None
    }

    /// The failure once the worklist has run dry.
    pub fn not_found(&self) -> (r: AcquireError)
        ensures
            r matches AcquireError::BinaryNotFoundAfterExtraction { name, root } && name@
                == self.target() && root@ == self.root(),
    {
        AcquireError::BinaryNotFoundAfterExtraction {
            name: self.target.clone(),
            root: self.root.clone(),
        }
    }
}

} // verus!
