//! What the completion reads of the file system, handed to it as plain values.

use vstd::prelude::*;
use crate::text::{chars_of, same_chars};

verus! {

/// An entry of a directory: its name, whether it is a file or a directory (symbolic
/// links followed), and its permission bits where they could be read (of the entry
/// itself, links not followed).
pub struct FileEntry {
    pub name: String,
    pub is_file: bool,
    pub is_dir: bool,
    pub mode: Option<u32>,
}

/// A directory that could be read, and its entries in the order the system gave.
pub struct DirListing {
    pub dir: String,
    pub entries: Vec<FileEntry>,
}

/// The directories that could be read; one that is missing could not.
pub struct FsView {
    pub dirs: Vec<DirListing>,
}

/// The entries of the directory named `d`, by the first listing of that name;
/// nothing where it could not be read.
pub open spec fn listing(dirs: Seq<DirListing>, d: Seq<char>) -> Option<Seq<FileEntry>>
    decreases dirs.len(),
{
    if dirs.len() == 0 {
        None
    } else if dirs[0].dir@ == d {
        Some(dirs[0].entries@)
    } else {
        listing(dirs.drop_first(), d)
    }
}

impl FsView {
    /// No directory readable.
    pub fn new() -> (r: FsView)
        ensures
            r.dirs@.len() == 0,
    {
        FsView { dirs: Vec::new() }
    }

    /// Records the entries of a directory.
    pub fn add(&mut self, dir: String, entries: Vec<FileEntry>)
        ensures
            final(self).dirs@ == old(self).dirs@.push(DirListing { dir, entries }),
    {
        self.dirs.push(DirListing { dir, entries });
    }

    /// The position of the listing of the directory `d`, if it could be read.
    pub fn find(&self, d: &Vec<char>) -> (r: Option<usize>)
        ensures
            match r {
                Some(k) => k < self.dirs@.len() && listing(self.dirs@, d@) == Some(
                    self.dirs@[k as int].entries@,
                ),
                None => listing(self.dirs@, d@) is None,
            },
    {
        let mut k: usize = 0;
        assert(self.dirs@.skip(0) =~= self.dirs@);
        while k < self.dirs.len()
            invariant
                k <= self.dirs@.len(),
                listing(self.dirs@, d@) == listing(self.dirs@.skip(k as int), d@),
            decreases self.dirs@.len() - k,
        {
            let ghost rest = self.dirs@.skip(k as int);
            assert(rest[0] == self.dirs@[k as int]);
            let name = chars_of(self.dirs[k].dir.as_str());
            if same_chars(&name, d) {
                return Some(k);
            }
            assert(rest.drop_first() =~= self.dirs@.skip(k + 1));
            k = k + 1;
        }
        None
    }
}

} // verus!
