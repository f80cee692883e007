//! The message files the router reads, copies and deletes, as a table
//! from path to file bytes.
//!
//! The router's whole effect on the filesystem is expressed against
//! this table; the embedding program loads the message file into it
//! before routing and mirrors the table's changes (one file added in
//! an inbox, one removed from an outbox) back to disk afterwards.

use vstd::prelude::*;

use crate::kvmap::{
    entry_map, lemma_entry_map_contains, lemma_entry_map_index, lemma_entry_map_push,
    lemma_entry_map_remove, unique_keys,
};
use crate::strutil::str_eq;

verus! {

/// One file: its path and its bytes.
pub struct FileEntry {
    pub path: String,
    pub data: Vec<u8>,
}

/// Key of a file entry: its path.
pub open spec fn file_key() -> spec_fn(FileEntry) -> Seq<char> {
    |e: FileEntry| e.path@
}

/// Value of a file entry: its bytes.
pub open spec fn file_val() -> spec_fn(FileEntry) -> Seq<u8> {
    |e: FileEntry| e.data@
}

/// A table of files, keyed by path, each path at most once.
pub struct FileStore {
    entries: Vec<FileEntry>,
}

impl FileStore {
    /// The table: path to file bytes.
    pub closed spec fn files(&self) -> Map<Seq<char>, Seq<u8>> {
        entry_map(self.entries@, file_key(), file_val())
    }

    /// Well-formedness: no path occurs twice in the backing list.
    pub closed spec fn wf(&self) -> bool {
        unique_keys(self.entries@, file_key())
    }

    pub fn new() -> (r: FileStore)
        ensures
            r.wf(),
            r.files() == Map::<Seq<char>, Seq<u8>>::empty(),
    {
        FileStore { entries: Vec::new() }
    }

    fn find(&self, path: &str) -> (r: Option<usize>)
        ensures
            match r {
                Some(i) => i < self.entries@.len() && self.entries@[i as int].path@ == path@,
                None => forall|i: int|
                    0 <= i < self.entries@.len() ==> self.entries@[i].path@ != path@,
            },
    {
        let mut i: usize = 0;
        while i < self.entries.len()
            invariant
                i <= self.entries@.len(),
                forall|j: int| 0 <= j < i ==> self.entries@[j].path@ != path@,
            decreases self.entries@.len() - i,
        {
            if str_eq(self.entries[i].path.as_str(), path) {
                return Some(i);
            }
            i += 1;
        }
        None
    }

    /// The bytes at a path, if a file is there.
    pub fn read(&self, path: &str) -> (r: Option<&Vec<u8>>)
        requires
            self.wf(),
        ensures
            match r {
                Some(d) => self.files().contains_key(path@) && d@ == self.files()[path@],
                None => !self.files().contains_key(path@),
            },
    {
        proof {
            lemma_entry_map_contains(self.entries@, file_key(), file_val(), path@);
        }
        match self.find(path) {
            Some(i) => {
                proof {
                    lemma_entry_map_index(self.entries@, file_key(), file_val(), i as int);
                }
                Some(&self.entries[i].data)
            },
            None => None,
        }
    }

    /// Put bytes at a path, replacing any file already there.
    pub fn write(&mut self, path: &str, data: Vec<u8>)
        requires
            old(self).wf(),
        ensures
            final(self).wf(),
            final(self).files() == old(self).files().insert(path@, data@),
    {
        let ghost t0 = self.files();
        match self.find(path) {
            Some(i) => {
                proof {
                    lemma_entry_map_remove(self.entries@, file_key(), file_val(), i as int);
                }
                self.entries.remove(i);
            },
            None => {
                proof {
                    lemma_entry_map_contains(self.entries@, file_key(), file_val(), path@);
                    assert(self.files().remove(path@) =~= self.files());
                }
            },
        }
        proof {
            assert(self.files() == t0.remove(path@));
            lemma_entry_map_contains(self.entries@, file_key(), file_val(), path@);
        }
        let e = FileEntry { path: path.to_owned(), data };
        proof {
            lemma_entry_map_push(self.entries@, file_key(), file_val(), e);
        }
        self.entries.push(e);
        proof {
            assert(self.files() =~= t0.insert(path@, data@));
        }
    }

    /// Delete the file at a path; a no-op if none is there.
    pub fn remove(&mut self, path: &str)
        requires
            old(self).wf(),
        ensures
            final(self).wf(),
            final(self).files() == old(self).files().remove(path@),
    {
        match self.find(path) {
            Some(i) => {
                proof {
                    lemma_entry_map_remove(self.entries@, file_key(), file_val(), i as int);
                }
                self.entries.remove(i);
            },
            None => {
                proof {
                    lemma_entry_map_contains(self.entries@, file_key(), file_val(), path@);
                    assert(self.files().remove(path@) =~= self.files());
                }
            },
        }
    }
}

} // verus!
