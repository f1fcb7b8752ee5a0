//! A model of the contents of the watched directory trees.
//!
//! The filesystem is the only shared resource of the pipeline, and it is
//! mutated by an external, partially observable actor as well. The state
//! machine of location transitions is therefore stated and verified over
//! this explicit model: a finite map from full paths to content tags.
//! The surrounding process mirrors every step on the real filesystem with
//! the same exclusive-create-then-move discipline.

use vstd::prelude::*;

verus! {

/// The content tag of a freshly reserved, still empty destination.
pub const PLACEHOLDER: u64 = 0;

/// One file: its full path and an opaque tag standing for its content.
pub struct FsEntry {
    pub path: String,
    pub content: u64,
}

/// The files of the modelled tree. Abstractly a map from full paths to
/// content tags; directories are implicit.
pub struct FsState {
    entries: Vec<FsEntry>,
}

impl FsState {
    /// The map a sequence of entries denotes: later entries win, though a
    /// well-formed state never repeats a path.
    pub open spec fn map_of(s: Seq<FsEntry>) -> Map<Seq<char>, u64>
        decreases s.len(),
    {
        if s.len() == 0 {
            Map::empty()
        } else {
            Self::map_of(s.drop_last()).insert(s.last().path@, s.last().content)
        }
    }

    /// No path occurs twice.
    pub open spec fn paths_unique(s: Seq<FsEntry>) -> bool {
        forall|i: int, j: int| 0 <= i < j < s.len() ==> s[i].path@ != s[j].path@
    }

    /// The files as a map from full paths to content tags.
    pub closed spec fn view(&self) -> Map<Seq<char>, u64> {
        Self::map_of(self.entries@)
    }

    /// Well-formedness: every path is recorded at most once.
    pub closed spec fn wf(&self) -> bool {
        Self::paths_unique(self.entries@)
    }

    proof fn lemma_contains(s: Seq<FsEntry>, p: Seq<char>)
        ensures
            Self::map_of(s).contains_key(p) <==> (exists|i: int|
                0 <= i < s.len() && s[i].path@ == p),
        decreases s.len(),
    {
        if s.len() > 0 {
            Self::lemma_contains(s.drop_last(), p);
            if s.last().path@ == p {
                assert(s[s.len() - 1].path@ == p);
            } else {
                if exists|i: int| 0 <= i < s.len() && s[i].path@ == p {
                    let i = choose|i: int| 0 <= i < s.len() && s[i].path@ == p;
                    assert(i < s.len() - 1);
                    assert(s.drop_last()[i].path@ == p);
                }
            }
        }
    }

    proof fn lemma_value(s: Seq<FsEntry>, i: int)
        requires
            Self::paths_unique(s),
            0 <= i < s.len(),
        ensures
            Self::map_of(s).contains_key(s[i].path@),
            Self::map_of(s)[s[i].path@] == s[i].content,
        decreases s.len(),
    {
        if i == s.len() - 1 {
        } else {
            Self::lemma_value(s.drop_last(), i);
            assert(s.drop_last()[i] == s[i]);
            assert(s[i].path@ != s.last().path@);
        }
    }

    proof fn lemma_push(s: Seq<FsEntry>, e: FsEntry)
        ensures
            Self::map_of(s.push(e)) == Self::map_of(s).insert(e.path@, e.content),
    {
        assert(s.push(e).drop_last() =~= s);
        assert(s.push(e).last() == e);
    }

    proof fn lemma_remove(s: Seq<FsEntry>, i: int)
        requires
            Self::paths_unique(s),
            0 <= i < s.len(),
        ensures
            Self::map_of(s.remove(i)) =~= Self::map_of(s).remove(s[i].path@),
        decreases s.len(),
    {
        let k = s[i].path@;
        if i == s.len() - 1 {
            assert(s.remove(i) =~= s.drop_last());
            Self::lemma_contains(s.drop_last(), k);
            assert(forall|j: int| 0 <= j < s.len() - 1 ==> s.drop_last()[j].path@ != k);
            assert(!Self::map_of(s.drop_last()).contains_key(k));
            assert(Self::map_of(s.drop_last()).insert(k, s[i].content).remove(k) =~= Self::map_of(
                s.drop_last(),
            ).remove(k));
            assert(Self::map_of(s.drop_last()).remove(k) =~= Self::map_of(s.drop_last()));
        } else {
            let dl = s.drop_last();
            assert(Self::paths_unique(dl));
            Self::lemma_remove(dl, i);
            assert(s.remove(i).drop_last() =~= dl.remove(i));
            assert(s.remove(i).last() == s.last());
            assert(s.remove(i).len() == s.len() - 1);
            assert(Self::map_of(s.remove(i)) == Self::map_of(dl.remove(i)).insert(
                s.last().path@,
                s.last().content,
            ));
            assert(k != s.last().path@);
        }
    }

    /// An empty tree.
    pub fn new() -> (r: FsState)
        ensures
            r.wf(),
            r@ =~= Map::<Seq<char>, u64>::empty(),
    {
        FsState { entries: Vec::new() }
    }

    fn find_index(&self, path: &String) -> (r: Option<usize>)
        ensures
            match r {
                Some(i) => i < self.entries@.len() && self.entries@[i as int].path@ == path@,
                None => forall|j: int|
                    0 <= j < self.entries@.len() ==> self.entries@[j].path@ != path@,
            },
    {
        let mut i: usize = 0;
        while i < self.entries.len()
            invariant
                i <= self.entries@.len(),
                forall|j: int| 0 <= j < i ==> self.entries@[j].path@ != path@,
            decreases self.entries@.len() - i,
        {
            if self.entries[i].path == *path {
                return Some(i);
            }
            i = i + 1;
        }
        None
    }

    /// Whether a file exists at the given path.
    pub fn exists_file(&self, path: &String) -> (r: bool)
        ensures
            r == self@.contains_key(path@),
    {
        proof {
            Self::lemma_contains(self.entries@, path@);
        }
        self.find_index(path).is_some()
    }

    /// The content tag recorded at a path, if the file exists.
    pub fn content_of(&self, path: &String) -> (r: Option<u64>)
        requires
            self.wf(),
        ensures
            r == if self@.contains_key(path@) {
                Some(self@[path@])
            } else {
                None::<u64>
            },
    {
        proof {
            Self::lemma_contains(self.entries@, path@);
        }
        match self.find_index(path) {
            Some(i) => {
                proof {
                    Self::lemma_value(self.entries@, i as int);
                }
                Some(self.entries[i].content)
            },
            None => None,
        }
    }

    /// Exclusive creation: succeeds only where no file exists yet, the
    /// discipline every destination reservation uses.
    pub fn create_new(&mut self, path: String, content: u64) -> (r: bool)
        requires
            old(self).wf(),
        ensures
            final(self).wf(),
            r == !old(self)@.contains_key(path@),
            r ==> final(self)@ =~= old(self)@.insert(path@, content),
            !r ==> final(self)@ == old(self)@ && *final(self) == *old(self),
    {
        proof {
            Self::lemma_contains(self.entries@, path@);
        }
        match self.find_index(&path) {
            Some(_) => false,
            None => {
                let ghost s = self.entries@;
                let e = FsEntry { path, content };
                proof {
                    Self::lemma_push(s, e);
                }
                self.entries.push(e);
                true
            },
        }
    }

    /// Removal; reports whether a file was there.
    pub fn remove_file(&mut self, path: &String) -> (r: bool)
        requires
            old(self).wf(),
        ensures
            final(self).wf(),
            r == old(self)@.contains_key(path@),
            final(self)@ =~= old(self)@.remove(path@),
    {
        proof {
            Self::lemma_contains(self.entries@, path@);
        }
        match self.find_index(path) {
            Some(i) => {
                proof {
                    Self::lemma_remove(self.entries@, i as int);
                }
                self.entries.remove(i);
                proof {
                    assert(Self::paths_unique(self.entries@));
                }
                true
            },
            None => {
                proof {
                    assert(!self@.contains_key(path@));
                    assert(self@.remove(path@) =~= self@);
                }
                false
            },
        }
    }

    /// A plain move, as the operating system performs it: fails only where
    /// the source is missing, silently replaces any destination.
    pub fn rename_file(&mut self, from: &String, to: &String) -> (r: bool)
        requires
            old(self).wf(),
        ensures
            final(self).wf(),
            r == old(self)@.contains_key(from@),
            r ==> final(self)@ =~= old(self)@.remove(from@).insert(to@, old(self)@[from@]),
            !r ==> final(self)@ == old(self)@ && *final(self) == *old(self),
    {
        proof {
            Self::lemma_contains(self.entries@, from@);
        }
        match self.find_index(from) {
            Some(i) => {
                proof {
                    Self::lemma_value(self.entries@, i as int);
                    Self::lemma_remove(self.entries@, i as int);
                }
                let content = self.entries[i].content;
                self.entries.remove(i);
                let _ = self.remove_file(to);
                let created = self.create_new(to.clone(), content);
                proof {
                    assert(created);
                }
                true
            },
            None => false,
        }
    }

    /// Writing content at a path, creating the file where none exists.
    pub fn write_file(&mut self, path: &String, content: u64) -> (r: bool)
        requires
            old(self).wf(),
        ensures
            final(self).wf(),
            r == old(self)@.contains_key(path@),
            final(self)@ =~= old(self)@.insert(path@, content),
    {
        let existed = self.remove_file(path);
        let created = self.create_new(path.clone(), content);
        proof {
            assert(created);
        }
        existed
    }
}

} // verus!
