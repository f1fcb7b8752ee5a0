//! One tracked file: its identity (root paths, original filename) and its
//! current location, with the guarded transition between locations.
//!
//! A file is adopted only when its name collides with no entry in any
//! location other than the inbox, and it changes location only through
//! [`FileObject::rename`], whose move is atomic or a no-op.

use vstd::prelude::*;

use crate::error::Error;
use crate::fs_state::FsState;
use crate::fs_state::PLACEHOLDER;
use crate::paths::Location;
use crate::paths::Paths;
use crate::paths::path_join;
use crate::util::MoveOutcome;
use crate::util::has_char_from;
use crate::util::join_path;
use crate::util::make_unique_path;
use crate::util::move_file;
use crate::util::normalized_filename;
use crate::util::disambiguated_filename;

verus! {

/// `i` is the last occurrence of `c` in `s`.
pub open spec fn last_at(s: Seq<char>, c: char, i: int) -> bool {
    &&& 0 <= i < s.len()
    &&& s[i] == c
    &&& forall|j: int| i < j < s.len() ==> s[j] != c
}

/// The filename component of a path: everything after the last separator,
/// the whole path where there is none.
pub open spec fn spec_file_name(p: Seq<char>) -> Seq<char> {
    if exists|i: int| last_at(p, '/', i) {
        p.subrange((choose|i: int| last_at(p, '/', i)) + 1, p.len() as int)
    } else {
        p
    }
}

/// A found last occurrence is the one the specification's `choose` denotes.
pub proof fn lemma_last_at_unique(s: Seq<char>, c: char, i: int)
    requires
        last_at(s, c, i),
    ensures
        (choose|w: int| last_at(s, c, w)) == i,
{
    let w = choose|w: int| last_at(s, c, w);
    if w != i {
        if w < i {
            assert(s[i] != c);
        } else {
            assert(s[w] != c);
        }
    }
}

/// The filename component of a path never holds a separator.
pub proof fn lemma_file_name_no_slash(p: Seq<char>)
    ensures
        crate::paths::no_slash(spec_file_name(p)),
{
    if exists|i: int| last_at(p, '/', i) {
        let i = choose|i: int| last_at(p, '/', i);
    } else {
        assert forall|k: int| 0 <= k < p.len() implies p[k] != '/' by {
            if p[k] == '/' {
                lemma_exists_last(p, '/', k);
                let i = choose|i: int| last_at(p, '/', i);
            }
        }
    }
}

/// Any occurrence of a character implies a last occurrence.
proof fn lemma_exists_last(s: Seq<char>, c: char, k: int)
    requires
        0 <= k < s.len(),
        s[k] == c,
    ensures
        exists|i: int| last_at(s, c, i),
    decreases s.len() - k,
{
    if forall|j: int| k < j < s.len() ==> s[j] != c {
        assert(last_at(s, c, k));
    } else {
        let j = choose|j: int| k < j < s.len() && s[j] == c;
        lemma_exists_last(s, c, j);
    }
}

/// Joining a directory and a separator-free, non-empty name gives a path
/// whose filename component is exactly that name.
pub proof fn lemma_file_name_of_join(d: Seq<char>, f: Seq<char>)
    requires
        crate::paths::no_slash(f),
        f.len() > 0,
    ensures
        spec_file_name(path_join(d, f)) == f,
{
    reveal_strlit("/");
    let s = path_join(d, f);
    let i = d.len() as int;
    assert(s[i] == '/');
    assert(forall|j: int| i < j < s.len() ==> s[j] == f[j - i - 1]);
    assert(last_at(s, '/', i));
    lemma_last_at_unique(s, '/', i);
    assert(s.subrange(i + 1, s.len() as int) =~= f);
}

/// The position of the last occurrence of `c` in `s`, if there is one.
fn find_last_char(s: &str, c: char) -> (r: Option<usize>)
    ensures
        match r {
            Some(i) => last_at(s@, c, i as int),
            None => forall|j: int| 0 <= j < s@.len() ==> s@[j] != c,
        },
{
    let len = s.unicode_len();
    let mut i: usize = len;
    while i > 0
        invariant
            i <= len,
            forall|j: int| i <= j < s@.len() ==> s@[j] != c,
        decreases i,
    {
        i = i - 1;
        if s.get_char(i) == c {
            return Some(i);
        }
    }
    None
}

/// The filename component of a path, or `None` where it is empty.
pub fn file_name_of(path: &str) -> (r: Option<String>)
    ensures
        match r {
            Some(name) => name@ == spec_file_name(path@) && name@.len() > 0,
            None => spec_file_name(path@).len() == 0,
        },
{
    let len = path.unicode_len();
    match find_last_char(path, '/') {
        Some(i) => {
            proof {
                let w = choose|w: int| last_at(path@, '/', w);
                if w != i as int {
                    if w < i as int {
                        assert(path@[i as int] != '/');
                    } else {
                        assert(path@[w] != '/');
                    }
                }
            }
            if i + 1 == len {
                None
            } else {
                Some(path.substring_char(i + 1, len).to_owned())
            }
        },
        None => {
            proof {
                if exists|w: int| last_at(path@, '/', w) {
                    let w = choose|w: int| last_at(path@, '/', w);
                    assert(path@[w] != '/');
                }
            }
            if len == 0 {
                None
            } else {
                Some(path.to_owned())
            }
        },
    }
}

/// One file under watch: where it came from and where it stands.
#[derive(Clone, Debug)]
pub struct FileObject {
    /// The location the file currently occupies.
    pub current_location: Location,
    /// The path scheme of the owning profile.
    pub paths: Paths,
    /// The file's original name, kept across every transition.
    pub filename: String,
}

impl FileObject {
    /// The full path of this file if it stood in the given location.
    pub open spec fn spec_path_at(&self, location: Location) -> Seq<char> {
        path_join(self.paths.spec_root(location), self.filename@)
    }

    /// Adopts a newly observed file. The name is taken from the path;
    /// adoption is refused where the path has no filename component, or
    /// where any location other than the inbox already holds an entry of
    /// the same name — a naming collision is reported rather than ever
    /// risking an overwrite.
    pub fn new(paths: Paths, filepath: String, fs: &FsState) -> (r: Result<FileObject, Error>)
        ensures
            match r {
                Ok(f) => {
                    &&& f.current_location == Location::Inbox
                    &&& f.paths == paths
                    &&& f.filename@ == spec_file_name(filepath@)
                    &&& f.filename@.len() > 0
                    &&& forall|l: Location|
                        l != Location::Inbox ==> !fs@.contains_key(#[trigger] f.spec_path_at(l))
                },
                Err(Error::UnsupportedFileTypeError(p)) => p@ == filepath@ && spec_file_name(
                    filepath@,
                ).len() == 0,
                Err(Error::FileExists(p)) => {
                    &&& p@ == filepath@
                    &&& spec_file_name(filepath@).len() > 0
                    &&& exists|l: Location|
                        l != Location::Inbox && fs@.contains_key(
                            #[trigger] path_join(paths.spec_root(l), spec_file_name(filepath@)),
                        )
                },
                Err(_) => false,
            },
    {
        let filename = match file_name_of(filepath.as_str()) {
            Some(name) => name,
            None => {
                return Err(Error::UnsupportedFileTypeError(filepath));
            },
        };
        let file = FileObject { current_location: Location::Inbox, paths, filename };
        let mut collision = false;
        if fs.exists_file(&file.make_path(Location::Outbox)) {
            collision = true;
        }
        if fs.exists_file(&file.make_path(Location::Transit)) {
            collision = true;
        }
        if fs.exists_file(&file.make_path(Location::Processed)) {
            collision = true;
        }
        if fs.exists_file(&file.make_path(Location::Error)) {
            collision = true;
        }
        if collision {
            return Err(Error::FileExists(filepath));
        }
        proof {
            assert forall|l: Location| l != Location::Inbox implies !fs@.contains_key(
                #[trigger] file.spec_path_at(l),
            ) by {
                match l {
                    Location::Inbox => {},
                    Location::Outbox => {},
                    Location::Transit => {},
                    Location::Processed => {},
                    Location::Error => {},
                }
            }
        }
        Ok(file)
    }

    /// The full path of this file if it stood in the given location.
    pub fn make_path(&self, location: Location) -> (r: String)
        ensures
            r@ == self.spec_path_at(location),
    {
        join_path(self.paths.make_root(location).as_str(), self.filename.as_str())
    }

    /// The file's current full path.
    pub fn get_path(&self) -> (r: String)
        ensures
            r@ == self.spec_path_at(self.current_location),
    {
        self.make_path(self.current_location)
    }

    /// Reserves a fresh destination path under `location`, in the nested
    /// directory `path`, for a new name derived from `filename`.
    pub fn make_path_with_new_filename(
        &self,
        fs: &mut FsState,
        location: Location,
        path: &String,
        filename: &String,
    ) -> (r: Result<String, Error>)
        requires
            old(fs).wf(),
            has_char_from(filename@, '.', 0),
        ensures
            final(fs).wf(),
            match r {
                Ok(p) => {
                    &&& !old(fs)@.contains_key(p@)
                    &&& final(fs)@ =~= old(fs)@.insert(p@, PLACEHOLDER)
                    &&& {
                        let dir = path_join(self.paths.spec_root(location), path@);
                        ||| p@ == path_join(dir, normalized_filename(filename@))
                        ||| exists|u: Seq<char>|
                            p@ == path_join(dir, disambiguated_filename(filename@, u))
                    }
                },
                Err(e) => final(fs)@ =~= old(fs)@ && e matches Error::UnexpectedError(_),
            },
            !old(fs)@.contains_key(
                path_join(
                    path_join(self.paths.spec_root(location), path@),
                    normalized_filename(filename@),
                ),
            ) ==> (r matches Ok(p) && p@ == path_join(
                path_join(self.paths.spec_root(location), path@),
                normalized_filename(filename@),
            )),
    {
        let dir = join_path(self.paths.make_root(location).as_str(), path.as_str());
        make_unique_path(fs, &dir, filename)
    }

    /// Moves the file to `location`, atomically or not at all: the
    /// destination is reserved by exclusive creation, the move lands on
    /// the reservation, and a failed move is rolled back. Only a
    /// successful move updates `current_location`, so the recorded
    /// location always reflects where the file really is.
    pub fn rename(&mut self, fs: &mut FsState, location: Location, interrupted: bool) -> (r:
        Result<(), Error>)
        requires
            old(fs).wf(),
        ensures
            final(fs).wf(),
            final(self).paths == old(self).paths,
            final(self).filename == old(self).filename,
            match r {
                Ok(_) => {
                    let src = old(self).spec_path_at(old(self).current_location);
                    let dst = old(self).spec_path_at(location);
                    &&& final(self).current_location == location
                    &&& !old(fs)@.contains_key(dst)
                    &&& final(fs)@.contains_key(dst)
                    &&& !interrupted
                    &&& if src == dst {
                        final(fs)@ =~= old(fs)@.insert(dst, PLACEHOLDER)
                    } else {
                        &&& old(fs)@.contains_key(src)
                        &&& !final(fs)@.contains_key(src)
                        &&& final(fs)@ =~= old(fs)@.remove(src).insert(dst, old(fs)@[src])
                    }
                },
                Err(e) => {
                    let src = old(self).spec_path_at(old(self).current_location);
                    let dst = old(self).spec_path_at(location);
                    &&& *final(self) == *old(self)
                    &&& final(fs)@ =~= old(fs)@
                    &&& (e matches Error::FileExists(p) ==> p@ == dst && old(fs)@.contains_key(
                        dst,
                    ))
                    &&& (!(e matches Error::FileExists(_)) ==> (e matches Error::IoError(_))
                        && !old(fs)@.contains_key(dst) && (interrupted || !old(fs)@.contains_key(
                        src,
                    )))
                },
            },
    {
        let src = self.get_path();
        let dst = self.make_path(location);
        match move_file(fs, &src, &dst, interrupted) {
            MoveOutcome::Moved => {
                self.current_location = location;
                Ok(())
            },
            outcome => Err(outcome.to_error(&dst)),
        }
    }
}

} // verus!
