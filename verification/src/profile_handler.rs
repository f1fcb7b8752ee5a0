//! The profile supervisor: one running watch loop per valid, currently
//! unchanged configuration file in the profile directory.
//!
//! A configuration file's identity is its path; its content hash decides
//! whether the running loop still matches it. A changed or vanished file
//! tears its loop down; an untracked file asks for a fresh load and start.
//! At most one live loop is recorded per path at any time.

use vstd::prelude::*;

use crate::watcher::EventKind;

verus! {

/// What SHA-256 returns: a function of the bytes alone.
pub uninterp spec fn sha256_of(data: Seq<u8>) -> Seq<u8>;

/// Relies on sha2::Sha256 through Digest::digest: the 32-byte SHA-256
/// digest, a function of the bytes alone.
#[verifier::external_body]
fn sha256_digest(data: &Vec<u8>) -> (r: Vec<u8>)
    ensures
        r@ == sha256_of(data@),
        r@.len() == 32,
{
    let digest = <sha2::Sha256 as sha2::Digest>::digest(data.as_slice());
    digest.to_vec()
}

/// The SHA-256 content hash under which configuration files are compared.
pub fn content_hash(data: &Vec<u8>) -> (r: Vec<u8>)
    ensures
        r@ == sha256_of(data@),
{
    sha256_digest(data)
}

fn bytes_eq(a: &Vec<u8>, b: &Vec<u8>) -> (r: bool)
    ensures
        r == (a@ == b@),
{
    if a.len() != b.len() {
        return false;
    }
    let mut i: usize = 0;
    while i < a.len()
        invariant
            i <= a@.len(),
            a@.len() == b@.len(),
            forall|j: int| 0 <= j < i ==> a@[j] == b@[j],
        decreases a@.len() - i,
    {
        if a[i] != b[i] {
            return false;
        }
        i = i + 1;
    }
    proof {
        assert(a@ =~= b@);
    }
    true
}

/// The bytes of an optional buffer, as the contracts speak of them.
pub open spec fn opt_bytes(o: Option<Vec<u8>>) -> Option<Seq<u8>> {
    match o {
        Some(b) => Some(b@),
        None => None,
    }
}

fn hash_eq(a: &Option<Vec<u8>>, b: &Option<Vec<u8>>) -> (r: bool)
    ensures
        r == (opt_bytes(*a) == opt_bytes(*b)),
{
    match (a, b) {
        (None, None) => true,
        (Some(x), Some(y)) => bytes_eq(x, y),
        _ => false,
    }
}

/// An event kind that can change a configuration file's content.
pub open spec fn spec_relevant(kind: EventKind) -> bool {
    kind matches EventKind::Create(_) || kind == EventKind::Modify || kind == EventKind::Remove
}

fn is_relevant(kind: EventKind) -> (r: bool)
    ensures
        r == spec_relevant(kind),
{
    match kind {
        EventKind::Create(_) => true,
        EventKind::Modify => true,
        EventKind::Remove => true,
        _ => false,
    }
}

/// One tracked configuration file: its path, the content hash it was
/// loaded under (`None` where it was unreadable), and the handle of the
/// running child loop, if one is running.
pub struct ProfileEntry {
    pub path: String,
    pub hash: Option<Vec<u8>>,
    pub loop_id: Option<u64>,
}

/// What a tracking entry denotes: its recorded hash and loop handle.
pub open spec fn entry_val(e: ProfileEntry) -> (Option<Seq<u8>>, Option<u64>) {
    (
        match e.hash {
            Some(h) => Some(h@),
            None => None,
        },
        e.loop_id,
    )
}

/// What the supervisor must do after one dispatched event.
#[derive(Debug)]
pub struct Directive {
    /// A child loop to shut down gracefully, where one was running.
    pub shutdown_loop: Option<u64>,
    /// Whether a fresh load-and-start of this path should be attempted.
    pub start_watcher: bool,
}

/// The supervisor's state: the watched profile directory and the tracked
/// configuration files.
pub struct ProfileHandler {
    path: String,
    profiles: Vec<ProfileEntry>,
}

impl ProfileHandler {
    /// The map a sequence of tracking entries denotes.
    pub open spec fn map_of(s: Seq<ProfileEntry>) -> Map<Seq<char>, (Option<Seq<u8>>, Option<u64>)>
        decreases s.len(),
    {
        if s.len() == 0 {
            Map::empty()
        } else {
            Self::map_of(s.drop_last()).insert(s.last().path@, entry_val(s.last()))
        }
    }

    /// No configuration path is tracked twice — in particular at most one
    /// live child loop is recorded per path.
    pub open spec fn paths_unique(s: Seq<ProfileEntry>) -> bool {
        forall|i: int, j: int| 0 <= i < j < s.len() ==> s[i].path@ != s[j].path@
    }

    /// The tracked files: path to (recorded hash, running loop handle).
    pub closed spec fn view(&self) -> Map<Seq<char>, (Option<Seq<u8>>, Option<u64>)> {
        Self::map_of(self.profiles@)
    }

    /// The profile directory this supervisor watches.
    pub closed spec fn spec_path(&self) -> Seq<char> {
        self.path@
    }

    /// Well-formedness: every tracked path is recorded at most once.
    pub closed spec fn wf(&self) -> bool {
        Self::paths_unique(self.profiles@)
    }

    proof fn lemma_contains(s: Seq<ProfileEntry>, p: Seq<char>)
        ensures
            Self::map_of(s).contains_key(p) <==> (exists|i: int|
                0 <= i < s.len() && s[i].path@ == p),
        decreases s.len(),
    {
        if s.len() > 0 {
            Self::lemma_contains(s.drop_last(), p);
            if s.last().path@ == p {
                assert(s[s.len() - 1].path@ == p);
            } else {
                if exists|i: int| 0 <= i < s.len() && s[i].path@ == p {
                    let i = choose|i: int| 0 <= i < s.len() && s[i].path@ == p;
                    assert(i < s.len() - 1);
                    assert(s.drop_last()[i].path@ == p);
                }
            }
        }
    }

    proof fn lemma_value(s: Seq<ProfileEntry>, i: int)
        requires
            Self::paths_unique(s),
            0 <= i < s.len(),
        ensures
            Self::map_of(s).contains_key(s[i].path@),
            Self::map_of(s)[s[i].path@] == entry_val(s[i]),
        decreases s.len(),
    {
        if i == s.len() - 1 {
        } else {
            Self::lemma_value(s.drop_last(), i);
            assert(s.drop_last()[i] == s[i]);
            assert(s[i].path@ != s.last().path@);
        }
    }

    proof fn lemma_push(s: Seq<ProfileEntry>, e: ProfileEntry)
        ensures
            Self::map_of(s.push(e)) == Self::map_of(s).insert(e.path@, entry_val(e)),
    {
        assert(s.push(e).drop_last() =~= s);
        assert(s.push(e).last() == e);
    }

    proof fn lemma_remove(s: Seq<ProfileEntry>, i: int)
        requires
            Self::paths_unique(s),
            0 <= i < s.len(),
        ensures
            Self::map_of(s.remove(i)) =~= Self::map_of(s).remove(s[i].path@),
        decreases s.len(),
    {
        let k = s[i].path@;
        if i == s.len() - 1 {
            assert(s.remove(i) =~= s.drop_last());
            Self::lemma_contains(s.drop_last(), k);
            assert(forall|j: int| 0 <= j < s.len() - 1 ==> s.drop_last()[j].path@ != k);
            assert(!Self::map_of(s.drop_last()).contains_key(k));
            assert(Self::map_of(s.drop_last()).remove(k) =~= Self::map_of(s.drop_last()));
        } else {
            let dl = s.drop_last();
            assert(Self::paths_unique(dl));
            Self::lemma_remove(dl, i);
            assert(s.remove(i).drop_last() =~= dl.remove(i));
            assert(s.remove(i).last() == s.last());
            assert(Self::map_of(s.remove(i)) == Self::map_of(dl.remove(i)).insert(
                s.last().path@,
                entry_val(s.last()),
            ));
            assert(k != s.last().path@);
        }
    }

    /// A supervisor of the given profile directory, tracking nothing yet.
    pub fn new(path: String) -> (r: ProfileHandler)
        ensures
            r.wf(),
            r@ =~= Map::<Seq<char>, (Option<Seq<u8>>, Option<u64>)>::empty(),
            r.spec_path() == path@,
    {
        ProfileHandler { path, profiles: Vec::new() }
    }

    /// The profile directory this supervisor watches.
    pub fn dir_path(&self) -> (r: &String)
        ensures
            r@ == self.spec_path(),
    {
        &self.path
    }

    fn find_index(&self, path: &String) -> (r: Option<usize>)
        ensures
            match r {
                Some(i) => i < self.profiles@.len() && self.profiles@[i as int].path@ == path@,
                None => forall|j: int|
                    0 <= j < self.profiles@.len() ==> self.profiles@[j].path@ != path@,
            },
    {
        let mut i: usize = 0;
        while i < self.profiles.len()
            invariant
                i <= self.profiles@.len(),
                forall|j: int| 0 <= j < i ==> self.profiles@[j].path@ != path@,
            decreases self.profiles@.len() - i,
        {
            if self.profiles[i].path == *path {
                return Some(i);
            }
            i = i + 1;
        }
        None
    }

    /// Whether a configuration path is currently tracked.
    pub fn is_tracked(&self, path: &String) -> (r: bool)
        ensures
            r == self@.contains_key(path@),
    {
        proof {
            Self::lemma_contains(self.profiles@, path@);
        }
        self.find_index(path).is_some()
    }

    /// The running child loop recorded for a path, if any.
    pub fn loop_of(&self, path: &String) -> (r: Option<u64>)
        requires
            self.wf(),
        ensures
            r == if self@.contains_key(path@) {
                self@[path@].1
            } else {
                None::<u64>
            },
    {
        proof {
            Self::lemma_contains(self.profiles@, path@);
        }
        match self.find_index(path) {
            Some(i) => {
                proof {
                    Self::lemma_value(self.profiles@, i as int);
                }
                self.profiles[i].loop_id
            },
            None => None,
        }
    }

    /// The hot-reload decision on one dispatched path. `current_bytes`
    /// holds the configuration file's bytes as read now, `None` where it
    /// is unreadable or gone.
    ///
    /// A tracked path whose content hash no longer matches the recorded
    /// one — under an event kind that can change content — is untracked,
    /// and its loop (if any) is handed back for shutdown. A path left
    /// untracked that is a regular file asks for a fresh load-and-start.
    /// An unchanged tracked path is left entirely undisturbed.
    pub fn handle_profile(
        &mut self,
        path: &String,
        kind: EventKind,
        current_bytes: Option<Vec<u8>>,
        is_file: bool,
    ) -> (r: Directive)
        requires
            old(self).wf(),
        ensures
            final(self).wf(),
            final(self).spec_path() == old(self).spec_path(),
            ({
                let known = old(self)@.contains_key(path@);
                let entry = old(self)@[path@];
                let new_hash = match opt_bytes(current_bytes) {
                    Some(b) => Some(sha256_of(b)),
                    None => None,
                };
                let changed = known && spec_relevant(kind) && entry.0 != new_hash;
                &&& (changed ==> {
                    &&& final(self)@ =~= old(self)@.remove(path@)
                    &&& r.shutdown_loop == entry.1
                    &&& r.start_watcher == is_file
                })
                &&& (known && !changed ==> {
                    &&& final(self)@ =~= old(self)@
                    &&& r.shutdown_loop is None
                    &&& !r.start_watcher
                })
                &&& (!known ==> {
                    &&& final(self)@ =~= old(self)@
                    &&& r.shutdown_loop is None
                    &&& r.start_watcher == is_file
                })
            }),
    {
        let new_hash: Option<Vec<u8>> = match current_bytes {
            Some(b) => Some(sha256_digest(&b)),
            None => None,
        };
        let mut shutdown: Option<u64> = None;
        proof {
            Self::lemma_contains(self.profiles@, path@);
        }
        match self.find_index(path) {
            Some(i) => {
                proof {
                    Self::lemma_value(self.profiles@, i as int);
                }
                if is_relevant(kind) && !hash_eq(&self.profiles[i].hash, &new_hash) {
                    shutdown = self.profiles[i].loop_id;
                    proof {
                        Self::lemma_remove(self.profiles@, i as int);
                    }
                    self.profiles.remove(i);
                    let start = is_file;
                    return Directive { shutdown_loop: shutdown, start_watcher: start };
                }
                Directive { shutdown_loop: None, start_watcher: false }
            },
            None => {
                Directive { shutdown_loop: None, start_watcher: is_file }
            },
        }
    }

    /// Records a freshly started child loop for a configuration path,
    /// under the content hash its configuration was loaded with. An older
    /// entry for the same path is replaced.
    pub fn record_started(&mut self, path: String, hash: Vec<u8>, loop_id: u64) -> (r: bool)
        requires
            old(self).wf(),
        ensures
            final(self).wf(),
            final(self).spec_path() == old(self).spec_path(),
            r == old(self)@.contains_key(path@),
            final(self)@ =~= old(self)@.insert(path@, (Some(hash@), Some(loop_id))),
    {
        proof {
            Self::lemma_contains(self.profiles@, path@);
        }
        let existed = match self.find_index(&path) {
            Some(i) => {
                proof {
                    Self::lemma_remove(self.profiles@, i as int);
                }
                self.profiles.remove(i);
                true
            },
            None => false,
        };
        proof {
            Self::lemma_contains(self.profiles@, path@);
            if !existed {
                assert(self@.remove(path@) =~= self@);
            }
            Self::lemma_push(
                self.profiles@,
                ProfileEntry { path, hash: Some(hash), loop_id: Some(loop_id) },
            );
        }
        let entry = ProfileEntry { path, hash: Some(hash), loop_id: Some(loop_id) };
        self.profiles.push(entry);
        existed
    }
}

} // verus!
