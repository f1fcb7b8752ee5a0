//! The two filesystem disciplines every location transition rests on:
//! moving a file so that a partial failure never leaves two copies, and
//! reserving a destination name without ever overwriting an existing file.
//!
//! Both are stated and verified over [`FsState`](crate::fs_state::FsState);
//! the surrounding process mirrors each step on the real tree.

use vstd::prelude::*;

use crate::error::Error;
use crate::fs_state::FsState;
use crate::fs_state::PLACEHOLDER;
use crate::paths::path_join;

verus! {

/// `i` is the first occurrence of `c` in `s` at or after `from`.
pub open spec fn first_at(s: Seq<char>, c: char, from: int, i: int) -> bool {
    &&& from <= i < s.len()
    &&& s[i] == c
    &&& forall|j: int| from <= j < i ==> s[j] != c
}

/// `s` holds `c` somewhere at or after `from`.
pub open spec fn has_char_from(s: Seq<char>, c: char, from: int) -> bool {
    exists|i: int| first_at(s, c, from, i)
}

/// The position of the first occurrence of `c` in `s` at or after `from`.
pub open spec fn first_index(s: Seq<char>, c: char, from: int) -> int {
    choose|i: int| first_at(s, c, from, i)
}

/// The part of a filename before its first dot.
pub open spec fn stem_of(s: Seq<char>) -> Seq<char> {
    s.subrange(0, first_index(s, '.', 0))
}

/// The part of a filename between its first dot and its second dot, or
/// its end: the extension the reservation scheme keeps.
pub open spec fn ext_of(s: Seq<char>) -> Seq<char> {
    let i = first_index(s, '.', 0);
    if has_char_from(s, '.', i + 1) {
        s.subrange(i + 1, first_index(s, '.', i + 1))
    } else {
        s.subrange(i + 1, s.len() as int)
    }
}

/// A filename cut back to `stem.ext`: whatever follows a second dot is
/// dropped.
pub open spec fn normalized_filename(s: Seq<char>) -> Seq<char> {
    stem_of(s) + "."@ + ext_of(s)
}

/// A filename with a disambiguating infix `u` between stem and extension.
pub open spec fn disambiguated_filename(s: Seq<char>, u: Seq<char>) -> Seq<char> {
    stem_of(s) + "-"@ + u + "."@ + ext_of(s)
}

/// Any occurrence of a character implies a first occurrence.
pub proof fn lemma_has_char(s: Seq<char>, c: char, k: int)
    requires
        0 <= k < s.len(),
        s[k] == c,
    ensures
        has_char_from(s, c, 0),
    decreases k,
{
    if forall|j: int| 0 <= j < k ==> s[j] != c {
        assert(first_at(s, c, 0, k));
    } else {
        let j = choose|j: int| 0 <= j < k && s[j] == c;
        lemma_has_char(s, c, j);
    }
}

/// The position of the first occurrence of `c` in `s` at or after `from`,
/// if there is one.
pub fn find_char(s: &str, c: char, from: usize) -> (r: Option<usize>)
    requires
        from <= s@.len(),
    ensures
        match r {
            Some(i) => first_at(s@, c, from as int, i as int),
            None => !has_char_from(s@, c, from as int),
        },
{
    let len = s.unicode_len();
    let mut i: usize = from;
    while i < len
        invariant
            from <= i <= len,
            forall|j: int| from <= j < i ==> s@[j] != c,
        decreases len - i,
    {
        if s.get_char(i) == c {
            return Some(i);
        }
        i = i + 1;
    }
    proof {
        if has_char_from(s@, c, from as int) {
            let w = choose|w: int| first_at(s@, c, from as int, w);
            assert(s@[w] != c);
        }
    }
    None
}

/// Joining a directory path and a relative name.
pub fn join_path(dir: &str, name: &str) -> (r: String)
    ensures
        r@ == path_join(dir@, name@),
{
    dir.to_owned().concat("/").concat(name)
}

/// The views of a sequence of strings.
pub open spec fn views_of(s: Seq<String>) -> Seq<Seq<char>> {
    s.map_values(|x: String| x@)
}

/// The strings of `s` joined with `sep` between neighbours.
pub open spec fn join_with(s: Seq<Seq<char>>, sep: Seq<char>) -> Seq<char>
    decreases s.len(),
{
    if s.len() == 0 {
        Seq::empty()
    } else if s.len() == 1 {
        s[0]
    } else {
        join_with(s.drop_last(), sep) + sep + s.last()
    }
}

/// Joins strings with a separator between neighbours.
pub fn join_strings(items: &Vec<String>, sep: &str) -> (r: String)
    ensures
        r@ == join_with(views_of(items@), sep@),
{
    let mut acc = String::new();
    let mut i: usize = 0;
    while i < items.len()
        invariant
            i <= items@.len(),
            acc@ == join_with(views_of(items@).take(i as int), sep@),
        decreases items@.len() - i,
    {
        if i > 0 {
            acc.append(sep);
        }
        acc.append(items[i].as_str());
        proof {
            let vs = views_of(items@);
            assert(vs.take(i + 1).drop_last() =~= vs.take(i as int));
            assert(vs.take(i + 1).last() == items@[i as int]@);
            if i == 0 {
                assert(vs.take(1) =~= seq![items@[0]@]);
            }
        }
        i = i + 1;
    }
    proof {
        assert(views_of(items@).take(items@.len() as int) =~= views_of(items@));
    }
    acc
}

/// The outcome of one attempted move between locations.
#[derive(Clone, Copy, Debug, PartialEq, Eq, Structural)]
pub enum MoveOutcome {
    /// The file now exists at the destination and no longer at the source.
    Moved,
    /// A file already sits at the destination; nothing was touched.
    DestinationExists,
    /// The source vanished before the move; the reservation was rolled back.
    SourceMissing,
    /// The move itself failed after the reservation; it was rolled back.
    Interrupted,
}

impl MoveOutcome {
    /// The error a failed move surfaces to the pipeline.
    pub fn to_error(self, to: &String) -> (r: Error)
        requires
            self != MoveOutcome::Moved,
        ensures
            self == MoveOutcome::DestinationExists ==> r == Error::FileExists(*to),
            self != MoveOutcome::DestinationExists ==> r matches Error::IoError(_),
    {
        match self {
            MoveOutcome::Moved => Error::IoError("no failure".to_owned()),
            MoveOutcome::DestinationExists => Error::FileExists(to.clone()),
            MoveOutcome::SourceMissing => Error::IoError("source is gone".to_owned()),
            MoveOutcome::Interrupted => Error::IoError("move interrupted".to_owned()),
        }
    }
}

/// Moves a file such that a partial failure never leaves two copies and
/// never overwrites an existing destination: the destination is first
/// reserved by exclusive creation, then the file is moved onto the
/// reservation, and the reservation is removed again if the move fails.
/// `interrupted` injects a failure of the move step itself, standing for
/// an outside interference the model cannot otherwise produce.
pub fn move_file(fs: &mut FsState, from: &String, to: &String, interrupted: bool) -> (r:
    MoveOutcome)
    requires
        old(fs).wf(),
    ensures
        final(fs).wf(),
        match r {
            MoveOutcome::Moved => {
                &&& !old(fs)@.contains_key(to@)
                &&& !interrupted
                &&& if from@ == to@ {
                    // Degenerate self-move: only the fresh reservation remains.
                    final(fs)@ =~= old(fs)@.insert(to@, PLACEHOLDER)
                } else {
                    &&& old(fs)@.contains_key(from@)
                    &&& final(fs)@ =~= old(fs)@.remove(from@).insert(to@, old(fs)@[from@])
                }
            },
            MoveOutcome::DestinationExists => old(fs)@.contains_key(to@) && final(fs)@ =~= old(
                fs,
            )@,
            MoveOutcome::SourceMissing => {
                &&& !old(fs)@.contains_key(to@)
                &&& !old(fs)@.contains_key(from@)
                &&& from@ != to@
                &&& !interrupted
                &&& final(fs)@ =~= old(fs)@
            },
            MoveOutcome::Interrupted => {
                &&& !old(fs)@.contains_key(to@)
                &&& interrupted
                &&& final(fs)@ =~= old(fs)@
            },
        },
{
    if !fs.create_new(to.clone(), PLACEHOLDER) {
        return MoveOutcome::DestinationExists;
    }
    let moved = if interrupted {
        false
    } else {
        fs.rename_file(from, to)
    };
    if moved {
        MoveOutcome::Moved
    } else {
        let _ = fs.remove_file(to);
        if interrupted {
            MoveOutcome::Interrupted
        } else {
            MoveOutcome::SourceMissing
        }
    }
}

/// Law: a move is atomic or a no-op. Where the source is the only path
/// holding a given content, then after the protocol — whatever its
/// outcome — exactly one path holds that content, never two: the
/// destination if the move was reported successful, the source otherwise.
pub proof fn lemma_move_atomic_or_noop(
    pre: Map<Seq<char>, u64>,
    post: Map<Seq<char>, u64>,
    from: Seq<char>,
    to: Seq<char>,
    c: u64,
    moved: bool,
)
    requires
        pre.contains_key(from),
        pre[from] == c,
        forall|p: Seq<char>| pre.contains_key(p) && pre[p] == c ==> p == from,
        moved ==> !pre.contains_key(to) && post =~= pre.remove(from).insert(to, c),
        !moved ==> post =~= pre,
    ensures
        moved ==> post.contains_key(to) && post[to] == c,
        !moved ==> post.contains_key(from) && post[from] == c,
        forall|p: Seq<char>, q: Seq<char>|
            post.contains_key(p) && post[p] == c && post.contains_key(q) && post[q] == c ==> p
                == q,
{
    if moved {
        assert(forall|p: Seq<char>| post.contains_key(p) && post[p] == c ==> p == to);
    }
}

/// Relies on uuid::Uuid::new_v4: a fresh random identifier, rendered in
/// the 36-character hyphenated form.
#[verifier::external_body]
fn new_uuid_string() -> (r: String)
    ensures
        r@.len() == 36,
{
    uuid::Uuid::new_v4().to_string()
}

/// Reserves a fresh name for `filename` under the directory `path` by
/// exclusive creation, never overwriting an existing file: first under
/// the name itself (cut back to `stem.ext`), then — if that name is
/// taken — under one with a random disambiguating infix. One draw from
/// the effectively collision-free infix space is made; only when that
/// name too is taken does the reservation report failure. Directories
/// are implicit in the tree model; the mirroring process creates the
/// directory before reserving.
pub fn make_unique_path(fs: &mut FsState, path: &String, filename: &String) -> (r: Result<
    String,
    Error,
>)
    requires
        old(fs).wf(),
        has_char_from(filename@, '.', 0),
    ensures
        final(fs).wf(),
        match r {
            Ok(p) => {
                &&& !old(fs)@.contains_key(p@)
                &&& final(fs)@ =~= old(fs)@.insert(p@, PLACEHOLDER)
                &&& (p@ == path_join(path@, normalized_filename(filename@)) || (exists|
                    u: Seq<char>,
                |
                    p@ == path_join(path@, disambiguated_filename(filename@, u))))
            },
            Err(e) => {
                &&& final(fs)@ =~= old(fs)@
                &&& old(fs)@.contains_key(path_join(path@, normalized_filename(filename@)))
                &&& e matches Error::UnexpectedError(_)
            },
        },
        !old(fs)@.contains_key(path_join(path@, normalized_filename(filename@))) ==> (r matches Ok(
            p,
        ) && p@ == path_join(path@, normalized_filename(filename@))),
{
    let plain = normalize_filename(filename);
    let candidate = join_path(path.as_str(), plain.as_str());
    if fs.create_new(candidate.clone(), PLACEHOLDER) {
        return Ok(candidate);
    }
    let salted = fresh_disambiguated_filename(filename);
    let fallback = join_path(path.as_str(), salted.as_str());
    proof {
        let u = choose|u: Seq<char>| u.len() == 36 && salted@ == disambiguated_filename(
            filename@,
            u,
        );
        assert(fallback@ == path_join(path@, disambiguated_filename(filename@, u)));
    }
    if fs.create_new(fallback.clone(), PLACEHOLDER) {
        Ok(fallback)
    } else {
        Err(Error::UnexpectedError("Cannot find unique filename".to_owned()))
    }
}

/// A filename split at its first dot: the stem, and the extension up to
/// a second dot or the end.
fn split_filename(filename: &String) -> (r: (String, String))
    requires
        has_char_from(filename@, '.', 0),
    ensures
        r.0@ == stem_of(filename@),
        r.1@ == ext_of(filename@),
{
    let len = filename.as_str().unicode_len();
    // The filename holds a dot, so the scan finds one.
    let i = match find_char(filename.as_str(), '.', 0) {
        Some(i) => i,
        None => {
            proof {
                assert(false);
            }
            0
        },
    };
    let stem = filename.as_str().substring_char(0, i);
    let ext = match find_char(filename.as_str(), '.', i + 1) {
        Some(j) => filename.as_str().substring_char(i + 1, j),
        None => filename.as_str().substring_char(i + 1, len),
    };
    proof {
        lemma_first_index_pins(filename@, '.', 0, i as int);
        assert(stem@ == stem_of(filename@));
        assert(ext@ == ext_of(filename@));
    }
    (stem.to_owned(), ext.to_owned())
}

/// The name a reservation first tries: the filename cut back to
/// `stem.ext`, whatever follows a second dot dropped.
pub fn normalize_filename(filename: &String) -> (r: String)
    requires
        has_char_from(filename@, '.', 0),
    ensures
        r@ == normalized_filename(filename@),
{
    let (stem, ext) = split_filename(filename);
    stem.concat(".").concat(ext.as_str())
}

/// A fresh fallback name for the same filename: the stem, a random
/// 36-character disambiguating infix, and the extension.
pub fn fresh_disambiguated_filename(filename: &String) -> (r: String)
    requires
        has_char_from(filename@, '.', 0),
    ensures
        exists|u: Seq<char>| u.len() == 36 && r@ == disambiguated_filename(filename@, u),
{
    let (stem, ext) = split_filename(filename);
    let infix = new_uuid_string();
    let r = stem.concat("-").concat(infix.as_str()).concat(".").concat(ext.as_str());
    proof {
        assert(r@ == disambiguated_filename(filename@, infix@));
    }
    r
}

/// Where an occurrence is found by scanning, it is the one the
/// specification's `first_index` denotes.
proof fn lemma_first_index_pins(s: Seq<char>, c: char, from: int, i: int)
    requires
        first_at(s, c, from, i),
    ensures
        has_char_from(s, c, from),
        first_index(s, c, from) == i,
{
    let w = first_index(s, c, from);
    if w != i {
        if w < i {
            assert(s[w] != c);
        } else {
            assert(s[i] != c);
        }
    }
}

/// Law: reserved names never collide. Two reservations made one after the
/// other never hand out the same path: the first reservation stays
/// recorded, so the second sees it and picks another name.
pub proof fn lemma_unique_paths_distinct(
    fs0: Map<Seq<char>, u64>,
    fs1: Map<Seq<char>, u64>,
    fs2: Map<Seq<char>, u64>,
    p1: Seq<char>,
    p2: Seq<char>,
)
    requires
        !fs0.contains_key(p1),
        fs1 =~= fs0.insert(p1, PLACEHOLDER),
        !fs1.contains_key(p2),
        fs2 =~= fs1.insert(p2, PLACEHOLDER),
    ensures
        p1 != p2,
        fs2.contains_key(p1),
        fs2.contains_key(p2),
{
}

} // verus!
