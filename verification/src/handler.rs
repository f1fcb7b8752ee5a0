//! The per-profile handler: admission control for the bounded pool of
//! per-file tasks, and the processing pipeline one admitted file runs
//! through.
//!
//! Each file is an isolated unit of work: its failure routes only that
//! file to the error location and never disturbs sibling files or the
//! owning loop.

use vstd::prelude::*;

use crate::document::DocumentData;
use crate::error::Error;
use crate::file_info::FileInfo;
use crate::file_info::is_supported_path;
use crate::file_object::FileObject;
use crate::file_object::spec_file_name;
use crate::fs_state::FsState;
use crate::paths::Location;
use crate::paths::Paths;
use crate::paths::distinct_roots;
use crate::paths::no_slash;
use crate::paths::path_join;
use crate::profile::Profile;
use crate::util::disambiguated_filename;
use crate::util::has_char_from;
use crate::util::normalized_filename;
use crate::watcher::CreateKind;
use crate::watcher::EventKind;

verus! {

/// How many parse attempts the readiness wait makes before giving up.
pub const READINESS_BUDGET: usize = 6;

/// Some parse attempt within the budget succeeds.
pub open spec fn parse_succeeds_within(parse_ok: Seq<bool>, budget: int) -> bool {
    exists|i: int| 0 <= i < budget && i < parse_ok.len() && parse_ok[i]
}

/// Only events that announce newly created entries start processing;
/// everything else is ignored.
pub fn should_process(kind: EventKind) -> (r: bool)
    ensures
        r == (kind == EventKind::Create(CreateKind::Any) || kind == EventKind::Create(
            CreateKind::File,
        )),
{
    match kind {
        EventKind::Create(CreateKind::Any) => true,
        EventKind::Create(CreateKind::File) => true,
        _ => false,
    }
}

/// A path the outbox reservation scheme can hand out for the artifact of
/// `dd` with the given suffix: under the outbox's class/source directory,
/// named after date and title, possibly with a disambiguating infix.
pub open spec fn artifact_path(
    paths: Paths,
    dd: DocumentData,
    suffix: Seq<char>,
    p: Seq<char>,
) -> bool {
    let dir = path_join(paths.spec_root(Location::Outbox), dd.spec_path());
    ||| p == path_join(dir, normalized_filename(dd.spec_filename(suffix)))
    ||| exists|u: Seq<char>| p == path_join(dir, disambiguated_filename(dd.spec_filename(suffix), u))
}

/// The plain, unsuffixed outbox path of the artifact with the given
/// suffix: under the class/source directory, named after date and title.
pub open spec fn plain_artifact_path(paths: Paths, dd: DocumentData, suffix: Seq<char>) -> Seq<
    char,
> {
    path_join(
        path_join(paths.spec_root(Location::Outbox), dd.spec_path()),
        normalized_filename(dd.spec_filename(suffix)),
    )
}

/// The inputs on which the pipeline owes success for the file named
/// `fname` under `paths`: a present, parseable document of the accepted
/// type, a successful classification, a successful rewrite, and plain
/// artifact names that are fresh and mutually distinct.
pub open spec fn success_owed(
    fs: Map<Seq<char>, u64>,
    paths: Paths,
    fname: Seq<char>,
    parse_ok: Seq<bool>,
    classification: Result<DocumentData, Error>,
    rewrite_ok: bool,
) -> bool {
    &&& is_supported_path(path_join(paths.spec_root(Location::Inbox), fname))
    &&& fs.contains_key(path_join(paths.spec_root(Location::Inbox), fname))
    &&& parse_succeeds_within(parse_ok, READINESS_BUDGET as int)
    &&& rewrite_ok
    &&& (classification matches Ok(dd) && ({
        let pdf_p = plain_artifact_path(paths, dd, "pdf"@);
        let sum_p = plain_artifact_path(paths, dd, "summary"@);
        let con_p = plain_artifact_path(paths, dd, "content"@);
        &&& !fs.contains_key(pdf_p)
        &&& !fs.contains_key(sum_p)
        &&& pdf_p != sum_p
        &&& (dd.content is Some ==> !fs.contains_key(con_p) && con_p != pdf_p && con_p != sum_p)
    }))
}

/// An outbox artifact path never collides with a file directly under any
/// other location's subdirectory.
proof fn lemma_artifact_separate(
    paths: Paths,
    dd: DocumentData,
    suffix: Seq<char>,
    p: Seq<char>,
    l: Location,
    f: Seq<char>,
)
    requires
        artifact_path(paths, dd, suffix, p),
        distinct_roots(paths),
        l != Location::Outbox,
    ensures
        p != path_join(paths.spec_root(l), f),
{
    let root = paths.path@;
    let out = crate::paths::resolved_location_name(paths.mapping(), Location::Outbox);
    let ln = crate::paths::resolved_location_name(paths.mapping(), l);
    let dir = path_join(paths.spec_root(Location::Outbox), dd.spec_path());
    let cs = dd.spec_path();
    let n: Seq<char> = if p == path_join(dir, normalized_filename(dd.spec_filename(suffix))) {
        normalized_filename(dd.spec_filename(suffix))
    } else {
        let u = choose|u: Seq<char>|
            p == path_join(dir, disambiguated_filename(dd.spec_filename(suffix), u));
        disambiguated_filename(dd.spec_filename(suffix), u)
    };
    assert(p == path_join(dir, n));
    let rest = cs + "/"@ + n;
    assert(path_join(dir, n) =~= path_join(root, out) + "/"@ + rest);
    crate::paths::lemma_path_separation(root, ln, out, f, rest);
}

/// One filename resolves to pairwise distinct full paths across the five
/// locations.
proof fn lemma_location_paths_distinct(paths: Paths, fname: Seq<char>)
    requires
        distinct_roots(paths),
        no_slash(fname),
    ensures
        forall|l1: Location, l2: Location|
            l1 != l2 ==> path_join(#[trigger] paths.spec_root(l1), fname) != path_join(
                #[trigger] paths.spec_root(l2),
                fname,
            ),
{
    assert forall|l1: Location, l2: Location| l1 != l2 implies path_join(
        #[trigger] paths.spec_root(l1),
        fname,
    ) != path_join(#[trigger] paths.spec_root(l2), fname) by {
        crate::paths::lemma_path_separation(
            paths.path@,
            crate::paths::resolved_location_name(paths.mapping(), l1),
            crate::paths::resolved_location_name(paths.mapping(), l2),
            fname,
            fname,
        );
    }
}

/// One unfolding step of filtering a sequence of directory entries.
proof fn entries_filter_unfold(s: Seq<(String, bool)>, pred: spec_fn((String, bool)) -> bool)
    requires
        s.len() > 0,
    ensures
        s.filter(pred) == if pred(s.last()) {
            s.drop_last().filter(pred).push(s.last())
        } else {
            s.drop_last().filter(pred)
        },
{
    reveal(Seq::filter);
}

fn collect_dir_names(entries: &Vec<(String, bool)>) -> (r: Vec<String>)
    ensures
        r@ == entries@.filter(|e: (String, bool)| e.1).map_values(|e: (String, bool)| e.0),
{
    let mut names: Vec<String> = Vec::new();
    let mut i: usize = 0;
    while i < entries.len()
        invariant
            i <= entries@.len(),
            names@ =~= entries@.take(i as int).filter(|e: (String, bool)| e.1).map_values(
                |e: (String, bool)| e.0,
            ),
        decreases entries@.len() - i,
    {
        if entries[i].1 {
            names.push(entries[i].0.clone());
        }
        proof {
            assert(entries@.take(i + 1).drop_last() =~= entries@.take(i as int));
            assert(entries@.take(i + 1).last() == entries@[i as int]);
            entries_filter_unfold(entries@.take(i + 1), |e: (String, bool)| e.1);
        }
        i = i + 1;
    }
    proof {
        assert(entries@.take(entries@.len() as int) =~= entries@);
    }
    names
}

/// The vocabulary hints discovered by scanning the outbox tree: the
/// names of the first-level directories are the known classes, those of
/// the second-level directories the known sources. Each entry carries
/// its name and whether it is a directory; only directories count.
pub fn outbox_vocabulary(first: Vec<(String, bool)>, second: Vec<(String, bool)>) -> (r: (
    Vec<String>,
    Vec<String>,
))
    ensures
        crate::util::views_of(r.0@) == crate::util::views_of(
            first@.filter(|e: (String, bool)| e.1).map_values(|e: (String, bool)| e.0),
        ),
        crate::util::views_of(r.1@) == crate::util::views_of(
            second@.filter(|e: (String, bool)| e.1).map_values(|e: (String, bool)| e.0),
        ),
{
    (collect_dir_names(&first), collect_dir_names(&second))
}

/// A dated title always holds a dot: the one before its suffix.
proof fn lemma_filename_has_dot(dd: DocumentData, suffix: Seq<char>)
    ensures
        has_char_from(dd.spec_filename(suffix), '.', 0),
{
    reveal_strlit(".");
    reveal_strlit("-");
    let s = dd.spec_filename(suffix);
    let i = dd.date@.len() + 1 + dd.title@.len();
    assert(s[i as int] == '.');
    crate::util::lemma_has_char(s, '.', i as int);
}

/// The per-profile handler: its configuration and the bounded pool of
/// in-flight per-file tasks.
pub struct Handler {
    profile: Profile,
    concurrency: u8,
    in_flight: usize,
}

impl Handler {
    /// The owning profile's configuration.
    pub closed spec fn spec_profile(&self) -> Profile {
        self.profile
    }

    /// The ceiling on simultaneously in-flight files.
    pub closed spec fn spec_concurrency(&self) -> u8 {
        self.concurrency
    }

    /// The owning profile's configuration.
    pub fn profile(&self) -> (r: &Profile)
        ensures
            *r == self.spec_profile(),
    {
        &self.profile
    }

    /// How many files are mid-flight right now.
    pub closed spec fn task_count(&self) -> nat {
        self.in_flight as nat
    }

    /// The admission invariant: the ceiling is positive and never exceeded.
    pub closed spec fn wf(&self) -> bool {
        self.concurrency >= 1 && self.in_flight <= self.concurrency as usize
    }

    /// A handler with no work in flight. The ceiling must be positive:
    /// with a ceiling of zero no file could ever be admitted.
    pub fn new(profile: Profile, concurrency: u8) -> (r: Handler)
        requires
            concurrency >= 1,
        ensures
            r.wf(),
            r.task_count() == 0,
            r.spec_profile() == profile,
            r.spec_concurrency() == concurrency,
    {
        Handler { profile, concurrency, in_flight: 0 }
    }

    /// Admission control: a new per-file task may start only while fewer
    /// than `concurrency` are in flight; otherwise the caller must wait
    /// for a completion first.
    pub fn try_admit(&mut self) -> (r: bool)
        requires
            old(self).wf(),
        ensures
            final(self).wf(),
            final(self).spec_profile() == old(self).spec_profile(),
            final(self).spec_concurrency() == old(self).spec_concurrency(),
            r == (old(self).task_count() < old(self).spec_concurrency() as nat),
            r ==> final(self).task_count() == old(self).task_count() + 1,
            !r ==> final(self).task_count() == old(self).task_count(),
    {
        if self.in_flight < self.concurrency as usize {
            self.in_flight = self.in_flight + 1;
            true
        } else {
            false
        }
    }

    /// One in-flight task finished and frees its slot.
    pub fn task_done(&mut self)
        requires
            old(self).wf(),
            old(self).task_count() > 0,
        ensures
            final(self).wf(),
            final(self).spec_profile() == old(self).spec_profile(),
            final(self).spec_concurrency() == old(self).spec_concurrency(),
            final(self).task_count() == old(self).task_count() - 1,
    {
        self.in_flight = self.in_flight - 1;
    }

    /// Law: the pool is bounded. However admissions and completions
    /// interleave, a well-formed handler never has more than
    /// `concurrency` files mid-flight.
    pub proof fn lemma_pool_bounded(&self)
        requires
            self.wf(),
        ensures
            self.task_count() <= self.spec_concurrency() as nat,
    {
    }

    /// The bounded readiness wait: up to [`READINESS_BUDGET`] parse
    /// attempts, each recorded in `parse_ok`. A file that vanished fails
    /// fast as disappeared; one that stays but never parses exhausts the
    /// budget and fails as not a valid document.
    pub fn wait_for_document(fs: &FsState, file: &FileObject, parse_ok: &Vec<bool>) -> (r: Result<
        (),
        Error,
    >)
        requires
            fs.wf(),
        ensures
            ({
                let path = file.spec_path_at(file.current_location);
                if !fs@.contains_key(path) {
                    r matches Err(e) && (e matches Error::FileDisappearedError(p) && p@ == path)
                } else if parse_succeeds_within(parse_ok@, READINESS_BUDGET as int) {
                    r is Ok
                } else {
                    r == Err::<(), Error>(Error::NotValidPdfError)
                }
            }),
    {
        let path = file.get_path();
        let present = fs.exists_file(&path);
        let mut attempt: usize = 0;
        while attempt < READINESS_BUDGET
            invariant
                attempt <= READINESS_BUDGET,
                attempt > 0 ==> present,
                forall|i: int|
                    0 <= i < attempt ==> !(present && i < parse_ok@.len() && parse_ok@[i]),
            decreases READINESS_BUDGET - attempt,
        {
            let parsed = present && attempt < parse_ok.len() && parse_ok[attempt];
            if parsed {
                return Ok(());
            }
            if !present {
                return Err(Error::FileDisappearedError(path));
            }
            attempt = attempt + 1;
        }
        Err(Error::NotValidPdfError)
    }

    /// The pipeline stages an adopted file runs through, from readiness
    /// wait to the move into `Processed`. The outcomes of the outside
    /// collaborators stand as arguments: the parse attempts of the
    /// readiness wait, the classification call's result, and whether the
    /// metadata-rewrite transform succeeded. Failure leaves the file
    /// where it last successfully landed; routing to `Error` is the
    /// caller's duty.
    pub fn handle_file_processing(
        fs: &mut FsState,
        file: &mut FileObject,
        parse_ok: &Vec<bool>,
        classification: Result<DocumentData, Error>,
        rewrite_ok: bool,
    ) -> (r: Result<(), Error>)
        requires
            old(fs).wf(),
            distinct_roots(old(file).paths),
            no_slash(old(file).filename@),
            old(file).filename@.len() > 0,
            old(file).current_location == Location::Inbox,
            forall|l: Location|
                l != Location::Inbox ==> !old(fs)@.contains_key(
                    #[trigger] old(file).spec_path_at(l),
                ),
        ensures
            final(fs).wf(),
            final(file).paths == old(file).paths,
            final(file).filename == old(file).filename,
            success_owed(
                old(fs)@,
                old(file).paths,
                old(file).filename@,
                parse_ok@,
                classification,
                rewrite_ok,
            ) ==> r is Ok,
            ({
                let ip = old(file).spec_path_at(Location::Inbox);
                let tp = old(file).spec_path_at(Location::Transit);
                let pp = old(file).spec_path_at(Location::Processed);
                let ep = old(file).spec_path_at(Location::Error);
                let present = old(fs)@.contains_key(ip);
                let tag = old(fs)@[ip];
                let parses = parse_succeeds_within(parse_ok@, READINESS_BUDGET as int);
                match r {
                    Ok(_) => {
                        &&& is_supported_path(ip) && present && parses
                        &&& classification is Ok && rewrite_ok
                        &&& final(file).current_location == Location::Processed
                        &&& final(fs)@.contains_key(pp) && final(fs)@[pp] == tag
                        &&& !final(fs)@.contains_key(ip)
                        &&& !final(fs)@.contains_key(tp)
                        &&& !final(fs)@.contains_key(ep)
                        &&& exists|pdst: Seq<char>|
                            artifact_path(old(file).paths, classification->Ok_0, "pdf"@, pdst)
                                && final(fs)@.contains_key(pdst) && final(fs)@[pdst] == tag
                    },
                    Err(e) => {
                        if !is_supported_path(ip) {
                            &&& e matches Error::UnsupportedFileTypeError(p) && p@ == ip
                            &&& final(fs)@ =~= old(fs)@
                            &&& *final(file) == *old(file)
                        } else if !present {
                            &&& e matches Error::FileDisappearedError(p) && p@ == ip
                            &&& final(fs)@ =~= old(fs)@
                            &&& *final(file) == *old(file)
                        } else if !parses {
                            &&& e == Error::NotValidPdfError
                            &&& final(fs)@ =~= old(fs)@
                            &&& *final(file) == *old(file)
                        } else if classification is Err {
                            &&& e == classification->Err_0
                            &&& final(file).current_location == Location::Transit
                            &&& final(fs)@ =~= old(fs)@.remove(ip).insert(tp, tag)
                        } else {
                            &&& (rewrite_ok ==> e matches Error::UnexpectedError(_))
                            &&& (!rewrite_ok ==> (e matches Error::MetadataOutError(_)
                                || e matches Error::UnexpectedError(_)))
                            &&& final(file).current_location == Location::Transit
                            &&& final(fs)@.contains_key(tp) && final(fs)@[tp] == tag
                            &&& !final(fs)@.contains_key(ip)
                            &&& !final(fs)@.contains_key(ep)
                            &&& !final(fs)@.contains_key(pp)
                        }
                    },
                }
            }),
    {
        let ghost ip = old(file).spec_path_at(Location::Inbox);
        let ghost tp = old(file).spec_path_at(Location::Transit);
        let ghost pp = old(file).spec_path_at(Location::Processed);
        let ghost ep = old(file).spec_path_at(Location::Error);
        let ghost fname = old(file).filename@;
        let ghost owed = success_owed(
            old(fs)@,
            old(file).paths,
            old(file).filename@,
            parse_ok@,
            classification,
            rewrite_ok,
        );
        proof {
            crate::file_object::lemma_file_name_of_join(
                old(file).paths.spec_root(Location::Inbox),
                fname,
            );
            crate::file_object::lemma_file_name_of_join(
                old(file).paths.spec_root(Location::Transit),
                fname,
            );
            lemma_location_paths_distinct(old(file).paths, fname);
        }
        // The settle delay and the parse attempts themselves happen outside;
        // their outcomes stand in `parse_ok`.
        if let Err(e) = FileInfo::new(file.get_path()) {
            return Err(e);
        }
        Handler::wait_for_document(fs, file, parse_ok)?;
        file.rename(fs, Location::Transit, false)?;
        proof {
            assert(spec_file_name(tp) == fname && spec_file_name(ip) == fname);
            assert(crate::file_info::spec_extension(tp) == crate::file_info::spec_extension(ip));
        }
        // The file kept its name across the move, so the repeated type
        // check cannot fail any more.
        let _file_info = match FileInfo::new(file.get_path()) {
            Ok(f) => f,
            Err(_) => {
                proof {
                    assert(false);
                }
                return Err(Error::NotValidPdfError);
            },
        };
        let dd = match classification {
            Ok(dd) => dd,
            Err(e) => {
                return Err(e);
            },
        };
        let subdir = dd.make_path();
        let pdf_name = dd.make_filename("pdf");
        proof {
            lemma_filename_has_dot(dd, "pdf"@);
            if owed {
                let pdf_p = plain_artifact_path(old(file).paths, dd, "pdf"@);
                lemma_artifact_separate(
                    old(file).paths,
                    dd,
                    "pdf"@,
                    pdf_p,
                    Location::Transit,
                    fname,
                );
                assert(!fs@.contains_key(pdf_p));
            }
        }
        let dst_pdf = match file.make_path_with_new_filename(
            fs,
            Location::Outbox,
            &subdir,
            &pdf_name,
        ) {
            Ok(p) => p,
            Err(e) => {
                proof {
                    // Where success is owed, the plain name was free, so
                    // the reservation cannot have failed.
                    if owed {
                        assert(false);
                    }
                }
                return Err(e);
            },
        };
        proof {
            lemma_artifact_separate(old(file).paths, dd, "pdf"@, dst_pdf@, Location::Inbox, fname);
            lemma_artifact_separate(
                old(file).paths,
                dd,
                "pdf"@,
                dst_pdf@,
                Location::Transit,
                fname,
            );
            lemma_artifact_separate(
                old(file).paths,
                dd,
                "pdf"@,
                dst_pdf@,
                Location::Processed,
                fname,
            );
            lemma_artifact_separate(old(file).paths, dd, "pdf"@, dst_pdf@, Location::Error, fname);
        }
        // The move just put the file at the transit path, so it is there.
        let tag = match fs.content_of(&file.get_path()) {
            Some(t) => t,
            None => {
                proof {
                    assert(false);
                }
                return Err(Error::NotValidPdfError);
            },
        };
        if !rewrite_ok {
            return Err(Error::MetadataOutError("metadata rewrite failed".to_owned()));
        }
        // The rewrite transform lands the final document on the reservation.
        let _ = fs.write_file(&dst_pdf, tag);
        if dd.content.is_some() {
            let content_name = dd.make_filename("content");
            proof {
                lemma_filename_has_dot(dd, "content"@);
                if owed {
                    let con_p = plain_artifact_path(old(file).paths, dd, "content"@);
                    lemma_artifact_separate(
                        old(file).paths,
                        dd,
                        "content"@,
                        con_p,
                        Location::Transit,
                        fname,
                    );
                    assert(dst_pdf@ == plain_artifact_path(old(file).paths, dd, "pdf"@));
                    assert(!fs@.contains_key(con_p));
                }
            }
            let content_path = match file.make_path_with_new_filename(
                fs,
                Location::Outbox,
                &subdir,
                &content_name,
            ) {
                Ok(p) => p,
                Err(e) => {
                    proof {
                        if owed {
                            assert(false);
                        }
                    }
                    return Err(e);
                },
            };
            proof {
                if owed {
                    assert(content_path@ == plain_artifact_path(old(file).paths, dd, "content"@));
                }
            }
            proof {
                lemma_artifact_separate(old(file).paths, dd, "content"@, content_path@, Location::Inbox, fname);
                lemma_artifact_separate(old(file).paths, dd, "content"@, content_path@, Location::Transit, fname);
                lemma_artifact_separate(old(file).paths, dd, "content"@, content_path@, Location::Processed, fname);
                lemma_artifact_separate(old(file).paths, dd, "content"@, content_path@, Location::Error, fname);
            }
        }
        let summary_name = dd.make_filename("summary");
        proof {
            lemma_filename_has_dot(dd, "summary"@);
            if owed {
                let sum_p = plain_artifact_path(old(file).paths, dd, "summary"@);
                lemma_artifact_separate(
                    old(file).paths,
                    dd,
                    "summary"@,
                    sum_p,
                    Location::Transit,
                    fname,
                );
                assert(dst_pdf@ == plain_artifact_path(old(file).paths, dd, "pdf"@));
                assert(!fs@.contains_key(sum_p));
            }
        }
        let summary_path = match file.make_path_with_new_filename(
            fs,
            Location::Outbox,
            &subdir,
            &summary_name,
        ) {
            Ok(p) => p,
            Err(e) => {
                proof {
                    if owed {
                        assert(false);
                    }
                }
                return Err(e);
            },
        };
        proof {
            lemma_artifact_separate(old(file).paths, dd, "summary"@, summary_path@, Location::Inbox, fname);
            lemma_artifact_separate(old(file).paths, dd, "summary"@, summary_path@, Location::Transit, fname);
            lemma_artifact_separate(old(file).paths, dd, "summary"@, summary_path@, Location::Processed, fname);
            lemma_artifact_separate(old(file).paths, dd, "summary"@, summary_path@, Location::Error, fname);
        }
        file.rename(fs, Location::Processed, false)?;
        proof {
            assert(artifact_path(old(file).paths, dd, "pdf"@, dst_pdf@));
            assert(fs@.contains_key(dst_pdf@));
            assert(fs@[dst_pdf@] == tag);
        }
        Ok(())
    }

    /// One file's whole journey: adoption, the pipeline stages, and — on
    /// any pipeline failure — the best-effort move to the error location,
    /// after which the original failure is surfaced. The file ends in
    /// `Processed` on success, in `Error` on a pipeline failure, and is
    /// left untouched where it was never adopted or had already vanished.
    pub fn handle_file_transit(
        fs: &mut FsState,
        paths: Paths,
        filepath: String,
        parse_ok: &Vec<bool>,
        classification: Result<DocumentData, Error>,
        rewrite_ok: bool,
    ) -> (r: Result<(), Error>)
        requires
            old(fs).wf(),
            distinct_roots(paths),
        ensures
            final(fs).wf(),
            ({
                let fname = spec_file_name(filepath@);
                (fname.len() > 0 && !(exists|l: Location|
                    l != Location::Inbox && old(fs)@.contains_key(
                        #[trigger] path_join(paths.spec_root(l), fname),
                    )) && success_owed(
                    old(fs)@,
                    paths,
                    fname,
                    parse_ok@,
                    classification,
                    rewrite_ok,
                )) ==> r is Ok
            }),
            ({
                let fname = spec_file_name(filepath@);
                let ip = path_join(paths.spec_root(Location::Inbox), fname);
                let tp = path_join(paths.spec_root(Location::Transit), fname);
                let pp = path_join(paths.spec_root(Location::Processed), fname);
                let ep = path_join(paths.spec_root(Location::Error), fname);
                let present = old(fs)@.contains_key(ip);
                let tag = old(fs)@[ip];
                let collision = exists|l: Location|
                    l != Location::Inbox && old(fs)@.contains_key(
                        #[trigger] path_join(paths.spec_root(l), fname),
                    );
                let supported = is_supported_path(ip);
                let parses = parse_succeeds_within(parse_ok@, READINESS_BUDGET as int);
                match r {
                    Ok(_) => {
                        &&& fname.len() > 0 && !collision && supported && present && parses
                        &&& classification is Ok && rewrite_ok
                        &&& final(fs)@.contains_key(pp) && final(fs)@[pp] == tag
                        &&& !final(fs)@.contains_key(ip)
                        &&& !final(fs)@.contains_key(tp)
                        &&& !final(fs)@.contains_key(ep)
                        &&& exists|pdst: Seq<char>|
                            artifact_path(paths, classification->Ok_0, "pdf"@, pdst)
                                && final(fs)@.contains_key(pdst) && final(fs)@[pdst] == tag
                    },
                    Err(e) => {
                        if fname.len() == 0 {
                            &&& e matches Error::UnsupportedFileTypeError(p) && p@ == filepath@
                            &&& final(fs)@ =~= old(fs)@
                        } else if collision {
                            &&& e matches Error::FileExists(p) && p@ == filepath@
                            &&& final(fs)@ =~= old(fs)@
                        } else if !supported {
                            &&& e matches Error::UnsupportedFileTypeError(p) && p@ == ip
                            &&& (present ==> final(fs)@ =~= old(fs)@.remove(ip).insert(ep, tag))
                            &&& (!present ==> final(fs)@ =~= old(fs)@)
                        } else if !present {
                            &&& e matches Error::FileDisappearedError(p) && p@ == ip
                            &&& final(fs)@ =~= old(fs)@
                        } else if !parses {
                            &&& e == Error::NotValidPdfError
                            &&& final(fs)@ =~= old(fs)@.remove(ip).insert(ep, tag)
                        } else if classification is Err {
                            &&& e == classification->Err_0
                            &&& final(fs)@ =~= old(fs)@.remove(ip).insert(ep, tag)
                        } else {
                            &&& (rewrite_ok ==> e matches Error::UnexpectedError(_))
                            &&& (!rewrite_ok ==> (e matches Error::MetadataOutError(_)
                                || e matches Error::UnexpectedError(_)))
                            &&& final(fs)@.contains_key(ep) && final(fs)@[ep] == tag
                            &&& !final(fs)@.contains_key(ip)
                            &&& !final(fs)@.contains_key(tp)
                            &&& !final(fs)@.contains_key(pp)
                        }
                    },
                }
            }),
    {
        proof {
            crate::file_object::lemma_file_name_no_slash(filepath@);
        }
        let mut file = match FileObject::new(paths, filepath, fs) {
            Ok(f) => f,
            Err(e) => {
                return Err(e);
            },
        };
        proof {
            lemma_location_paths_distinct(file.paths, file.filename@);
            assert forall|l: Location| l != Location::Inbox implies !old(fs)@.contains_key(
                #[trigger] path_join(paths.spec_root(l), spec_file_name(filepath@)),
            ) by {
                assert(!old(fs)@.contains_key(file.spec_path_at(l)));
            }
        }
        match Self::handle_file_processing(fs, &mut file, parse_ok, classification, rewrite_ok) {
            Ok(()) => Ok(()),
            Err(e) => {
                let _ = file.rename(fs, Location::Error, false);
                Err(e)
            },
        }
    }
}

} // verus!
