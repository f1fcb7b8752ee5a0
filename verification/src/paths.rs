//! Maps a profile's root directory and a [`Location`] to concrete
//! filesystem paths, honouring per-profile location-name overrides.

use vstd::prelude::*;

verus! {

/// The named role a tracked file currently occupies. Each role maps to
/// one subdirectory under a profile's root.
#[derive(Clone, Copy, Debug, PartialEq, Eq, Structural)]
pub enum Location {
    Inbox,
    Outbox,
    Transit,
    Processed,
    Error,
}

/// The default subdirectory name of a location: its name, lower-cased.
pub open spec fn default_location_name(location: Location) -> Seq<char> {
    match location {
        Location::Inbox => "inbox"@,
        Location::Outbox => "outbox"@,
        Location::Transit => "transit"@,
        Location::Processed => "processed"@,
        Location::Error => "error"@,
    }
}

/// Joining a directory path and a relative name with the path separator.
pub open spec fn path_join(dir: Seq<char>, name: Seq<char>) -> Seq<char> {
    dir + "/"@ + name
}

impl Location {
    /// The lower-cased name of the location, used as its default
    /// subdirectory name.
    pub fn lowercase_name(&self) -> (r: String)
        ensures
            r@ == default_location_name(*self),
    {
        match self {
            Location::Inbox => "inbox".to_owned(),
            Location::Outbox => "outbox".to_owned(),
            Location::Transit => "transit".to_owned(),
            Location::Processed => "processed".to_owned(),
            Location::Error => "error".to_owned(),
        }
    }

    /// All five locations, in declaration order.
    pub fn all() -> (r: Vec<Location>)
        ensures
            r@ == seq![
                Location::Inbox,
                Location::Outbox,
                Location::Transit,
                Location::Processed,
                Location::Error,
            ],
    {
        let mut v: Vec<Location> = Vec::new();
        v.push(Location::Inbox);
        v.push(Location::Outbox);
        v.push(Location::Transit);
        v.push(Location::Processed);
        v.push(Location::Error);
        proof {
            assert(v@ =~= seq![
                Location::Inbox,
                Location::Outbox,
                Location::Transit,
                Location::Processed,
                Location::Error,
            ]);
        }
        v
    }
}

/// Per-profile overrides of the subdirectory name of each location.
/// An absent entry falls back to the lower-cased location name.
#[derive(Clone, Debug)]
pub struct LocationNames {
    pub inbox: Option<String>,
    pub outbox: Option<String>,
    pub transit: Option<String>,
    pub processed: Option<String>,
    pub error: Option<String>,
}

impl LocationNames {
    /// The override recorded for a location, if any.
    pub open spec fn override_for(&self, location: Location) -> Option<String> {
        match location {
            Location::Inbox => self.inbox,
            Location::Outbox => self.outbox,
            Location::Transit => self.transit,
            Location::Processed => self.processed,
            Location::Error => self.error,
        }
    }

    /// A mapping with no overrides: every location keeps its default name.
    pub fn empty() -> (r: LocationNames)
        ensures
            forall|l: Location| r.override_for(l) is None,
    {
        LocationNames {
            inbox: None,
            outbox: None,
            transit: None,
            processed: None,
            error: None,
        }
    }
}

/// `s` contains no path separator.
pub open spec fn no_slash(s: Seq<char>) -> bool {
    forall|i: int| 0 <= i < s.len() ==> s[i] != '/'
}

/// The five location names resolve to pairwise distinct, separator-free
/// subdirectory names — the shape every profile's tree must have.
pub open spec fn distinct_roots(paths: Paths) -> bool {
    &&& forall|l: Location| no_slash(#[trigger] resolved_location_name(paths.mapping(), l))
    &&& forall|l1: Location, l2: Location|
        l1 != l2 ==> resolved_location_name(paths.mapping(), l1) != resolved_location_name(
            paths.mapping(),
            l2,
        )
}

/// With no overrides, the five default names are separator-free and
/// pairwise distinct, so the tree has the shape the pipeline asks for.
pub proof fn lemma_default_roots_distinct(paths: Paths)
    requires
        forall|l: Location| paths.mapping().override_for(l) is None,
    ensures
        distinct_roots(paths),
{
    reveal_strlit("inbox");
    reveal_strlit("outbox");
    reveal_strlit("transit");
    reveal_strlit("processed");
    reveal_strlit("error");
    assert forall|l: Location| no_slash(#[trigger] resolved_location_name(paths.mapping(), l)) by {
        assert(paths.mapping().override_for(l) is None);
        match l {
            Location::Inbox => assert(no_slash("inbox"@)),
            Location::Outbox => assert(no_slash("outbox"@)),
            Location::Transit => assert(no_slash("transit"@)),
            Location::Processed => assert(no_slash("processed"@)),
            Location::Error => assert(no_slash("error"@)),
        }
    }
    assert("inbox"@[0] == 'i' && "error"@[0] == 'e');
    assert forall|l1: Location, l2: Location| l1 != l2 implies resolved_location_name(
        paths.mapping(),
        l1,
    ) != resolved_location_name(paths.mapping(), l2) by {
        assert(paths.mapping().override_for(l1) is None);
        assert(paths.mapping().override_for(l2) is None);
        if default_location_name(l1) == default_location_name(l2) {
            assert(default_location_name(l1).len() == default_location_name(l2).len());
            assert(default_location_name(l1)[0] == default_location_name(l2)[0]);
        }
    }
}

/// Paths under distinctly named subdirectories of one root never collide,
/// whatever stands below the subdirectory.
pub proof fn lemma_path_separation(
    root: Seq<char>,
    a: Seq<char>,
    b: Seq<char>,
    x: Seq<char>,
    y: Seq<char>,
)
    requires
        a != b,
        no_slash(a),
        no_slash(b),
    ensures
        path_join(root, a) + "/"@ + x != path_join(root, b) + "/"@ + y,
{
    reveal_strlit("/");
    let slash = "/"@;
    assert(slash.len() == 1 && slash[0] == '/');
    let s1 = path_join(root, a) + slash + x;
    let s2 = path_join(root, b) + slash + y;
    if s1 == s2 {
        let rl = root.len() as int;
        if a.len() == b.len() {
            assert forall|i: int| 0 <= i < a.len() implies a[i] == b[i] by {
                assert(s1[rl + 1 + i] == a[i]);
                assert(s2[rl + 1 + i] == b[i]);
            }
            assert(a =~= b);
        } else if a.len() < b.len() {
            let k = rl + 1 + a.len() as int;
            assert(s1[k] == '/');
            assert(s2[k] == b[a.len() as int]);
        } else {
            let k = rl + 1 + b.len() as int;
            assert(s2[k] == '/');
            assert(s1[k] == a[b.len() as int]);
        }
    }
}

/// The concrete name a location resolves to under a given mapping.
pub open spec fn resolved_location_name(mapping: LocationNames, location: Location) -> Seq<char> {
    match mapping.override_for(location) {
        Some(name) => name@,
        None => default_location_name(location),
    }
}

/// A profile's root directory together with its location-name mapping.
/// Pure, stateless value type: it only computes paths.
#[derive(Clone, Debug)]
pub struct Paths {
    pub path: String,
    pub location_mapping: LocationNames,
}

impl Paths {
    /// The mapping this value resolves location names with.
    pub open spec fn mapping(&self) -> LocationNames {
        self.location_mapping
    }

    /// The full path of a location's subdirectory under this root.
    pub open spec fn spec_root(&self, location: Location) -> Seq<char> {
        path_join(self.path@, resolved_location_name(self.mapping(), location))
    }

    pub fn new(path: String, location_mapping: LocationNames) -> (r: Paths)
        ensures
            r.path@ == path@,
            r.mapping() == location_mapping,
    {
        Paths { path, location_mapping }
    }

    /// The same mapping, rooted at a different directory.
    pub fn with_path(self, path: String) -> (r: Paths)
        ensures
            r.path@ == path@,
            r.mapping() == self.mapping(),
    {
        Paths { path, location_mapping: self.location_mapping }
    }

    /// The subdirectory a location maps to, as a full path.
    pub fn make_root(&self, location: Location) -> (r: String)
        ensures
            r@ == self.spec_root(location),
    {
        let name = self.get_location_name(location);
        let r = self.path.clone().concat("/").concat(name.as_str());
        r
    }

    /// Reserves a fresh path for `filename` directly under a location's
    /// subdirectory, never overwriting an existing file.
    pub fn make_path_with_filename(
        &self,
        fs: &mut crate::fs_state::FsState,
        location: Location,
        filename: String,
    ) -> (r: Result<String, crate::error::Error>)
        requires
            old(fs).wf(),
            crate::util::has_char_from(filename@, '.', 0),
        ensures
            final(fs).wf(),
            match r {
                Ok(p) => !old(fs)@.contains_key(p@) && final(fs)@ =~= old(fs)@.insert(
                    p@,
                    crate::fs_state::PLACEHOLDER,
                ),
                Err(_) => final(fs)@ =~= old(fs)@,
            },
            !old(fs)@.contains_key(
                path_join(self.spec_root(location), crate::util::normalized_filename(filename@)),
            ) ==> (r matches Ok(p) && p@ == path_join(
                self.spec_root(location),
                crate::util::normalized_filename(filename@),
            )),
    {
        let root = self.make_root(location);
        crate::util::make_unique_path(fs, &root, &filename)
    }

    /// The name of a location's subdirectory: the profile's override if
    /// one is recorded, the lower-cased location name otherwise.
    pub fn get_location_name(&self, location: Location) -> (r: String)
        ensures
            r@ == resolved_location_name(self.mapping(), location),
    {
        let over = match location {
            Location::Inbox => &self.location_mapping.inbox,
            Location::Outbox => &self.location_mapping.outbox,
            Location::Transit => &self.location_mapping.transit,
            Location::Processed => &self.location_mapping.processed,
            Location::Error => &self.location_mapping.error,
        };
        match over {
            Some(name) => name.clone(),
            None => location.lowercase_name(),
        }
    }
}

} // verus!
