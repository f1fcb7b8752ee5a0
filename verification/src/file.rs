//! The first, override-free generation of the location path scheme: a
//! bare root directory whose location subdirectories always carry the
//! default, lower-cased names.

use vstd::prelude::*;

use crate::paths::path_join;

verus! {

/// The named role a tracked file currently occupies.
#[derive(Clone, Copy, Debug, PartialEq, Eq, Structural)]
pub enum Location {
    Inbox,
    Outbox,
    Transit,
    Processed,
    Error,
}

/// The fixed subdirectory name of a location: its name, lower-cased.
pub open spec fn location_name(location: Location) -> Seq<char> {
    match location {
        Location::Inbox => "inbox"@,
        Location::Outbox => "outbox"@,
        Location::Transit => "transit"@,
        Location::Processed => "processed"@,
        Location::Error => "error"@,
    }
}

impl Location {
    /// The lower-cased name of the location.
    pub fn lowercase_name(&self) -> (r: String)
        ensures
            r@ == location_name(*self),
    {
        match self {
            Location::Inbox => "inbox".to_owned(),
            Location::Outbox => "outbox".to_owned(),
            Location::Transit => "transit".to_owned(),
            Location::Processed => "processed".to_owned(),
            Location::Error => "error".to_owned(),
        }
    }
}

/// A root directory under which the five locations live.
#[derive(Clone, Debug)]
pub struct Paths {
    pub path: String,
}

impl Paths {
    pub fn new(path: String) -> (r: Paths)
        ensures
            r.path@ == path@,
    {
        Paths { path }
    }

    /// The subdirectory a location maps to, as a full path.
    pub fn make_root(&self, location: Location) -> (r: String)
        ensures
            r@ == path_join(self.path@, location_name(location)),
    {
        self.path.clone().concat("/").concat(location.lowercase_name().as_str())
    }
}

} // verus!
