//! One independently configured watch target: its display name, its root
//! directory with location-name overrides, the classification service's
//! parameters, and the polling flag.
//!
//! Profiles are loaded from configuration files by the surrounding
//! process; here stand the values themselves and the paths they derive.

use vstd::prelude::*;

use crate::error::Error;
use crate::paths::LocationNames;
use crate::paths::Paths;
use crate::paths::path_join;

verus! {

/// The temperature used where a profile names none: 100, standing for 1.0.
pub fn default_temperature() -> (r: u8)
    ensures
        r == 100,
{
    100
}

/// The classification service's parameters.
#[derive(Clone, Debug)]
pub struct ChatGptProfile {
    /// The model queried.
    pub model: String,
    /// Sampling temperature, in hundredths.
    pub temperature: u8,
    /// Extra system instructions appended to the built-in ones.
    pub additional_instructions: Vec<String>,
}

impl ChatGptProfile {
    /// The parameters used where a profile names none.
    pub fn new_default() -> (r: ChatGptProfile)
        ensures
            r.model@ == "gpt-4o"@,
            r.temperature == 100,
            r.additional_instructions@.len() == 0,
    {
        ChatGptProfile {
            model: "gpt-4o".to_owned(),
            temperature: default_temperature(),
            additional_instructions: Vec::new(),
        }
    }
}

impl Default for ChatGptProfile {
    fn default() -> (r: ChatGptProfile)
        ensures
            r.model@ == "gpt-4o"@,
            r.temperature == 100,
            r.additional_instructions@.len() == 0,
    {
        ChatGptProfile::new_default()
    }
}

/// One watch target's full configuration.
#[derive(Clone, Debug)]
pub struct Profile {
    /// The profile's display name; also names its configuration file.
    pub name: String,
    /// The classification service's parameters.
    pub chatgpt: ChatGptProfile,
    /// The root directory and location names watched for this profile.
    pub paths: Paths,
    /// Poll-driven instead of event-driven filesystem watching.
    pub polling: bool,
}

/// Relies on dirs::home_dir, which consults only the environment; nothing
/// is promised of the result.
#[verifier::external_body]
fn home_dir() -> (r: Option<String>)
{
    dirs::home_dir().map(|p| p.to_string_lossy().into_owned())
}

/// Relies on dirs::config_local_dir, which consults only the environment;
/// nothing is promised of the result.
#[verifier::external_body]
fn config_local_dir() -> (r: Option<String>)
{
    dirs::config_local_dir().map(|p| p.to_string_lossy().into_owned())
}

/// The default path scheme: `MrDocument` under the home directory, with
/// no location-name overrides; `None` where no home directory is known.
pub fn default_paths() -> (r: Option<Paths>)
    ensures
        r matches Some(p) ==> {
            &&& exists|home: Seq<char>| p.path@ == path_join(home, "MrDocument"@)
            &&& forall|l: crate::paths::Location| p.mapping().override_for(l) is None
        },
{
    match home_dir() {
        Some(home) => {
            let path = crate::util::join_path(home.as_str(), "MrDocument");
            proof {
                assert(path@ == path_join(home@, "MrDocument"@));
            }
            Some(Paths::new(path, LocationNames::empty()))
        },
        None => None,
    }
}

impl Profile {
    /// The configuration used where none is on disk yet: the default
    /// path scheme under the given home directory.
    pub fn new_default(home: &str) -> (r: Profile)
        ensures
            r.name@ == "default"@,
            r.paths.path@ == path_join(home@, "MrDocument"@),
            r.chatgpt.model@ == "gpt-4o"@,
            r.chatgpt.temperature == 100,
            !r.polling,
    {
        Profile {
            name: "default".to_owned(),
            chatgpt: ChatGptProfile::new_default(),
            paths: Paths::new(
                crate::util::join_path(home, "MrDocument"),
                LocationNames::empty(),
            ),
            polling: false,
        }
    }

    /// The same profile, rooted at a different directory.
    pub fn with_path(self, path: String) -> (r: Profile)
        ensures
            r.paths.path@ == path@,
            r.paths.mapping() == self.paths.mapping(),
            r.name == self.name,
            r.chatgpt == self.chatgpt,
            r.polling == self.polling,
    {
        Profile {
            name: self.name,
            chatgpt: self.chatgpt,
            paths: self.paths.with_path(path),
            polling: self.polling,
        }
    }

    /// The name of this profile's configuration file.
    pub fn config_file_name(&self) -> (r: String)
        ensures
            r@ == self.name@ + ".yaml"@,
    {
        self.name.clone().concat(".yaml")
    }

    /// The directory profile configuration files live in, under the
    /// user's configuration directory; fails where none is known.
    pub fn get_profile_dir() -> (r: Result<String, Error>)
        ensures
            match r {
                Ok(p) => exists|base: Seq<char>|
                    p@ == path_join(path_join(base, "MrDocument"@), "profile"@),
                Err(e) => e == Error::SkelError,
            },
    {
        let dir = Self::get_config_dir()?;
        Ok(crate::util::join_path(dir.as_str(), "profile"))
    }

    /// The application's configuration directory; fails where the
    /// platform names none.
    pub fn get_config_dir() -> (r: Result<String, Error>)
        ensures
            match r {
                Ok(p) => exists|base: Seq<char>| p@ == path_join(base, "MrDocument"@),
                Err(e) => e == Error::SkelError,
            },
    {
        match config_local_dir() {
            Some(base) => {
                let p = crate::util::join_path(base.as_str(), "MrDocument");
                proof {
                    assert(p@ == path_join(base@, "MrDocument"@));
                }
                Ok(p)
            },
            None => Err(Error::SkelError),
        }
    }
}

} // verus!
