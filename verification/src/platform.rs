//! The well-known directories of the user who runs the tool.

use vstd::prelude::*;
use crate::path::{path_of, Location, LocationView};

verus! {

/// The user's home, configuration and local data directories, as far as the
/// platform knows them.
#[derive(Debug, PartialEq, Eq)]
pub struct Platform {
    pub home: Option<Location>,
    pub config: Option<Location>,
    pub local: Option<Location>,
}

/// Mathematical value of a [`Platform`].
pub struct PlatformView {
    pub home: Option<LocationView>,
    pub config: Option<LocationView>,
    pub local: Option<LocationView>,
}

/// The value of an optional location.
pub open spec fn opt_location_view(location: Option<Location>) -> Option<LocationView> {
    match location {
        Some(l) => Some(l@),
        None => None,
    }
}

/// The location that an optional text names.
pub open spec fn opt_path_of(text: Option<String>) -> Option<LocationView> {
    match text {
        Some(t) => Some(path_of(t@)),
        None => None,
    }
}

/// The platform whose directories the given texts name.
pub open spec fn named_by(home: Option<String>, config: Option<String>, local: Option<String>) -> PlatformView {
    PlatformView { home: opt_path_of(home), config: opt_path_of(config), local: opt_path_of(local) }
}

impl View for Platform {
    type V = PlatformView;

    open spec fn view(&self) -> PlatformView {
        PlatformView {
            home: opt_location_view(self.home),
            config: opt_location_view(self.config),
            local: opt_location_view(self.local),
        }
    }
}

/// `dirs::home_dir`: the home directory of the current user, read from the
/// environment or the user database. Nothing is claimed of the answer; one
/// that is not valid Unicode is given as none.
#[verifier::external_body]
fn home_dir() -> Option<String> {
    dirs::home_dir().and_then(|path| path.to_str().map(String::from))
}

/// `dirs::config_dir`: the configuration directory of the current user, read
/// from the environment. Nothing is claimed of the answer; one that is not
/// valid Unicode is given as none.
#[verifier::external_body]
fn config_dir() -> Option<String> {
    dirs::config_dir().and_then(|path| path.to_str().map(String::from))
}

/// `dirs::data_local_dir`: the local data directory of the current user, read
/// from the environment. Nothing is claimed of the answer; one that is not
/// valid Unicode is given as none.
#[verifier::external_body]
fn data_local_dir() -> Option<String> {
    dirs::data_local_dir().and_then(|path| path.to_str().map(String::from))
}

fn locate(text: Option<String>) -> (r: Option<Location>)
    ensures
        opt_location_view(r) == opt_path_of(text),
{
    match text {
        Some(t) => Some(Location::from_text(t.as_str())),
        None => None,
    }
}

impl Platform {
    /// The platform whose directories are named by the given texts.
    pub fn from_texts(home: Option<String>, config: Option<String>, local: Option<String>) -> (r: Platform)
        ensures
            r@.home == opt_path_of(home),
            r@.config == opt_path_of(config),
            r@.local == opt_path_of(local),
    {
        Platform { home: locate(home), config: locate(config), local: locate(local) }
    }

    /// The directories of the user who runs the program, asked of the
    /// platform now. What the platform answers depends on the environment,
    /// and nothing is said of it. Whatever it answers, each of the three
    /// directories is the location that the answer names, and none where
    /// the platform gave none.
    pub fn detect() -> (r: Platform)
        ensures
            exists|home: Option<String>, config: Option<String>, local: Option<String>|
                r@ == #[trigger] named_by(home, config, local),
    {
        let home = home_dir();
        let config = config_dir();
        let local = data_local_dir();
        let ghost answers = named_by(home, config, local);
        let r = Platform::from_texts(home, config, local);
        assert(r@ == answers);
        r
    }

    /// A copy of the platform.
    pub fn duplicate(&self) -> (r: Platform)
        ensures
            r@ == self@,
    {
        Platform {
            home: copy_location(&self.home),
            config: copy_location(&self.config),
            local: copy_location(&self.local),
        }
    }
}

fn copy_location(location: &Option<Location>) -> (r: Option<Location>)
    ensures
        opt_location_view(r) == opt_location_view(*location),
{
    match location {
        Some(l) => Some(l.duplicate()),
        None => None,
    }
}

} // verus!
