//! The context of a dependency scan: one location in the backup tree, read only.

use vstd::prelude::*;
use crate::context::{glob_pattern, glob_text, Context};
use crate::path::{all_under, joined, path_of, relative_to, under, Location, LocationView};
use crate::platform::{Platform, PlatformView};

verus! {

/// Where a scan stands in the backup tree.
#[derive(Debug, PartialEq, Eq)]
pub struct TargetDirectoryContext {
    pub target: Location,
}

impl View for TargetDirectoryContext {
    type V = LocationView;

    open spec fn view(&self) -> LocationView {
        self.target@
    }
}

impl TargetDirectoryContext {
    /// A scan of the backup tree `target_dir`.
    pub fn new(target_dir: Location) -> (r: Self)
        ensures
            r@ == target_dir@,
    {
        Self { target: target_dir }
    }
}

impl Context for TargetDirectoryContext {
    type Current = Location;

    open spec fn current_of(v: LocationView) -> LocationView {
        v
    }

    open spec fn at_home(v: LocationView, platform: PlatformView) -> Option<LocationView> {
        Some(joined(v, path_of("home"@)))
    }

    open spec fn at_config(v: LocationView, platform: PlatformView) -> Option<LocationView> {
        Some(joined(v, path_of("config"@)))
    }

    open spec fn at_local(v: LocationView, platform: PlatformView) -> Option<LocationView> {
        Some(joined(v, path_of("local"@)))
    }

    open spec fn at_sub(v: LocationView, name: Seq<char>) -> LocationView {
        joined(v, path_of(name))
    }

    open spec fn glob_of(v: LocationView, pattern: Seq<char>) -> Seq<char> {
        glob_text(v, pattern)
    }

    open spec fn covers(v: LocationView, found: LocationView) -> bool {
        under(found, v)
    }

    open spec fn at_match(v: LocationView, found: LocationView) -> LocationView {
        joined(v, relative_to(found, v))
    }

    /// The location in the backup tree.
    fn current(&self) -> (r: Location) {
        self.target.duplicate()
    }

    fn duplicate(&self) -> (r: Self) {
        Self { target: self.target.duplicate() }
    }

    /// Below `home` in the backup tree, whatever the platform.
    fn home(&self, platform: &Platform) -> (r: Option<Self>) {
        Some(Self { target: self.target.sub("home") })
    }

    /// Below `config` in the backup tree, whatever the platform.
    fn config(&self, platform: &Platform) -> (r: Option<Self>) {
        Some(Self { target: self.target.sub("config") })
    }

    /// Below `local` in the backup tree, whatever the platform.
    fn local(&self, platform: &Platform) -> (r: Option<Self>) {
        Some(Self { target: self.target.sub("local") })
    }

    fn sub(&self, name: &str) -> (r: Self) {
        Self { target: self.target.sub(name) }
    }

    fn glob(&self, pattern: &str) -> (r: String) {
        glob_pattern(&self.target, pattern)
    }

    fn covered(&self, found: &Vec<Location>) -> (r: bool) {
        all_under(found, &self.target)
    }

    /// One child for each match, at the place of the match.
    fn search(&self, found: &Vec<Location>) -> (r: Vec<Self>) {
        let mut children: Vec<Self> = Vec::new();
        let mut i: usize = 0;
        while i < found.len()
            invariant
                i <= found@.len(),
                children@.len() == i,
                forall|j: int| 0 <= j < found@.len() ==> under(#[trigger] found@[j]@, self@),
                forall|j: int| 0 <= j < i ==> (#[trigger] children@[j])@ == joined(self@, relative_to(found@[j]@, self@)),
            decreases found@.len() - i,
        {
            let rest = found[i].strip_prefix(&self.target);
            assert(under(found@[i as int]@, self@));
            match rest {
                Some(rest) => {
                    children.push(Self { target: self.target.join(&rest) });
                },
                None => {},
            }
            i += 1;
        }
        children
    }
}

} // verus!
