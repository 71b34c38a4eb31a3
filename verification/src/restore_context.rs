//! The context of a restore: files are read in the backup tree and written
//! into the user's directories.

use vstd::prelude::*;
use crate::context::{glob_pattern, glob_text, pair_at_match, pair_at_sub, Context, PairView};
use crate::path::{all_under, joined, path_of, under, Location, LocationView};
use crate::platform::{Platform, PlatformView};

verus! {

/// Where a restore stands: `source` in the backup tree, `target` in the real filesystem.
#[derive(Debug, PartialEq, Eq)]
pub struct RestoreContext {
    pub source: Location,
    pub target: Location,
}

impl View for RestoreContext {
    type V = PairView;

    open spec fn view(&self) -> PairView {
        PairView { source: self.source@, target: self.target@ }
    }
}

/// The restore context in a well-known directory: `name` below the old
/// source, and the directory itself as the target.
pub open spec fn restore_at(v: PairView, directory: Option<LocationView>, name: Seq<char>) -> Option<PairView> {
    match directory {
        Some(d) => Some(PairView { source: joined(v.source, path_of(name)), target: d }),
        None => None,
    }
}

impl RestoreContext {
    /// A restore out of the backup tree `source_dir`, with nothing chosen yet to write to.
    pub fn new(source_dir: Location) -> (r: Self)
        ensures
            r@.source == source_dir@,
            r@.target == (LocationView { absolute: false, parts: Seq::empty() }),
    {
        Self { source: source_dir, target: Location::new() }
    }

    fn enter(&self, directory: &Option<Location>, name: &str) -> (r: Option<Self>)
        ensures
            crate::context::opt_context_view(r) == restore_at(self@, crate::platform::opt_location_view(*directory), name@),
    {
        match directory {
            Some(d) => Some(Self { source: self.source.sub(name), target: d.duplicate() }),
            None => None,
        }
    }
}

impl Context for RestoreContext {
    type Current = (Location, Location);

    open spec fn current_of(v: PairView) -> (LocationView, LocationView) {
        (v.source, v.target)
    }

    open spec fn at_home(v: PairView, platform: PlatformView) -> Option<PairView> {
        restore_at(v, platform.home, "home"@)
    }

    open spec fn at_config(v: PairView, platform: PlatformView) -> Option<PairView> {
        restore_at(v, platform.config, "config"@)
    }

    open spec fn at_local(v: PairView, platform: PlatformView) -> Option<PairView> {
        restore_at(v, platform.local, "local"@)
    }

    open spec fn at_sub(v: PairView, name: Seq<char>) -> PairView {
        pair_at_sub(v, name)
    }

    open spec fn glob_of(v: PairView, pattern: Seq<char>) -> Seq<char> {
        glob_text(v.source, pattern)
    }

    open spec fn covers(v: PairView, found: LocationView) -> bool {
        under(found, v.source)
    }

    open spec fn at_match(v: PairView, found: LocationView) -> PairView {
        pair_at_match(v, found)
    }

    /// The source and the target.
    fn current(&self) -> (r: (Location, Location)) {
        (self.source.duplicate(), self.target.duplicate())
    }

    fn duplicate(&self) -> (r: Self) {
        Self { source: self.source.duplicate(), target: self.target.duplicate() }
    }

    /// Reads below `home` in the backup tree, writes in the user's home directory.
    fn home(&self, platform: &Platform) -> (r: Option<Self>) {
        self.enter(&platform.home, "home")
    }

    /// Reads below `config` in the backup tree, writes in the user's configuration directory.
    fn config(&self, platform: &Platform) -> (r: Option<Self>) {
        self.enter(&platform.config, "config")
    }

    /// Reads below `local` in the backup tree, writes in the user's local data directory.
    fn local(&self, platform: &Platform) -> (r: Option<Self>) {
        self.enter(&platform.local, "local")
    }

    fn sub(&self, name: &str) -> (r: Self) {
        Self { source: self.source.sub(name), target: self.target.sub(name) }
    }

    /// The pattern is matched below the source.
    fn glob(&self, pattern: &str) -> (r: String) {
        glob_pattern(&self.source, pattern)
    }

    fn covered(&self, found: &Vec<Location>) -> (r: bool) {
        all_under(found, &self.source)
    }

    /// One child for each match: the match is its source, and its target lies
    /// below this target as the match lies below this source.
    fn search(&self, found: &Vec<Location>) -> (r: Vec<Self>) {
        let mut children: Vec<Self> = Vec::new();
        let mut i: usize = 0;
        while i < found.len()
            invariant
                i <= found@.len(),
                children@.len() == i,
                forall|j: int| 0 <= j < found@.len() ==> under(#[trigger] found@[j]@, self@.source),
                forall|j: int| 0 <= j < i ==> (#[trigger] children@[j])@ == pair_at_match(self@, found@[j]@),
            decreases found@.len() - i,
        {
            let rest = found[i].strip_prefix(&self.source);
            assert(under(found@[i as int]@, self@.source));
            match rest {
                Some(rest) => {
                    children.push(Self { source: found[i].duplicate(), target: self.target.join(&rest) });
                },
                None => {},
            }
            i += 1;
        }
        children
    }
}

} // verus!
