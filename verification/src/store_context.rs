//! The context of a store: files are read in the user's directories and
//! written into the backup tree.

use vstd::prelude::*;
use crate::context::{glob_pattern, glob_text, pair_at_match, pair_at_sub, Context, PairView};
use crate::path::{all_under, joined, path_of, under, Location, LocationView};
use crate::platform::{Platform, PlatformView};

verus! {

/// Where a store stands: `source` in the real filesystem, `target` in the backup tree.
#[derive(Debug, PartialEq, Eq)]
pub struct StoreContext {
    pub source: Location,
    pub target: Location,
}

impl View for StoreContext {
    type V = PairView;

    open spec fn view(&self) -> PairView {
        PairView { source: self.source@, target: self.target@ }
    }
}

/// The store context in a well-known directory: the directory itself as the
/// source, and `name` below the old target.
pub open spec fn store_at(v: PairView, directory: Option<LocationView>, name: Seq<char>) -> Option<PairView> {
    match directory {
        Some(d) => Some(PairView { source: d, target: joined(v.target, path_of(name)) }),
        None => None,
    }
}

impl StoreContext {
    /// A store into the backup tree `target_dir`, with nothing chosen yet to read from.
    pub fn new(target_dir: Location) -> (r: Self)
        ensures
            r@.target == target_dir@,
            r@.source == (LocationView { absolute: false, parts: Seq::empty() }),
    {
        Self { source: Location::new(), target: target_dir }
    }

    fn enter(&self, directory: &Option<Location>, name: &str) -> (r: Option<Self>)
        ensures
            crate::context::opt_context_view(r) == store_at(self@, crate::platform::opt_location_view(*directory), name@),
    {
        match directory {
            Some(d) => Some(Self { source: d.duplicate(), target: self.target.sub(name) }),
            None => None,
        }
    }
}

impl Context for StoreContext {
    type Current = (Location, Location);

    open spec fn current_of(v: PairView) -> (LocationView, LocationView) {
        (v.source, v.target)
    }

    open spec fn at_home(v: PairView, platform: PlatformView) -> Option<PairView> {
        store_at(v, platform.home, "home"@)
    }

    open spec fn at_config(v: PairView, platform: PlatformView) -> Option<PairView> {
        store_at(v, platform.config, "config"@)
    }

    open spec fn at_local(v: PairView, platform: PlatformView) -> Option<PairView> {
        store_at(v, platform.local, "local"@)
    }

    open spec fn at_sub(v: PairView, name: Seq<char>) -> PairView {
        pair_at_sub(v, name)
    }

    open spec fn glob_of(v: PairView, pattern: Seq<char>) -> Seq<char> {
        glob_text(v.source, pattern)
    }

    open spec fn covers(v: PairView, found: LocationView) -> bool {
        under(found, v.source)
    }

    open spec fn at_match(v: PairView, found: LocationView) -> PairView {
        pair_at_match(v, found)
    }

    /// The source and the target.
    fn current(&self) -> (r: (Location, Location)) {
        (self.source.duplicate(), self.target.duplicate())
    }

    fn duplicate(&self) -> (r: Self) {
        Self { source: self.source.duplicate(), target: self.target.duplicate() }
    }

    /// Reads in the user's home directory, writes below `home` in the backup tree.
    fn home(&self, platform: &Platform) -> (r: Option<Self>) {
        self.enter(&platform.home, "home")
    }

    /// Reads in the user's configuration directory, writes below `config` in the backup tree.
    fn config(&self, platform: &Platform) -> (r: Option<Self>) {
        self.enter(&platform.config, "config")
    }

    /// Reads in the user's local data directory, writes below `local` in the backup tree.
    fn local(&self, platform: &Platform) -> (r: Option<Self>) {
        self.enter(&platform.local, "local")
    }

    fn sub(&self, name: &str) -> (r: Self) {
        Self { source: self.source.sub(name), target: self.target.sub(name) }
    }

    /// The pattern is matched below the source.
    fn glob(&self, pattern: &str) -> (r: String) {
        glob_pattern(&self.source, pattern)
    }

    fn covered(&self, found: &Vec<Location>) -> (r: bool) {
        all_under(found, &self.source)
    }

    /// One child for each match: the match is its source, and its target lies
    /// below this target as the match lies below this source.
    fn search(&self, found: &Vec<Location>) -> (r: Vec<Self>) {
        let mut children: Vec<Self> = Vec::new();
        let mut i: usize = 0;
        while i < found.len()
            invariant
                i <= found@.len(),
                children@.len() == i,
                forall|j: int| 0 <= j < found@.len() ==> under(#[trigger] found@[j]@, self@.source),
                forall|j: int| 0 <= j < i ==> (#[trigger] children@[j])@ == pair_at_match(self@, found@[j]@),
            decreases found@.len() - i,
        {
            let rest = found[i].strip_prefix(&self.source);
            assert(under(found@[i as int]@, self@.source));
            match rest {
                Some(rest) => {
                    children.push(Self { source: found[i].duplicate(), target: self.target.join(&rest) });
                },
                None => {},
            }
            i += 1;
        }
        children
    }
}

} // verus!
