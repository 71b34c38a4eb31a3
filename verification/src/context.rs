//! Where a walk stands: one location for a scan, a source and a target for a copy.
//!
//! A context is a value. Every navigation step gives a new context and leaves
//! the old one as it was, so the branches of an action tree cannot disturb
//! each other.

use vstd::prelude::*;
use vstd::string::StringExecFns;
use crate::path::{joined, path_of, relative_to, text_of, Location, LocationView};
use crate::platform::{Platform, PlatformView};

verus! {

/// The value of an optional context.
pub open spec fn opt_context_view<C: View>(context: Option<C>) -> Option<C::V> {
    match context {
        Some(c) => Some(c@),
        None => None,
    }
}

/// Mathematical value of a context that tracks a source and a target.
pub struct PairView {
    pub source: LocationView,
    pub target: LocationView,
}

/// The pair that reads where `pair` writes and writes where it reads.
pub open spec fn mirror(pair: PairView) -> PairView {
    PairView { source: pair.target, target: pair.source }
}

/// The text to match on the filesystem for `pattern` below `root`.
pub open spec fn glob_text(root: LocationView, pattern: Seq<char>) -> Seq<char> {
    text_of(root) + seq!['/'] + pattern
}

/// The child of a search for the match `found`: the match itself as the
/// source, and as the target the place below `pair.target` that the match has
/// below `pair.source`.
pub open spec fn pair_at_match(pair: PairView, found: LocationView) -> PairView {
    PairView { source: found, target: joined(pair.target, relative_to(found, pair.source)) }
}

/// The pair one level deeper on both sides.
pub open spec fn pair_at_sub(pair: PairView, name: Seq<char>) -> PairView {
    PairView { source: joined(pair.source, path_of(name)), target: joined(pair.target, path_of(name)) }
}

/// The text to match on the filesystem for `pattern` below `root`.
pub fn glob_pattern(root: &Location, pattern: &str) -> (r: String)
    ensures
        r@ == glob_text(root@, pattern@),
{
    let mut text = root.to_text();
    text.push('/');
    text.append(pattern);
    text
}

/// Navigation over the current location or locations.
///
/// The filesystem is not touched here. A search is made in two steps: `glob`
/// says which pattern to match on disk, and `search` takes what was found
/// there and gives one child context for each match. A match has to lie
/// where the search was made; `covered` tells whether all of them do.
pub trait Context: Sized + View {
    /// What `current` hands out: one location, or a source and a target.
    type Current: View;

    /// The current location or locations.
    spec fn current_of(v: Self::V) -> <Self::Current as View>::V;

    /// The context in the user's home directory; none where the platform knows no such directory.
    spec fn at_home(v: Self::V, platform: PlatformView) -> Option<Self::V>;

    /// The context in the user's configuration directory.
    spec fn at_config(v: Self::V, platform: PlatformView) -> Option<Self::V>;

    /// The context in the user's local data directory.
    spec fn at_local(v: Self::V, platform: PlatformView) -> Option<Self::V>;

    /// The context one level deeper, in `name`.
    spec fn at_sub(v: Self::V, name: Seq<char>) -> Self::V;

    /// The text to match on the filesystem for `pattern`.
    spec fn glob_of(v: Self::V, pattern: Seq<char>) -> Seq<char>;

    /// Whether `found` can be a match of a search made from `v`.
    spec fn covers(v: Self::V, found: LocationView) -> bool;

    /// Every match of the list lies where a search from `v` was made.
    open spec fn all_covered(v: Self::V, found: Seq<Location>) -> bool {
        forall|i: int| 0 <= i < found.len() ==> Self::covers(v, #[trigger] found[i]@)
    }

    /// The child context for the match `found`.
    spec fn at_match(v: Self::V, found: LocationView) -> Self::V;

    fn current(&self) -> (r: Self::Current)
        ensures
            r@ == Self::current_of(self@),
    ;

    fn duplicate(&self) -> (r: Self)
        ensures
            r@ == self@,
    ;

    fn home(&self, platform: &Platform) -> (r: Option<Self>)
        ensures
            opt_context_view(r) == Self::at_home(self@, platform@),
    ;

    fn config(&self, platform: &Platform) -> (r: Option<Self>)
        ensures
            opt_context_view(r) == Self::at_config(self@, platform@),
    ;

    fn local(&self, platform: &Platform) -> (r: Option<Self>)
        ensures
            opt_context_view(r) == Self::at_local(self@, platform@),
    ;

    fn sub(&self, name: &str) -> (r: Self)
        ensures
            r@ == Self::at_sub(self@, name@),
    ;

    fn glob(&self, pattern: &str) -> (r: String)
        ensures
            r@ == Self::glob_of(self@, pattern@),
    ;

    fn covered(&self, found: &Vec<Location>) -> (r: bool)
        ensures
            r == Self::all_covered(self@, found@),
    ;

    fn search(&self, found: &Vec<Location>) -> (r: Vec<Self>)
        requires
            Self::all_covered(self@, found@),
        ensures
            r@.len() == found@.len(),
            forall|i: int| 0 <= i < found@.len() ==> (#[trigger] r@[i])@ == Self::at_match(self@, found@[i]@),
    ;
}

} // verus!
