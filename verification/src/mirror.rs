//! Store and restore are mirrors of each other: led through the same
//! navigation, a restore reads where the store wrote and writes where the
//! store read.

use vstd::prelude::*;
use crate::context::{glob_text, mirror, Context, PairView};
use crate::error::VacuumError;
use crate::executor::{found_of, settled_of, step_of, FrameView, SearchView, StepView, WalkView};
use crate::deps_context::TargetDirectoryContext;
use crate::path::{joined, relative_to, under, LocationView};
use crate::platform::PlatformView;
use crate::restore_context::RestoreContext;
use crate::store_context::StoreContext;

verus! {

/// The pair of an optional pair, mirrored.
pub open spec fn opt_mirror(pair: Option<PairView>) -> Option<PairView> {
    match pair {
        Some(p) => Some(mirror(p)),
        None => None,
    }
}

/// A path that lies below a base is the base joined with what is left of the path.
pub proof fn lemma_join_relative(path: LocationView, base: LocationView)
    requires
        under(path, base),
    ensures
        joined(base, relative_to(path, base)) == path,
{
    let rest = relative_to(path, base);
    if !rest.absolute {
        assert(base.parts + rest.parts =~= path.parts);
    } else {
        assert(rest.parts =~= path.parts);
    }
}

/// What lies at a relative path below a base lies under the base, and that
/// relative path is what is left of it.
pub proof fn lemma_relative_join(base: LocationView, rest: LocationView)
    requires
        !rest.absolute,
    ensures
        under(joined(base, rest), base),
        relative_to(joined(base, rest), base) == rest,
{
    assert((base.parts + rest.parts).skip(base.parts.len() as int) =~= rest.parts);
}

/// Search keeps relative paths: the child for a match that lies at `rest`
/// below the source has its target at `rest` below the target.
pub proof fn lemma_search_relative_path(pair: PairView, rest: LocationView)
    requires
        !rest.absolute,
    ensures
        StoreContext::covers(pair, joined(pair.source, rest)),
        StoreContext::at_match(pair, joined(pair.source, rest)) == (PairView {
            source: joined(pair.source, rest),
            target: joined(pair.target, rest),
        }),
        RestoreContext::covers(pair, joined(pair.source, rest)),
        RestoreContext::at_match(pair, joined(pair.source, rest)) == (PairView {
            source: joined(pair.source, rest),
            target: joined(pair.target, rest),
        }),
{
    lemma_relative_join(pair.source, rest);
}

/// Search keeps relative paths, for every match: the target of the child lies
/// below the target as the match lies below the source.
pub proof fn lemma_search_target(pair: PairView, found: LocationView)
    requires
        under(found, pair.source),
    ensures
        StoreContext::at_match(pair, found).target == joined(pair.target, relative_to(found, pair.source)),
        RestoreContext::at_match(pair, found).target == joined(pair.target, relative_to(found, pair.source)),
        StoreContext::at_match(pair, found).source == found,
        RestoreContext::at_match(pair, found).source == found,
{
}

/// In a scan, the child for a match stands at the match.
pub proof fn lemma_scan_match(v: LocationView, found: LocationView)
    requires
        under(found, v),
    ensures
        TargetDirectoryContext::at_match(v, found) == found,
{
    lemma_join_relative(found, v);
}

/// Entering a well-known directory keeps a store and a restore mirrored.
pub proof fn lemma_mirror_directories(store: PairView, platform: PlatformView)
    ensures
        RestoreContext::at_home(mirror(store), platform) == opt_mirror(StoreContext::at_home(store, platform)),
        RestoreContext::at_config(mirror(store), platform) == opt_mirror(StoreContext::at_config(store, platform)),
        RestoreContext::at_local(mirror(store), platform) == opt_mirror(StoreContext::at_local(store, platform)),
{
}

/// Descending into a named folder keeps a store and a restore mirrored.
pub proof fn lemma_mirror_sub(store: PairView, name: Seq<char>)
    ensures
        RestoreContext::at_sub(mirror(store), name) == mirror(StoreContext::at_sub(store, name)),
{
}

/// A search keeps a store and a restore mirrored: where the store found a
/// match at `rest` below its source, and the restore finds one at `rest`
/// below its own source, the two children are mirrors.
pub proof fn lemma_mirror_search(store: PairView, rest: LocationView)
    requires
        !rest.absolute,
    ensures
        StoreContext::covers(store, joined(store.source, rest)),
        RestoreContext::covers(mirror(store), joined(store.target, rest)),
        RestoreContext::at_match(mirror(store), joined(store.target, rest)) == mirror(
            StoreContext::at_match(store, joined(store.source, rest)),
        ),
{
    lemma_relative_join(store.source, rest);
    lemma_relative_join(store.target, rest);
}

/// The walk of a restore that mirrors the walk of a store: the same lists of
/// actions under way, each in the mirrored context.
pub open spec fn mirror_walk(w: WalkView<PairView>) -> WalkView<PairView> {
    WalkView {
        platform: w.platform,
        stack: Seq::new(
            w.stack.len(),
            |i: int| FrameView { context: mirror(w.stack[i].context), rest: w.stack[i].rest },
        ),
        pending: match w.pending {
            Some(search) => Some(
                SearchView { context: mirror(search.context), pattern: search.pattern, body: search.body },
            ),
            None => None,
        },
        failure: w.failure,
    }
}

/// The step of a restore that mirrors the step of a store: the same action
/// in the mirrored context. A search is matched on the other side.
pub open spec fn mirror_step(step: StepView<PairView>, searched: Option<SearchView<PairView>>) -> StepView<PairView> {
    match step {
        StepView::File(context, name, checks) => StepView::File(mirror(context), name, checks),
        StepView::Files(context, pattern) => StepView::Files(mirror(context), pattern),
        StepView::Execute(context, command, capture) => StepView::Execute(mirror(context), command, capture),
        StepView::Search(glob) => match searched {
            Some(search) => StepView::Search(glob_text(search.context.target, search.pattern)),
            None => StepView::Search(glob),
        },
        StepView::Missing(folder) => StepView::Missing(folder),
        StepView::Moved => StepView::Moved,
        StepView::Done => StepView::Done,
    }
}

/// Store and restore walk in step: from mirrored walks, one step of each
/// leaves mirrored walks and asks for mirrored things.
pub proof fn lemma_mirror_step(w: WalkView<PairView>)
    ensures
        step_of::<RestoreContext>(mirror_walk(w)).0 == mirror_walk(step_of::<StoreContext>(w).0),
        step_of::<RestoreContext>(mirror_walk(w)).1 == mirror_step(
            step_of::<StoreContext>(w).1,
            step_of::<StoreContext>(w).0.pending,
        ),
{
    let after = step_of::<StoreContext>(w);
    let mirrored = step_of::<RestoreContext>(mirror_walk(w));
    assert(mirrored.0.stack =~= mirror_walk(after.0).stack);
}

/// Store and restore stay in step through a search: where the restore finds
/// below its source what the store found below its own, match for match, the
/// walks are mirrored after as they were before.
pub proof fn lemma_mirror_found(w: WalkView<PairView>, rests: Seq<LocationView>)
    requires
        w.pending is Some,
        forall|i: int| 0 <= i < rests.len() ==> !(#[trigger] rests[i]).absolute,
    ensures
        ({
            let search = w.pending->Some_0;
            let stored = Seq::new(rests.len(), |i: int| joined(search.context.source, rests[i]));
            let restored = Seq::new(rests.len(), |i: int| joined(search.context.target, rests[i]));
            found_of::<RestoreContext>(mirror_walk(w), restored) == mirror_walk(found_of::<StoreContext>(w, stored))
        }),
{
    let search = w.pending->Some_0;
    let stored = Seq::new(rests.len(), |i: int| joined(search.context.source, rests[i]));
    let restored = Seq::new(rests.len(), |i: int| joined(search.context.target, rests[i]));
    let left = found_of::<RestoreContext>(mirror_walk(w), restored);
    let right = mirror_walk(found_of::<StoreContext>(w, stored));
    assert(left.stack.len() == right.stack.len());
    assert forall|k: int| 0 <= k < left.stack.len() implies left.stack[k] == right.stack[k] by {
        if k >= w.stack.len() {
            let i = rests.len() - 1 - (k - w.stack.len());
            lemma_mirror_search(search.context, rests[i]);
        }
    }
    assert(left.stack =~= right.stack);
}

/// Store and restore stay in step through every outcome that both are told.
pub proof fn lemma_mirror_settled(w: WalkView<PairView>, outcome: Result<(), VacuumError>)
    ensures
        settled_of(mirror_walk(w), outcome) == mirror_walk(settled_of(w, outcome)),
{
    assert(settled_of(mirror_walk(w), outcome).stack =~= mirror_walk(settled_of(w, outcome)).stack);
}

} // verus!
