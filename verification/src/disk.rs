//! What store and restore do to the files, over a model of the disk: a map
//! from locations to bytes on which a copy writes the bytes of its source to
//! its target.
//!
//! The library makes no copy itself. It says which copies to make, and this
//! module says what follows for the bytes once they are made as said.

use vstd::prelude::*;
use crate::context::{Context, PairView};
use crate::path::LocationView;
use crate::platform::PlatformView;
use crate::restore_context::RestoreContext;
use crate::store_context::StoreContext;

verus! {

/// The files of a disk: the bytes that each location holds.
pub type Disk = Map<LocationView, Seq<u8>>;

/// The disk after one copy. A source that is not there is passed over and
/// nothing changes; else the target holds the bytes of the source, over
/// whatever it held.
pub open spec fn copied(disk: Disk, job: PairView) -> Disk {
    if disk.contains_key(job.source) {
        disk.insert(job.target, disk[job.source])
    } else {
        disk
    }
}

/// The disk after the first `n` copies of a list, made in order.
pub open spec fn all_copied(disk: Disk, jobs: Seq<PairView>, n: int) -> Disk
    decreases n,
{
    if n <= 0 || n > jobs.len() {
        disk
    } else {
        copied(all_copied(disk, jobs, n - 1), jobs[n - 1])
    }
}

/// No copy of the list writes what a copy of the list reads.
pub open spec fn apart(jobs: Seq<PairView>) -> bool {
    forall|i: int, j: int|
        0 <= i < jobs.len() && 0 <= j < jobs.len() ==> (#[trigger] jobs[i]).target != (#[trigger] jobs[j]).source
}

/// Two copies of the list that write the same file read the same file.
pub open spec fn single(jobs: Seq<PairView>) -> bool {
    forall|i: int, j: int|
        0 <= i < jobs.len() && 0 <= j < jobs.len() && (#[trigger] jobs[i]).target == (#[trigger] jobs[j]).target
            ==> jobs[i].source == jobs[j].source
}

/// `location` is the target of one of the first `n` copies whose source is there.
pub open spec fn written(disk: Disk, jobs: Seq<PairView>, n: int, location: LocationView) -> bool {
    exists|i: int| 0 <= i < n && i < jobs.len() && disk.contains_key(jobs[i].source) && #[trigger] jobs[i].target == location
}

/// A restore reads, copy for copy, what the store wrote.
pub open spec fn twins(stored: Seq<PairView>, restored: Seq<PairView>) -> bool {
    &&& stored.len() == restored.len()
    &&& forall|i: int| 0 <= i < stored.len() ==> (#[trigger] restored[i]).source == stored[i].target
}

/// Copies that write apart from what they read: every target holds the bytes
/// that its source held before the first copy, every file that no copy
/// wrote is as it was, and no file is there that was not there or written.
pub proof fn lemma_copies(disk: Disk, jobs: Seq<PairView>, n: int)
    requires
        apart(jobs),
        single(jobs),
        0 <= n <= jobs.len(),
    ensures
        forall|i: int|
            0 <= i < n && disk.contains_key(jobs[i].source) ==> all_copied(disk, jobs, n).contains_key(
                (#[trigger] jobs[i]).target,
            ) && all_copied(disk, jobs, n)[jobs[i].target] == disk[jobs[i].source],
        forall|location: LocationView|
            !written(disk, jobs, n, location) ==> (all_copied(disk, jobs, n).contains_key(location)
                <==> #[trigger] disk.contains_key(location)),
        forall|location: LocationView|
            !written(disk, jobs, n, location) && #[trigger] disk.contains_key(location) ==> all_copied(
                disk,
                jobs,
                n,
            )[location] == disk[location],
    decreases n,
{
    if n > 0 {
        let before = all_copied(disk, jobs, n - 1);
        let after = all_copied(disk, jobs, n);
        let job = jobs[n - 1];
        lemma_copies(disk, jobs, n - 1);
        // What a copy reads was never written, so it is as it was at the start.
        assert forall|j: int| 0 <= j < jobs.len() implies !written(disk, jobs, n - 1, (#[trigger] jobs[j]).source) by {
            if written(disk, jobs, n - 1, jobs[j].source) {
                let i = choose|i: int|
                    0 <= i < n - 1 && i < jobs.len() && disk.contains_key(jobs[i].source) && #[trigger] jobs[i].target
                        == jobs[j].source;
                assert(jobs[i].target != jobs[j].source);
            }
        }
        assert(before.contains_key(job.source) <==> disk.contains_key(job.source));
        assert forall|i: int| 0 <= i < n && disk.contains_key(jobs[i].source) implies after.contains_key(
            (#[trigger] jobs[i]).target,
        ) && after[jobs[i].target] == disk[jobs[i].source] by {
            if i < n - 1 && disk.contains_key(job.source) && jobs[i].target == job.target {
                assert(jobs[i].source == job.source);
            }
        }
        assert forall|location: LocationView| !written(disk, jobs, n, location) implies (after.contains_key(location)
            <==> #[trigger] disk.contains_key(location)) by {
            assert(!written(disk, jobs, n - 1, location)) by {
                if written(disk, jobs, n - 1, location) {
                    let i = choose|i: int|
                        0 <= i < n - 1 && i < jobs.len() && disk.contains_key(jobs[i].source) && #[trigger] jobs[i].target
                            == location;
                    assert(0 <= i < n && jobs[i].target == location);
                }
            }
            if disk.contains_key(job.source) {
                assert(jobs[n - 1].target != location);
            }
        }
        assert forall|location: LocationView|
            !written(disk, jobs, n, location) && #[trigger] disk.contains_key(location) implies after[location]
            == disk[location] by {
            assert(!written(disk, jobs, n - 1, location)) by {
                if written(disk, jobs, n - 1, location) {
                    let i = choose|i: int|
                        0 <= i < n - 1 && i < jobs.len() && disk.contains_key(jobs[i].source) && #[trigger] jobs[i].target
                            == location;
                    assert(0 <= i < n && jobs[i].target == location);
                }
            }
            if disk.contains_key(job.source) {
                assert(jobs[n - 1].target != location);
            }
        }
    }
}

/// Store, then restore: where the restore reads, copy for copy, what the
/// store wrote, every file that the store found is, after the restore, at
/// the target of its restore with the bytes it had before the store. The
/// restore writes nothing but those targets, and leaves every other file,
/// the backup among them, as the store left it.
pub proof fn lemma_restore_gives_back(disk: Disk, stored: Seq<PairView>, restored: Seq<PairView>)
    requires
        twins(stored, restored),
        apart(stored),
        single(stored),
        apart(restored),
        single(restored),
    ensures
        ({
            let n = stored.len() as int;
            let backed = all_copied(disk, stored, n);
            let back = all_copied(backed, restored, n);
            &&& forall|i: int|
                0 <= i < n && disk.contains_key(stored[i].source) ==> back.contains_key(
                    (#[trigger] restored[i]).target,
                ) && back[restored[i].target] == disk[stored[i].source]
            &&& forall|location: LocationView|
                !written(backed, restored, n, location) ==> (back.contains_key(location)
                    <==> #[trigger] backed.contains_key(location))
            &&& forall|location: LocationView|
                !written(backed, restored, n, location) && #[trigger] backed.contains_key(location)
                    ==> back[location] == backed[location]
        }),
{
    let n = stored.len() as int;
    let backed = all_copied(disk, stored, n);
    let back = all_copied(backed, restored, n);
    lemma_copies(disk, stored, n);
    lemma_copies(backed, restored, n);
    assert forall|i: int| 0 <= i < n && disk.contains_key(stored[i].source) implies back.contains_key(
        (#[trigger] restored[i]).target,
    ) && back[restored[i].target] == disk[stored[i].source] by {
        assert(backed.contains_key(stored[i].target));
        assert(restored[i].source == stored[i].target);
    }
}

/// A restore context reads where a store context writes.
pub open spec fn twin(store: PairView, restore: PairView) -> bool {
    restore.source == store.target
}

/// The value of an optional pair of twins: both there and twins, or both missing.
pub open spec fn opt_twin(store: Option<PairView>, restore: Option<PairView>) -> bool {
    match (store, restore) {
        (Some(s), Some(r)) => twin(s, r),
        (None, None) => true,
        _ => false,
    }
}

/// Twins stay twins through the same navigation, whatever directories the
/// platform knew at the store and whatever it knows at the restore: into a
/// well-known directory that both know, into a named folder, and into a
/// match that lies below the source of each as it lies below that of the
/// other.
pub proof fn lemma_twins_navigate(
    store: PairView,
    restore: PairView,
    then: PlatformView,
    now: PlatformView,
    name: Seq<char>,
    rest: LocationView,
)
    requires
        twin(store, restore),
        !rest.absolute,
    ensures
        then.home is Some == now.home is Some ==> opt_twin(
            StoreContext::at_home(store, then),
            RestoreContext::at_home(restore, now),
        ),
        then.config is Some == now.config is Some ==> opt_twin(
            StoreContext::at_config(store, then),
            RestoreContext::at_config(restore, now),
        ),
        then.local is Some == now.local is Some ==> opt_twin(
            StoreContext::at_local(store, then),
            RestoreContext::at_local(restore, now),
        ),
        twin(StoreContext::at_sub(store, name), RestoreContext::at_sub(restore, name)),
        twin(
            StoreContext::at_match(store, crate::path::joined(store.source, rest)),
            RestoreContext::at_match(restore, crate::path::joined(restore.source, rest)),
        ),
{
    crate::mirror::lemma_relative_join(store.source, rest);
    crate::mirror::lemma_relative_join(restore.source, rest);
}

} // verus!
