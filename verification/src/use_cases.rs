//! The three uses of an app spec: store, restore and the dependency scan.
//! Each one pairs the walk with the context it starts in.

use vstd::prelude::*;
use crate::deps::DependencyAnalyzer;
use crate::deps_context::TargetDirectoryContext;
use crate::domain::App;
use crate::executor::{execute, FrameView, Walk, WalkView};
use crate::file_system_executor::FileSystemExecutor;
use crate::path::{Location, LocationView};
use crate::platform::Platform;
use crate::context::PairView;
use crate::restore_context::RestoreContext;
use crate::store_context::StoreContext;

verus! {

/// The empty relative path.
pub open spec fn nowhere() -> LocationView {
    LocationView { absolute: false, parts: Seq::empty() }
}

/// Copies the files of an app from the user's directories into its backup tree.
pub struct StoreUseCase {
    app_dir: Location,
}

impl StoreUseCase {
    /// The backup tree of the app.
    pub closed spec fn directory(&self) -> LocationView {
        self.app_dir@
    }

    /// A store into the backup tree `app_dir`.
    pub fn new(app_dir: Location) -> (r: Self)
        ensures
            r.directory() == app_dir@,
    {
        Self { app_dir }
    }

    /// The walk that stores `app`, and the handler that serves it. The walk
    /// starts with the backup tree as its target and nowhere to read from.
    pub fn run<'a>(&self, platform: Platform, app: &'a App) -> (r: (Walk<'a, StoreContext>, FileSystemExecutor))
        ensures
            r.0@ == (WalkView {
                platform: platform@,
                stack: seq![
                    FrameView {
                        context: PairView { source: nowhere(), target: self.directory() },
                        rest: app@.actions,
                    },
                ],
                pending: None,
                failure: None,
            }),
            r.1.app_name() == app@.name,
    {
        let context = StoreContext::new(self.app_dir.duplicate());
        (execute(platform, context, app), FileSystemExecutor::new(app.name.clone()))
    }
}

/// Copies the files of an app from its backup tree back into the user's directories.
pub struct RestoreUseCase {
    app_dir: Location,
}

impl RestoreUseCase {
    /// The backup tree of the app.
    pub closed spec fn directory(&self) -> LocationView {
        self.app_dir@
    }

    /// A restore out of the backup tree `app_dir`.
    pub fn new(app_dir: Location) -> (r: Self)
        ensures
            r.directory() == app_dir@,
    {
        Self { app_dir }
    }

    /// The walk that restores `app`, and the handler that serves it. The walk
    /// starts with the backup tree as its source and nowhere to write to.
    pub fn run<'a>(&self, platform: Platform, app: &'a App) -> (r: (Walk<'a, RestoreContext>, FileSystemExecutor))
        ensures
            r.0@ == (WalkView {
                platform: platform@,
                stack: seq![
                    FrameView {
                        context: PairView { source: self.directory(), target: nowhere() },
                        rest: app@.actions,
                    },
                ],
                pending: None,
                failure: None,
            }),
            r.1.app_name() == app@.name,
    {
        let context = RestoreContext::new(self.app_dir.duplicate());
        (execute(platform, context, app), FileSystemExecutor::new(app.name.clone()))
    }
}

/// Scans the backup tree of an app for the dependencies that its files imply.
pub struct DepsUseCase {
    app_dir: Location,
}

impl DepsUseCase {
    /// The backup tree of the app.
    pub closed spec fn directory(&self) -> LocationView {
        self.app_dir@
    }

    /// A scan of the backup tree `app_dir`.
    pub fn new(app_dir: Location) -> (r: Self)
        ensures
            r.directory() == app_dir@,
    {
        Self { app_dir }
    }

    /// The walk that scans `app`, and the analyzer that takes in what the
    /// walk comes by. The walk starts in the backup tree; the analyzer has
    /// matched nothing yet.
    pub fn run<'a>(&self, platform: Platform, app: &'a App) -> (r: (Walk<'a, TargetDirectoryContext>, DependencyAnalyzer<'a>))
        ensures
            r.0@ == (WalkView {
                platform: platform@,
                stack: seq![FrameView { context: self.directory(), rest: app@.actions }],
                pending: None,
                failure: None,
            }),
            r.1.app() == *app,
            r.1.matched() == Seq::<Seq<char>>::empty(),
            r.1.distinct(),
    {
        let context = TargetDirectoryContext::new(self.app_dir.duplicate());
        (execute(platform, context, app), DependencyAnalyzer::new(app))
    }
}

} // verus!
