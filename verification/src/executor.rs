//! The tree walk: depth first, each action before its successors, every
//! context entered with a context of its own.
//!
//! The walk touches nothing outside itself. It hands out one step at a time;
//! whoever drives it carries the step out and, for a search, hands back what
//! the filesystem holds. The first failure that is reported to the walk ends
//! it.

use vstd::prelude::*;
use crate::context::Context;
use crate::domain::{
    actions_view, lemma_context_view, opt_checks_view, opt_text_view, Action, ActionView, App,
    CheckView, DependencyCheck, Folder, FolderView,
};
use crate::error::VacuumError;
use crate::path::{Location, LocationView};
use crate::platform::{Platform, PlatformView};

verus! {

/// A list of actions under way: the context they run in, and those still to run.
pub struct FrameView<V> {
    pub context: V,
    pub rest: Seq<ActionView>,
}

/// A search that waits for its matches.
pub struct SearchView<V> {
    pub context: V,
    pub pattern: Seq<char>,
    pub body: Seq<ActionView>,
}

/// Mathematical value of a [`Walk`]. The last frame of `stack` is the one at work.
pub struct WalkView<V> {
    pub platform: PlatformView,
    pub stack: Seq<FrameView<V>>,
    pub pending: Option<SearchView<V>>,
    pub failure: Option<VacuumError>,
}

/// Mathematical value of a [`Step`].
pub enum StepView<V> {
    File(V, Seq<char>, Option<Seq<CheckView>>),
    Files(V, Seq<char>),
    Execute(V, Seq<char>, Option<Seq<char>>),
    Search(Seq<char>),
    Missing(FolderView),
    Moved,
    Done,
}

/// What the driver of a walk is to do next.
pub enum Step<'a, C> {
    /// Handle the file `name` in `context`.
    File { context: C, name: &'a String, checks: &'a Option<Vec<DependencyCheck>> },
    /// Handle the files that match `pattern` in `context`.
    Files { context: C, pattern: &'a String },
    /// Run `command` in `context`; keep its output in `capture` where one is named.
    Execute { context: C, command: &'a String, capture: &'a Option<String> },
    /// Match `glob` on the filesystem and hand the matches to [`Walk::found`].
    Search { glob: String },
    /// The platform knows no directory for `folder`; the context was passed over.
    Missing { folder: &'a Folder },
    /// The walk entered or left a list of actions; ask again.
    Moved,
    /// Nothing is left to do; [`Walk::finish`] tells how it went.
    Done,
}

impl<'a, C: View> View for Step<'a, C> {
    type V = StepView<C::V>;

    open spec fn view(&self) -> StepView<C::V> {
        match self {
            Step::File { context, name, checks } => StepView::File(context@, name@, opt_checks_view(**checks)),
            Step::Files { context, pattern } => StepView::Files(context@, pattern@),
            Step::Execute { context, command, capture } => StepView::Execute(
                context@,
                command@,
                opt_text_view(**capture),
            ),
            Step::Search { glob } => StepView::Search(glob@),
            Step::Missing { folder } => StepView::Missing(folder@),
            Step::Moved => StepView::Moved,
            Step::Done => StepView::Done,
        }
    }
}

/// `w` with the frame at work replaced by `frame`.
pub open spec fn with_top<V>(w: WalkView<V>, frame: FrameView<V>) -> WalkView<V> {
    WalkView { stack: w.stack.drop_last().push(frame), ..w }
}

/// `w` after it has entered `body` in `context`.
pub open spec fn entered<V>(w: WalkView<V>, context: V, body: Seq<ActionView>) -> WalkView<V> {
    WalkView { stack: w.stack.push(FrameView { context, rest: body }), ..w }
}

/// A well-known directory entered, or the folder reported as missing.
pub open spec fn enter_known<V>(w: WalkView<V>, context: Option<V>, folder: FolderView, body: Seq<ActionView>) -> (WalkView<V>, StepView<V>) {
    match context {
        Some(c) => (entered(w, c, body), StepView::Moved),
        None => (w, StepView::Missing(folder)),
    }
}

/// One step of the walk: the state after it, and what it asks of the driver.
///
/// A search that waits is asked again. With nothing at work the walk is done.
/// A list with no action left is left. Else the first action left is taken
/// off its list: a leaf is handed out with the context of the list, a context
/// is entered, a search waits for its matches.
pub open spec fn step_of<C: Context>(w: WalkView<C::V>) -> (WalkView<C::V>, StepView<C::V>) {
    if let Some(search) = w.pending {
        (w, StepView::Search(C::glob_of(search.context, search.pattern)))
    } else if w.stack.len() == 0 {
        (w, StepView::Done)
    } else {
        let top = w.stack.last();
        if top.rest.len() == 0 {
            (WalkView { stack: w.stack.drop_last(), ..w }, StepView::Moved)
        } else {
            let here = top.context;
            let taken = with_top(w, FrameView { context: here, rest: top.rest.skip(1) });
            match top.rest[0] {
                ActionView::File(name, checks) => (taken, StepView::File(here, name, checks)),
                ActionView::Files(pattern) => (taken, StepView::Files(here, pattern)),
                ActionView::Execute(command, capture) => (taken, StepView::Execute(here, command, capture)),
                ActionView::Context(folder, body) => match folder {
                    FolderView::Home => enter_known(taken, C::at_home(here, w.platform), folder, body),
                    FolderView::Config => enter_known(taken, C::at_config(here, w.platform), folder, body),
                    FolderView::Local => enter_known(taken, C::at_local(here, w.platform), folder, body),
                    FolderView::Custom(name) => (entered(taken, C::at_sub(here, name), body), StepView::Moved),
                    FolderView::Search(pattern) => (
                        WalkView { pending: Some(SearchView { context: here, pattern, body }), ..taken },
                        StepView::Search(C::glob_of(here, pattern)),
                    ),
                },
            }
        }
    }
}

/// The frames for the matches of a search: one for each match, the first match last,
/// so that it is the first at work.
pub open spec fn match_frames<C: Context>(search: SearchView<C::V>, found: Seq<LocationView>) -> Seq<FrameView<C::V>> {
    Seq::new(
        found.len(),
        |i: int| FrameView { context: C::at_match(search.context, found[found.len() - 1 - i]), rest: search.body },
    )
}

/// The walk after the matches of its waiting search have come in.
pub open spec fn found_of<C: Context>(w: WalkView<C::V>, found: Seq<LocationView>) -> WalkView<C::V> {
    match w.pending {
        Some(search) => WalkView { stack: w.stack + match_frames::<C>(search, found), pending: None, ..w },
        None => w,
    }
}

/// The walk after the outcome of a step has come in: the first failure ends it.
pub open spec fn settled_of<V>(w: WalkView<V>, outcome: Result<(), VacuumError>) -> WalkView<V> {
    match outcome {
        Ok(_) => w,
        Err(e) => if w.failure is Some {
            w
        } else {
            WalkView { stack: Seq::empty(), pending: None, failure: Some(e), ..w }
        },
    }
}

/// The locations of a list, in order.
pub open spec fn locations_view(found: Seq<Location>) -> Seq<LocationView> {
    Seq::new(found.len(), |i: int| found[i]@)
}

struct Frame<'a, C> {
    context: C,
    rest: &'a [Action],
}

struct Search<'a, C> {
    context: C,
    pattern: &'a String,
    body: &'a Vec<Action>,
}

impl<'a, C: View> View for Frame<'a, C> {
    type V = FrameView<C::V>;

    closed spec fn view(&self) -> FrameView<C::V> {
        FrameView { context: self.context@, rest: actions_view(self.rest@) }
    }
}

impl<'a, C: View> View for Search<'a, C> {
    type V = SearchView<C::V>;

    closed spec fn view(&self) -> SearchView<C::V> {
        SearchView { context: self.context@, pattern: self.pattern@, body: actions_view(self.body@) }
    }
}

/// A walk over the actions of an app.
pub struct Walk<'a, C> {
    platform: Platform,
    stack: Vec<Frame<'a, C>>,
    pending: Option<Search<'a, C>>,
    failure: Option<VacuumError>,
}

impl<'a, C: Context> View for Walk<'a, C> {
    type V = WalkView<C::V>;

    closed spec fn view(&self) -> WalkView<C::V> {
        WalkView {
            platform: self.platform@,
            stack: Seq::new(self.stack@.len(), |i: int| self.stack@[i]@),
            pending: match self.pending {
                Some(search) => Some(search@),
                None => None,
            },
            failure: self.failure,
        }
    }
}

impl<'a, C: Context> Walk<'a, C> {
    /// A walk over `actions`, started in `context`.
    pub fn new(platform: Platform, context: C, actions: &'a Vec<Action>) -> (r: Self)
        ensures
            r@ == (WalkView {
                platform: platform@,
                stack: seq![FrameView { context: context@, rest: actions_view(actions@) }],
                pending: None,
                failure: None,
            }),
    {
        let mut stack: Vec<Frame<'a, C>> = Vec::new();
        stack.push(Frame { context, rest: actions.as_slice() });
        let r = Walk { platform, stack, pending: None, failure: None };
        assert(r@.stack =~= seq![FrameView { context: context@, rest: actions_view(actions@) }]);
        r
    }

    /// Whether nothing is left to do.
    pub fn is_done(&self) -> (r: bool)
        ensures
            r == (self@.pending is None && self@.stack.len() == 0),
    {
        self.pending.is_none() && self.stack.len() == 0
    }

    /// How the walk went: the first failure reported to it, if there was one.
    pub fn finish(self) -> (r: Result<(), VacuumError>)
        ensures
            r == match self@.failure {
                Some(e) => Err::<(), VacuumError>(e),
                None => Ok(()),
            },
    {
        match self.failure {
            Some(e) => Err(e),
            None => Ok(()),
        }
    }

    fn enter(&mut self, context: C, body: &'a Vec<Action>)
        ensures
            final(self)@ == entered(old(self)@, context@, actions_view(body@)),
    {
        self.stack.push(Frame { context, rest: body.as_slice() });
        assert(self@.stack =~= entered(old(self)@, context@, actions_view(body@)).stack);
    }

    fn enter_known(&mut self, context: Option<C>, folder: &'a Folder, body: &'a Vec<Action>) -> (step: Step<'a, C>)
        ensures
            (final(self)@, step@) == enter_known(
                old(self)@,
                crate::context::opt_context_view(context),
                folder@,
                actions_view(body@),
            ),
    {
        match context {
            Some(c) => {
                self.enter(c, body);
                Step::Moved
            },
            None => Step::Missing { folder },
        }
    }

    /// Takes one step: see [`step_of`].
    pub fn next(&mut self) -> (step: Step<'a, C>)
        ensures
            (final(self)@, step@) == step_of::<C>(old(self)@),
    {
        if let Some(search) = &self.pending {
            return Step::Search { glob: search.context.glob(search.pattern.as_str()) };
        }
        let top = match self.stack.pop() {
            None => {
                assert(self@.stack =~= old(self)@.stack);
                return Step::Done;
            },
            Some(top) => top,
        };
        let ghost below = self@;
        assert(below.stack =~= old(self)@.stack.drop_last());
        assert(top@ == old(self)@.stack.last());
        if top.rest.len() == 0 {
            return Step::Moved;
        }
        let action = &top.rest[0];
        let rest = vstd::slice::slice_subrange(top.rest, 1, top.rest.len());
        assert(actions_view(rest@) =~= actions_view(top.rest@).skip(1));
        assert(action@ == actions_view(top.rest@)[0]);
        let here = top.context.duplicate();
        self.stack.push(Frame { context: top.context, rest });
        let ghost taken = self@;
        assert(taken.stack =~= with_top(old(self)@, FrameView { context: here@, rest: actions_view(rest@) }).stack);
        match action {
            Action::File(name, checks) => Step::File { context: here, name, checks },
            Action::Files(pattern) => Step::Files { context: here, pattern },
            Action::Execute(command, capture) => Step::Execute { context: here, command, capture },
            Action::Context(folder, body) => {
                proof {
                    lemma_context_view(*folder, *body);
                }
                match folder {
                    Folder::Home => {
                        let inner = here.home(&self.platform);
                        self.enter_known(inner, folder, body)
                    },
                    Folder::Config => {
                        let inner = here.config(&self.platform);
                        self.enter_known(inner, folder, body)
                    },
                    Folder::Local => {
                        let inner = here.local(&self.platform);
                        self.enter_known(inner, folder, body)
                    },
                    Folder::Custom(name) => {
                        let inner = here.sub(name.as_str());
                        self.enter(inner, body);
                        Step::Moved
                    },
                    Folder::Search(pattern) => {
                        let glob = here.glob(pattern.as_str());
                        self.pending = Some(Search { context: here, pattern, body });
                        Step::Search { glob }
                    },
                }
            },
        }
    }

    /// Takes in what the filesystem holds for the search that waits: one
    /// list of actions to run for each match, the first match first. Without
    /// a search that waits, nothing changes. A match that does not lie where
    /// the search was made is refused: the answer is `false`, and the search
    /// goes on waiting.
    pub fn found(&mut self, found: &Vec<Location>) -> (taken: bool)
        ensures
            taken == (old(self)@.pending matches Some(search) ==> C::all_covered(search.context, found@)),
            final(self)@ == if taken {
                found_of::<C>(old(self)@, locations_view(found@))
            } else {
                old(self)@
            },
    {
        let search = match self.pending.take() {
            None => {
                assert(self@.stack =~= old(self)@.stack);
                return true;
            },
            Some(search) => search,
        };
        if !search.context.covered(found) {
            self.pending = Some(search);
            assert(self@.stack =~= old(self)@.stack);
            return false;
        }
        let mut children = search.context.search(found);
        let ghost frames = match_frames::<C>(search@, locations_view(found@));
        let ghost base = self@.stack;
        assert(base =~= old(self)@.stack);
        let ghost total = found@.len();
        while children.len() > 0
            invariant
                children@.len() <= total == found@.len(),
                self@.platform == old(self)@.platform,
                self@.failure == old(self)@.failure,
                self@.pending is None,
                frames == match_frames::<C>(search@, locations_view(found@)),
                forall|i: int| 0 <= i < children@.len() ==> (#[trigger] children@[i])@ == C::at_match(search@.context, found@[i]@),
                self@.stack == base + frames.take(total - children@.len()),
            decreases children@.len(),
        {
            let ghost before = self@.stack;
            let ghost k = children@.len();
            let child = children.pop().unwrap();
            self.stack.push(Frame { context: child, rest: search.body.as_slice() });
            assert(self@.stack =~= before.push(frames[total - k]));
            assert(base + frames.take(total - k + 1) =~= (base + frames.take(total - k)).push(frames[total - k]));
        }
        assert(frames.take(total as int) =~= frames);
        true
    }

    /// Takes in the outcome of the step that was handed out last. The first
    /// failure ends the walk: nothing is left to do after it, and `finish`
    /// returns it.
    pub fn settle(&mut self, outcome: Result<(), VacuumError>)
        ensures
            final(self)@ == settled_of(old(self)@, outcome),
    {
        match outcome {
            Ok(_) => {
                assert(self@.stack =~= old(self)@.stack);
            },
            Err(e) => {
                if self.failure.is_none() {
                    self.stack = Vec::new();
                    self.pending = None;
                    self.failure = Some(e);
                    assert(self@.stack =~= Seq::empty());
                } else {
                    assert(self@.stack =~= old(self)@.stack);
                }
            },
        }
    }
}

/// Fail fast: once a failure is reported to a walk that had none, nothing is
/// left to do, whatever was under way, and the walk keeps that failure
/// through whatever is reported later.
pub proof fn lemma_first_failure_ends<C: Context>(w: WalkView<C::V>, e: VacuumError, later: Result<(), VacuumError>)
    requires
        w.failure is None,
    ensures
        step_of::<C>(settled_of(w, Err(e))) == (settled_of(w, Err(e)), StepView::<C::V>::Done),
        settled_of(w, Err(e)).failure == Some(e),
        settled_of(settled_of(w, Err(e)), later) == settled_of(w, Err(e)),
{
}

/// A leaf action is handed out with the context of its list, and the walk
/// goes on with the action after it: actions run in the order they are written.
pub proof fn lemma_leaves_in_order<C: Context>(w: WalkView<C::V>)
    requires
        w.pending is None,
        w.stack.len() > 0,
        w.stack.last().rest.len() > 0,
        !(w.stack.last().rest[0] is Context),
    ensures
        step_of::<C>(w).0 == with_top(
            w,
            FrameView { context: w.stack.last().context, rest: w.stack.last().rest.skip(1) },
        ),
        step_of::<C>(w).1 == match w.stack.last().rest[0] {
            ActionView::File(name, checks) => StepView::File(w.stack.last().context, name, checks),
            ActionView::Files(pattern) => StepView::Files(w.stack.last().context, pattern),
            ActionView::Execute(command, capture) => StepView::Execute(w.stack.last().context, command, capture),
            ActionView::Context(_, _) => StepView::Moved,
        },
{
}

/// A search runs its body once for each match, the first match first: after
/// the matches have come in, the first match is at work with the whole body
/// before it.
pub proof fn lemma_first_match_first<C: Context>(w: WalkView<C::V>, found: Seq<LocationView>)
    requires
        w.pending is Some,
        found.len() > 0,
    ensures
        found_of::<C>(w, found).stack.len() == w.stack.len() + found.len(),
        found_of::<C>(w, found).stack.last() == (FrameView {
            context: C::at_match(w.pending->Some_0.context, found[0]),
            rest: w.pending->Some_0.body,
        }),
        forall|i: int|
            0 <= i < found.len() ==> #[trigger] found_of::<C>(w, found).stack[w.stack.len() + i] == (FrameView {
                context: C::at_match(w.pending->Some_0.context, found[found.len() - 1 - i]),
                rest: w.pending->Some_0.body,
            }),
{
}

/// Starts the walk over the actions of `app` in `context`.
pub fn execute<'a, C: Context>(platform: Platform, context: C, app: &'a App) -> (walk: Walk<'a, C>)
    ensures
        walk@ == (WalkView {
            platform: platform@,
            stack: seq![FrameView { context: context@, rest: app@.actions }],
            pending: None,
            failure: None,
        }),
{
    Walk::new(platform, context, &app.actions)
}

} // verus!
