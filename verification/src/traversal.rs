//! The walk as a whole: taken to its end step by step, it asks for the
//! leaves of the action tree depth first and in the order written, and runs
//! the body of a search once for each match.

use vstd::prelude::*;
use crate::context::Context;
use crate::domain::{ActionView, FolderView};
use crate::executor::{
    entered, found_of, match_frames, step_of, FrameView, SearchView, StepView, WalkView,
};
use crate::path::LocationView;
use crate::platform::PlatformView;

verus! {

/// What the filesystem holds for each search, in the order the searches are made.
pub type Answers = Seq<Seq<LocationView>>;

/// The matches of the next search; none once the answers have run out.
pub open spec fn next_found(answers: Answers) -> Seq<LocationView> {
    if answers.len() > 0 {
        answers[0]
    } else {
        Seq::empty()
    }
}

/// The answers that are left after the next search.
pub open spec fn later(answers: Answers) -> Answers {
    if answers.len() > 0 {
        answers.skip(1)
    } else {
        answers
    }
}

/// What a part of the action tree comes to: the steps it asks of the driver,
/// in order, the answers it leaves for the searches after it, and how many
/// steps the walk takes for it.
pub struct Told<V> {
    pub steps: Seq<StepView<V>>,
    pub answers: Answers,
    pub cost: nat,
}

/// A well-known directory: its body in the context there, or the folder as missing.
pub open spec fn known_told<C: Context>(
    p: PlatformView,
    inner: Option<C::V>,
    folder: FolderView,
    body: Seq<ActionView>,
    answers: Answers,
) -> Told<C::V>
    decreases body, 2int, 0nat,
{
    match inner {
        Some(c) => {
            let told = list_told::<C>(p, c, body, 0, answers);
            Told { cost: told.cost + 1, ..told }
        },
        None => Told { steps: seq![StepView::Missing(folder)], answers, cost: 1 },
    }
}

/// One action in the context `c`: a leaf is one step, a context is its body
/// in the context one level in, a search is the search itself and then its
/// body for each match.
pub open spec fn action_told<C: Context>(p: PlatformView, c: C::V, action: ActionView, answers: Answers) -> Told<
    C::V,
>
    decreases action, 0int, 0nat,
{
    match action {
        ActionView::File(name, checks) => Told { steps: seq![StepView::File(c, name, checks)], answers, cost: 1 },
        ActionView::Files(pattern) => Told { steps: seq![StepView::Files(c, pattern)], answers, cost: 1 },
        ActionView::Execute(command, capture) => Told {
            steps: seq![StepView::Execute(c, command, capture)],
            answers,
            cost: 1,
        },
        ActionView::Context(folder, body) => match folder {
            FolderView::Home => known_told::<C>(p, C::at_home(c, p), folder, body, answers),
            FolderView::Config => known_told::<C>(p, C::at_config(c, p), folder, body, answers),
            FolderView::Local => known_told::<C>(p, C::at_local(c, p), folder, body, answers),
            FolderView::Custom(name) => {
                let told = list_told::<C>(p, C::at_sub(c, name), body, 0, answers);
                Told { cost: told.cost + 1, ..told }
            },
            FolderView::Search(pattern) => {
                let told = matches_told::<C>(p, c, body, next_found(answers), 0, later(answers));
                Told {
                    steps: seq![StepView::Search(C::glob_of(c, pattern))] + told.steps,
                    answers: told.answers,
                    cost: told.cost + 1,
                }
            },
        },
    }
}

/// The body of a search for the matches from index `k` on, one after the other.
pub open spec fn matches_told<C: Context>(
    p: PlatformView,
    c: C::V,
    body: Seq<ActionView>,
    found: Seq<LocationView>,
    k: int,
    answers: Answers,
) -> Told<C::V>
    decreases body, 1int, found.len() - k,
{
    if k < 0 || k >= found.len() {
        Told { steps: Seq::empty(), answers, cost: 0 }
    } else {
        let first = list_told::<C>(p, C::at_match(c, found[k]), body, 0, answers);
        let rest = matches_told::<C>(p, c, body, found, k + 1, first.answers);
        Told { steps: first.steps + rest.steps, answers: rest.answers, cost: first.cost + rest.cost }
    }
}

/// The actions of a list from index `i` on, one after the other, all in the context `c`.
pub open spec fn list_told<C: Context>(p: PlatformView, c: C::V, actions: Seq<ActionView>, i: int, answers: Answers) -> Told<
    C::V,
>
    decreases actions, 0int, actions.len() - i,
{
    if i < 0 || i >= actions.len() {
        Told { steps: Seq::empty(), answers, cost: 1 }
    } else {
        let first = action_told::<C>(p, c, actions[i], answers);
        let rest = list_told::<C>(p, c, actions, i + 1, first.answers);
        Told { steps: first.steps + rest.steps, answers: rest.answers, cost: first.cost + rest.cost }
    }
}

/// What a walk asks of its driver over its next `fuel` steps, where every
/// step ends well and every search is answered from `answers` in turn. Steps
/// that ask nothing are left out; nothing follows the end of the walk.
pub open spec fn run<C: Context>(w: WalkView<C::V>, answers: Answers, fuel: nat) -> Seq<StepView<C::V>>
    decreases fuel,
{
    if fuel == 0 {
        Seq::empty()
    } else {
        let (after, step) = step_of::<C>(w);
        match step {
            StepView::Done => seq![step],
            StepView::Moved => run::<C>(after, answers, (fuel - 1) as nat),
            StepView::Search(_) => seq![step] + run::<C>(
                found_of::<C>(after, next_found(answers)),
                later(answers),
                (fuel - 1) as nat,
            ),
            _ => seq![step] + run::<C>(after, answers, (fuel - 1) as nat),
        }
    }
}

/// A walk with nothing under way and nothing waiting.
pub open spec fn idle<V>(w: WalkView<V>) -> bool {
    w.pending is None
}

/// The walk `w` with the frames for the matches from index `k` on put on top, the match `k` topmost.
pub open spec fn with_matches<C: Context>(w: WalkView<C::V>, search: SearchView<C::V>, found: Seq<LocationView>, k: int) -> WalkView<
    C::V,
> {
    WalkView { stack: w.stack + match_frames::<C>(search, found).take(found.len() - k), ..w }
}

/// One step on a list with an action left takes the action off the list.
proof fn lemma_take<C: Context>(w: WalkView<C::V>, c: C::V, actions: Seq<ActionView>, i: int)
    requires
        idle(w),
        0 <= i < actions.len(),
    ensures
        crate::executor::with_top(
            entered(w, c, actions.skip(i)),
            FrameView { context: c, rest: actions.skip(i).skip(1) },
        ) == entered(w, c, actions.skip(i + 1)),
        actions.skip(i)[0] == actions[i],
        actions.skip(i).len() > 0,
        entered(w, c, actions.skip(i)).stack.last() == (FrameView { context: c, rest: actions.skip(i) }),
        entered(w, c, actions.skip(i)).stack.len() > 0,
{
    let top = entered(w, c, actions.skip(i));
    assert(actions.skip(i).skip(1) =~= actions.skip(i + 1));
    assert(top.stack.drop_last().push(FrameView { context: c, rest: actions.skip(i + 1) }) =~= entered(
        w,
        c,
        actions.skip(i + 1),
    ).stack);
}

/// A well-known directory, taken step by step, comes to what `known_told` says.
proof fn lemma_known_run<C: Context>(
    w: WalkView<C::V>,
    inner: Option<C::V>,
    folder: FolderView,
    body: Seq<ActionView>,
    answers: Answers,
    more: nat,
)
    requires
        idle(w),
    ensures
        ({
            let told = known_told::<C>(w.platform, inner, folder, body, answers);
            let (after, step) = crate::executor::enter_known(w, inner, folder, body);
            match step {
                StepView::Moved => run::<C>(after, answers, (told.cost - 1 + more) as nat) == told.steps + run::<C>(
                    w,
                    told.answers,
                    more,
                ),
                _ => told.cost == 1 && told.steps == seq![step] && after == w && told.answers == answers,
            }
        }),
    decreases body, 2int, 0nat,
{
    match inner {
        Some(c) => {
            assert(body.skip(0) =~= body);
            lemma_list_run::<C>(w, c, body, 0, answers, more);
        },
        None => {},
    }
}

/// A list of actions, taken step by step from index `i` on, comes to what
/// `list_told` says, and the walk goes on below it.
proof fn lemma_list_run<C: Context>(
    w: WalkView<C::V>,
    c: C::V,
    actions: Seq<ActionView>,
    i: int,
    answers: Answers,
    more: nat,
)
    requires
        idle(w),
        0 <= i <= actions.len(),
    ensures
        ({
            let told = list_told::<C>(w.platform, c, actions, i, answers);
            run::<C>(entered(w, c, actions.skip(i)), answers, told.cost + more) == told.steps + run::<C>(
                w,
                told.answers,
                more,
            )
        }),
    decreases actions, 0int, actions.len() - i,
{
    let p = w.platform;
    let top = entered(w, c, actions.skip(i));
    let told = list_told::<C>(p, c, actions, i, answers);
    if i == actions.len() {
        assert(actions.skip(i) =~= Seq::empty());
        assert(top.stack.drop_last() =~= w.stack);
        assert(step_of::<C>(top) == (w, StepView::<C::V>::Moved));
        assert(Seq::<StepView<C::V>>::empty() + run::<C>(w, answers, more) =~= run::<C>(w, answers, more));
    } else {
        lemma_take::<C>(w, c, actions, i);
        let below = entered(w, c, actions.skip(i + 1));
        let first = action_told::<C>(p, c, actions[i], answers);
        let rest = list_told::<C>(p, c, actions, i + 1, first.answers);
        let tail = run::<C>(w, rest.answers, more);
        lemma_list_run::<C>(w, c, actions, i + 1, first.answers, more);
        assert(run::<C>(below, first.answers, rest.cost + more) == rest.steps + tail);
        let fuel = (told.cost + more) as nat;
        assert(fuel == first.cost + rest.cost + more);
        match actions[i] {
            ActionView::Context(folder, body) => match folder {
                FolderView::Home => {
                    lemma_known_run::<C>(below, C::at_home(c, p), folder, body, answers, rest.cost + more);
                },
                FolderView::Config => {
                    lemma_known_run::<C>(below, C::at_config(c, p), folder, body, answers, rest.cost + more);
                },
                FolderView::Local => {
                    lemma_known_run::<C>(below, C::at_local(c, p), folder, body, answers, rest.cost + more);
                },
                FolderView::Custom(name) => {
                    assert(body.skip(0) =~= body);
                    lemma_list_run::<C>(below, C::at_sub(c, name), body, 0, answers, rest.cost + more);
                },
                FolderView::Search(pattern) => {
                    let search = SearchView { context: c, pattern, body };
                    let found = next_found(answers);
                    let waiting = WalkView { pending: Some(search), ..below };
                    assert(step_of::<C>(top) == (waiting, StepView::<C::V>::Search(C::glob_of(c, pattern))));
                    assert(found_of::<C>(waiting, found) == with_matches::<C>(below, search, found, 0)) by {
                        assert(match_frames::<C>(search, found).take(found.len() as int) =~= match_frames::<C>(
                            search,
                            found,
                        ));
                    }
                    lemma_matches_run::<C>(below, search, found, 0, later(answers), rest.cost + more);
                },
            },
            _ => {},
        }
        assert(run::<C>(top, answers, fuel) =~= first.steps + (rest.steps + tail));
        assert(first.steps + (rest.steps + tail) =~= (first.steps + rest.steps) + tail);
    }
}

/// The body of a search, taken step by step for the matches from index `k`
/// on, comes to what `matches_told` says, and the walk goes on below it.
proof fn lemma_matches_run<C: Context>(
    w: WalkView<C::V>,
    search: SearchView<C::V>,
    found: Seq<LocationView>,
    k: int,
    answers: Answers,
    more: nat,
)
    requires
        idle(w),
        0 <= k <= found.len(),
    ensures
        ({
            let told = matches_told::<C>(w.platform, search.context, search.body, found, k, answers);
            run::<C>(with_matches::<C>(w, search, found, k), answers, told.cost + more) == told.steps + run::<C>(
                w,
                told.answers,
                more,
            )
        }),
    decreases search.body, 1int, found.len() - k,
{
    let p = w.platform;
    let frames = match_frames::<C>(search, found);
    if k == found.len() {
        assert(with_matches::<C>(w, search, found, k).stack =~= w.stack);
        assert(Seq::<StepView<C::V>>::empty() + run::<C>(w, answers, more) =~= run::<C>(w, answers, more));
    } else {
        let c = C::at_match(search.context, found[k]);
        let below = with_matches::<C>(w, search, found, k + 1);
        let first = list_told::<C>(p, c, search.body, 0, answers);
        let rest = matches_told::<C>(p, search.context, search.body, found, k + 1, first.answers);
        let tail = run::<C>(w, rest.answers, more);
        assert(search.body.skip(0) =~= search.body);
        assert(with_matches::<C>(w, search, found, k).stack =~= entered(below, c, search.body).stack) by {
            assert(frames.take(found.len() - k) =~= frames.take(found.len() - k - 1).push(
                frames[found.len() - k - 1],
            ));
        }
        lemma_list_run::<C>(below, c, search.body, 0, answers, rest.cost + more);
        lemma_matches_run::<C>(w, search, found, k + 1, first.answers, more);
        assert(first.steps + (rest.steps + tail) =~= (first.steps + rest.steps) + tail);
    }
}

/// The walk is a depth-first traversal: started on the actions of an app
/// and driven to its end, with every step ending well, it asks exactly for
/// what the action tree comes to when it is read depth first, in the order
/// written, and then it is done.
pub proof fn lemma_walk_is_depth_first<C: Context>(
    platform: PlatformView,
    c: C::V,
    actions: Seq<ActionView>,
    answers: Answers,
)
    ensures
        ({
            let start = WalkView {
                platform,
                stack: seq![FrameView { context: c, rest: actions }],
                pending: None,
                failure: None,
            };
            let told = list_told::<C>(platform, c, actions, 0, answers);
            run::<C>(start, answers, told.cost + 1) == told.steps.push(StepView::Done)
        }),
{
    let nothing = WalkView::<C::V> { platform, stack: Seq::empty(), pending: None, failure: None };
    let start = WalkView { platform, stack: seq![FrameView { context: c, rest: actions }], pending: None, failure: None };
    let told = list_told::<C>(platform, c, actions, 0, answers);
    assert(actions.skip(0) =~= actions);
    assert(entered(nothing, c, actions).stack =~= start.stack);
    lemma_list_run::<C>(nothing, c, actions, 0, answers, 1);
    assert(run::<C>(nothing, told.answers, 1) =~= seq![StepView::<C::V>::Done]);
    assert(told.steps + seq![StepView::<C::V>::Done] =~= told.steps.push(StepView::Done));
}

} // verus!
