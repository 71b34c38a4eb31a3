//! The parsed form of an app spec: plain data, built once and never mutated.

use vstd::prelude::*;

verus! {

/// How the next location is derived from the current one.
#[derive(Debug, PartialEq)]
pub enum Folder {
    Home,
    Config,
    Local,
    Custom(String),
    Search(String),
}

/// A predicate on one file that names the dependency rule to report when it holds.
#[derive(Debug, PartialEq)]
pub enum DependencyCheck {
    /// `Contains(substring, rule)`: the file's text contains `substring`.
    Contains(String, String),
    /// `Exists(rule)`: the file is present.
    Exists(String),
}

/// One step of an app spec.
#[derive(Debug, PartialEq)]
pub enum Action {
    File(String, Option<Vec<DependencyCheck>>),
    Files(String),
    Context(Folder, Vec<Action>),
    Execute(String, Option<String>),
}

/// Free-form text (an install command, say) filed under a rule name.
#[derive(Debug, PartialEq)]
pub struct Dependency {
    pub name: String,
    pub block: String,
}

/// The root of one app spec.
#[derive(Debug, PartialEq)]
pub struct App {
    pub name: String,
    pub actions: Vec<Action>,
    pub dependencies: Option<Vec<Dependency>>,
}

/// Mathematical value of a [`Folder`].
pub enum FolderView {
    Home,
    Config,
    Local,
    Custom(Seq<char>),
    Search(Seq<char>),
}

/// Mathematical value of a [`DependencyCheck`].
pub enum CheckView {
    Contains(Seq<char>, Seq<char>),
    Exists(Seq<char>),
}

/// Mathematical value of an [`Action`].
pub enum ActionView {
    File(Seq<char>, Option<Seq<CheckView>>),
    Files(Seq<char>),
    Context(FolderView, Seq<ActionView>),
    Execute(Seq<char>, Option<Seq<char>>),
}

/// Mathematical value of a [`Dependency`].
pub struct DependencyView {
    pub name: Seq<char>,
    pub block: Seq<char>,
}

/// Mathematical value of an [`App`].
pub struct AppView {
    pub name: Seq<char>,
    pub actions: Seq<ActionView>,
    pub dependencies: Option<Seq<DependencyView>>,
}

impl View for Folder {
    type V = FolderView;

    open spec fn view(&self) -> FolderView {
        match self {
            Folder::Home => FolderView::Home,
            Folder::Config => FolderView::Config,
            Folder::Local => FolderView::Local,
            Folder::Custom(name) => FolderView::Custom(name@),
            Folder::Search(pattern) => FolderView::Search(pattern@),
        }
    }
}

impl View for DependencyCheck {
    type V = CheckView;

    open spec fn view(&self) -> CheckView {
        match self {
            DependencyCheck::Contains(text, rule) => CheckView::Contains(text@, rule@),
            DependencyCheck::Exists(rule) => CheckView::Exists(rule@),
        }
    }
}

/// The values of a list of checks, in order.
pub open spec fn checks_view(checks: Seq<DependencyCheck>) -> Seq<CheckView> {
    Seq::new(checks.len(), |i: int| checks[i]@)
}

/// The value of an optional string.
pub open spec fn opt_text_view(text: Option<String>) -> Option<Seq<char>> {
    match text {
        Some(t) => Some(t@),
        None => None,
    }
}

/// The value of an optional list of checks.
pub open spec fn opt_checks_view(checks: Option<Vec<DependencyCheck>>) -> Option<Seq<CheckView>> {
    match checks {
        Some(list) => Some(checks_view(list@)),
        None => None,
    }
}

impl View for Action {
    type V = ActionView;

    open spec fn view(&self) -> ActionView
        decreases self,
    {
        match self {
            Action::File(name, checks) => ActionView::File(name@, opt_checks_view(*checks)),
            Action::Files(pattern) => ActionView::Files(pattern@),
            Action::Context(folder, body) => ActionView::Context(
                folder@,
                Seq::new(body@.len(), |i: int| if 0 <= i < body@.len() { body@[i].view() } else { ActionView::Files(Seq::empty()) }),
            ),
            Action::Execute(command, capture) => ActionView::Execute(command@, opt_text_view(*capture)),
        }
    }
}

/// The values of a list of actions, in order.
pub open spec fn actions_view(actions: Seq<Action>) -> Seq<ActionView> {
    Seq::new(actions.len(), |i: int| actions[i]@)
}

impl View for Dependency {
    type V = DependencyView;

    open spec fn view(&self) -> DependencyView {
        DependencyView { name: self.name@, block: self.block@ }
    }
}

/// The values of a list of dependency rules, in order.
pub open spec fn dependencies_view(rules: Seq<Dependency>) -> Seq<DependencyView> {
    Seq::new(rules.len(), |i: int| rules[i]@)
}

/// The value of an optional list of dependency rules.
pub open spec fn opt_dependencies_view(rules: Option<Vec<Dependency>>) -> Option<Seq<DependencyView>> {
    match rules {
        Some(list) => Some(dependencies_view(list@)),
        None => None,
    }
}

impl View for App {
    type V = AppView;

    open spec fn view(&self) -> AppView {
        AppView {
            name: self.name@,
            actions: actions_view(self.actions@),
            dependencies: opt_dependencies_view(self.dependencies),
        }
    }
}

/// The body of a `Context` action is viewed element by element.
pub proof fn lemma_context_view(folder: Folder, body: Vec<Action>)
    ensures
        Action::Context(folder, body)@ == ActionView::Context(folder@, actions_view(body@)),
{
    reveal_with_fuel(<Action as View>::view, 2);
    assert(Action::Context(folder, body)@->Context_1 =~= actions_view(body@));
}

} // verus!
