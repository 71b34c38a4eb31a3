//! Which apps the grammar can produce.
//!
//! The grammar has no escapes, so a string cannot hold `"`; a rule name is
//! not empty and holds name characters only; a rule's block is not empty and
//! cannot hold `}`; a list of actions or of checks holds at least one.

use vstd::prelude::*;
use crate::domain::{ActionView, AppView, CheckView, DependencyView, FolderView};
use crate::grammar::{all_in, CharClass};

verus! {

/// `text` can stand between quotes.
pub open spec fn text_ok(text: Seq<char>) -> bool {
    all_in(text, CharClass::Text)
}

/// `name` can stand as a rule name.
pub open spec fn name_ok(name: Seq<char>) -> bool {
    name.len() > 0 && all_in(name, CharClass::Name)
}

/// `block` can stand between the braces of a dependency rule.
pub open spec fn block_ok(block: Seq<char>) -> bool {
    block.len() > 0 && all_in(block, CharClass::Block)
}

pub open spec fn check_ok(check: CheckView) -> bool {
    match check {
        CheckView::Exists(rule) => name_ok(rule),
        CheckView::Contains(text, rule) => text_ok(text) && name_ok(rule),
    }
}

/// Every check of the list is well formed.
pub open spec fn each_check_ok(checks: Seq<CheckView>) -> bool {
    forall|i: int| 0 <= i < checks.len() ==> check_ok(#[trigger] checks[i])
}

/// A list of checks as it can stand between brackets: not empty, each check well formed.
pub open spec fn checks_ok(checks: Seq<CheckView>) -> bool {
    checks.len() > 0 && each_check_ok(checks)
}

pub open spec fn folder_ok(folder: FolderView) -> bool {
    match folder {
        FolderView::Custom(name) => text_ok(name),
        FolderView::Search(pattern) => text_ok(pattern),
        _ => true,
    }
}

pub open spec fn action_ok(action: ActionView) -> bool
    decreases action,
{
    match action {
        ActionView::File(name, checks) => text_ok(name) && (checks matches Some(list) ==> checks_ok(list)),
        ActionView::Files(pattern) => text_ok(pattern),
        ActionView::Execute(command, file) => text_ok(command) && (file matches Some(name) ==> text_ok(name)),
        ActionView::Context(folder, body) => folder_ok(folder) && body.len() > 0 && forall|i: int|
            0 <= i < body.len() ==> action_ok(#[trigger] body[i]),
    }
}

/// Every action of the list is well formed.
pub open spec fn each_action_ok(actions: Seq<ActionView>) -> bool {
    forall|i: int| 0 <= i < actions.len() ==> action_ok(#[trigger] actions[i])
}

/// A list of actions as it can stand between braces: not empty, each action well formed.
pub open spec fn actions_ok(actions: Seq<ActionView>) -> bool {
    actions.len() > 0 && each_action_ok(actions)
}

pub open spec fn rule_ok(rule: DependencyView) -> bool {
    name_ok(rule.name) && block_ok(rule.block)
}

pub open spec fn rules_ok(rules: Seq<DependencyView>) -> bool {
    forall|i: int| 0 <= i < rules.len() ==> rule_ok(#[trigger] rules[i])
}

/// `app` is an app that some spec text describes.
pub open spec fn app_ok(app: AppView) -> bool {
    &&& text_ok(app.name)
    &&& actions_ok(app.actions)
    &&& app.dependencies matches Some(rules) ==> rules_ok(rules)
}

} // verus!
