//! The canonical text of an app: one line, one blank between tokens, `; `
//! between actions. Parsing it gives the app back, where the app is one that
//! the grammar can produce (see [`crate::wellformed`]). The text of any other
//! app, one with an empty list or with a quote in a string, is written all
//! the same and does not parse back.

use vstd::prelude::*;
use vstd::string::StringExecFns;
use crate::domain::{
    actions_view, checks_view, dependencies_view, lemma_context_view, Action, ActionView, App,
    AppView, CheckView, Dependency, DependencyCheck, DependencyView, Folder, FolderView,
};

verus! {

/// `"text"`
pub open spec fn quoted(text: Seq<char>) -> Seq<char> {
    seq!['"'] + text + seq!['"']
}

/// `exists -> rule` or `contains "text" -> rule`
pub open spec fn check_text(check: CheckView) -> Seq<char> {
    match check {
        CheckView::Exists(rule) => "exists -> "@ + rule,
        CheckView::Contains(text, rule) => "contains "@ + quoted(text) + " -> "@ + rule,
    }
}

/// The checks from index `i` on, each after `, `.
pub open spec fn check_rest_text(checks: Seq<CheckView>, i: int) -> Seq<char>
    decreases checks.len() - i,
{
    if 0 <= i < checks.len() {
        ", "@ + check_text(checks[i]) + check_rest_text(checks, i + 1)
    } else {
        Seq::empty()
    }
}

/// `[check, check, ...]`
pub open spec fn checks_text(checks: Seq<CheckView>) -> Seq<char> {
    if checks.len() == 0 {
        "[]"@
    } else {
        seq!['['] + check_text(checks[0]) + check_rest_text(checks, 1) + seq![']']
    }
}

/// The words before the body of a context.
pub open spec fn folder_text(folder: FolderView) -> Seq<char> {
    match folder {
        FolderView::Home => "home "@,
        FolderView::Config => "config "@,
        FolderView::Local => "local "@,
        FolderView::Custom(name) => "cd "@ + quoted(name) + seq![' '],
        FolderView::Search(pattern) => "search "@ + quoted(pattern) + seq![' '],
    }
}

/// One action, contexts with their bodies.
pub open spec fn action_text(action: ActionView) -> Seq<char>
    decreases action, 0int,
{
    match action {
        ActionView::File(name, None) => "file "@ + quoted(name),
        ActionView::File(name, Some(checks)) => "file "@ + quoted(name) + seq![' '] + checks_text(checks),
        ActionView::Files(pattern) => "files "@ + quoted(pattern),
        ActionView::Execute(command, None) => "exec "@ + quoted(command),
        ActionView::Execute(command, Some(file)) => "exec "@ + quoted(command) + " >> "@ + quoted(file),
        ActionView::Context(folder, body) => folder_text(folder) + seq!['{', ' '] + action_rest_text(body, 0) + seq![' ', '}'],
    }
}

/// The actions from index `i` on, `; ` before each but the first of the list.
pub open spec fn action_rest_text(actions: Seq<ActionView>, i: int) -> Seq<char>
    decreases actions, actions.len() - i,
{
    if 0 <= i < actions.len() {
        (if i > 0 { "; "@ } else { Seq::empty() }) + action_text(actions[i]) + action_rest_text(actions, i + 1)
    } else {
        Seq::empty()
    }
}

/// `{ action; action; ... }`
pub open spec fn actions_text(actions: Seq<ActionView>) -> Seq<char> {
    seq!['{', ' '] + action_rest_text(actions, 0) + seq![' ', '}']
}

/// ` name {block}`, the block verbatim.
pub open spec fn rule_text(rule: DependencyView) -> Seq<char> {
    seq![' '] + rule.name + seq![' ', '{'] + rule.block + seq!['}']
}

/// The rules from index `i` on.
pub open spec fn rule_rest_text(rules: Seq<DependencyView>, i: int) -> Seq<char>
    decreases rules.len() - i,
{
    if 0 <= i < rules.len() {
        rule_text(rules[i]) + rule_rest_text(rules, i + 1)
    } else {
        Seq::empty()
    }
}

/// ` dependencies { name {block} ... }`
pub open spec fn section_text(rules: Seq<DependencyView>) -> Seq<char> {
    " dependencies {"@ + rule_rest_text(rules, 0) + seq![' ', '}']
}

/// The canonical text of an app.
pub open spec fn app_text(app: AppView) -> Seq<char> {
    "app "@ + quoted(app.name) + seq![' '] + actions_text(app.actions) + match app.dependencies {
        Some(rules) => section_text(rules),
        None => Seq::empty(),
    }
}

} // verus!

verus! {

fn push_quoted(out: &mut String, text: &String)
    ensures
        final(out)@ == old(out)@ + quoted(text@),
{
    out.push('"');
    out.append(text.as_str());
    out.push('"');
    assert(out@ =~= old(out)@ + quoted(text@));
}

fn push_check(out: &mut String, check: &DependencyCheck)
    ensures
        final(out)@ == old(out)@ + check_text(check@),
{
    match check {
        DependencyCheck::Exists(rule) => {
            out.append("exists -> ");
            out.append(rule.as_str());
        },
        DependencyCheck::Contains(text, rule) => {
            out.append("contains ");
            push_quoted(out, text);
            out.append(" -> ");
            out.append(rule.as_str());
        },
    }
    assert(out@ =~= old(out)@ + check_text(check@));
}

fn push_checks(out: &mut String, checks: &Vec<DependencyCheck>)
    ensures
        final(out)@ == old(out)@ + checks_text(checks_view(checks@)),
{
    let ghost list = checks_view(checks@);
    if checks.len() == 0 {
        out.append("[]");
        return ;
    }
    out.push('[');
    push_check(out, &checks[0]);
    let ghost head = out@;
    assert(head =~= old(out)@ + (seq!['['] + check_text(list[0])));
    let mut i: usize = 1;
    while i < checks.len()
        invariant
            1 <= i <= checks@.len(),
            list == checks_view(checks@),
            out@ + check_rest_text(list, i as int) == head + check_rest_text(list, 1),
        decreases checks@.len() - i,
    {
        let ghost before = out@;
        out.append(", ");
        push_check(out, &checks[i]);
        assert(out@ + check_rest_text(list, i + 1) =~= before + check_rest_text(list, i as int));
        i += 1;
    }
    out.push(']');
    assert(out@ =~= old(out)@ + checks_text(list));
}

fn push_action(out: &mut String, action: &Action)
    ensures
        final(out)@ == old(out)@ + action_text(action@),
    decreases action, 0int,
{
    match action {
        Action::File(name, None) => {
            out.append("file ");
            push_quoted(out, name);
        },
        Action::File(name, Some(checks)) => {
            out.append("file ");
            push_quoted(out, name);
            out.push(' ');
            push_checks(out, checks);
        },
        Action::Files(pattern) => {
            out.append("files ");
            push_quoted(out, pattern);
        },
        Action::Execute(command, None) => {
            out.append("exec ");
            push_quoted(out, command);
        },
        Action::Execute(command, Some(file)) => {
            out.append("exec ");
            push_quoted(out, command);
            out.append(" >> ");
            push_quoted(out, file);
        },
        Action::Context(folder, body) => {
            proof {
                lemma_context_view(*folder, *body);
            }
            match folder {
                Folder::Home => out.append("home "),
                Folder::Config => out.append("config "),
                Folder::Local => out.append("local "),
                Folder::Custom(name) => {
                    out.append("cd ");
                    push_quoted(out, name);
                    out.push(' ');
                },
                Folder::Search(pattern) => {
                    out.append("search ");
                    push_quoted(out, pattern);
                    out.push(' ');
                },
            }
            assert(out@ =~= old(out)@ + folder_text(folder@));
            push_actions(out, body);
        },
    }
    assert(out@ =~= old(out)@ + action_text(action@));
}

fn push_actions(out: &mut String, actions: &Vec<Action>)
    ensures
        final(out)@ == old(out)@ + actions_text(actions_view(actions@)),
    decreases actions, 1int,
{
    let ghost list = actions_view(actions@);
    out.push('{');
    out.push(' ');
    let ghost head = out@;
    let mut i: usize = 0;
    while i < actions.len()
        invariant
            i <= actions@.len(),
            list == actions_view(actions@),
            out@ + action_rest_text(list, i as int) == head + action_rest_text(list, 0),
        decreases actions@.len() - i,
    {
        let ghost before = out@;
        if i > 0 {
            out.append("; ");
        }
        push_action(out, &actions[i]);
        assert(out@ + action_rest_text(list, i + 1) =~= before + action_rest_text(list, i as int));
        i += 1;
    }
    out.push(' ');
    out.push('}');
    assert(out@ =~= old(out)@ + actions_text(list));
}

fn push_rules(out: &mut String, rules: &Vec<Dependency>)
    ensures
        final(out)@ == old(out)@ + section_text(dependencies_view(rules@)),
{
    let ghost list = dependencies_view(rules@);
    out.append(" dependencies {");
    let ghost head = out@;
    let mut i: usize = 0;
    while i < rules.len()
        invariant
            i <= rules@.len(),
            list == dependencies_view(rules@),
            out@ + rule_rest_text(list, i as int) == head + rule_rest_text(list, 0),
        decreases rules@.len() - i,
    {
        let ghost before = out@;
        out.push(' ');
        out.append(rules[i].name.as_str());
        out.push(' ');
        out.push('{');
        out.append(rules[i].block.as_str());
        out.push('}');
        assert(out@ =~= before + rule_text(list[i as int]));
        assert(out@ + rule_rest_text(list, i + 1) =~= before + rule_rest_text(list, i as int));
        i += 1;
    }
    out.push(' ');
    out.push('}');
    assert(out@ =~= old(out)@ + section_text(list));
}

/// The canonical text of `app`.
pub fn render(app: &App) -> (text: String)
    ensures
        text@ == app_text(app@),
{
    let mut out = String::new();
    out.append("app ");
    push_quoted(&mut out, &app.name);
    out.push(' ');
    push_actions(&mut out, &app.actions);
    match &app.dependencies {
        Some(rules) => {
            push_rules(&mut out, rules);
        },
        None => {},
    }
    assert(out@ =~= app_text(app@));
    out
}

} // verus!
