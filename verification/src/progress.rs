//! Every rule of the grammar that matches consumes input and stays inside it.

use vstd::prelude::*;
use crate::domain::FolderView;
use crate::grammar::{
    action, action_list, all_in, check_list, command_exec, command_file, command_files,
    context_named, context_plain, dependencies, dependency_check, dependency_contains,
    dependency_exists, dependency_rule, has_char, has_word, ident, lemma_run_bounds, more_actions,
    more_checks, more_rules, parse_actions, rule_list, separator_end, spaces, string, CharClass,
};

verus! {

/// Whitespace skipping moves forward and stays inside the input.
pub proof fn lemma_spaces_bounds(s: Seq<char>, pos: int)
    ensures
        pos <= spaces(s, pos),
        0 <= pos <= s.len() ==> spaces(s, pos) <= s.len(),
{
    lemma_run_bounds(s, pos, CharClass::Space);
}

/// A string that matches spans its two quotes and the text between them.
pub proof fn lemma_string_advances(s: Seq<char>, pos: int)
    ensures
        string(s, pos) matches Ok((text, next)) ==> {
            &&& 0 <= pos < next <= s.len()
            &&& next == pos + text.len() + 2
            &&& all_in(text, CharClass::Text)
        },
{
    lemma_run_bounds(s, pos + 1, CharClass::Text);
}

/// A name that matches is not empty and holds name characters only.
pub proof fn lemma_ident_advances(s: Seq<char>, pos: int)
    ensures
        ident(s, pos) matches Ok((name, next)) ==> {
            &&& pos < next
            &&& 0 <= pos ==> next <= s.len()
            &&& next == pos + name.len()
            &&& 0 <= pos ==> all_in(name, CharClass::Name)
        },
{
    lemma_run_bounds(s, pos, CharClass::Name);
}

/// A check that matches consumes input.
pub proof fn lemma_check_advances(s: Seq<char>, pos: int)
    ensures
        dependency_exists(s, pos) matches Ok((_, next)) ==> 0 <= pos < next <= s.len(),
        dependency_contains(s, pos) matches Ok((_, next)) ==> 0 <= pos < next <= s.len(),
        dependency_check(s, pos) matches Ok((_, next)) ==> 0 <= pos < next <= s.len(),
{
    if has_word(s, pos, "exists"@) {
        let arrow = spaces(s, pos + "exists"@.len());
        lemma_spaces_bounds(s, pos + "exists"@.len());
        if has_word(s, arrow, "->"@) {
            let start = spaces(s, arrow + "->"@.len());
            lemma_spaces_bounds(s, arrow + "->"@.len());
            lemma_ident_advances(s, start);
            if let Ok((_, end)) = ident(s, start) {
                lemma_spaces_bounds(s, end);
            }
        }
    }
    if has_word(s, pos, "contains"@) {
        let open = spaces(s, pos + "contains"@.len());
        lemma_spaces_bounds(s, pos + "contains"@.len());
        lemma_string_advances(s, open);
        if let Ok((_, after)) = string(s, open) {
            let arrow = spaces(s, after);
            lemma_spaces_bounds(s, after);
            if has_word(s, arrow, "->"@) {
                let start = spaces(s, arrow + "->"@.len());
                lemma_spaces_bounds(s, arrow + "->"@.len());
                lemma_ident_advances(s, start);
                if let Ok((_, end)) = ident(s, start) {
                    lemma_spaces_bounds(s, end);
                }
            }
        }
    }
}

/// The tail of a list of checks ends at or after its start, inside the input.
pub proof fn lemma_more_checks_bounds(s: Seq<char>, pos: int)
    ensures
        pos <= more_checks(s, pos).1,
        0 <= pos <= s.len() ==> more_checks(s, pos).1 <= s.len(),
    decreases s.len() - pos,
{
    if has_char(s, pos, ',') {
        if let Ok((_, next)) = dependency_check(s, spaces(s, pos + 1)) {
            if pos < next <= s.len() {
                lemma_more_checks_bounds(s, next);
            }
        }
    }
}

/// A list of checks ends at or after its start, inside the input.
pub proof fn lemma_check_list_bounds(s: Seq<char>, pos: int)
    ensures
        pos <= check_list(s, pos).1,
        0 <= pos <= s.len() ==> check_list(s, pos).1 <= s.len(),
{
    if let Ok((_, next)) = dependency_check(s, pos) {
        lemma_check_advances(s, pos);
        lemma_more_checks_bounds(s, next);
    }
}

/// A bracketed list of checks that matches consumes input.
pub proof fn lemma_dependencies_advances(s: Seq<char>, pos: int)
    ensures
        dependencies(s, pos) matches Ok((_, next)) ==> pos < next <= s.len(),
{
    let open = spaces(s, pos);
    lemma_spaces_bounds(s, pos);
    if has_char(s, open, '[') {
        lemma_spaces_bounds(s, open + 1);
        lemma_check_list_bounds(s, spaces(s, open + 1));
        lemma_spaces_bounds(s, check_list(s, spaces(s, open + 1)).1);
    }
}

/// The tail of a list of actions ends at or after its start, inside the input.
pub proof fn lemma_more_actions_bounds(s: Seq<char>, pos: int)
    ensures
        pos <= more_actions(s, pos).1,
        0 <= pos <= s.len() ==> more_actions(s, pos).1 <= s.len(),
    decreases s.len() - pos,
{
    if let Ok((_, next)) = action(s, separator_end(s, pos)) {
        if 0 <= pos < next <= s.len() {
            lemma_more_actions_bounds(s, next);
        }
    }
}

/// A list of actions ends at or after its start, inside the input.
pub proof fn lemma_action_list_bounds(s: Seq<char>, pos: int)
    ensures
        pos <= action_list(s, pos).1,
        0 <= pos <= s.len() ==> action_list(s, pos).1 <= s.len(),
{
    if let Ok((_, next)) = action(s, pos) {
        if 0 <= pos < next <= s.len() {
            lemma_more_actions_bounds(s, next);
        }
    }
}

/// A braced list of actions that matches consumes input.
pub proof fn lemma_parse_actions_advances(s: Seq<char>, pos: int)
    ensures
        parse_actions(s, pos) matches Ok((_, next)) ==> 0 <= pos < next <= s.len(),
{
    if has_char(s, pos, '{') {
        lemma_spaces_bounds(s, pos + 1);
        lemma_action_list_bounds(s, spaces(s, pos + 1));
        lemma_spaces_bounds(s, action_list(s, spaces(s, pos + 1)).1);
    }
}

/// A leaf action that matches consumes input.
pub proof fn lemma_command_advances(s: Seq<char>, pos: int)
    ensures
        command_file(s, pos) matches Ok((_, next)) ==> 0 <= pos < next <= s.len(),
        command_files(s, pos) matches Ok((_, next)) ==> 0 <= pos < next <= s.len(),
        command_exec(s, pos) matches Ok((_, next)) ==> 0 <= pos < next <= s.len(),
{
    if has_word(s, pos, "file"@) {
        let open = spaces(s, pos + "file"@.len());
        lemma_spaces_bounds(s, pos + "file"@.len());
        lemma_string_advances(s, open);
        if let Ok((_, after)) = string(s, open) {
            lemma_spaces_bounds(s, after);
            lemma_dependencies_advances(s, spaces(s, after));
        }
    }
    if has_word(s, pos, "files"@) {
        lemma_spaces_bounds(s, pos + "files"@.len());
        lemma_string_advances(s, spaces(s, pos + "files"@.len()));
    }
    if has_word(s, pos, "exec"@) {
        let word_end = if has_word(s, pos, "execute"@) {
            pos + "execute"@.len()
        } else {
            pos + "exec"@.len()
        };
        lemma_spaces_bounds(s, word_end);
        lemma_string_advances(s, spaces(s, word_end));
        if let Ok((_, after)) = string(s, spaces(s, word_end)) {
            let mark = spaces(s, after);
            lemma_spaces_bounds(s, after);
            if has_word(s, mark, ">>"@) {
                lemma_spaces_bounds(s, mark + ">>"@.len());
                lemma_string_advances(s, spaces(s, mark + ">>"@.len()));
            }
        }
    }
}

/// A context that matches consumes input.
pub proof fn lemma_context_advances(s: Seq<char>, pos: int, word: Seq<char>, folder: FolderView, search: bool)
    ensures
        context_plain(s, pos, word, folder) matches Ok((_, next)) ==> 0 <= pos < next <= s.len(),
        context_named(s, pos, word, search) matches Ok((_, next)) ==> 0 <= pos < next <= s.len(),
{
    if has_word(s, pos, word) && word.len() > 0 {
        let start = spaces(s, pos + word.len());
        lemma_spaces_bounds(s, pos + word.len());
        lemma_parse_actions_advances(s, start);
        lemma_string_advances(s, start);
        if let Ok((_, after)) = string(s, start) {
            lemma_spaces_bounds(s, after);
            lemma_parse_actions_advances(s, spaces(s, after));
        }
    }
}

/// An action that matches consumes input.
pub proof fn lemma_action_advances(s: Seq<char>, pos: int)
    ensures
        action(s, pos) matches Ok((_, next)) ==> 0 <= pos < next <= s.len(),
{
    lemma_command_advances(s, pos);
    lemma_context_advances(s, pos, "home"@, FolderView::Home, true);
    lemma_context_advances(s, pos, "config"@, FolderView::Config, true);
    lemma_context_advances(s, pos, "local"@, FolderView::Local, true);
    lemma_context_advances(s, pos, "search"@, FolderView::Home, true);
    lemma_context_advances(s, pos, "cd"@, FolderView::Home, false);
}

/// A dependency rule that matches consumes input.
pub proof fn lemma_rule_advances(s: Seq<char>, pos: int)
    ensures
        dependency_rule(s, pos) matches Ok((rule, next)) ==> {
            &&& pos < next
            &&& 0 <= pos ==> next <= s.len()
        },
{
    let start = spaces(s, pos);
    lemma_spaces_bounds(s, pos);
    lemma_ident_advances(s, start);
    if let Ok((_, after)) = ident(s, start) {
        lemma_spaces_bounds(s, after);
        lemma_run_bounds(s, spaces(s, after) + 1, CharClass::Block);
    }
}

/// The tail of a list of rules ends at or after its start, inside the input.
pub proof fn lemma_more_rules_bounds(s: Seq<char>, pos: int)
    ensures
        pos <= more_rules(s, pos).1,
        0 <= pos <= s.len() ==> more_rules(s, pos).1 <= s.len(),
    decreases s.len() - pos,
{
    if let Ok((_, next)) = dependency_rule(s, spaces(s, pos)) {
        if pos < next <= s.len() {
            lemma_more_rules_bounds(s, next);
        }
    }
}

/// A list of rules ends at or after its start, inside the input.
pub proof fn lemma_rule_list_bounds(s: Seq<char>, pos: int)
    ensures
        pos <= rule_list(s, pos).1,
        0 <= pos <= s.len() ==> rule_list(s, pos).1 <= s.len(),
{
    if let Ok((_, next)) = dependency_rule(s, pos) {
        lemma_rule_advances(s, pos);
        lemma_more_rules_bounds(s, next);
    }
}

} // verus!
