//! Whatever the grammar yields is well formed: strings hold no quote, rule
//! names are names, blocks are not empty and hold no `}`, lists of actions
//! and of checks are not empty.
//! Together with the round trip this says that the well-formed apps are
//! exactly those that some text describes.

use vstd::prelude::*;
use crate::domain::FolderView;
use crate::grammar::{
    action, action_list, capture, command_exec, command_file, command_files, context_named,
    context_plain, dependencies, dependency_check, dependency_contains, dependency_exists,
    dependency_rule, has_char, ident, left, lemma_run_bounds, more_actions, more_checks,
    more_rules, parse, parse_actions, parse_dependencies_section, spaces, string, CharClass,
};
use crate::progress::{lemma_ident_advances, lemma_spaces_bounds, lemma_string_advances};
use crate::wellformed::{
    action_ok, actions_ok, app_ok, check_ok, checks_ok, each_action_ok, each_check_ok, folder_ok,
    name_ok, rule_ok, rules_ok, text_ok,
};

verus! {

/// A string that parses holds text characters only.
pub proof fn lemma_string_sound(s: Seq<char>, pos: int)
    ensures
        string(s, pos) matches Ok((text, _)) ==> text_ok(text),
{
    lemma_string_advances(s, pos);
}

/// A name that parses, at a place inside the input, is a rule name.
pub proof fn lemma_ident_sound(s: Seq<char>, pos: int)
    requires
        0 <= pos,
    ensures
        ident(s, pos) matches Ok((name, _)) ==> name_ok(name),
{
    lemma_ident_advances(s, pos);
}

/// A check that parses is well formed.
pub proof fn lemma_check_sound(s: Seq<char>, pos: int)
    ensures
        dependency_exists(s, pos) matches Ok((check, _)) ==> check_ok(check),
        dependency_contains(s, pos) matches Ok((check, _)) ==> check_ok(check),
        dependency_check(s, pos) matches Ok((check, _)) ==> check_ok(check),
{
    if dependency_exists(s, pos) is Ok {
        let arrow = spaces(s, pos + "exists"@.len());
        lemma_spaces_bounds(s, pos + "exists"@.len());
        lemma_spaces_bounds(s, arrow + "->"@.len());
        lemma_ident_sound(s, spaces(s, arrow + "->"@.len()));
    }
    if dependency_contains(s, pos) is Ok {
        let open = spaces(s, pos + "contains"@.len());
        lemma_spaces_bounds(s, pos + "contains"@.len());
        lemma_string_advances(s, open);
        let after = string(s, open)->Ok_0.1;
        let arrow = spaces(s, after);
        lemma_spaces_bounds(s, after);
        lemma_spaces_bounds(s, arrow + "->"@.len());
        lemma_ident_sound(s, spaces(s, arrow + "->"@.len()));
    }
}

/// The tail of a list of checks holds well-formed checks only.
pub proof fn lemma_more_checks_sound(s: Seq<char>, pos: int)
    ensures
        each_check_ok(more_checks(s, pos).0),
    decreases s.len() - pos,
{
    if has_char(s, pos, ',') {
        if let Ok((check, next)) = dependency_check(s, spaces(s, pos + 1)) {
            if pos < next <= s.len() {
                lemma_check_sound(s, spaces(s, pos + 1));
                lemma_more_checks_sound(s, next);
                let rest = more_checks(s, next).0;
                assert forall|i: int| 0 <= i < (seq![check] + rest).len() implies check_ok(
                    #[trigger] (seq![check] + rest)[i],
                ) by {
                    if i > 0 {
                        assert((seq![check] + rest)[i] == rest[i - 1]);
                    }
                }
            }
        }
    }
}

/// A bracketed list of checks that parses holds well-formed checks only.
pub proof fn lemma_dependencies_sound(s: Seq<char>, pos: int)
    ensures
        dependencies(s, pos) matches Ok((checks, _)) ==> checks_ok(checks),
{
    let start = spaces(s, spaces(s, pos) + 1);
    if let Ok((check, next)) = dependency_check(s, start) {
        crate::progress::lemma_check_advances(s, start);
        lemma_check_sound(s, start);
        lemma_more_checks_sound(s, next);
        let rest = more_checks(s, next).0;
        assert forall|i: int| 0 <= i < (seq![check] + rest).len() implies check_ok(
            #[trigger] (seq![check] + rest)[i],
        ) by {
            if i > 0 {
                assert((seq![check] + rest)[i] == rest[i - 1]);
            }
        }
    }
}

/// A leaf action that parses is well formed.
pub proof fn lemma_command_sound(s: Seq<char>, pos: int)
    ensures
        command_file(s, pos) matches Ok((found, _)) ==> action_ok(found),
        command_files(s, pos) matches Ok((found, _)) ==> action_ok(found),
        command_exec(s, pos) matches Ok((found, _)) ==> action_ok(found),
{
    if command_file(s, pos) is Ok {
        let open = spaces(s, pos + "file"@.len());
        lemma_string_sound(s, open);
        lemma_dependencies_sound(s, spaces(s, string(s, open)->Ok_0.1));
    }
    if command_files(s, pos) is Ok {
        lemma_string_sound(s, spaces(s, pos + "files"@.len()));
    }
    if command_exec(s, pos) is Ok {
        let word_end = if crate::grammar::has_word(s, pos, "execute"@) {
            pos + "execute"@.len()
        } else {
            pos + "exec"@.len()
        };
        lemma_string_sound(s, spaces(s, word_end));
        let after = string(s, spaces(s, word_end))->Ok_0.1;
        if capture(s, after) is Ok {
            lemma_string_sound(s, spaces(s, spaces(s, after) + ">>"@.len()));
        }
    }
}

/// An action that parses is well formed.
pub proof fn lemma_action_sound(s: Seq<char>, pos: int)
    ensures
        action(s, pos) matches Ok((found, _)) ==> action_ok(found),
    decreases left(s, pos), 2int,
{
    lemma_command_sound(s, pos);
    lemma_context_plain_sound(s, pos, "home"@, FolderView::Home);
    lemma_context_plain_sound(s, pos, "config"@, FolderView::Config);
    lemma_context_plain_sound(s, pos, "local"@, FolderView::Local);
    lemma_context_named_sound(s, pos, "search"@, true);
    lemma_context_named_sound(s, pos, "cd"@, false);
}

/// A context without a name that parses is well formed.
pub proof fn lemma_context_plain_sound(s: Seq<char>, pos: int, word: Seq<char>, folder: FolderView)
    requires
        folder_ok(folder),
    ensures
        context_plain(s, pos, word, folder) matches Ok((found, _)) ==> action_ok(found),
    decreases left(s, pos), 1int,
{
    if context_plain(s, pos, word, folder) is Ok {
        lemma_spaces_bounds(s, pos + word.len());
        lemma_parse_actions_sound(s, spaces(s, pos + word.len()));
    }
}

/// A context with a name that parses is well formed.
pub proof fn lemma_context_named_sound(s: Seq<char>, pos: int, word: Seq<char>, search: bool)
    ensures
        context_named(s, pos, word, search) matches Ok((found, _)) ==> action_ok(found),
    decreases left(s, pos), 1int,
{
    if context_named(s, pos, word, search) is Ok {
        let open = spaces(s, pos + word.len());
        lemma_string_sound(s, open);
        let after = string(s, open)->Ok_0.1;
        lemma_spaces_bounds(s, after);
        lemma_parse_actions_sound(s, spaces(s, after));
    }
}

/// The tail of a list of actions holds well-formed actions only.
pub proof fn lemma_more_actions_sound(s: Seq<char>, pos: int)
    ensures
        each_action_ok(more_actions(s, pos).0),
    decreases left(s, pos), 3int,
{
    let start = crate::grammar::separator_end(s, pos);
    lemma_spaces_bounds(s, pos);
    lemma_spaces_bounds(s, pos + 1);
    if let Ok((item, next)) = action(s, start) {
        if 0 <= pos < next <= s.len() {
            lemma_action_sound(s, start);
            lemma_more_actions_sound(s, next);
            let rest = more_actions(s, next).0;
            assert forall|i: int| 0 <= i < (seq![item] + rest).len() implies action_ok(
                #[trigger] (seq![item] + rest)[i],
            ) by {
                if i > 0 {
                    assert((seq![item] + rest)[i] == rest[i - 1]);
                }
            }
        }
    }
}

/// A list of actions holds well-formed actions only, and at least one where the first parses.
pub proof fn lemma_action_list_sound(s: Seq<char>, pos: int)
    ensures
        each_action_ok(action_list(s, pos).0),
        action(s, pos) is Ok ==> action_list(s, pos).0.len() > 0,
    decreases left(s, pos), 4int,
{
    if let Ok((item, next)) = action(s, pos) {
        crate::progress::lemma_action_advances(s, pos);
        if 0 <= pos < next <= s.len() {
            lemma_action_sound(s, pos);
            lemma_more_actions_sound(s, next);
            let rest = more_actions(s, next).0;
            assert forall|i: int| 0 <= i < (seq![item] + rest).len() implies action_ok(
                #[trigger] (seq![item] + rest)[i],
            ) by {
                if i > 0 {
                    assert((seq![item] + rest)[i] == rest[i - 1]);
                }
            }
        }
    }
}

/// A braced list of actions that parses holds well-formed actions only.
pub proof fn lemma_parse_actions_sound(s: Seq<char>, pos: int)
    ensures
        parse_actions(s, pos) matches Ok((found, _)) ==> actions_ok(found),
    decreases left(s, pos), 5int,
{
    if has_char(s, pos, '{') {
        lemma_spaces_bounds(s, pos + 1);
        lemma_action_list_sound(s, spaces(s, pos + 1));
    }
}

/// A dependency rule that parses is well formed.
pub proof fn lemma_rule_sound(s: Seq<char>, pos: int)
    requires
        0 <= pos,
    ensures
        dependency_rule(s, pos) matches Ok((rule, _)) ==> rule_ok(rule),
{
    let start = spaces(s, pos);
    lemma_spaces_bounds(s, pos);
    lemma_ident_sound(s, start);
    if let Ok((_, after)) = ident(s, start) {
        lemma_ident_advances(s, start);
        lemma_spaces_bounds(s, after);
        let open = spaces(s, after);
        lemma_run_bounds(s, open + 1, CharClass::Block);
    }
}

/// The tail of a list of rules holds well-formed rules only.
pub proof fn lemma_more_rules_sound(s: Seq<char>, pos: int)
    requires
        0 <= pos,
    ensures
        rules_ok(more_rules(s, pos).0),
    decreases s.len() - pos,
{
    lemma_spaces_bounds(s, pos);
    if let Ok((rule, next)) = dependency_rule(s, spaces(s, pos)) {
        if pos < next <= s.len() {
            lemma_rule_sound(s, spaces(s, pos));
            lemma_more_rules_sound(s, next);
            let rest = more_rules(s, next).0;
            assert forall|i: int| 0 <= i < (seq![rule] + rest).len() implies rule_ok(
                #[trigger] (seq![rule] + rest)[i],
            ) by {
                if i > 0 {
                    assert((seq![rule] + rest)[i] == rest[i - 1]);
                }
            }
        }
    }
}

/// A dependencies section that parses holds well-formed rules only.
pub proof fn lemma_section_sound(s: Seq<char>, pos: int)
    requires
        0 <= pos,
    ensures
        parse_dependencies_section(s, pos) matches Ok((rules, _)) ==> rules_ok(rules),
{
    if parse_dependencies_section(s, pos) is Ok {
        let word = spaces(s, pos);
        lemma_spaces_bounds(s, pos);
        let open = spaces(s, word + "dependencies"@.len());
        lemma_spaces_bounds(s, word + "dependencies"@.len());
        if let Ok((rule, next)) = dependency_rule(s, open + 1) {
            lemma_rule_sound(s, open + 1);
            crate::progress::lemma_rule_advances(s, open + 1);
            lemma_more_rules_sound(s, next);
            let rest = more_rules(s, next).0;
            assert forall|i: int| 0 <= i < (seq![rule] + rest).len() implies rule_ok(
                #[trigger] (seq![rule] + rest)[i],
            ) by {
                if i > 0 {
                    assert((seq![rule] + rest)[i] == rest[i - 1]);
                }
            }
        }
    }
}

/// Every app that a text describes is well formed.
pub proof fn lemma_parse_sound(s: Seq<char>)
    ensures
        parse(s) matches Ok(app) ==> app_ok(app),
{
    if parse(s) is Ok {
        let word = spaces(s, 0);
        lemma_spaces_bounds(s, 0);
        let open = spaces(s, word + "app"@.len());
        lemma_string_sound(s, open);
        lemma_string_advances(s, open);
        let after = string(s, open)->Ok_0.1;
        lemma_spaces_bounds(s, after);
        lemma_parse_actions_sound(s, spaces(s, after));
        crate::progress::lemma_parse_actions_advances(s, spaces(s, after));
        let end = parse_actions(s, spaces(s, after))->Ok_0.1;
        lemma_section_sound(s, end);
    }
}

} // verus!
