//! The recursive-descent parser of app specs.
//!
//! Each function here computes one rule of [`crate::grammar`]: it takes the
//! input and a position, and returns what the rule yields at that position.

use vstd::prelude::*;
use vstd::string::StrSliceExecFns;
use crate::domain::{
    actions_view, checks_view, dependencies_view, lemma_context_view, Action, ActionView, App,
    AppView, CheckView, Dependency, DependencyCheck, DependencyView, Folder,
};
use crate::error::{Expected, Failure, ParseError, VacuumError};
use crate::grammar;
use crate::grammar::{CharClass, Outcome};
use crate::progress::{
    lemma_action_advances, lemma_action_list_bounds, lemma_check_advances,
    lemma_check_list_bounds, lemma_ident_advances, lemma_rule_advances, lemma_rule_list_bounds,
    lemma_string_advances,
};
use crate::sound::lemma_parse_sound;
use crate::wellformed::app_ok;
use crate::text::{chars_of, text_of};

verus! {

/// `r` is the text that the rule yields.
pub open spec fn yields_text(r: Result<(String, usize), ParseError>, o: Outcome<Seq<char>>) -> bool {
    match o {
        Ok((value, next)) => r matches Ok((x, n)) && x@ == value && n == next,
        Err(f) => r matches Err(e) && e@ == f,
    }
}

/// `r` is the check that the rule yields.
pub open spec fn yields_check(r: Result<(DependencyCheck, usize), ParseError>, o: Outcome<CheckView>) -> bool {
    match o {
        Ok((value, next)) => r matches Ok((x, n)) && x@ == value && n == next,
        Err(f) => r matches Err(e) && e@ == f,
    }
}

/// `r` is the list of checks that the rule yields.
pub open spec fn yields_checks(r: Result<(Vec<DependencyCheck>, usize), ParseError>, o: Outcome<Seq<CheckView>>) -> bool {
    match o {
        Ok((value, next)) => r matches Ok((x, n)) && checks_view(x@) == value && n == next,
        Err(f) => r matches Err(e) && e@ == f,
    }
}

/// `r` is the action that the rule yields.
pub open spec fn yields_action(r: Result<(Action, usize), ParseError>, o: Outcome<ActionView>) -> bool {
    match o {
        Ok((value, next)) => r matches Ok((x, n)) && x@ == value && n == next,
        Err(f) => r matches Err(e) && e@ == f,
    }
}

/// `r` is the list of actions that the rule yields.
pub open spec fn yields_actions(r: Result<(Vec<Action>, usize), ParseError>, o: Outcome<Seq<ActionView>>) -> bool {
    match o {
        Ok((value, next)) => r matches Ok((x, n)) && actions_view(x@) == value && n == next,
        Err(f) => r matches Err(e) && e@ == f,
    }
}

/// `r` is the dependency rule that the rule yields.
pub open spec fn yields_rule(r: Result<(Dependency, usize), ParseError>, o: Outcome<DependencyView>) -> bool {
    match o {
        Ok((value, next)) => r matches Ok((x, n)) && x@ == value && n == next,
        Err(f) => r matches Err(e) && e@ == f,
    }
}

/// `r` is the list of dependency rules that the rule yields.
pub open spec fn yields_rules(r: Result<(Vec<Dependency>, usize), ParseError>, o: Outcome<Seq<DependencyView>>) -> bool {
    match o {
        Ok((value, next)) => r matches Ok((x, n)) && dependencies_view(x@) == value && n == next,
        Err(f) => r matches Err(e) && e@ == f,
    }
}

/// `r` is the app that the rule yields.
pub open spec fn yields_app(r: Result<(App, usize), ParseError>, o: Outcome<AppView>) -> bool {
    match o {
        Ok((value, next)) => r matches Ok((x, n)) && x@ == value && n == next,
        Err(f) => r matches Err(e) && e@ == f,
    }
}

impl CharClass {
    /// Whether `c` belongs to the class.
    pub fn test(self, c: char) -> (r: bool)
        ensures
            r == self.holds(c),
    {
        let blank = c == ' ' || c == '\t' || c == '\r' || c == '\n';
        match self {
            CharClass::Space => blank,
            CharClass::Text => c != '"',
            CharClass::Name => c != '"' && c != '\\' && !blank && c != ',' && c != '[' && c != ']'
                && c != '{' && c != '}' && c != '(' && c != ')',
            CharClass::Block => c != '}',
        }
    }
}

fn fail(position: usize, expected: Expected) -> (e: ParseError)
    ensures
        e@ == (Failure { position: position as int, expected }),
{
    ParseError { position, expected }
}

/// Whether the character at `pos` is `c`.
fn char_at(input: &[char], pos: usize, c: char) -> (r: bool)
    ensures
        r == grammar::has_char(input@, pos as int, c),
        r ==> pos < usize::MAX,
{
    pos < input.len() && input[pos] == c
}

/// Where `word` ends if it stands at `pos`.
fn word_at(input: &[char], pos: usize, word: &str) -> (r: Option<usize>)
    ensures
        match r {
            Some(end) => grammar::has_word(input@, pos as int, word@) && end == pos + word@.len(),
            None => !grammar::has_word(input@, pos as int, word@),
        },
{
    let n = word.unicode_len();
    if pos > input.len() || n > input.len() - pos {
        return None;
    }
    let mut i: usize = 0;
    while i < n
        invariant
            i <= n == word@.len(),
            pos + n <= input@.len() <= usize::MAX,
            forall|j: int| 0 <= j < i ==> input@[pos + j] == #[trigger] word@[j],
        decreases n - i,
    {
        if input[pos + i] != word.get_char(i) {
            return None;
        }
        i += 1;
    }
    Some(pos + n)
}

/// Position just past the run of `class` characters that starts at `pos`.
fn run(input: &[char], pos: usize, class: CharClass) -> (end: usize)
    ensures
        end == grammar::run_end(input@, pos as int, class),
        pos <= end,
        pos <= input@.len() ==> end <= input@.len(),
{
    proof {
        grammar::lemma_run_bounds(input@, pos as int, class);
    }
    if pos >= input.len() {
        return pos;
    }
    let mut end: usize = pos;
    while end < input.len() && class.test(input[end])
        invariant
            pos <= end <= input@.len(),
            forall|j: int| pos <= j < end ==> class.holds(#[trigger] input@[j]),
        decreases input@.len() - end,
    {
        end += 1;
    }
    proof {
        grammar::lemma_run_ends(input@, pos as int, class, end as int);
    }
    end
}

/// Skips the whitespace at `pos`.
pub fn space(input: &[char], pos: usize) -> (end: usize)
    ensures
        end == grammar::spaces(input@, pos as int),
        pos <= end,
        pos <= input@.len() ==> end <= input@.len(),
{
    run(input, pos, CharClass::Space)
}

/// Parses a rule name at `pos`.
pub fn ident(input: &[char], pos: usize) -> (r: Result<(String, usize), ParseError>)
    ensures
        yields_text(r, grammar::ident(input@, pos as int)),
{
    let end = run(input, pos, CharClass::Name);
    if end > pos {
        Ok((text_of(input, pos, end), end))
    } else {
        Err(fail(pos, Expected::Name))
    }
}

/// Parses a quoted string at `pos`.
pub fn string(input: &[char], pos: usize) -> (r: Result<(String, usize), ParseError>)
    ensures
        yields_text(r, grammar::string(input@, pos as int)),
{
    if !char_at(input, pos, '"') {
        return Err(fail(pos, Expected::Quote));
    }
    let end = run(input, pos + 1, CharClass::Text);
    if char_at(input, end, '"') {
        Ok((text_of(input, pos + 1, end), end + 1))
    } else {
        Err(fail(end, Expected::Quote))
    }
}

/// Parses `-> rule` after the whitespace at `pos`, with the whitespace that follows.
fn arrow_rule(input: &[char], pos: usize) -> (r: Result<(String, usize), ParseError>)
    requires
        pos <= input@.len(),
    ensures
        ({
            let arrow = grammar::spaces(input@, pos as int);
            if !grammar::has_word(input@, arrow, "->"@) {
                r matches Err(e) && e@ == (Failure { position: arrow, expected: Expected::Arrow })
            } else {
                match grammar::ident(input@, grammar::spaces(input@, arrow + "->"@.len())) {
                    Ok((rule, end)) => r matches Ok((x, n)) && x@ == rule && n == grammar::spaces(input@, end),
                    Err(f) => r matches Err(e) && e@ == f,
                }
            }
        }),
{
    let arrow = space(input, pos);
    match word_at(input, arrow, "->") {
        None => Err(fail(arrow, Expected::Arrow)),
        Some(after) => {
            let start = space(input, after);
            proof {
                lemma_ident_advances(input@, start as int);
            }
            match ident(input, start) {
                Ok((rule, end)) => Ok((rule, space(input, end))),
                Err(e) => Err(e),
            }
        },
    }
}

/// Parses `exists -> rule` at `pos`.
pub fn dependency_exists(input: &[char], pos: usize) -> (r: Result<(DependencyCheck, usize), ParseError>)
    ensures
        yields_check(r, grammar::dependency_exists(input@, pos as int)),
{
    match word_at(input, pos, "exists") {
        None => Err(fail(pos, Expected::Keyword)),
        Some(after) => match arrow_rule(input, after) {
            Ok((rule, end)) => Ok((DependencyCheck::Exists(rule), end)),
            Err(e) => Err(e),
        },
    }
}

/// Parses `contains "text" -> rule` at `pos`.
pub fn dependency_contains(input: &[char], pos: usize) -> (r: Result<(DependencyCheck, usize), ParseError>)
    ensures
        yields_check(r, grammar::dependency_contains(input@, pos as int)),
{
    match word_at(input, pos, "contains") {
        None => Err(fail(pos, Expected::Keyword)),
        Some(after) => {
            let open = space(input, after);
            proof {
                lemma_string_advances(input@, open as int);
            }
            match string(input, open) {
                Err(e) => Err(e),
                Ok((text, end)) => match arrow_rule(input, end) {
                    Ok((rule, last)) => Ok((DependencyCheck::Contains(text, rule), last)),
                    Err(e) => Err(e),
                },
            }
        },
    }
}

/// Parses one dependency check at `pos`.
pub fn dependency_check(input: &[char], pos: usize) -> (r: Result<(DependencyCheck, usize), ParseError>)
    ensures
        yields_check(r, grammar::dependency_check(input@, pos as int)),
{
    match dependency_exists(input, pos) {
        Ok(found) => Ok(found),
        Err(_) => match dependency_contains(input, pos) {
            Ok(found) => Ok(found),
            Err(_) => Err(fail(pos, Expected::Check)),
        },
    }
}

/// Parses as many checks as stand at `pos`, separated by commas; fails where
/// the first does not parse.
fn check_list(input: &[char], pos: usize) -> (r: Result<(Vec<DependencyCheck>, usize), ParseError>)
    ensures
        match grammar::dependency_check(input@, pos as int) {
            Err(f) => r matches Err(e) && e@ == f,
            Ok(_) => r matches Ok((checks, end)) && checks_view(checks@) == grammar::check_list(
                input@,
                pos as int,
            ).0 && end == grammar::check_list(input@, pos as int).1,
        },
{
    let mut checks: Vec<DependencyCheck> = Vec::new();
    let mut end: usize = pos;
    proof {
        lemma_check_advances(input@, pos as int);
    }
    match dependency_check(input, pos) {
        Err(e) => {
            return Err(e);
        },
        Ok((check, next)) => {
            checks.push(check);
            end = next;
        },
    }
    assert(checks_view(checks@) =~= seq![checks@[0]@]);
    loop
        invariant
            0 <= end <= input@.len(),
            grammar::check_list(input@, pos as int).0 == checks_view(checks@) + grammar::more_checks(
                input@,
                end as int,
            ).0,
            grammar::check_list(input@, pos as int).1 == grammar::more_checks(input@, end as int).1,
        ensures
            grammar::more_checks(input@, end as int) == (Seq::<CheckView>::empty(), end as int),
        decreases input@.len() - end,
    {
        if !char_at(input, end, ',') {
            break ;
        }
        let start = space(input, end + 1);
        proof {
            lemma_check_advances(input@, start as int);
        }
        match dependency_check(input, start) {
            Err(_) => {
                break ;
            },
            Ok((check, next)) => {
                let ghost before = checks_view(checks@);
                let ghost rest = grammar::more_checks(input@, next as int).0;
                checks.push(check);
                assert(checks_view(checks@) =~= before.push(check@));
                assert(before + (seq![check@] + rest) =~= before.push(check@) + rest);
                end = next;
            },
        }
    }
    assert(checks_view(checks@) + Seq::<CheckView>::empty() =~= checks_view(checks@));
    Ok((checks, end))
}

/// Parses a bracketed list of checks after the whitespace at `pos`.
pub fn dependencies(input: &[char], pos: usize) -> (r: Result<(Vec<DependencyCheck>, usize), ParseError>)
    ensures
        yields_checks(r, grammar::dependencies(input@, pos as int)),
{
    let open = space(input, pos);
    if !char_at(input, open, '[') {
        return Err(fail(open, Expected::OpenBracket));
    }
    let start = space(input, open + 1);
    proof {
        lemma_check_list_bounds(input@, start as int);
    }
    match check_list(input, start) {
        Err(e) => Err(e),
        Ok((checks, after)) => {
            let close = space(input, after);
            if char_at(input, close, ']') {
                Ok((checks, close + 1))
            } else {
                Err(fail(close, Expected::CloseBracket))
            }
        },
    }
}

/// Parses `file "name"` with its optional checks at `pos`.
pub fn command_file(input: &[char], pos: usize) -> (r: Result<(Action, usize), ParseError>)
    ensures
        yields_action(r, grammar::command_file(input@, pos as int)),
{
    match word_at(input, pos, "file") {
        None => Err(fail(pos, Expected::Keyword)),
        Some(after) => {
            let open = space(input, after);
            proof {
                lemma_string_advances(input@, open as int);
            }
            match string(input, open) {
                Err(e) => Err(e),
                Ok((name, end)) => {
                    let rest = space(input, end);
                    match dependencies(input, rest) {
                        Ok((checks, last)) => Ok((Action::File(name, Some(checks)), last)),
                        Err(_) => Ok((Action::File(name, None), rest)),
                    }
                },
            }
        },
    }
}

/// Parses `files "pattern"` at `pos`.
pub fn command_files(input: &[char], pos: usize) -> (r: Result<(Action, usize), ParseError>)
    ensures
        yields_action(r, grammar::command_files(input@, pos as int)),
{
    match word_at(input, pos, "files") {
        None => Err(fail(pos, Expected::Keyword)),
        Some(after) => match string(input, space(input, after)) {
            Err(e) => Err(e),
            Ok((pattern, end)) => Ok((Action::Files(pattern), end)),
        },
    }
}

/// Parses `>> "file"` after the whitespace at `pos`.
pub fn capture(input: &[char], pos: usize) -> (r: Result<(String, usize), ParseError>)
    ensures
        yields_text(r, grammar::capture(input@, pos as int)),
{
    let mark = space(input, pos);
    match word_at(input, mark, ">>") {
        None => Err(fail(mark, Expected::Redirect)),
        Some(after) => string(input, space(input, after)),
    }
}

/// Parses `exec "command"` or `execute "command"`, with its optional `>> "file"`, at `pos`.
pub fn command_exec(input: &[char], pos: usize) -> (r: Result<(Action, usize), ParseError>)
    ensures
        yields_action(r, grammar::command_exec(input@, pos as int)),
{
    let short = word_at(input, pos, "exec");
    let after = match word_at(input, pos, "execute") {
        Some(after) => {
            proof {
                lemma_exec_prefix(input@, pos as int);
            }
            after
        },
        None => match short {
            Some(after) => after,
            None => {
                return Err(fail(pos, Expected::Keyword));
            },
        },
    };
    let open = space(input, after);
    proof {
        lemma_string_advances(input@, open as int);
    }
    match string(input, open) {
        Err(e) => Err(e),
        Ok((command, end)) => match capture(input, end) {
            Ok((file, last)) => Ok((Action::Execute(command, Some(file)), last)),
            Err(_) => Ok((Action::Execute(command, None), end)),
        },
    }
}

/// Where `execute` stands, `exec` stands too.
proof fn lemma_exec_prefix(s: Seq<char>, pos: int)
    requires
        grammar::has_word(s, pos, "execute"@),
    ensures
        grammar::has_word(s, pos, "exec"@),
{
    reveal_strlit("execute");
    reveal_strlit("exec");
    assert forall|i: int| 0 <= i < "exec"@.len() implies s[pos + i] == #[trigger] "exec"@[i] by {
        assert(s[pos + i] == "execute"@[i]);
    }
}

/// Parses one action at `pos`: the first alternative that matches.
pub fn action(input: &[char], pos: usize) -> (r: Result<(Action, usize), ParseError>)
    ensures
        yields_action(r, grammar::action(input@, pos as int)),
    decreases grammar::left(input@, pos as int), 2int,
{
    if let Ok(found) = command_file(input, pos) {
        return Ok(found);
    }
    if let Ok(found) = command_files(input, pos) {
        return Ok(found);
    }
    if let Ok(found) = command_exec(input, pos) {
        return Ok(found);
    }
    if let Ok(found) = context_home(input, pos) {
        return Ok(found);
    }
    if let Ok(found) = context_config(input, pos) {
        return Ok(found);
    }
    if let Ok(found) = context_local(input, pos) {
        return Ok(found);
    }
    if let Ok(found) = context_search(input, pos) {
        return Ok(found);
    }
    if let Ok(found) = context_custom(input, pos) {
        return Ok(found);
    }
    Err(fail(pos, Expected::Action))
}

/// Parses `word { ... }` at `pos` into a context of `folder`.
fn context_plain(input: &[char], pos: usize, word: &str, folder: Folder) -> (r: Result<(Action, usize), ParseError>)
    ensures
        yields_action(r, grammar::context_plain(input@, pos as int, word@, folder@)),
    decreases grammar::left(input@, pos as int), 0int,
{
    match word_at(input, pos, word) {
        None => Err(fail(pos, Expected::Keyword)),
        Some(after) => {
            if after == pos {
                return Err(fail(pos, Expected::Keyword));
            }
            match parse_actions(input, space(input, after)) {
                Ok((body, end)) => {
                    proof {
                        lemma_context_view(folder, body);
                    }
                    Ok((Action::Context(folder, body), end))
                },
                Err(e) => Err(e),
            }
        },
    }
}

/// Parses `home { ... }` at `pos`.
pub fn context_home(input: &[char], pos: usize) -> (r: Result<(Action, usize), ParseError>)
    ensures
        yields_action(r, grammar::context_home(input@, pos as int)),
    decreases grammar::left(input@, pos as int), 1int,
{
    context_plain(input, pos, "home", Folder::Home)
}

/// Parses `config { ... }` at `pos`.
pub fn context_config(input: &[char], pos: usize) -> (r: Result<(Action, usize), ParseError>)
    ensures
        yields_action(r, grammar::context_config(input@, pos as int)),
    decreases grammar::left(input@, pos as int), 1int,
{
    context_plain(input, pos, "config", Folder::Config)
}

/// Parses `local { ... }` at `pos`.
pub fn context_local(input: &[char], pos: usize) -> (r: Result<(Action, usize), ParseError>)
    ensures
        yields_action(r, grammar::context_local(input@, pos as int)),
    decreases grammar::left(input@, pos as int), 1int,
{
    context_plain(input, pos, "local", Folder::Local)
}

/// Parses `word "name" { ... }` at `pos` into a search or a custom context.
fn context_named(input: &[char], pos: usize, word: &str, search: bool) -> (r: Result<(Action, usize), ParseError>)
    ensures
        yields_action(r, grammar::context_named(input@, pos as int, word@, search)),
    decreases grammar::left(input@, pos as int), 0int,
{
    match word_at(input, pos, word) {
        None => Err(fail(pos, Expected::Keyword)),
        Some(after) => {
            if after == pos {
                return Err(fail(pos, Expected::Keyword));
            }
            let open = space(input, after);
            proof {
                lemma_string_advances(input@, open as int);
            }
            match string(input, open) {
                Err(e) => Err(e),
                Ok((name, end)) => match parse_actions(input, space(input, end)) {
                    Ok((body, last)) => {
                        let folder = if search {
                            Folder::Search(name)
                        } else {
                            Folder::Custom(name)
                        };
                        proof {
                            lemma_context_view(folder, body);
                        }
                        Ok((Action::Context(folder, body), last))
                    },
                    Err(e) => Err(e),
                },
            }
        },
    }
}

/// Parses `search "pattern" { ... }` at `pos`.
pub fn context_search(input: &[char], pos: usize) -> (r: Result<(Action, usize), ParseError>)
    ensures
        yields_action(r, grammar::context_search(input@, pos as int)),
    decreases grammar::left(input@, pos as int), 1int,
{
    context_named(input, pos, "search", true)
}

/// Parses `cd "name" { ... }` at `pos`.
pub fn context_custom(input: &[char], pos: usize) -> (r: Result<(Action, usize), ParseError>)
    ensures
        yields_action(r, grammar::context_custom(input@, pos as int)),
    decreases grammar::left(input@, pos as int), 1int,
{
    context_named(input, pos, "cd", false)
}

/// Parses as many actions as stand at `pos`; fails where the first does not parse.
fn action_list(input: &[char], pos: usize) -> (r: Result<(Vec<Action>, usize), ParseError>)
    requires
        pos <= input@.len(),
    ensures
        match grammar::action(input@, pos as int) {
            Err(f) => r matches Err(e) && e@ == f,
            Ok(_) => r matches Ok((items, end)) && actions_view(items@) == grammar::action_list(
                input@,
                pos as int,
            ).0 && end == grammar::action_list(input@, pos as int).1,
        },
    decreases grammar::left(input@, pos as int), 4int,
{
    let mut items: Vec<Action> = Vec::new();
    let mut end: usize = pos;
    proof {
        lemma_action_advances(input@, pos as int);
    }
    match action(input, pos) {
        Err(e) => {
            return Err(e);
        },
        Ok((item, next)) => {
            items.push(item);
            end = next;
        },
    }
    assert(actions_view(items@) =~= seq![items@[0]@]);
    loop
        invariant
            pos < end <= input@.len(),
            grammar::action_list(input@, pos as int).0 == actions_view(items@) + grammar::more_actions(
                input@,
                end as int,
            ).0,
            grammar::action_list(input@, pos as int).1 == grammar::more_actions(input@, end as int).1,
        ensures
            grammar::more_actions(input@, end as int) == (Seq::<ActionView>::empty(), end as int),
        decreases input@.len() - end,
    {
        let after = if char_at(input, end, ';') {
            end + 1
        } else {
            end
        };
        let start = space(input, after);
        proof {
            lemma_action_advances(input@, start as int);
        }
        match action(input, start) {
            Err(_) => {
                break ;
            },
            Ok((item, next)) => {
                let ghost before = actions_view(items@);
                let ghost rest = grammar::more_actions(input@, next as int).0;
                items.push(item);
                assert(actions_view(items@) =~= before.push(item@));
                assert(before + (seq![item@] + rest) =~= before.push(item@) + rest);
                end = next;
            },
        }
    }
    assert(actions_view(items@) + Seq::<ActionView>::empty() =~= actions_view(items@));
    Ok((items, end))
}

/// Parses a braced list of actions at `pos`.
pub fn parse_actions(input: &[char], pos: usize) -> (r: Result<(Vec<Action>, usize), ParseError>)
    ensures
        yields_actions(r, grammar::parse_actions(input@, pos as int)),
    decreases grammar::left(input@, pos as int), 5int,
{
    if !char_at(input, pos, '{') {
        return Err(fail(pos, Expected::OpenBrace));
    }
    let start = space(input, pos + 1);
    proof {
        lemma_action_list_bounds(input@, start as int);
    }
    match action_list(input, start) {
        Err(e) => Err(e),
        Ok((items, after)) => {
            let close = space(input, after);
            if char_at(input, close, '}') {
                Ok((items, close + 1))
            } else {
                Err(fail(close, Expected::CloseBrace))
            }
        },
    }
}

/// Parses `name { block }` after the whitespace at `pos`.
pub fn dependency_rule(input: &[char], pos: usize) -> (r: Result<(Dependency, usize), ParseError>)
    ensures
        yields_rule(r, grammar::dependency_rule(input@, pos as int)),
{
    let start = space(input, pos);
    proof {
        lemma_ident_advances(input@, start as int);
    }
    match ident(input, start) {
        Err(e) => Err(e),
        Ok((name, after)) => {
            let open = space(input, after);
            if !char_at(input, open, '{') {
                return Err(fail(open, Expected::OpenBrace));
            }
            let end = run(input, open + 1, CharClass::Block);
            if end == open + 1 {
                Err(fail(end, Expected::Block))
            } else if char_at(input, end, '}') {
                Ok((Dependency { name, block: text_of(input, open + 1, end) }, end + 1))
            } else {
                Err(fail(end, Expected::CloseBrace))
            }
        },
    }
}

/// Parses as many dependency rules as stand at `pos`.
fn rule_list(input: &[char], pos: usize) -> (r: (Vec<Dependency>, usize))
    requires
        pos <= input@.len(),
    ensures
        dependencies_view(r.0@) == grammar::rule_list(input@, pos as int).0,
        r.1 == grammar::rule_list(input@, pos as int).1,
{
    let mut rules: Vec<Dependency> = Vec::new();
    let mut end: usize = pos;
    proof {
        lemma_rule_advances(input@, pos as int);
    }
    match dependency_rule(input, pos) {
        Err(_) => {
            assert(dependencies_view(rules@) =~= Seq::empty());
            return (rules, pos);
        },
        Ok((rule, next)) => {
            rules.push(rule);
            end = next;
        },
    }
    assert(dependencies_view(rules@) =~= seq![rules@[0]@]);
    loop
        invariant
            pos < end <= input@.len(),
            grammar::rule_list(input@, pos as int).0 == dependencies_view(rules@) + grammar::more_rules(
                input@,
                end as int,
            ).0,
            grammar::rule_list(input@, pos as int).1 == grammar::more_rules(input@, end as int).1,
        ensures
            grammar::more_rules(input@, end as int) == (Seq::<DependencyView>::empty(), end as int),
        decreases input@.len() - end,
    {
        let start = space(input, end);
        proof {
            lemma_rule_advances(input@, start as int);
        }
        match dependency_rule(input, start) {
            Err(_) => {
                break ;
            },
            Ok((rule, next)) => {
                let ghost before = dependencies_view(rules@);
                let ghost rest = grammar::more_rules(input@, next as int).0;
                rules.push(rule);
                assert(dependencies_view(rules@) =~= before.push(rule@));
                assert(before + (seq![rule@] + rest) =~= before.push(rule@) + rest);
                end = next;
            },
        }
    }
    assert(dependencies_view(rules@) + Seq::<DependencyView>::empty() =~= dependencies_view(rules@));
    (rules, end)
}

/// Parses `dependencies { ... }` after the whitespace at `pos`.
pub fn parse_dependencies_section(input: &[char], pos: usize) -> (r: Result<(Vec<Dependency>, usize), ParseError>)
    ensures
        yields_rules(r, grammar::parse_dependencies_section(input@, pos as int)),
{
    let word = space(input, pos);
    match word_at(input, word, "dependencies") {
        None => Err(fail(word, Expected::Keyword)),
        Some(after) => {
            let open = space(input, after);
            if !char_at(input, open, '{') {
                return Err(fail(open, Expected::OpenBrace));
            }
            proof {
                lemma_rule_list_bounds(input@, open + 1);
            }
            let (rules, end) = rule_list(input, open + 1);
            let close = space(input, end);
            if char_at(input, close, '}') {
                Ok((rules, close + 1))
            } else {
                Err(fail(close, Expected::CloseBrace))
            }
        },
    }
}

/// Parses a whole app from `pos` to the end of the text: its name, its
/// actions and, where the word `dependencies` follows, its dependencies
/// section. Anything else after the app is a mismatch.
pub fn parse_vacuum_file(input: &[char], pos: usize) -> (r: Result<(App, usize), ParseError>)
    ensures
        yields_app(r, grammar::parse_vacuum_file(input@, pos as int)),
{
    let word = space(input, pos);
    match word_at(input, word, "app") {
        None => Err(fail(word, Expected::Keyword)),
        Some(after) => match string(input, space(input, after)) {
            Err(e) => Err(e),
            Ok((name, end)) => match parse_actions(input, space(input, end)) {
                Err(e) => Err(e),
                Ok((actions, last)) => {
                    let (dependencies, stop) = match word_at(input, space(input, last), "dependencies") {
                        None => (None, last),
                        Some(_) => match parse_dependencies_section(input, last) {
                            Ok((rules, stop)) => (Some(rules), stop),
                            Err(e) => {
                                return Err(e);
                            },
                        },
                    };
                    let close = space(input, stop);
                    if close >= input.len() {
                        Ok((App { name, actions, dependencies }, close))
                    } else {
                        Err(fail(close, Expected::End))
                    }
                },
            },
        },
    }
}

/// Something that turns the text of an app spec into an [`App`].
pub trait VacuumFileParser {
    fn parse(input: String) -> Result<App, VacuumError>;
}

/// The parser of app specs.
pub struct PomParser;

impl VacuumFileParser for PomParser {
    /// The app that `input` describes by the grammar, or the place where
    /// `input` stops being one. An app that comes out is well formed.
    fn parse(input: String) -> (r: Result<App, VacuumError>)
        ensures
            match grammar::parse(input@) {
                Ok(app) => r matches Ok(x) && x@ == app,
                Err(f) => r matches Err(VacuumError::ParseError(e)) && e@ == f,
            },
            r matches Ok(x) ==> app_ok(x@),
    {
        proof {
            lemma_parse_sound(input@);
        }
        let chars = chars_of(input.as_str());
        match parse_vacuum_file(chars.as_slice(), 0) {
            Ok((app, _)) => Ok(app),
            Err(e) => Err(VacuumError::ParseError(e)),
        }
    }
}

} // verus!
