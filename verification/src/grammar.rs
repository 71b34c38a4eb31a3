//! The grammar of app specs, as mathematical functions on character sequences.
//!
//! Every rule takes the whole input and a start position. It yields the parsed
//! value with the position just past it, or the place where it gave up.
//! Choices are ordered, repetitions are greedy, and nothing backtracks into a
//! repetition once it has ended.
//!
//! The lists and contexts are defined by recursion on what is left of the
//! input. Where a definition asks, before it goes on, that the position has
//! moved forward and stays inside the input, it asks what always holds (see
//! [`crate::progress`]); the question only shows that the recursion ends.

use vstd::prelude::*;
use crate::domain::{ActionView, AppView, CheckView, DependencyView, FolderView};
use crate::error::{Expected, Failure};

verus! {

/// Outcome of a rule: the value and the position after it, or the failure.
pub type Outcome<T> = Result<(T, int), Failure>;

/// The character classes that the grammar repeats over.
#[derive(Clone, Copy, Debug)]
pub enum CharClass {
    /// Blank, tab, carriage return, line feed.
    Space,
    /// What may stand inside a quoted string: all but `"`.
    Text,
    /// What may stand in a rule name: no `\`, `"`, `,`, whitespace or bracket of any kind.
    Name,
    /// What may stand in a rule's block: all but `}`.
    Block,
}

pub open spec fn is_space(c: char) -> bool {
    c == ' ' || c == '\t' || c == '\r' || c == '\n'
}

pub open spec fn is_text_char(c: char) -> bool {
    c != '"'
}

pub open spec fn is_name_char(c: char) -> bool {
    &&& c != '"'
    &&& c != '\\'
    &&& !is_space(c)
    &&& c != ','
    &&& c != '['
    &&& c != ']'
    &&& c != '{'
    &&& c != '}'
    &&& c != '('
    &&& c != ')'
}

pub open spec fn is_block_char(c: char) -> bool {
    c != '}'
}

impl CharClass {
    /// Whether `c` belongs to the class.
    pub open spec fn holds(self, c: char) -> bool {
        match self {
            CharClass::Space => is_space(c),
            CharClass::Text => is_text_char(c),
            CharClass::Name => is_name_char(c),
            CharClass::Block => is_block_char(c),
        }
    }
}

/// Every character of `text` belongs to `class`.
pub open spec fn all_in(text: Seq<char>, class: CharClass) -> bool {
    forall|i: int| 0 <= i < text.len() ==> class.holds(#[trigger] text[i])
}

/// Length of the longest run of `class` characters that starts at `pos`.
pub open spec fn run_len(s: Seq<char>, pos: int, class: CharClass) -> nat
    decreases s.len() - pos,
{
    if 0 <= pos < s.len() && class.holds(s[pos]) {
        1 + run_len(s, pos + 1, class)
    } else {
        0
    }
}

/// Position just past the longest run of `class` characters that starts at `pos`.
pub open spec fn run_end(s: Seq<char>, pos: int, class: CharClass) -> int {
    pos + run_len(s, pos, class)
}

/// Position just past the whitespace that starts at `pos`.
pub open spec fn spaces(s: Seq<char>, pos: int) -> int {
    run_end(s, pos, CharClass::Space)
}

/// The character at `pos` is `c`.
pub open spec fn has_char(s: Seq<char>, pos: int, c: char) -> bool {
    0 <= pos < s.len() && s[pos] == c
}

/// `word` stands in `s` at `pos`.
pub open spec fn has_word(s: Seq<char>, pos: int, word: Seq<char>) -> bool {
    &&& 0 <= pos
    &&& pos + word.len() <= s.len()
    &&& forall|i: int| 0 <= i < word.len() ==> s[pos + i] == #[trigger] word[i]
}

/// How many characters stand at or after `pos`.
pub open spec fn left(s: Seq<char>, pos: int) -> nat {
    if 0 <= pos <= s.len() {
        (s.len() - pos) as nat
    } else {
        0
    }
}

/// The rule gave up at `position`, where it looked for `expected`.
pub open spec fn fail<T>(position: int, expected: Expected) -> Outcome<T> {
    Err(Failure { position, expected })
}

/// `string := '"' text* '"'`, without escapes.
pub open spec fn string(s: Seq<char>, pos: int) -> Outcome<Seq<char>> {
    if !has_char(s, pos, '"') {
        fail(pos, Expected::Quote)
    } else {
        let end = run_end(s, pos + 1, CharClass::Text);
        if has_char(s, end, '"') {
            Ok((s.subrange(pos + 1, end), end + 1))
        } else {
            fail(end, Expected::Quote)
        }
    }
}

/// `ident := name+`
pub open spec fn ident(s: Seq<char>, pos: int) -> Outcome<Seq<char>> {
    let end = run_end(s, pos, CharClass::Name);
    if end > pos {
        Ok((s.subrange(pos, end), end))
    } else {
        fail(pos, Expected::Name)
    }
}

/// `"exists" "->" ident`, with the whitespace that follows.
pub open spec fn dependency_exists(s: Seq<char>, pos: int) -> Outcome<CheckView> {
    if !has_word(s, pos, "exists"@) {
        fail(pos, Expected::Keyword)
    } else {
        let arrow = spaces(s, pos + "exists"@.len());
        if !has_word(s, arrow, "->"@) {
            fail(arrow, Expected::Arrow)
        } else {
            match ident(s, spaces(s, arrow + "->"@.len())) {
                Ok((rule, end)) => Ok((CheckView::Exists(rule), spaces(s, end))),
                Err(f) => Err(f),
            }
        }
    }
}

/// `"contains" string "->" ident`, with the whitespace that follows.
pub open spec fn dependency_contains(s: Seq<char>, pos: int) -> Outcome<CheckView> {
    if !has_word(s, pos, "contains"@) {
        fail(pos, Expected::Keyword)
    } else {
        match string(s, spaces(s, pos + "contains"@.len())) {
            Err(f) => Err(f),
            Ok((text, after)) => {
                let arrow = spaces(s, after);
                if !has_word(s, arrow, "->"@) {
                    fail(arrow, Expected::Arrow)
                } else {
                    match ident(s, spaces(s, arrow + "->"@.len())) {
                        Ok((rule, end)) => Ok((CheckView::Contains(text, rule), spaces(s, end))),
                        Err(f) => Err(f),
                    }
                }
            },
        }
    }
}

/// `dep_check := exists | contains`
pub open spec fn dependency_check(s: Seq<char>, pos: int) -> Outcome<CheckView> {
    if dependency_exists(s, pos) is Ok {
        dependency_exists(s, pos)
    } else if dependency_contains(s, pos) is Ok {
        dependency_contains(s, pos)
    } else {
        fail(pos, Expected::Check)
    }
}

/// The checks that follow the first one: each after a `,`, as many as parse.
pub open spec fn more_checks(s: Seq<char>, pos: int) -> (Seq<CheckView>, int)
    decreases s.len() - pos,
{
    if !has_char(s, pos, ',') {
        (Seq::empty(), pos)
    } else {
        match dependency_check(s, spaces(s, pos + 1)) {
            Ok((check, next)) => if pos < next <= s.len() {
                let (rest, end) = more_checks(s, next);
                (seq![check] + rest, end)
            } else {
                (Seq::empty(), pos)
            },
            Err(_) => (Seq::empty(), pos),
        }
    }
}

/// The checks that stand at `pos`, each after the first behind a `,`: as many
/// as parse, none where the first does not.
pub open spec fn check_list(s: Seq<char>, pos: int) -> (Seq<CheckView>, int) {
    match dependency_check(s, pos) {
        Ok((check, next)) => {
            let (rest, end) = more_checks(s, next);
            (seq![check] + rest, end)
        },
        Err(_) => (Seq::empty(), pos),
    }
}

/// `deps := "[" dep_check ("," dep_check)* "]"`, with leading whitespace: at
/// least one check stands between the brackets.
pub open spec fn dependencies(s: Seq<char>, pos: int) -> Outcome<Seq<CheckView>> {
    let open = spaces(s, pos);
    if !has_char(s, open, '[') {
        fail(open, Expected::OpenBracket)
    } else {
        let start = spaces(s, open + 1);
        match dependency_check(s, start) {
            Err(f) => Err(f),
            Ok(_) => {
                let (checks, after) = check_list(s, start);
                let close = spaces(s, after);
                if has_char(s, close, ']') {
                    Ok((checks, close + 1))
                } else {
                    fail(close, Expected::CloseBracket)
                }
            },
        }
    }
}

/// `file := "file" string deps?`
pub open spec fn command_file(s: Seq<char>, pos: int) -> Outcome<ActionView> {
    if !has_word(s, pos, "file"@) {
        fail(pos, Expected::Keyword)
    } else {
        match string(s, spaces(s, pos + "file"@.len())) {
            Err(f) => Err(f),
            Ok((name, after)) => {
                let rest = spaces(s, after);
                match dependencies(s, rest) {
                    Ok((checks, end)) => Ok((ActionView::File(name, Some(checks)), end)),
                    Err(_) => Ok((ActionView::File(name, None), rest)),
                }
            },
        }
    }
}

/// `files := "files" string`
pub open spec fn command_files(s: Seq<char>, pos: int) -> Outcome<ActionView> {
    if !has_word(s, pos, "files"@) {
        fail(pos, Expected::Keyword)
    } else {
        match string(s, spaces(s, pos + "files"@.len())) {
            Err(f) => Err(f),
            Ok((pattern, end)) => Ok((ActionView::Files(pattern), end)),
        }
    }
}

/// `">>" string`, with leading whitespace.
pub open spec fn capture(s: Seq<char>, pos: int) -> Outcome<Seq<char>> {
    let mark = spaces(s, pos);
    if !has_word(s, mark, ">>"@) {
        fail(mark, Expected::Redirect)
    } else {
        string(s, spaces(s, mark + ">>"@.len()))
    }
}

/// `exec := ("execute" | "exec") string (">>" string)?`
pub open spec fn command_exec(s: Seq<char>, pos: int) -> Outcome<ActionView> {
    if !has_word(s, pos, "exec"@) {
        fail(pos, Expected::Keyword)
    } else {
        let word_end = if has_word(s, pos, "execute"@) {
            pos + "execute"@.len()
        } else {
            pos + "exec"@.len()
        };
        match string(s, spaces(s, word_end)) {
            Err(f) => Err(f),
            Ok((command, after)) => match capture(s, after) {
                Ok((file, end)) => Ok((ActionView::Execute(command, Some(file)), end)),
                Err(_) => Ok((ActionView::Execute(command, None), after)),
            },
        }
    }
}

/// `action := file | files | exec | context`, the first that matches.
pub open spec fn action(s: Seq<char>, pos: int) -> Outcome<ActionView>
    decreases left(s, pos), 2int,
{
    if command_file(s, pos) is Ok {
        command_file(s, pos)
    } else if command_files(s, pos) is Ok {
        command_files(s, pos)
    } else if command_exec(s, pos) is Ok {
        command_exec(s, pos)
    } else if context_home(s, pos) is Ok {
        context_home(s, pos)
    } else if context_config(s, pos) is Ok {
        context_config(s, pos)
    } else if context_local(s, pos) is Ok {
        context_local(s, pos)
    } else if context_search(s, pos) is Ok {
        context_search(s, pos)
    } else if context_custom(s, pos) is Ok {
        context_custom(s, pos)
    } else {
        fail(pos, Expected::Action)
    }
}

/// A context that takes no argument: `word actions`.
pub open spec fn context_plain(s: Seq<char>, pos: int, word: Seq<char>, folder: FolderView) -> Outcome<ActionView>
    decreases left(s, pos), 0int,
{
    if !has_word(s, pos, word) || word.len() == 0 {
        fail(pos, Expected::Keyword)
    } else {
        match parse_actions(s, spaces(s, pos + word.len())) {
            Ok((body, end)) => Ok((ActionView::Context(folder, body), end)),
            Err(f) => Err(f),
        }
    }
}

/// `"home" actions`
pub open spec fn context_home(s: Seq<char>, pos: int) -> Outcome<ActionView>
    decreases left(s, pos), 1int,
{
    context_plain(s, pos, "home"@, FolderView::Home)
}

/// `"config" actions`
pub open spec fn context_config(s: Seq<char>, pos: int) -> Outcome<ActionView>
    decreases left(s, pos), 1int,
{
    context_plain(s, pos, "config"@, FolderView::Config)
}

/// `"local" actions`
pub open spec fn context_local(s: Seq<char>, pos: int) -> Outcome<ActionView>
    decreases left(s, pos), 1int,
{
    context_plain(s, pos, "local"@, FolderView::Local)
}

/// A context that takes a string: `word string actions`.
pub open spec fn context_named(s: Seq<char>, pos: int, word: Seq<char>, search: bool) -> Outcome<ActionView>
    decreases left(s, pos), 0int,
{
    if !has_word(s, pos, word) || word.len() == 0 {
        fail(pos, Expected::Keyword)
    } else {
        match string(s, spaces(s, pos + word.len())) {
            Err(f) => Err(f),
            Ok((name, after)) => if after <= pos {
                fail(pos, Expected::Keyword)
            } else {
                match parse_actions(s, spaces(s, after)) {
                    Ok((body, end)) => Ok((
                        ActionView::Context(
                            if search { FolderView::Search(name) } else { FolderView::Custom(name) },
                            body,
                        ),
                        end,
                    )),
                    Err(f) => Err(f),
                }
            },
        }
    }
}

/// `"search" string actions`
pub open spec fn context_search(s: Seq<char>, pos: int) -> Outcome<ActionView>
    decreases left(s, pos), 1int,
{
    context_named(s, pos, "search"@, true)
}

/// `"cd" string actions`
pub open spec fn context_custom(s: Seq<char>, pos: int) -> Outcome<ActionView>
    decreases left(s, pos), 1int,
{
    context_named(s, pos, "cd"@, false)
}

/// Position after the separator of two actions: an optional `;`, then whitespace.
pub open spec fn separator_end(s: Seq<char>, pos: int) -> int {
    spaces(s, if has_char(s, pos, ';') { pos + 1 } else { pos })
}

/// The actions that follow the first one, as many as parse.
pub open spec fn more_actions(s: Seq<char>, pos: int) -> (Seq<ActionView>, int)
    decreases left(s, pos), 3int,
{
    match action(s, separator_end(s, pos)) {
        Ok((item, next)) => if 0 <= pos < next <= s.len() {
            let (rest, end) = more_actions(s, next);
            (seq![item] + rest, end)
        } else {
            (Seq::empty(), pos)
        },
        Err(_) => (Seq::empty(), pos),
    }
}

/// The actions that stand at `pos`, with or without `;` between them: as
/// many as parse, none where the first does not.
pub open spec fn action_list(s: Seq<char>, pos: int) -> (Seq<ActionView>, int)
    decreases left(s, pos), 4int,
{
    match action(s, pos) {
        Ok((item, next)) => if 0 <= pos < next <= s.len() {
            let (rest, end) = more_actions(s, next);
            (seq![item] + rest, end)
        } else {
            (Seq::empty(), pos)
        },
        Err(_) => (Seq::empty(), pos),
    }
}

/// `actions := "{" action (";"? action)* "}"`: at least one action stands
/// between the braces.
pub open spec fn parse_actions(s: Seq<char>, pos: int) -> Outcome<Seq<ActionView>>
    decreases left(s, pos), 5int,
{
    if !has_char(s, pos, '{') {
        fail(pos, Expected::OpenBrace)
    } else {
        let start = spaces(s, pos + 1);
        match action(s, start) {
            Err(f) => Err(f),
            Ok(_) => {
                let (items, after) = action_list(s, start);
                let close = spaces(s, after);
                if has_char(s, close, '}') {
                    Ok((items, close + 1))
                } else {
                    fail(close, Expected::CloseBrace)
                }
            },
        }
    }
}

/// `ident "{" block "}"`, with leading whitespace; the block is kept verbatim.
pub open spec fn dependency_rule(s: Seq<char>, pos: int) -> Outcome<DependencyView> {
    match ident(s, spaces(s, pos)) {
        Err(f) => Err(f),
        Ok((name, after)) => {
            let open = spaces(s, after);
            if !has_char(s, open, '{') {
                fail(open, Expected::OpenBrace)
            } else {
                let end = run_end(s, open + 1, CharClass::Block);
                if end == open + 1 {
                    fail(end, Expected::Block)
                } else if has_char(s, end, '}') {
                    Ok((DependencyView { name, block: s.subrange(open + 1, end) }, end + 1))
                } else {
                    fail(end, Expected::CloseBrace)
                }
            }
        },
    }
}

/// The rules that follow the first one, as many as parse.
pub open spec fn more_rules(s: Seq<char>, pos: int) -> (Seq<DependencyView>, int)
    decreases s.len() - pos,
{
    match dependency_rule(s, spaces(s, pos)) {
        Ok((rule, next)) => if pos < next <= s.len() {
            let (rest, end) = more_rules(s, next);
            (seq![rule] + rest, end)
        } else {
            (Seq::empty(), pos)
        },
        Err(_) => (Seq::empty(), pos),
    }
}

/// Rule after rule, or nothing: the list never fails.
pub open spec fn rule_list(s: Seq<char>, pos: int) -> (Seq<DependencyView>, int) {
    match dependency_rule(s, pos) {
        Ok((rule, next)) => {
            let (rest, end) = more_rules(s, next);
            (seq![rule] + rest, end)
        },
        Err(_) => (Seq::empty(), pos),
    }
}

/// `dependencies_section := "dependencies" "{" rule_list "}"`, with leading whitespace.
pub open spec fn parse_dependencies_section(s: Seq<char>, pos: int) -> Outcome<Seq<DependencyView>> {
    let word = spaces(s, pos);
    if !has_word(s, word, "dependencies"@) {
        fail(word, Expected::Keyword)
    } else {
        let open = spaces(s, word + "dependencies"@.len());
        if !has_char(s, open, '{') {
            fail(open, Expected::OpenBrace)
        } else {
            let (rules, after) = rule_list(s, open + 1);
            let close = spaces(s, after);
            if has_char(s, close, '}') {
                Ok((rules, close + 1))
            } else {
                fail(close, Expected::CloseBrace)
            }
        }
    }
}

/// `value` stands if nothing but whitespace follows `pos`, up to the end of the text.
pub open spec fn ended<T>(s: Seq<char>, value: T, pos: int) -> Outcome<T> {
    let close = spaces(s, pos);
    if close >= s.len() {
        Ok((value, close))
    } else {
        fail(close, Expected::End)
    }
}

/// `app := "app" string actions dependencies_section?`, with leading
/// whitespace, and nothing but whitespace after it.
///
/// Where the word `dependencies` follows the actions, the section has to
/// parse; where anything else follows, the text is no app.
pub open spec fn parse_vacuum_file(s: Seq<char>, pos: int) -> Outcome<AppView> {
    let word = spaces(s, pos);
    if !has_word(s, word, "app"@) {
        fail(word, Expected::Keyword)
    } else {
        match string(s, spaces(s, word + "app"@.len())) {
            Err(f) => Err(f),
            Ok((name, after)) => match parse_actions(s, spaces(s, after)) {
                Err(f) => Err(f),
                Ok((actions, end)) => if has_word(s, spaces(s, end), "dependencies"@) {
                    match parse_dependencies_section(s, end) {
                        Ok((rules, last)) => ended(s, AppView { name, actions, dependencies: Some(rules) }, last),
                        Err(f) => Err(f),
                    }
                } else {
                    ended(s, AppView { name, actions, dependencies: None }, end)
                },
            },
        }
    }
}

/// What a whole spec text means: the app it describes, or where it fails to be one.
pub open spec fn parse(s: Seq<char>) -> Result<AppView, Failure> {
    match parse_vacuum_file(s, 0) {
        Ok((app, _)) => Ok(app),
        Err(f) => Err(f),
    }
}

} // verus!

verus! {

/// A run stays inside the input and holds only characters of its class.
pub proof fn lemma_run_bounds(s: Seq<char>, pos: int, class: CharClass)
    ensures
        pos <= run_end(s, pos, class),
        0 <= pos <= s.len() ==> run_end(s, pos, class) <= s.len(),
        0 <= pos ==> forall|i: int| pos <= i < run_end(s, pos, class) ==> class.holds(#[trigger] s[i]),
        !(0 <= pos < s.len()) ==> run_end(s, pos, class) == pos,
        0 <= run_end(s, pos, class) < s.len() ==> !class.holds(s[run_end(s, pos, class)]),
    decreases s.len() - pos,
{
    if 0 <= pos < s.len() && class.holds(s[pos]) {
        lemma_run_bounds(s, pos + 1, class);
    }
}

/// A run ends at the first character outside its class, or at the end of the input.
pub proof fn lemma_run_ends(s: Seq<char>, pos: int, class: CharClass, end: int)
    requires
        0 <= pos <= end <= s.len(),
        forall|i: int| pos <= i < end ==> class.holds(#[trigger] s[i]),
        end < s.len() ==> !class.holds(s[end]),
    ensures
        run_end(s, pos, class) == end,
    decreases end - pos,
{
    if pos < end {
        lemma_run_ends(s, pos + 1, class, end);
    }
}

} // verus!
