//! Parsing the canonical text of an app gives the app back.

use vstd::prelude::*;
use crate::domain::{ActionView, AppView, CheckView, DependencyView, FolderView};
use crate::error::Failure;
use crate::grammar;
use crate::grammar::{has_char, has_word, is_name_char, is_space, lemma_run_ends, spaces, CharClass};
use crate::render::{
    action_rest_text, action_text, actions_text, app_text, check_rest_text, check_text,
    checks_text, folder_text, quoted, rule_rest_text, rule_text, section_text,
};
use crate::wellformed::{
    action_ok, actions_ok, app_ok, check_ok, checks_ok, folder_ok, name_ok, rule_ok,
    rules_ok, text_ok,
};

verus! {

/// Where `a + b` stands, `a` stands, and `b` right after it.
proof fn lemma_split(s: Seq<char>, pos: int, a: Seq<char>, b: Seq<char>)
    requires
        has_word(s, pos, a + b),
    ensures
        has_word(s, pos, a),
        has_word(s, pos + a.len(), b),
{
    assert forall|i: int| 0 <= i < a.len() implies s[pos + i] == #[trigger] a[i] by {
        assert((a + b)[i] == a[i]);
    }
    assert forall|i: int| 0 <= i < b.len() implies s[pos + a.len() + i] == #[trigger] b[i] by {
        assert((a + b)[a.len() + i] == b[i]);
    }
}

/// Where a word stands, each of its characters stands.
proof fn lemma_char(s: Seq<char>, pos: int, word: Seq<char>, i: int)
    requires
        has_word(s, pos, word),
        0 <= i < word.len(),
    ensures
        0 <= pos + i < s.len(),
        s[pos + i] == word[i],
{
}

/// Where a word stands, each of its prefixes stands.
proof fn lemma_prefix(s: Seq<char>, pos: int, word: Seq<char>, prefix: Seq<char>)
    requires
        has_word(s, pos, word),
        prefix.len() <= word.len(),
        forall|i: int| 0 <= i < prefix.len() ==> prefix[i] == word[i],
    ensures
        has_word(s, pos, prefix),
{
    assert forall|i: int| 0 <= i < prefix.len() implies s[pos + i] == #[trigger] prefix[i] by {
        assert(s[pos + i] == word[i]);
    }
}

/// Where a word stands, each of its parts stands at its offset.
proof fn lemma_part(s: Seq<char>, pos: int, word: Seq<char>, from: int, part: Seq<char>)
    requires
        has_word(s, pos, word),
        0 <= from,
        from + part.len() <= word.len(),
        forall|i: int| 0 <= i < part.len() ==> part[i] == word[from + i],
    ensures
        has_word(s, pos + from, part),
{
    assert forall|i: int| 0 <= i < part.len() implies s[pos + from + i] == #[trigger] part[i] by {
        assert(s[pos + (from + i)] == word[from + i]);
    }
}

/// A word does not stand where one of its characters differs.
proof fn lemma_mismatch(s: Seq<char>, pos: int, word: Seq<char>, i: int)
    requires
        0 <= i < word.len(),
        0 <= pos + i < s.len() ==> s[pos + i] != word[i],
    ensures
        !has_word(s, pos, word),
{
    if has_word(s, pos, word) {
        lemma_char(s, pos, word, i);
    }
}

/// Whitespace skipping stops at once before a character that is no whitespace.
proof fn lemma_spaces_stop(s: Seq<char>, pos: int)
    requires
        0 <= pos <= s.len(),
        pos < s.len() ==> !is_space(s[pos]),
    ensures
        spaces(s, pos) == pos,
{
    lemma_run_ends(s, pos, CharClass::Space, pos);
}

/// Whitespace skipping passes one blank that stands before something else.
proof fn lemma_spaces_one(s: Seq<char>, pos: int)
    requires
        0 <= pos < s.len(),
        s[pos] == ' ',
        pos + 1 < s.len() ==> !is_space(s[pos + 1]),
    ensures
        spaces(s, pos) == pos + 1,
{
    lemma_run_ends(s, pos, CharClass::Space, pos + 1);
}

/// A quoted text parses as a string that holds the text.
proof fn lemma_string_back(s: Seq<char>, pos: int, text: Seq<char>)
    requires
        has_word(s, pos, quoted(text)),
        text_ok(text),
    ensures
        grammar::string(s, pos) == Ok::<_, Failure>((text, pos + text.len() + 2)),
{
    let q = quoted(text);
    lemma_char(s, pos, q, 0);
    lemma_char(s, pos, q, text.len() as int + 1);
    assert forall|i: int| pos + 1 <= i < pos + 1 + text.len() implies CharClass::Text.holds(#[trigger] s[i]) by {
        lemma_char(s, pos, q, i - pos);
        assert(q[i - pos] == text[i - pos - 1]);
    }
    lemma_run_ends(s, pos + 1, CharClass::Text, pos + 1 + text.len());
    assert forall|i: int| 0 <= i < text.len() implies s.subrange(pos + 1, pos + 1 + text.len())[i] == text[i] by {
        lemma_char(s, pos, q, i + 1);
    }
    assert(s.subrange(pos + 1, pos + 1 + text.len()) =~= text);
}

/// A name parses as itself where no name character follows it.
proof fn lemma_ident_back(s: Seq<char>, pos: int, name: Seq<char>)
    requires
        has_word(s, pos, name),
        name_ok(name),
        pos + name.len() < s.len() ==> !is_name_char(s[pos + name.len()]),
    ensures
        grammar::ident(s, pos) == Ok::<_, Failure>((name, pos + name.len())),
{
    assert forall|i: int| pos <= i < pos + name.len() implies CharClass::Name.holds(#[trigger] s[i]) by {
        lemma_char(s, pos, name, i - pos);
    }
    lemma_run_ends(s, pos, CharClass::Name, pos + name.len());
    assert(s.subrange(pos, pos + name.len()) =~= name);
}

} // verus!

verus! {

/// The words of the language and of the canonical text, character by character.
proof fn lemma_words()
    ensures
        "exists"@ == seq!['e', 'x', 'i', 's', 't', 's'],
        "->"@ == seq!['-', '>'],
        "contains"@ == seq!['c', 'o', 'n', 't', 'a', 'i', 'n', 's'],
        "file"@ == seq!['f', 'i', 'l', 'e'],
        "files"@ == seq!['f', 'i', 'l', 'e', 's'],
        ">>"@ == seq!['>', '>'],
        "exec"@ == seq!['e', 'x', 'e', 'c'],
        "execute"@ == seq!['e', 'x', 'e', 'c', 'u', 't', 'e'],
        "home"@ == seq!['h', 'o', 'm', 'e'],
        "config"@ == seq!['c', 'o', 'n', 'f', 'i', 'g'],
        "local"@ == seq!['l', 'o', 'c', 'a', 'l'],
        "search"@ == seq!['s', 'e', 'a', 'r', 'c', 'h'],
        "cd"@ == seq!['c', 'd'],
        "dependencies"@ == seq!['d', 'e', 'p', 'e', 'n', 'd', 'e', 'n', 'c', 'i', 'e', 's'],
        "app"@ == seq!['a', 'p', 'p'],
        "exists -> "@ == seq!['e', 'x', 'i', 's', 't', 's', ' ', '-', '>', ' '],
        "contains "@ == seq!['c', 'o', 'n', 't', 'a', 'i', 'n', 's', ' '],
        " -> "@ == seq![' ', '-', '>', ' '],
        ", "@ == seq![',', ' '],
        "[]"@ == seq!['[', ']'],
        "home "@ == seq!['h', 'o', 'm', 'e', ' '],
        "config "@ == seq!['c', 'o', 'n', 'f', 'i', 'g', ' '],
        "local "@ == seq!['l', 'o', 'c', 'a', 'l', ' '],
        "cd "@ == seq!['c', 'd', ' '],
        "search "@ == seq!['s', 'e', 'a', 'r', 'c', 'h', ' '],
        "file "@ == seq!['f', 'i', 'l', 'e', ' '],
        "files "@ == seq!['f', 'i', 'l', 'e', 's', ' '],
        "exec "@ == seq!['e', 'x', 'e', 'c', ' '],
        " >> "@ == seq![' ', '>', '>', ' '],
        "; "@ == seq![';', ' '],
        " dependencies {"@ == seq![' ', 'd', 'e', 'p', 'e', 'n', 'd', 'e', 'n', 'c', 'i', 'e', 's', ' ', '{'],
        "app "@ == seq!['a', 'p', 'p', ' '],
{
    reveal_strlit("exists");
    reveal_strlit("->");
    reveal_strlit("contains");
    reveal_strlit("file");
    reveal_strlit("files");
    reveal_strlit(">>");
    reveal_strlit("exec");
    reveal_strlit("execute");
    reveal_strlit("home");
    reveal_strlit("config");
    reveal_strlit("local");
    reveal_strlit("search");
    reveal_strlit("cd");
    reveal_strlit("dependencies");
    reveal_strlit("app");
    reveal_strlit("exists -> ");
    reveal_strlit("contains ");
    reveal_strlit(" -> ");
    reveal_strlit(", ");
    reveal_strlit("[]");
    reveal_strlit("home ");
    reveal_strlit("config ");
    reveal_strlit("local ");
    reveal_strlit("cd ");
    reveal_strlit("search ");
    reveal_strlit("file ");
    reveal_strlit("files ");
    reveal_strlit("exec ");
    reveal_strlit(" >> ");
    reveal_strlit("; ");
    reveal_strlit(" dependencies {");
    reveal_strlit("app ");
    assert("exists"@ =~= seq!['e', 'x', 'i', 's', 't', 's']);
    assert("->"@ =~= seq!['-', '>']);
    assert("contains"@ =~= seq!['c', 'o', 'n', 't', 'a', 'i', 'n', 's']);
    assert("file"@ =~= seq!['f', 'i', 'l', 'e']);
    assert("files"@ =~= seq!['f', 'i', 'l', 'e', 's']);
    assert(">>"@ =~= seq!['>', '>']);
    assert("exec"@ =~= seq!['e', 'x', 'e', 'c']);
    assert("execute"@ =~= seq!['e', 'x', 'e', 'c', 'u', 't', 'e']);
    assert("home"@ =~= seq!['h', 'o', 'm', 'e']);
    assert("config"@ =~= seq!['c', 'o', 'n', 'f', 'i', 'g']);
    assert("local"@ =~= seq!['l', 'o', 'c', 'a', 'l']);
    assert("search"@ =~= seq!['s', 'e', 'a', 'r', 'c', 'h']);
    assert("cd"@ =~= seq!['c', 'd']);
    assert("dependencies"@ =~= seq!['d', 'e', 'p', 'e', 'n', 'd', 'e', 'n', 'c', 'i', 'e', 's']);
    assert("app"@ =~= seq!['a', 'p', 'p']);
    assert("exists -> "@ =~= seq!['e', 'x', 'i', 's', 't', 's', ' ', '-', '>', ' ']);
    assert("contains "@ =~= seq!['c', 'o', 'n', 't', 'a', 'i', 'n', 's', ' ']);
    assert(" -> "@ =~= seq![' ', '-', '>', ' ']);
    assert(", "@ =~= seq![',', ' ']);
    assert("[]"@ =~= seq!['[', ']']);
    assert("home "@ =~= seq!['h', 'o', 'm', 'e', ' ']);
    assert("config "@ =~= seq!['c', 'o', 'n', 'f', 'i', 'g', ' ']);
    assert("local "@ =~= seq!['l', 'o', 'c', 'a', 'l', ' ']);
    assert("cd "@ =~= seq!['c', 'd', ' ']);
    assert("search "@ =~= seq!['s', 'e', 'a', 'r', 'c', 'h', ' ']);
    assert("file "@ =~= seq!['f', 'i', 'l', 'e', ' ']);
    assert("files "@ =~= seq!['f', 'i', 'l', 'e', 's', ' ']);
    assert("exec "@ =~= seq!['e', 'x', 'e', 'c', ' ']);
    assert(" >> "@ =~= seq![' ', '>', '>', ' ']);
    assert("; "@ =~= seq![';', ' ']);
    assert(" dependencies {"@ =~= seq![' ', 'd', 'e', 'p', 'e', 'n', 'd', 'e', 'n', 'c', 'i', 'e', 's', ' ', '{']);
    assert("app "@ =~= seq!['a', 'p', 'p', ' ']);
}

} // verus!

verus! {

/// After `->` and a blank, a rule name parses where a `,` or a `]` follows it.
proof fn lemma_arrow_back(s: Seq<char>, pos: int, rule: Seq<char>)
    requires
        has_word(s, pos, " -> "@ + rule),
        name_ok(rule),
        has_char(s, pos + 4 + rule.len(), ',') || has_char(s, pos + 4 + rule.len(), ']'),
    ensures
        spaces(s, pos) == pos + 1,
        has_word(s, pos + 1, "->"@),
        "->"@.len() == 2,
        grammar::ident(s, spaces(s, pos + 3)) == Ok::<_, Failure>((rule, pos + 4 + rule.len())),
        spaces(s, pos + 4 + rule.len()) == pos + 4 + rule.len(),
{
    lemma_words();
    let lit = " -> "@;
    lemma_split(s, pos, lit, rule);
    lemma_char(s, pos, lit, 0);
    lemma_char(s, pos, lit, 1);
    lemma_char(s, pos, lit, 2);
    lemma_char(s, pos, lit, 3);
    lemma_char(s, pos + 4, rule, 0);
    lemma_spaces_one(s, pos);
    lemma_spaces_one(s, pos + 3);
    lemma_part(s, pos, lit, 1, "->"@);
    lemma_ident_back(s, pos + 4, rule);
    lemma_spaces_stop(s, pos + 4 + rule.len());
}

/// The canonical text of a check parses as the check where a `,` or a `]` follows it.
#[verifier::rlimit(30)]
proof fn lemma_check_back(s: Seq<char>, pos: int, check: CheckView)
    requires
        has_word(s, pos, check_text(check)),
        check_ok(check),
        has_char(s, pos + check_text(check).len(), ',') || has_char(s, pos + check_text(check).len(), ']'),
    ensures
        grammar::dependency_check(s, pos) == Ok::<_, Failure>((check, pos + check_text(check).len())),
{
    lemma_words();
    match check {
        CheckView::Exists(rule) => {
            let word = "exists"@;
            assert(check_text(check) =~= word + (" -> "@ + rule));
            lemma_split(s, pos, word, " -> "@ + rule);
            lemma_arrow_back(s, pos + 6, rule);
        },
        CheckView::Contains(text, rule) => {
            let word = "contains"@;
            let q = quoted(text);
            assert(check_text(check) =~= word + (seq![' '] + (q + (" -> "@ + rule))));
            lemma_split(s, pos, word, seq![' '] + (q + (" -> "@ + rule)));
            lemma_split(s, pos + 8, seq![' '], q + (" -> "@ + rule));
            lemma_split(s, pos + 9, q, " -> "@ + rule);
            lemma_char(s, pos, word, 0);
            lemma_mismatch(s, pos, "exists"@, 0);
            lemma_char(s, pos + 8, seq![' '], 0);
            lemma_char(s, pos + 9, q, 0);
            lemma_spaces_one(s, pos + 8);
            lemma_string_back(s, pos + 9, text);
            lemma_arrow_back(s, pos + 11 + text.len(), rule);
        },
    }
}

/// The checks from index `i` on parse as the rest of the list, up to the `]`.
proof fn lemma_check_rest_back(s: Seq<char>, pos: int, checks: Seq<CheckView>, i: int)
    requires
        0 <= i <= checks.len(),
        has_word(s, pos, check_rest_text(checks, i) + seq![']']),
        checks_ok(checks),
    ensures
        grammar::more_checks(s, pos) == (checks.skip(i), pos + check_rest_text(checks, i).len()),
    decreases checks.len() - i,
{
    lemma_words();
    let rest = check_rest_text(checks, i);
    lemma_split(s, pos, rest, seq![']']);
    lemma_char(s, pos + rest.len(), seq![']'], 0);
    if i == checks.len() {
        assert(checks.skip(i) =~= Seq::empty());
    } else {
        let one = check_text(checks[i]);
        let tail = check_rest_text(checks, i + 1);
        assert(rest + seq![']'] =~= ", "@ + (one + (tail + seq![']'])));
        lemma_split(s, pos, ", "@, one + (tail + seq![']']));
        lemma_split(s, pos + 2, one, tail + seq![']']);
        lemma_char(s, pos, ", "@, 0);
        lemma_char(s, pos, ", "@, 1);
        lemma_check_first(checks[i]);
        lemma_char(s, pos + 2, one, 0);
        lemma_spaces_one(s, pos + 1);
        lemma_check_rest_first(checks, i + 1);
        lemma_char(s, pos + 2 + one.len(), tail + seq![']'], 0);
        lemma_check_back(s, pos + 2, checks[i]);
        lemma_check_rest_back(s, pos + 2 + one.len(), checks, i + 1);
        assert(seq![checks[i]] + checks.skip(i + 1) =~= checks.skip(i));
    }
}

/// The text of a check starts with a letter.
proof fn lemma_check_first(check: CheckView)
    ensures
        check_text(check).len() > 0,
        check_text(check)[0] == 'e' || check_text(check)[0] == 'c',
{
    lemma_words();
}

/// What follows a check in a list starts with `,` or `]`.
proof fn lemma_check_rest_first(checks: Seq<CheckView>, i: int)
    ensures
        (check_rest_text(checks, i) + seq![']'])[0] == ',' || (check_rest_text(checks, i) + seq![']'])[0] == ']',
{
    lemma_words();
    if 0 <= i < checks.len() {
        assert(check_rest_text(checks, i) =~= ", "@ + (check_text(checks[i]) + check_rest_text(checks, i + 1)));
    }
}

/// The words that a list of checks is made of.
proof fn lemma_check_words()
    ensures
        ", "@ == seq![',', ' '],
        "; "@ == seq![';', ' '],
{
    lemma_words();
}

/// The canonical text of a list of checks parses as the list.
#[verifier::rlimit(30)]
proof fn lemma_checks_back(s: Seq<char>, pos: int, checks: Seq<CheckView>)
    requires
        has_word(s, pos, checks_text(checks)),
        checks_ok(checks),
    ensures
        grammar::dependencies(s, pos) == Ok::<_, Failure>((checks, pos + checks_text(checks).len())),
{
    {
        let one = check_text(checks[0]);
        let tail = check_rest_text(checks, 1);
        let close = pos + 1 + one.len() + tail.len();
        assert(has_char(s, pos, '[') && has_word(s, pos + 1, one) && has_word(s, pos + 1 + one.len(), tail + seq![']'])
            && has_char(s, close, ']') && checks_text(checks).len() == one.len() + tail.len() + 2) by {
            assert(checks_text(checks) =~= seq!['['] + (one + (tail + seq![']'])));
            lemma_split(s, pos, seq!['['], one + (tail + seq![']']));
            lemma_split(s, pos + 1, one, tail + seq![']']);
            lemma_split(s, pos + 1 + one.len(), tail, seq![']']);
            lemma_char(s, pos, seq!['['], 0);
            lemma_char(s, close, seq![']'], 0);
        }
        lemma_check_first(checks[0]);
        lemma_char(s, pos + 1, one, 0);
        lemma_spaces_stop(s, pos);
        lemma_spaces_stop(s, pos + 1);
        lemma_check_rest_first(checks, 1);
        lemma_char(s, pos + 1 + one.len(), tail + seq![']'], 0);
        lemma_check_back(s, pos + 1, checks[0]);
        lemma_check_rest_back(s, pos + 1 + one.len(), checks, 1);
        assert(seq![checks[0]] + checks.skip(1) =~= checks);
        lemma_spaces_stop(s, close);
    }
}

} // verus!

verus! {

/// What may follow an action in canonical text: `;`, or the blank before `}`.
pub open spec fn closes(s: Seq<char>, pos: int) -> bool {
    has_char(s, pos, ';') || (has_char(s, pos, ' ') && has_char(s, pos + 1, '}'))
}

/// `action(s, pos)` yields `value` and ends at `end`, or one further where a blank stands at `end`.
pub open spec fn lands(s: Seq<char>, pos: int, value: ActionView, end: int) -> bool {
    grammar::action(s, pos) matches Ok((v, next)) && v == value && (next == end || (next == end + 1
        && has_char(s, end, ' ')))
}

/// The first characters of the words that start an action.
proof fn lemma_initials()
    ensures
        "file"@.len() == 4 && "file"@[0] == 'f',
        "files"@.len() == 5 && "files"@[0] == 'f',
        "exec"@.len() == 4 && "exec"@[0] == 'e',
        "home"@.len() == 4 && "home"@[0] == 'h',
        "config"@.len() == 6 && "config"@[0] == 'c' && "config"@[1] == 'o',
        "local"@.len() == 5 && "local"@[0] == 'l',
        "search"@.len() == 6 && "search"@[0] == 's',
        "cd"@.len() == 2 && "cd"@[0] == 'c' && "cd"@[1] == 'd',
{
    lemma_words();
}

/// No leaf action stands where the first character is none of `f` and `e`.
proof fn lemma_no_leaf(s: Seq<char>, pos: int)
    requires
        0 <= pos < s.len() ==> s[pos] != 'f' && s[pos] != 'e',
    ensures
        grammar::command_file(s, pos) is Err,
        grammar::command_files(s, pos) is Err,
        grammar::command_exec(s, pos) is Err,
{
    lemma_initials();
    lemma_mismatch(s, pos, "file"@, 0);
    lemma_mismatch(s, pos, "files"@, 0);
    lemma_mismatch(s, pos, "exec"@, 0);
}

/// A context stands only where its word stands.
proof fn lemma_no_context(s: Seq<char>, pos: int, word: Seq<char>, i: int)
    requires
        0 <= i < word.len(),
        0 <= pos + i < s.len() ==> s[pos + i] != word[i],
    ensures
        grammar::context_plain(s, pos, word, FolderView::Home) is Err,
        grammar::context_plain(s, pos, word, FolderView::Config) is Err,
        grammar::context_plain(s, pos, word, FolderView::Local) is Err,
        grammar::context_named(s, pos, word, true) is Err,
        grammar::context_named(s, pos, word, false) is Err,
{
    lemma_mismatch(s, pos, word, i);
}

/// Whitespace skipping at a place that closes an action stops at the `;` or at the `}`.
proof fn lemma_spaces_close(s: Seq<char>, pos: int)
    requires
        0 <= pos,
        closes(s, pos),
    ensures
        spaces(s, pos) == (if has_char(s, pos, ';') { pos } else { pos + 1 }),
        has_char(s, spaces(s, pos), ';') || has_char(s, spaces(s, pos), '}'),
{
    if has_char(s, pos, ';') {
        lemma_spaces_stop(s, pos);
    } else {
        lemma_spaces_one(s, pos);
    }
}

/// No action starts with a character that starts none of the words.
proof fn lemma_no_action(s: Seq<char>, pos: int)
    requires
        0 <= pos < s.len() ==> s[pos] != 'f' && s[pos] != 'e' && s[pos] != 'h' && s[pos] != 'c' && s[pos]
            != 'l' && s[pos] != 's',
    ensures
        grammar::action(s, pos) is Err,
{
    lemma_initials();
    lemma_no_leaf(s, pos);
    lemma_no_context(s, pos, "home"@, 0);
    lemma_no_context(s, pos, "config"@, 0);
    lemma_no_context(s, pos, "local"@, 0);
    lemma_no_context(s, pos, "search"@, 0);
    lemma_no_context(s, pos, "cd"@, 0);
}

/// `file "name"` parses as a file without checks.
proof fn lemma_file_back(s: Seq<char>, pos: int, name: Seq<char>)
    requires
        has_word(s, pos, "file "@ + quoted(name)),
        text_ok(name),
        closes(s, pos + 7 + name.len()),
    ensures
        lands(s, pos, ActionView::File(name, None), pos + 7 + name.len()),
{
    lemma_words();
    let q = quoted(name);
    lemma_split(s, pos, "file "@, q);
    lemma_prefix(s, pos, "file "@, "file"@);
    lemma_char(s, pos, "file "@, 4);
    lemma_char(s, pos + 5, q, 0);
    lemma_spaces_one(s, pos + 4);
    lemma_string_back(s, pos + 5, name);
    let end = pos + 7 + name.len();
    lemma_spaces_close(s, end);
    lemma_spaces_stop(s, spaces(s, end));
}

/// `file "name" [checks]` parses as a file with its checks.
proof fn lemma_file_checks_back(s: Seq<char>, pos: int, name: Seq<char>, checks: Seq<CheckView>)
    requires
        has_word(s, pos, "file "@ + quoted(name) + seq![' '] + checks_text(checks)),
        text_ok(name),
        checks_ok(checks),
    ensures
        lands(s, pos, ActionView::File(name, Some(checks)), pos + 8 + name.len() + checks_text(checks).len()),
{
    lemma_words();
    let q = quoted(name);
    let list = checks_text(checks);
    assert("file "@ + q + seq![' '] + list =~= "file "@ + (q + (seq![' '] + list)));
    lemma_split(s, pos, "file "@, q + (seq![' '] + list));
    lemma_split(s, pos + 5, q, seq![' '] + list);
    lemma_split(s, pos + 7 + name.len(), seq![' '], list);
    lemma_prefix(s, pos, "file "@, "file"@);
    lemma_char(s, pos, "file "@, 4);
    lemma_char(s, pos + 5, q, 0);
    lemma_spaces_one(s, pos + 4);
    lemma_string_back(s, pos + 5, name);
    let end = pos + 7 + name.len();
    lemma_char(s, end, seq![' '], 0);
    assert(list.len() > 0 && list[0] == '[');
    lemma_char(s, end + 1, list, 0);
    lemma_spaces_one(s, end);
    lemma_checks_back(s, end + 1, checks);
}

/// `files "pattern"` parses as a glob of files.
proof fn lemma_files_back(s: Seq<char>, pos: int, pattern: Seq<char>)
    requires
        has_word(s, pos, "files "@ + quoted(pattern)),
        text_ok(pattern),
    ensures
        lands(s, pos, ActionView::Files(pattern), pos + 8 + pattern.len()),
{
    lemma_words();
    let q = quoted(pattern);
    lemma_split(s, pos, "files "@, q);
    lemma_prefix(s, pos, "files "@, "files"@);
    lemma_prefix(s, pos, "files "@, "file"@);
    lemma_char(s, pos, "files "@, 4);
    lemma_char(s, pos, "files "@, 5);
    lemma_char(s, pos + 6, q, 0);
    lemma_spaces_stop(s, pos + 4);
    lemma_spaces_one(s, pos + 5);
    lemma_string_back(s, pos + 6, pattern);
}

/// `exec "command"` parses as a command whose output is not kept.
proof fn lemma_exec_back(s: Seq<char>, pos: int, command: Seq<char>)
    requires
        has_word(s, pos, "exec "@ + quoted(command)),
        text_ok(command),
        closes(s, pos + 7 + command.len()),
    ensures
        lands(s, pos, ActionView::Execute(command, None), pos + 7 + command.len()),
{
    lemma_words();
    let q = quoted(command);
    lemma_split(s, pos, "exec "@, q);
    lemma_prefix(s, pos, "exec "@, "exec"@);
    lemma_char(s, pos, "exec "@, 0);
    lemma_char(s, pos, "exec "@, 4);
    lemma_mismatch(s, pos, "file"@, 0);
    lemma_mismatch(s, pos, "files"@, 0);
    lemma_mismatch(s, pos, "execute"@, 4);
    lemma_char(s, pos + 5, q, 0);
    lemma_spaces_one(s, pos + 4);
    lemma_string_back(s, pos + 5, command);
    let end = pos + 7 + command.len();
    lemma_spaces_close(s, end);
    lemma_mismatch(s, spaces(s, end), ">>"@, 0);
}

/// `exec "command" >> "file"` parses as a command whose output is kept.
proof fn lemma_exec_capture_back(s: Seq<char>, pos: int, command: Seq<char>, file: Seq<char>)
    requires
        has_word(s, pos, "exec "@ + quoted(command) + " >> "@ + quoted(file)),
        text_ok(command),
        text_ok(file),
    ensures
        lands(s, pos, ActionView::Execute(command, Some(file)), pos + 13 + command.len() + file.len()),
{
    lemma_words();
    let q = quoted(command);
    let f = quoted(file);
    assert("exec "@ + q + " >> "@ + f =~= "exec "@ + (q + (" >> "@ + f)));
    lemma_split(s, pos, "exec "@, q + (" >> "@ + f));
    lemma_split(s, pos + 5, q, " >> "@ + f);
    let end = pos + 7 + command.len();
    lemma_split(s, end, " >> "@, f);
    lemma_prefix(s, pos, "exec "@, "exec"@);
    lemma_char(s, pos, "exec "@, 0);
    lemma_char(s, pos, "exec "@, 4);
    lemma_mismatch(s, pos, "file"@, 0);
    lemma_mismatch(s, pos, "files"@, 0);
    lemma_mismatch(s, pos, "execute"@, 4);
    lemma_char(s, pos + 5, q, 0);
    lemma_spaces_one(s, pos + 4);
    lemma_string_back(s, pos + 5, command);
    lemma_char(s, end, " >> "@, 0);
    lemma_char(s, end, " >> "@, 1);
    lemma_char(s, end, " >> "@, 2);
    lemma_char(s, end, " >> "@, 3);
    lemma_char(s, end + 4, f, 0);
    lemma_spaces_one(s, end);
    lemma_spaces_one(s, end + 3);
    lemma_part(s, end, " >> "@, 1, ">>"@);
    lemma_string_back(s, end + 4, file);
}

} // verus!

verus! {

/// The text of an action starts with the first letter of a word.
proof fn lemma_action_first(action: ActionView)
    ensures
        action_text(action).len() > 0,
        ({
            let c = action_text(action)[0];
            c == 'f' || c == 'e' || c == 'h' || c == 'c' || c == 'l' || c == 's'
        }),
{
    lemma_words();
    match action {
        ActionView::Context(folder, _) => {
            assert(folder_text(folder).len() > 0);
            assert(action_text(action)[0] == folder_text(folder)[0]);
        },
        _ => {},
    }
}

/// What follows an action in a list closes it.
proof fn lemma_action_rest_first(actions: Seq<ActionView>, i: int)
    requires
        1 <= i <= actions.len(),
    ensures
        ({
            let rest = action_rest_text(actions, i) + seq![' ', '}'];
            if i < actions.len() {
                rest[0] == ';' && rest[1] == ' ' && rest[2] == action_text(actions[i])[0]
            } else {
                rest =~= seq![' ', '}']
            }
        }),
{
    lemma_words();
    if i < actions.len() {
        lemma_action_first(actions[i]);
        assert(action_rest_text(actions, i) =~= "; "@ + (action_text(actions[i]) + action_rest_text(
            actions,
            i + 1,
        )));
    }
}

/// How long the text of each kind of action is.
proof fn lemma_action_len(action: ActionView)
    ensures
        action_text(action).len() == match action {
            ActionView::File(name, None) => 7 + name.len(),
            ActionView::File(name, Some(checks)) => 8 + name.len() + checks_text(checks).len(),
            ActionView::Files(pattern) => 8 + pattern.len(),
            ActionView::Execute(command, None) => 7 + command.len(),
            ActionView::Execute(command, Some(file)) => 13 + command.len() + file.len(),
            ActionView::Context(folder, body) => folder_text(folder).len() + actions_text(body).len(),
        },
{
    lemma_words();
}

/// A word, a blank, a quoted text and a blank: the word stands, the text
/// parses as a string, and whitespace skipping passes each blank.
proof fn lemma_named_back(s: Seq<char>, pos: int, lead: Seq<char>, word: Seq<char>, name: Seq<char>)
    requires
        has_word(s, pos, lead + quoted(name) + seq![' ']),
        lead == word + seq![' '],
        text_ok(name),
        pos + lead.len() + name.len() + 3 < s.len() ==> !is_space(s[pos + lead.len() + name.len() + 3]),
    ensures
        has_word(s, pos, word),
        spaces(s, pos + word.len()) == pos + lead.len(),
        grammar::string(s, pos + lead.len()) == Ok::<_, Failure>((name, pos + lead.len() + name.len() + 2)),
        spaces(s, pos + lead.len() + name.len() + 2) == pos + lead.len() + name.len() + 3,
{
    let q = quoted(name);
    assert(lead + q + seq![' '] =~= lead + (q + seq![' ']));
    lemma_split(s, pos, lead, q + seq![' ']);
    lemma_split(s, pos + lead.len(), q, seq![' ']);
    lemma_prefix(s, pos, lead, word);
    lemma_char(s, pos, lead, word.len() as int);
    lemma_char(s, pos + lead.len(), q, 0);
    lemma_spaces_one(s, pos + word.len());
    lemma_string_back(s, pos + lead.len(), name);
    lemma_char(s, pos + lead.len() + q.len(), seq![' '], 0);
    lemma_spaces_one(s, pos + lead.len() + name.len() + 2);
}

/// The braced list of actions at `pos` parses as `body` and ends at `end`.
#[verifier::opaque]
pub open spec fn block_at(s: Seq<char>, pos: int, body: Seq<ActionView>, end: int) -> bool {
    grammar::parse_actions(s, pos) == Ok::<_, Failure>((body, end))
}

/// The list of actions at `pos` has a first action and parses as `items`,
/// and `close` is the first place after it that holds no whitespace.
#[verifier::opaque]
pub open spec fn list_at(s: Seq<char>, pos: int, items: Seq<ActionView>, close: int) -> bool {
    &&& grammar::action(s, pos) is Ok
    &&& grammar::action_list(s, pos).0 == items
    &&& spaces(s, grammar::action_list(s, pos).1) == close
}

/// A word and a blank before a body that parses, parse as a plain context.
proof fn lemma_plain_head(s: Seq<char>, pos: int, lead: Seq<char>, word: Seq<char>, folder: FolderView, body: Seq<ActionView>, end: int)
    requires
        has_word(s, pos, lead),
        lead == word + seq![' '],
        word.len() > 0,
        has_char(s, pos + lead.len(), '{'),
        block_at(s, pos + lead.len(), body, end),
    ensures
        grammar::context_plain(s, pos, word, folder) == Ok::<_, Failure>((ActionView::Context(folder, body), end)),
{
    reveal(block_at);
    lemma_prefix(s, pos, lead, word);
    lemma_char(s, pos, lead, word.len() as int);
    lemma_spaces_one(s, pos + word.len());
}

/// A word, a quoted name and a body that parses, parse as a named context.
proof fn lemma_named_head(s: Seq<char>, pos: int, lead: Seq<char>, word: Seq<char>, name: Seq<char>, search: bool, body: Seq<ActionView>, end: int)
    requires
        has_word(s, pos, lead + quoted(name) + seq![' ']),
        lead == word + seq![' '],
        word.len() > 0,
        text_ok(name),
        has_char(s, pos + lead.len() + name.len() + 3, '{'),
        block_at(s, pos + lead.len() + name.len() + 3, body, end),
    ensures
        grammar::context_named(s, pos, word, search) == Ok::<_, Failure>((
            ActionView::Context(if search { FolderView::Search(name) } else { FolderView::Custom(name) }, body),
            end,
        )),
{
    reveal(block_at);
    lemma_named_back(s, pos, lead, word, name);
}

/// Where no leaf action matches, a home context that matches is what `action` yields.
proof fn lemma_pick_home(s: Seq<char>, pos: int, found: grammar::Outcome<ActionView>)
    requires
        grammar::command_file(s, pos) is Err,
        grammar::command_files(s, pos) is Err,
        grammar::command_exec(s, pos) is Err,
        grammar::context_plain(s, pos, "home"@, FolderView::Home) == found,
        found is Ok,
    ensures
        grammar::action(s, pos) == found,
{
}

/// Where nothing before it matches, a config context that matches is what `action` yields.
proof fn lemma_pick_config(s: Seq<char>, pos: int, found: grammar::Outcome<ActionView>)
    requires
        grammar::command_file(s, pos) is Err,
        grammar::command_files(s, pos) is Err,
        grammar::command_exec(s, pos) is Err,
        grammar::context_plain(s, pos, "home"@, FolderView::Home) is Err,
        grammar::context_plain(s, pos, "config"@, FolderView::Config) == found,
        found is Ok,
    ensures
        grammar::action(s, pos) == found,
{
}

/// Where nothing before it matches, a local context that matches is what `action` yields.
proof fn lemma_pick_local(s: Seq<char>, pos: int, found: grammar::Outcome<ActionView>)
    requires
        grammar::command_file(s, pos) is Err,
        grammar::command_files(s, pos) is Err,
        grammar::command_exec(s, pos) is Err,
        grammar::context_plain(s, pos, "home"@, FolderView::Home) is Err,
        grammar::context_plain(s, pos, "config"@, FolderView::Config) is Err,
        grammar::context_plain(s, pos, "local"@, FolderView::Local) == found,
        found is Ok,
    ensures
        grammar::action(s, pos) == found,
{
}

/// Where nothing before it matches, a search context that matches is what `action` yields.
proof fn lemma_pick_search(s: Seq<char>, pos: int, found: grammar::Outcome<ActionView>)
    requires
        grammar::command_file(s, pos) is Err,
        grammar::command_files(s, pos) is Err,
        grammar::command_exec(s, pos) is Err,
        grammar::context_plain(s, pos, "home"@, FolderView::Home) is Err,
        grammar::context_plain(s, pos, "config"@, FolderView::Config) is Err,
        grammar::context_plain(s, pos, "local"@, FolderView::Local) is Err,
        grammar::context_named(s, pos, "search"@, true) == found,
        found is Ok,
    ensures
        grammar::action(s, pos) == found,
{
}

/// Where nothing before it matches, a custom context that matches is what `action` yields.
proof fn lemma_pick_custom(s: Seq<char>, pos: int, found: grammar::Outcome<ActionView>)
    requires
        grammar::command_file(s, pos) is Err,
        grammar::command_files(s, pos) is Err,
        grammar::command_exec(s, pos) is Err,
        grammar::context_plain(s, pos, "home"@, FolderView::Home) is Err,
        grammar::context_plain(s, pos, "config"@, FolderView::Config) is Err,
        grammar::context_plain(s, pos, "local"@, FolderView::Local) is Err,
        grammar::context_named(s, pos, "search"@, true) is Err,
        grammar::context_named(s, pos, "cd"@, false) == found,
        found is Ok,
    ensures
        grammar::action(s, pos) == found,
{
}

/// The words that start a context, as they stand in canonical text.
proof fn lemma_leads()
    ensures
        "home "@ == "home"@ + seq![' '] && "home"@.len() == 4 && "home "@.len() == 5 && "home "@[0] == 'h',
        "config "@ == "config"@ + seq![' '] && "config"@.len() == 6 && "config "@.len() == 7 && "config "@[0]
            == 'c',
        "local "@ == "local"@ + seq![' '] && "local"@.len() == 5 && "local "@.len() == 6 && "local "@[0] == 'l',
        "search "@ == "search"@ + seq![' '] && "search"@.len() == 6 && "search "@.len() == 7 && "search "@[0]
            == 's',
        "cd "@ == "cd"@ + seq![' '] && "cd"@.len() == 2 && "cd "@.len() == 3 && "cd "@[0] == 'c' && "cd "@[1]
            == 'd',
{
    lemma_words();
    assert("home "@ =~= "home"@ + seq![' ']);
    assert("config "@ =~= "config"@ + seq![' ']);
    assert("local "@ =~= "local"@ + seq![' ']);
    assert("search "@ =~= "search"@ + seq![' ']);
    assert("cd "@ =~= "cd"@ + seq![' ']);
}

/// `home {...}` parses as a context, the body given.
#[verifier::rlimit(30)]
proof fn lemma_home_head(s: Seq<char>, pos: int, body: Seq<ActionView>, end: int)
    requires
        has_word(s, pos, "home "@),
        has_char(s, pos + 5, '{'),
        block_at(s, pos + 5, body, end),
    ensures
        grammar::action(s, pos) == Ok::<_, Failure>((ActionView::Context(FolderView::Home, body), end)),
{
    let found = Ok::<_, Failure>((ActionView::Context(FolderView::Home, body), end));
    assert(grammar::context_plain(s, pos, "home"@, FolderView::Home) == found) by {
        lemma_leads();
        lemma_plain_head(s, pos, "home "@, "home"@, FolderView::Home, body, end);
    }
    assert(0 <= pos < s.len() && s[pos] == 'h') by {
        lemma_leads();
        lemma_char(s, pos, "home "@, 0);
    }
    lemma_no_leaf(s, pos);
    lemma_pick_home(s, pos, found);
}

/// `config {...}` parses as a context, the body given.
#[verifier::rlimit(30)]
proof fn lemma_config_head(s: Seq<char>, pos: int, body: Seq<ActionView>, end: int)
    requires
        has_word(s, pos, "config "@),
        has_char(s, pos + 7, '{'),
        block_at(s, pos + 7, body, end),
    ensures
        grammar::action(s, pos) == Ok::<_, Failure>((ActionView::Context(FolderView::Config, body), end)),
{
    let found = Ok::<_, Failure>((ActionView::Context(FolderView::Config, body), end));
    assert(grammar::context_plain(s, pos, "config"@, FolderView::Config) == found) by {
        lemma_leads();
        lemma_plain_head(s, pos, "config "@, "config"@, FolderView::Config, body, end);
    }
    assert(0 <= pos < s.len() && s[pos] == 'c') by {
        lemma_leads();
        lemma_char(s, pos, "config "@, 0);
    }
    lemma_no_leaf(s, pos);
    assert(grammar::context_plain(s, pos, "home"@, FolderView::Home) is Err) by {
        lemma_initials();
        lemma_no_context(s, pos, "home"@, 0);
    }
    lemma_pick_config(s, pos, found);
}

/// `local {...}` parses as a context, the body given.
#[verifier::rlimit(30)]
proof fn lemma_local_head(s: Seq<char>, pos: int, body: Seq<ActionView>, end: int)
    requires
        has_word(s, pos, "local "@),
        has_char(s, pos + 6, '{'),
        block_at(s, pos + 6, body, end),
    ensures
        grammar::action(s, pos) == Ok::<_, Failure>((ActionView::Context(FolderView::Local, body), end)),
{
    let found = Ok::<_, Failure>((ActionView::Context(FolderView::Local, body), end));
    assert(grammar::context_plain(s, pos, "local"@, FolderView::Local) == found) by {
        lemma_leads();
        lemma_plain_head(s, pos, "local "@, "local"@, FolderView::Local, body, end);
    }
    assert(0 <= pos < s.len() && s[pos] == 'l') by {
        lemma_leads();
        lemma_char(s, pos, "local "@, 0);
    }
    lemma_no_leaf(s, pos);
    assert(grammar::context_plain(s, pos, "home"@, FolderView::Home) is Err) by {
        lemma_initials();
        lemma_no_context(s, pos, "home"@, 0);
    }
    assert(grammar::context_plain(s, pos, "config"@, FolderView::Config) is Err) by {
        lemma_initials();
        lemma_no_context(s, pos, "config"@, 0);
    }
    lemma_pick_local(s, pos, found);
}

/// `search "pattern" {...}` parses as a context, the body given.
#[verifier::rlimit(30)]
proof fn lemma_search_head(s: Seq<char>, pos: int, pattern: Seq<char>, body: Seq<ActionView>, end: int)
    requires
        has_word(s, pos, "search "@ + quoted(pattern) + seq![' ']),
        text_ok(pattern),
        has_char(s, pos + 10 + pattern.len(), '{'),
        block_at(s, pos + 10 + pattern.len(), body, end),
    ensures
        grammar::action(s, pos) == Ok::<_, Failure>((ActionView::Context(FolderView::Search(pattern), body), end)),
{
    let found = Ok::<_, Failure>((ActionView::Context(FolderView::Search(pattern), body), end));
    assert(grammar::context_named(s, pos, "search"@, true) == found) by {
        lemma_leads();
        lemma_named_head(s, pos, "search "@, "search"@, pattern, true, body, end);
    }
    assert(0 <= pos < s.len() && s[pos] == 's') by {
        lemma_leads();
        assert("search "@ + quoted(pattern) + seq![' '] =~= "search "@ + (quoted(pattern) + seq![' ']));
        lemma_split(s, pos, "search "@, quoted(pattern) + seq![' ']);
        lemma_char(s, pos, "search "@, 0);
    }
    lemma_no_leaf(s, pos);
    assert(grammar::context_plain(s, pos, "home"@, FolderView::Home) is Err) by {
        lemma_initials();
        lemma_no_context(s, pos, "home"@, 0);
    }
    assert(grammar::context_plain(s, pos, "config"@, FolderView::Config) is Err) by {
        lemma_initials();
        lemma_no_context(s, pos, "config"@, 0);
    }
    assert(grammar::context_plain(s, pos, "local"@, FolderView::Local) is Err) by {
        lemma_initials();
        lemma_no_context(s, pos, "local"@, 0);
    }
    lemma_pick_search(s, pos, found);
}

/// `cd "name" {...}` parses as a context, the body given.
#[verifier::rlimit(30)]
proof fn lemma_custom_head(s: Seq<char>, pos: int, name: Seq<char>, body: Seq<ActionView>, end: int)
    requires
        has_word(s, pos, "cd "@ + quoted(name) + seq![' ']),
        text_ok(name),
        has_char(s, pos + 6 + name.len(), '{'),
        block_at(s, pos + 6 + name.len(), body, end),
    ensures
        grammar::action(s, pos) == Ok::<_, Failure>((ActionView::Context(FolderView::Custom(name), body), end)),
{
    let found = Ok::<_, Failure>((ActionView::Context(FolderView::Custom(name), body), end));
    assert(grammar::context_named(s, pos, "cd"@, false) == found) by {
        lemma_leads();
        lemma_named_head(s, pos, "cd "@, "cd"@, name, false, body, end);
    }
    assert(0 <= pos && pos + 1 < s.len() && s[pos] == 'c' && s[pos + 1] == 'd') by {
        lemma_leads();
        assert("cd "@ + quoted(name) + seq![' '] =~= "cd "@ + (quoted(name) + seq![' ']));
        lemma_split(s, pos, "cd "@, quoted(name) + seq![' ']);
        lemma_char(s, pos, "cd "@, 0);
        lemma_char(s, pos, "cd "@, 1);
    }
    lemma_no_leaf(s, pos);
    assert(grammar::context_plain(s, pos, "home"@, FolderView::Home) is Err) by {
        lemma_initials();
        lemma_no_context(s, pos, "home"@, 0);
    }
    assert(grammar::context_plain(s, pos, "config"@, FolderView::Config) is Err) by {
        lemma_initials();
        lemma_no_context(s, pos, "config"@, 1);
    }
    assert(grammar::context_plain(s, pos, "local"@, FolderView::Local) is Err) by {
        lemma_initials();
        lemma_no_context(s, pos, "local"@, 0);
    }
    assert(grammar::context_named(s, pos, "search"@, true) is Err) by {
        lemma_initials();
        lemma_no_context(s, pos, "search"@, 0);
    }
    lemma_pick_custom(s, pos, found);
}

/// How long the words before a context's body are.
proof fn lemma_folder_len(folder: FolderView)
    ensures
        folder_text(folder).len() == match folder {
            FolderView::Home => 5,
            FolderView::Config => 7,
            FolderView::Local => 6,
            FolderView::Search(pattern) => 10 + pattern.len(),
            FolderView::Custom(name) => 6 + name.len(),
        },
{
    lemma_words();
}

/// The words before a context's body, with the body parsed, parse as the context.
proof fn lemma_context_head(s: Seq<char>, pos: int, folder: FolderView, body: Seq<ActionView>, end: int)
    requires
        has_word(s, pos, folder_text(folder)),
        folder_ok(folder),
        has_char(s, pos + folder_text(folder).len(), '{'),
        block_at(s, pos + folder_text(folder).len(), body, end),
    ensures
        grammar::action(s, pos) == Ok::<_, Failure>((ActionView::Context(folder, body), end)),
{
    lemma_folder_len(folder);
    match folder {
        FolderView::Home => lemma_home_head(s, pos, body, end),
        FolderView::Config => lemma_config_head(s, pos, body, end),
        FolderView::Local => lemma_local_head(s, pos, body, end),
        FolderView::Search(pattern) => lemma_search_head(s, pos, pattern, body, end),
        FolderView::Custom(name) => lemma_custom_head(s, pos, name, body, end),
    }
}

/// The canonical text of an action parses as the action where the text is closed.
#[verifier::rlimit(30)]
proof fn lemma_action_back(s: Seq<char>, pos: int, action: ActionView)
    requires
        has_word(s, pos, action_text(action)),
        action_ok(action),
        closes(s, pos + action_text(action).len()),
    ensures
        lands(s, pos, action, pos + action_text(action).len()),
    decreases action, 0int,
{
    lemma_action_len(action);
    match action {
        ActionView::File(name, None) => lemma_file_back(s, pos, name),
        ActionView::File(name, Some(checks)) => lemma_file_checks_back(s, pos, name, checks),
        ActionView::Files(pattern) => lemma_files_back(s, pos, pattern),
        ActionView::Execute(command, None) => lemma_exec_back(s, pos, command),
        ActionView::Execute(command, Some(file)) => lemma_exec_capture_back(s, pos, command, file),
        ActionView::Context(folder, body) => {
            let head = folder_text(folder);
            let block = actions_text(body);
            assert(action_text(action) =~= head + block);
            lemma_split(s, pos, head, block);
            lemma_char(s, pos + head.len(), block, 0);
            assert(actions_ok(body));
            lemma_actions_back(s, pos + head.len(), body);
            lemma_context_head(s, pos, folder, body, pos + head.len() + block.len());
        },
    }
}

/// The actions from index `i` on parse as the rest of the list, up to the blank before `}`.
#[verifier::rlimit(30)]
proof fn lemma_action_rest_back(s: Seq<char>, pos: int, next: int, actions: Seq<ActionView>, i: int)
    requires
        1 <= i <= actions.len(),
        0 <= pos,
        has_word(s, pos, action_rest_text(actions, i) + seq![' ', '}']),
        actions_ok(actions),
        next == pos || (next == pos + 1 && i == actions.len()),
    ensures
        grammar::more_actions(s, next).0 == actions.skip(i),
        spaces(s, grammar::more_actions(s, next).1) == pos + action_rest_text(actions, i).len() + 1,
    decreases actions, actions.len() - i,
{
    let rest = action_rest_text(actions, i);
    let tail = rest + seq![' ', '}'];
    lemma_action_rest_first(actions, i);
    lemma_char(s, pos, tail, 0);
    lemma_char(s, pos, tail, 1);
    if i == actions.len() {
        lemma_spaces_one(s, pos);
        lemma_spaces_stop(s, pos + 1);
        lemma_no_action(s, pos + 1);
        assert(actions.skip(i) =~= Seq::empty());
    } else {
        let one = action_text(actions[i]);
        let more = action_rest_text(actions, i + 1) + seq![' ', '}'];
        let end = pos + 2 + one.len();
        assert(has_word(s, pos + 2, one) && has_word(s, end, more) && rest.len() == 2 + one.len()
            + action_rest_text(actions, i + 1).len()) by {
            lemma_check_words();
            assert(tail =~= "; "@ + (one + more));
            lemma_split(s, pos, "; "@, one + more);
            lemma_split(s, pos + 2, one, more);
        }
        lemma_char(s, pos, tail, 2);
        lemma_action_first(actions[i]);
        lemma_spaces_one(s, pos + 1);
        lemma_action_rest_first(actions, i + 1);
        lemma_char(s, end, more, 0);
        lemma_char(s, end, more, 1);
        lemma_action_back(s, pos + 2, actions[i]);
        crate::progress::lemma_action_advances(s, pos + 2);
        let after = grammar::action(s, pos + 2)->Ok_0.1;
        lemma_action_rest_back(s, end, after, actions, i + 1);
        assert(seq![actions[i]] + actions.skip(i + 1) =~= actions.skip(i));
    }
}

/// The items between the braces parse as the list, up to the blank before `}`.
#[verifier::rlimit(30)]
proof fn lemma_action_list_back(s: Seq<char>, pos: int, actions: Seq<ActionView>)
    requires
        0 <= pos,
        actions.len() > 0,
        has_word(s, pos, action_rest_text(actions, 0) + seq![' ', '}']),
        actions_ok(actions),
    ensures
        list_at(s, pos, actions, pos + action_rest_text(actions, 0).len() + 1),
        0 <= pos < s.len() && !is_space(s[pos]),
    decreases actions, actions.len(),
{
    reveal(list_at);
    let close = seq![' ', '}'];
    let one = action_text(actions[0]);
    let more = action_rest_text(actions, 1) + close;
    assert(action_rest_text(actions, 0) + close =~= one + more);
    lemma_split(s, pos, one, more);
    lemma_action_first(actions[0]);
    lemma_char(s, pos, one, 0);
    let end = pos + one.len();
    lemma_action_rest_first(actions, 1);
    lemma_char(s, end, more, 0);
    lemma_char(s, end, more, 1);
    lemma_action_back(s, pos, actions[0]);
    crate::progress::lemma_action_advances(s, pos);
    let after = grammar::action(s, pos)->Ok_0.1;
    lemma_action_rest_back(s, end, after, actions, 1);
    assert(seq![actions[0]] + actions.skip(1) =~= actions);
}

/// A `{`, a list of actions and a `}` parse as a braced list.
proof fn lemma_block(s: Seq<char>, pos: int, start: int, items: Seq<ActionView>, close: int)
    requires
        has_char(s, pos, '{'),
        spaces(s, pos + 1) == start,
        list_at(s, start, items, close),
        has_char(s, close, '}'),
    ensures
        block_at(s, pos, items, close + 1),
{
    reveal(list_at);
    reveal(block_at);
}

/// The canonical text of a list of actions parses as the list.
#[verifier::rlimit(30)]
proof fn lemma_actions_back(s: Seq<char>, pos: int, actions: Seq<ActionView>)
    requires
        has_word(s, pos, actions_text(actions)),
        actions_ok(actions),
    ensures
        block_at(s, pos, actions, pos + actions_text(actions).len()),
    decreases actions, actions.len() + 1,
{
    let open = seq!['{', ' '];
    let close = seq![' ', '}'];
    let items = action_rest_text(actions, 0);
    let last = pos + 2 + items.len();
    assert(has_char(s, pos, '{') && has_char(s, pos + 1, ' ') && has_char(s, last, ' ') && has_char(
        s,
        last + 1,
        '}',
    ) && has_word(s, pos + 2, items + close) && actions_text(actions).len() == items.len() + 4) by {
        assert(actions_text(actions) =~= open + (items + close));
        lemma_split(s, pos, open, items + close);
        lemma_split(s, pos + 2, items, close);
        lemma_char(s, pos, open, 0);
        lemma_char(s, pos, open, 1);
        lemma_char(s, last, close, 0);
        lemma_char(s, last, close, 1);
    }
    {
        lemma_action_list_back(s, pos + 2, actions);
        assert(spaces(s, pos + 1) == pos + 2) by {
            lemma_spaces_one(s, pos + 1);
        }
        lemma_block(s, pos, pos + 2, actions, last + 1);
    }
}

} // verus!

verus! {

/// The canonical text of a rule parses as the rule, from its blank or from its name.
proof fn lemma_rule_back(s: Seq<char>, pos: int, rule: DependencyView)
    requires
        has_word(s, pos, rule_text(rule)),
        rule_ok(rule),
    ensures
        rule_text(rule).len() == rule.name.len() + rule.block.len() + 4,
        spaces(s, pos) == pos + 1,
        grammar::dependency_rule(s, pos) == Ok::<_, Failure>((rule, pos + rule_text(rule).len())),
        grammar::dependency_rule(s, pos + 1) == Ok::<_, Failure>((rule, pos + rule_text(rule).len())),
{
    let name = rule.name;
    let block = rule.block;
    let text = rule_text(rule);
    let open = pos + 1 + name.len() + 1;
    let end = open + 1 + block.len();
    assert(text =~= seq![' '] + (name + (seq![' ', '{'] + (block + seq!['}']))));
    lemma_split(s, pos, seq![' '], name + (seq![' ', '{'] + (block + seq!['}'])));
    lemma_split(s, pos + 1, name, seq![' ', '{'] + (block + seq!['}']));
    lemma_split(s, pos + 1 + name.len(), seq![' ', '{'], block + seq!['}']);
    lemma_split(s, open + 1, block, seq!['}']);
    lemma_char(s, pos, seq![' '], 0);
    lemma_char(s, pos + 1, name, 0);
    lemma_char(s, pos + 1 + name.len(), seq![' ', '{'], 0);
    lemma_char(s, pos + 1 + name.len(), seq![' ', '{'], 1);
    lemma_char(s, end, seq!['}'], 0);
    lemma_spaces_one(s, pos);
    lemma_spaces_stop(s, pos + 1);
    lemma_ident_back(s, pos + 1, name);
    lemma_spaces_one(s, pos + 1 + name.len());
    assert forall|i: int| open + 1 <= i < end implies CharClass::Block.holds(#[trigger] s[i]) by {
        lemma_char(s, open + 1, block, i - open - 1);
    }
    lemma_run_ends(s, open + 1, CharClass::Block, end);
    assert(s.subrange(open + 1, end) =~= block) by {
        assert forall|i: int| 0 <= i < block.len() implies s.subrange(open + 1, end)[i] == block[i] by {
            lemma_char(s, open + 1, block, i);
        }
    }
}

/// The rules from index `i` on parse as the rest of the list, up to the blank before `}`.
proof fn lemma_rule_rest_back(s: Seq<char>, pos: int, rules: Seq<DependencyView>, i: int)
    requires
        0 <= i <= rules.len(),
        0 <= pos,
        has_word(s, pos, rule_rest_text(rules, i) + seq![' ', '}']),
        rules_ok(rules),
    ensures
        grammar::more_rules(s, pos) == (rules.skip(i), pos + rule_rest_text(rules, i).len()),
    decreases rules.len() - i,
{
    let rest = rule_rest_text(rules, i);
    let close = seq![' ', '}'];
    if i == rules.len() {
        lemma_char(s, pos, close, 0);
        lemma_char(s, pos, close, 1);
        lemma_spaces_one(s, pos);
        lemma_spaces_stop(s, pos + 1);
        assert(grammar::run_end(s, pos + 1, CharClass::Name) == pos + 1) by {
            lemma_run_ends(s, pos + 1, CharClass::Name, pos + 1);
        }
        assert(rules.skip(i) =~= Seq::empty());
    } else {
        let one = rule_text(rules[i]);
        let more = rule_rest_text(rules, i + 1) + close;
        assert(rest + close =~= one + more);
        lemma_split(s, pos, one, more);
        lemma_rule_back(s, pos, rules[i]);
        crate::progress::lemma_rule_advances(s, pos + 1);
        lemma_rule_rest_back(s, pos + one.len(), rules, i + 1);
        assert(seq![rules[i]] + rules.skip(i + 1) =~= rules.skip(i));
    }
}

/// The word that opens the dependencies section, as it stands in canonical text.
proof fn lemma_section_words()
    ensures
        " dependencies {"@ == seq![' '] + "dependencies"@ + seq![' ', '{'],
        "dependencies"@.len() == 12,
        "dependencies"@[0] == 'd',
        " dependencies {"@.len() == 15,
        " dependencies {"@[0] == ' ',
        " dependencies {"@[1] == 'd',
        " dependencies {"@[13] == ' ',
        " dependencies {"@[14] == '{',
{
    lemma_words();
    assert(" dependencies {"@ =~= seq![' '] + "dependencies"@ + seq![' ', '{']);
}

/// The canonical text of a dependencies section parses as its rules.
#[verifier::rlimit(30)]
proof fn lemma_section_back(s: Seq<char>, pos: int, rules: Seq<DependencyView>)
    requires
        0 <= pos,
        has_word(s, pos, section_text(rules)),
        rules_ok(rules),
    ensures
        grammar::parse_dependencies_section(s, pos) == Ok::<_, Failure>((rules, pos + section_text(rules).len())),
        has_word(s, spaces(s, pos), "dependencies"@),
{
    let lead = " dependencies {"@;
    let close = seq![' ', '}'];
    let rest = rule_rest_text(rules, 0);
    let last = pos + 15 + rest.len();
    lemma_section_words();
    assert(section_text(rules) =~= lead + (rest + close));
    lemma_split(s, pos, lead, rest + close);
    lemma_split(s, pos + 15, rest, close);
    lemma_char(s, pos, lead, 0);
    lemma_char(s, pos, lead, 1);
    lemma_char(s, pos, lead, 13);
    lemma_char(s, pos, lead, 14);
    lemma_char(s, last, close, 0);
    lemma_char(s, last, close, 1);
    lemma_part(s, pos, lead, 1, "dependencies"@);
    lemma_spaces_one(s, pos);
    lemma_spaces_one(s, pos + 13);
    lemma_spaces_one(s, last);
    if rules.len() == 0 {
        lemma_rule_rest_back(s, pos + 15, rules, 0);
        lemma_spaces_stop(s, pos + 16);
        assert(grammar::run_end(s, pos + 16, CharClass::Name) == pos + 16) by {
            lemma_run_ends(s, pos + 16, CharClass::Name, pos + 16);
        }
        assert(rules =~= Seq::empty());
    } else {
        let one = rule_text(rules[0]);
        let more = rule_rest_text(rules, 1) + close;
        assert(rest + close =~= one + more);
        lemma_split(s, pos + 15, one, more);
        lemma_rule_back(s, pos + 15, rules[0]);
        lemma_rule_rest_back(s, pos + 15 + one.len(), rules, 1);
        assert(seq![rules[0]] + rules.skip(1) =~= rules);
    }
}

/// The word that opens an app, as it stands in canonical text.
proof fn lemma_app_words()
    ensures
        "app "@ == "app"@ + seq![' '],
        "app"@.len() == 3,
        "app "@.len() == 4,
        "app "@[0] == 'a',
        "dependencies"@.len() == 12,
{
    lemma_words();
    assert("app "@ =~= "app"@ + seq![' ']);
}

/// The pieces of an app, each parsed where it stands, with nothing after
/// them, parse as the app.
#[verifier::rlimit(30)]
proof fn lemma_app_assembled(s: Seq<char>, app: AppView, open: int, end: int)
    requires
        spaces(s, 0) == 0,
        has_word(s, 0, "app"@),
        "app"@.len() == 3,
        spaces(s, 3) == 4,
        grammar::string(s, 4) == Ok::<_, Failure>((app.name, open - 1)),
        spaces(s, open - 1) == open,
        block_at(s, open, app.actions, end),
        match app.dependencies {
            Some(rules) => has_word(s, spaces(s, end), "dependencies"@) && grammar::parse_dependencies_section(
                s,
                end,
            ) == Ok::<_, Failure>((rules, s.len() as int)),
            None => !has_word(s, spaces(s, end), "dependencies"@) && end == s.len(),
        },
    ensures
        grammar::parse(s) == Ok::<_, Failure>(app),
{
    reveal(block_at);
    lemma_spaces_stop(s, s.len() as int);
}

/// Where the text ends, no dependencies section starts.
proof fn lemma_no_section(s: Seq<char>, end: int)
    requires
        end == s.len(),
    ensures
        !has_word(s, spaces(s, end), "dependencies"@),
{
    lemma_spaces_stop(s, end);
    lemma_app_words();
}

/// The first words of the canonical text of an app parse as its name.
proof fn lemma_app_head(s: Seq<char>, app: AppView)
    requires
        has_word(s, 0, "app "@ + quoted(app.name) + seq![' ']),
        text_ok(app.name),
        has_char(s, 7 + app.name.len() as int, '{'),
    ensures
        spaces(s, 0) == 0,
        has_word(s, 0, "app"@),
        "app"@.len() == 3,
        spaces(s, 3) == 4,
        grammar::string(s, 4) == Ok::<_, Failure>((app.name, 6 + app.name.len() as int)),
        spaces(s, 6 + app.name.len() as int) == 7 + app.name.len(),
{
    lemma_app_words();
    let q = quoted(app.name);
    assert("app "@ + q + seq![' '] =~= "app "@ + (q + seq![' ']));
    lemma_split(s, 0, "app "@, q + seq![' ']);
    lemma_char(s, 0, "app "@, 0);
    lemma_spaces_stop(s, 0);
    lemma_named_back(s, 0, "app "@, "app"@, app.name);
}

/// The canonical text of an app falls into its head, its actions and its section.
proof fn lemma_app_pieces(app: AppView)
    ensures
        ({
            let s = app_text(app);
            let open: int = 7 + app.name.len() as int;
            let end: int = open + actions_text(app.actions).len();
            &&& has_word(s, 0, "app "@ + quoted(app.name) + seq![' '])
            &&& has_word(s, open, actions_text(app.actions))
            &&& has_char(s, open, '{')
            &&& 0 <= end
            &&& match app.dependencies {
                Some(rules) => has_word(s, end, section_text(rules)),
                None => s.len() == end,
            }
        }),
{
    let s = app_text(app);
    let q = quoted(app.name);
    let block = actions_text(app.actions);
    let tail = match app.dependencies {
        Some(rules) => section_text(rules),
        None => Seq::empty(),
    };
    let head = "app "@ + q + seq![' '];
    let open: int = 7 + app.name.len() as int;
    lemma_app_words();
    assert(has_word(s, 0, s));
    assert(s =~= head + (block + tail));
    lemma_split(s, 0, head, block + tail);
    lemma_split(s, open, block, tail);
    assert(block.len() > 0 && block[0] == '{');
    lemma_char(s, open, block, 0);
}

/// How long the canonical text of an app with a dependencies section is.
proof fn lemma_app_length(app: AppView)
    requires
        app.dependencies is Some,
    ensures
        app_text(app).len() == 7 + app.name.len() + actions_text(app.actions).len() + section_text(
            app.dependencies->Some_0,
        ).len(),
{
    lemma_app_words();
}

/// Round trip: the canonical text of an app that the grammar can produce
/// parses as that app.
pub proof fn lemma_parse_render(app: AppView)
    requires
        app_ok(app),
    ensures
        grammar::parse(app_text(app)) == Ok::<_, Failure>(app),
{
    let s = app_text(app);
    let open: int = 7 + app.name.len() as int;
    let end: int = open + actions_text(app.actions).len();
    lemma_app_pieces(app);
    lemma_app_head(s, app);
    lemma_actions_back(s, open, app.actions);
    match app.dependencies {
        Some(rules) => {
            lemma_section_back(s, end, rules);
            lemma_app_length(app);
        },
        None => {
            lemma_no_section(s, end);
        },
    }
    lemma_app_assembled(s, app, open, end);
}

} // verus!
