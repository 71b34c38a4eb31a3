//! The grammar once more, written with parser combinators, and held against
//! the parser of the library on many texts.

use pom::parser::{call, end, list, none_of, one_of, sym, tag, Parser};
use std::iter::FromIterator;
use vacuum::domain::{Action, App, Dependency, DependencyCheck, Folder};
use vacuum::parser::{parse_vacuum_file, PomParser, VacuumFileParser};

fn blanks<'a>() -> Parser<'a, char, ()> {
    one_of(" \t\r\n").repeat(0..).discard()
}

fn name<'a>() -> Parser<'a, char, String> {
    none_of("\\\", \r\n\t[]{}()").repeat(1..).map(String::from_iter)
}

fn quoted<'a>() -> Parser<'a, char, String> {
    let text = none_of("\"").repeat(0..).map(String::from_iter);
    sym('\"') * text - sym('\"')
}

fn check_exists<'a>() -> Parser<'a, char, DependencyCheck> {
    (tag("exists") * blanks() * tag("->") * blanks() * name() - blanks()).map(DependencyCheck::Exists)
}

fn check_contains<'a>() -> Parser<'a, char, DependencyCheck> {
    (tag("contains") * blanks() * quoted() + blanks() * tag("->") * blanks() * name() - blanks())
        .map(|(text, rule)| DependencyCheck::Contains(text, rule))
}

fn check<'a>() -> Parser<'a, char, DependencyCheck> {
    check_exists() | check_contains()
}

/// One item, then as many more as parse, each behind a separator.
fn one_or_more<'a, T: 'a, S: 'a>(
    first: Parser<'a, char, T>,
    more: Parser<'a, char, T>,
    separator: Parser<'a, char, S>,
) -> Parser<'a, char, Vec<T>> {
    (first + (separator * more).repeat(0..)).map(|(head, mut tail)| {
        tail.insert(0, head);
        tail
    })
}

fn checks<'a>() -> Parser<'a, char, Vec<DependencyCheck>> {
    let items = one_or_more(check(), check(), sym(',') * blanks());
    blanks() * sym('[') * blanks() * items - blanks() * sym(']')
}

fn file<'a>() -> Parser<'a, char, Action> {
    (tag("file") * blanks() * quoted() + blanks() * checks().opt()).map(|(f, d)| Action::File(f, d))
}

fn files<'a>() -> Parser<'a, char, Action> {
    (tag("files") * blanks() * quoted()).map(Action::Files)
}

fn exec<'a>() -> Parser<'a, char, Action> {
    let word = tag("execute") | tag("exec");
    let whole = word * blanks() * quoted() + (blanks() * tag(">>") * blanks() * quoted()).opt();
    whole.map(|(command, file_name)| Action::Execute(command, file_name))
}

fn home<'a>() -> Parser<'a, char, Action> {
    tag("home") * blanks() * call(actions).map(|body| Action::Context(Folder::Home, body))
}

fn config<'a>() -> Parser<'a, char, Action> {
    tag("config") * blanks() * call(actions).map(|body| Action::Context(Folder::Config, body))
}

fn local<'a>() -> Parser<'a, char, Action> {
    tag("local") * blanks() * call(actions).map(|body| Action::Context(Folder::Local, body))
}

fn search<'a>() -> Parser<'a, char, Action> {
    (tag("search") * blanks() * quoted() + blanks() * call(actions))
        .map(|(pattern, body)| Action::Context(Folder::Search(pattern), body))
}

fn custom<'a>() -> Parser<'a, char, Action> {
    (tag("cd") * blanks() * quoted() + blanks() * call(actions))
        .map(|(folder, body)| Action::Context(Folder::Custom(folder), body))
}

fn action<'a>() -> Parser<'a, char, Action> {
    file() | files() | exec() | home() | config() | local() | search() | custom()
}

fn actions<'a>() -> Parser<'a, char, Vec<Action>> {
    let items = one_or_more(action(), action(), sym(';').opt() * blanks());
    sym('{') * blanks() * items - blanks() * sym('}')
}

fn rule<'a>() -> Parser<'a, char, Dependency> {
    let block = none_of("}").repeat(1..).map(String::from_iter);
    (blanks() * name() + blanks() * sym('{') * block - blanks() * sym('}'))
        .map(|(name, block)| Dependency { name, block })
}

fn section<'a>() -> Parser<'a, char, Vec<Dependency>> {
    blanks() * tag("dependencies") * blanks() * sym('{') * list(rule(), blanks()) - blanks() * sym('}')
}

fn whole<'a>() -> Parser<'a, char, App> {
    let rules = section().map(Some) | (!(blanks() * tag("dependencies"))).map(|_| None);
    let app = blanks() * tag("app") * blanks() * quoted() + blanks() * call(actions) + rules - blanks() - end();
    app.map(|((name, actions), dependencies)| App { name, actions, dependencies })
}

/// Both parsers on one text: the same app and the same end, or both refuse.
fn agree(text: &str) {
    let input = text.chars().collect::<Vec<_>>();
    let expected = whole().parse_at(&input, 0).ok();
    let found = parse_vacuum_file(&input, 0).ok();
    assert_eq!(found, expected, "on {:?}", text);
    assert_eq!(PomParser::parse(text.to_string()).ok(), whole().parse(&input).ok(), "on {:?}", text);
}

#[test]
fn parsers_agree_on_written_specs() {
    for text in [
        "",
        "app",
        "app \"x\"",
        "app \"x\" {}",
        "app \"x\" { }",
        "app\"x\"{}",
        " \n app \t \"x\" \r\n { } ",
        "app \"x\" { file \"a\" }",
        "app \"x\" { file \"a\"; }",
        "app \"x\" { ; file \"a\" }",
        "app \"x\" { file \"a\" ; file \"b\" }",
        "app \"x\" { file \"a\";; file \"b\" }",
        "app \"x\" { file \"a\"file \"b\"files \"c\" }",
        "app \"x\" { files \"a\" files\"b\" }",
        "app \"x\" { file \"a\" [] }",
        "app \"x\" { file \"a\" [ ] file \"b\" [exists->r] }",
        "app \"x\" { file \"a\" [exists -> r, contains \"t\" -> q ] }",
        "app \"x\" { file \"a\" [exists -> r,, exists -> q] }",
        "app \"x\" { file \"a\" [exists -> r exists -> q] }",
        "app \"x\" { file \"a\" [contains t -> q] }",
        "app \"x\" { file \"a\" [exists -> ] }",
        "app \"x\" { file \"a\" [exists -> a->b] }",
        "app \"x\" { file \"a\" [exists -> (r)] }",
        "app \"x\" { exec \"ls\" }",
        "app \"x\" { execute \"ls\" }",
        "app \"x\" { execut \"ls\" }",
        "app \"x\" { executes \"ls\" }",
        "app \"x\" { exec \"ls\" >> \"out\" }",
        "app \"x\" { exec \"ls\" > > \"out\" }",
        "app \"x\" { exec \"ls\" >> out }",
        "app \"x\" { exec \"ls\" >>\"out\"exec \"b\" }",
        "app \"x\" { home { } config { } local { } }",
        "app \"x\" { home { config { local { cd \"a\" { search \"b\" { file \"c\" } } } } } }",
        "app \"x\" { home { file \"a\" }",
        "app \"x\" { home { file \"a\" } } }",
        "app \"x\" { homer { } }",
        "app \"x\" { cd { } }",
        "app \"x\" { cd \"a\" }",
        "app \"x\" { cd \"a\" file \"b\" }",
        "app \"x\" { search \"a\"{file \"b\"}}",
        "app \"x\" { configure { } }",
        "app \"x\" { file \"a\\\"b\" }",
        "app \"x\" { file \"a\nb\" }",
        "app \"x\" { file \"é\u{a0}ü\" }",
        "app \"x\" { file 'a' }",
        "app \"x\" { } dependencies { }",
        "app \"x\" { } dependencies { a {b} }",
        "app \"x\" { } dependencies { a {b} c {d}e{f} }",
        "app \"x\" { } dependencies { a { b } c }",
        "app \"x\" { } dependencies { a {} }",
        "app \"x\" { } dependencies { a {{b} }",
        "app \"x\" { } dependencies { a {b}} }",
        "app \"x\" { } dependencies { a b {c} }",
        "app \"x\" { } dependencies { dependencies {c} }",
        "app \"x\" { } dependencies a {c} }",
        "app \"x\" { }dependencies{a{c}}trailing",
        "app \"x\" { } dependency { a {c} }",
        "app \"x\" { } \n\n dependencies {\n a {\n  curl -L http://x.y \n }\n }\n",
        "app \"x\" { file \"a\" } app \"y\" { }",
        "app \"x\" { file \"a\" } \n ",
        "app \"x\" { file \"a\" }}",
        "app \"x\" { file \"a\\b\" file \"\\\" }",
        "app \"x\" { file \"a\" } dependencies",
        "app \"x\" { file \"a\" } dependencies { a {b} } \n",
        "app \"x\" { file \"a\" } dependencies { a {b} } x",
        "app \"x\" { file \"a\" } dependencies { a {} }",
        "app \"x\" { file \"a\" }dependenciesx { a {b} }",
        "app \"x\" { file \"a\" [ ] }",
        "app \"x\" { file \"a\" [, exists -> r] }",
        "app \"x\" { cd \"a\" { } file \"b\" }",
        "app \"x\" { file \"b\" cd \"a\" { } }",
        "apps \"x\" { }",
        "APP \"x\" { }",
    ] {
        agree(text);
    }
}

/// A small generator of numbers, the same on every run.
struct Numbers(u64);

impl Numbers {
    fn next(&mut self, below: usize) -> usize {
        self.0 = self.0.wrapping_mul(6364136223846793005).wrapping_add(1442695040888963407);
        ((self.0 >> 33) as usize) % below
    }
}

#[test]
fn parsers_agree_on_shuffled_tokens() {
    let tokens = [
        "app", " ", "\"x\"", "{", "}", "file", "files", "exec", "execute", ">>", "home", "config",
        "local", "search", "cd", ";", "[", "]", "exists", "contains", "->", ",", "rule", "\"", "\\",
        "dependencies", "\n", "\t", "text", "(", ")", "é",
    ];
    let mut numbers = Numbers(7);
    for _ in 0..3000 {
        let mut text = String::from(if numbers.next(2) == 0 { "app \"x\" {" } else { "app \"x\" { files \"a\"" });
        for _ in 0..numbers.next(24) {
            text.push_str(tokens[numbers.next(tokens.len())]);
            if numbers.next(3) == 0 {
                text.push(' ');
            }
        }
        agree(&text);
    }
}

fn some_text(numbers: &mut Numbers) -> String {
    let letters = ["a", "b.c", " ", "*", "{", "}", "[", ";", ">>", "->", "é", "\n", "exists", "", "\\"];
    let mut text = String::new();
    for _ in 0..numbers.next(4) {
        text.push_str(letters[numbers.next(letters.len())]);
    }
    text
}

fn some_name(numbers: &mut Numbers) -> String {
    let letters = ["a", "b", "-", ">", ".", "é", ";", "dep", "1"];
    let mut text = String::from(letters[numbers.next(letters.len())]);
    for _ in 0..numbers.next(3) {
        text.push_str(letters[numbers.next(letters.len())]);
    }
    text
}

fn some_actions(numbers: &mut Numbers, depth: usize) -> Vec<Action> {
    let mut list = vec![];
    for _ in 0..1 + numbers.next(3) {
        let kind = numbers.next(if depth == 0 { 5 } else { 10 });
        list.push(match kind {
            0 => Action::File(some_text(numbers), None),
            1 => {
                let mut found = vec![];
                for _ in 0..1 + numbers.next(3) {
                    found.push(if numbers.next(2) == 0 {
                        DependencyCheck::Exists(some_name(numbers))
                    } else {
                        DependencyCheck::Contains(some_text(numbers), some_name(numbers))
                    });
                }
                Action::File(some_text(numbers), Some(found))
            }
            2 => Action::Files(some_text(numbers)),
            3 => Action::Execute(some_text(numbers), None),
            4 => Action::Execute(some_text(numbers), Some(some_text(numbers))),
            5 => Action::Context(Folder::Home, some_actions(numbers, depth - 1)),
            6 => Action::Context(Folder::Config, some_actions(numbers, depth - 1)),
            7 => Action::Context(Folder::Local, some_actions(numbers, depth - 1)),
            8 => Action::Context(Folder::Custom(some_text(numbers)), some_actions(numbers, depth - 1)),
            _ => Action::Context(Folder::Search(some_text(numbers)), some_actions(numbers, depth - 1)),
        });
    }
    list
}

fn some_app(numbers: &mut Numbers) -> App {
    let dependencies = if numbers.next(2) == 0 {
        None
    } else {
        let mut rules = vec![];
        for _ in 0..numbers.next(3) {
            let mut block = some_text(numbers).replace('}', ")");
            block.push('!');
            rules.push(Dependency { name: some_name(numbers), block });
        }
        Some(rules)
    };
    App { name: some_text(numbers), actions: some_actions(numbers, 3), dependencies }
}

#[test]
fn canonical_text_of_made_up_apps_parses_back_with_both_parsers() {
    let mut numbers = Numbers(11);
    for _ in 0..500 {
        let app = some_app(&mut numbers);
        let text = vacuum::render::render(&app);
        let input = text.chars().collect::<Vec<_>>();
        assert_eq!(PomParser::parse(text.clone()).as_ref().ok(), Some(&app), "on {:?}", text);
        assert_eq!(whole().parse(&input).ok().as_ref(), Some(&app), "on {:?}", text);
    }
}
