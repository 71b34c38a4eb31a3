use vacuum::deps::{contains_text, DependencyAnalyzer};
use vacuum::deps_context::TargetDirectoryContext;
use vacuum::domain::{App, Dependency, DependencyCheck};
use vacuum::path::Location;

fn rule(name: &str, block: &str) -> Dependency {
    Dependency { name: name.into(), block: block.into() }
}

fn app(rules: Option<Vec<Dependency>>) -> App {
    App { name: "x".into(), actions: vec![], dependencies: rules }
}

fn present(name: &str) -> DependencyCheck {
    DependencyCheck::Exists(name.into())
}

fn holding(text: &str, name: &str) -> DependencyCheck {
    DependencyCheck::Contains(text.into(), name.into())
}

fn letters(text: &str) -> Vec<char> {
    text.chars().collect()
}

#[test]
fn contains_text_finds_contiguous_runs() {
    assert!(contains_text(&letters("hello world"), &letters("lo w")));
    assert!(contains_text(&letters("hello"), &letters("hello")));
    assert!(contains_text(&letters("hello"), &letters("")));
    assert!(contains_text(&letters(""), &letters("")));
    assert!(contains_text(&letters("aaab"), &letters("aab")));
    assert!(contains_text(&letters("xyz"), &letters("z")));
    assert!(!contains_text(&letters("hello"), &letters("hello!")));
    assert!(!contains_text(&letters("hello"), &letters("hlo")));
    assert!(!contains_text(&letters(""), &letters("a")));
    assert!(!contains_text(&letters("ab"), &letters("ba")));
}

#[test]
fn contains_text_agrees_with_the_standard_library() {
    let texts = ["", "a", "ab", "aab", "abab", "plugin: vim", "ééé"];
    for text in texts {
        for needle in texts {
            assert_eq!(contains_text(&letters(text), &letters(needle)), text.contains(needle));
        }
    }
}

#[test]
fn file_of_a_check_is_below_the_context() {
    let spec = app(None);
    let analyzer = DependencyAnalyzer::new(&spec);
    let scan = TargetDirectoryContext::new(Location::from_text("/bak/x/home"));
    assert_eq!(analyzer.handle_file(&scan, "some-app.config").to_text(), "/bak/x/home/some-app.config");
}

#[test]
fn files_and_commands_mean_nothing_to_the_scan() {
    let spec = app(Some(vec![rule("dep1", "install 1")]));
    let analyzer = DependencyAnalyzer::new(&spec);
    let scan = TargetDirectoryContext::new(Location::from_text("/bak/x"));
    assert_eq!(analyzer.handle_files(&scan, "*.xml"), Ok(()));
    assert_eq!(analyzer.handle_execute(&scan, "echo hi", &Some("out.txt".to_string())), Ok(()));
    assert_eq!(analyzer.handle_execute(&scan, "", &None), Ok(()));
    assert_eq!(analyzer.report(), vec![]);
}

#[test]
fn existing_file_matches_exists() {
    let spec = app(Some(vec![rule("dep1", "install 1"), rule("dep2", "install 2")]));
    let mut analyzer = DependencyAnalyzer::new(&spec);
    analyzer.analyze(true, &None, &vec![present("dep1")]);
    assert_eq!(analyzer.report(), vec![rule("dep1", "install 1")]);
}

#[test]
fn missing_file_matches_nothing() {
    let spec = app(Some(vec![rule("dep1", "install 1")]));
    let mut analyzer = DependencyAnalyzer::new(&spec);
    analyzer.analyze(false, &None, &vec![present("dep1"), holding("", "dep1")]);
    analyzer.analyze(false, &Some("content".to_string()), &vec![holding("content", "dep1")]);
    assert_eq!(analyzer.report(), vec![]);
}

#[test]
fn contains_needs_the_text() {
    let spec = app(Some(vec![rule("dep1", "install 1"), rule("dep2", "install 2")]));
    let mut analyzer = DependencyAnalyzer::new(&spec);
    let checks = vec![holding("plugin", "dep1"), holding("absent", "dep2")];
    analyzer.analyze(true, &Some("a plugin list".to_string()), &checks);
    assert_eq!(analyzer.report(), vec![rule("dep1", "install 1")]);
    // A file that was not read contains nothing.
    let mut unread = DependencyAnalyzer::new(&spec);
    unread.analyze(true, &None, &checks);
    assert_eq!(unread.report(), vec![]);
}

#[test]
fn unknown_rules_are_never_reported() {
    let spec = app(Some(vec![rule("dep1", "install 1")]));
    let mut analyzer = DependencyAnalyzer::new(&spec);
    analyzer.analyze(true, &Some("text".to_string()), &vec![present("other"), holding("text", "another")]);
    assert_eq!(analyzer.report(), vec![]);
    let without = app(None);
    let mut analyzer = DependencyAnalyzer::new(&without);
    analyzer.analyze(true, &None, &vec![present("dep1")]);
    assert_eq!(analyzer.report(), vec![]);
    assert!(!analyzer.is_known("dep1"));
}

#[test]
fn rule_matched_by_two_files_is_reported_once() {
    let spec = app(Some(vec![rule("dep1", "install 1"), rule("dep2", "install 2")]));
    let mut analyzer = DependencyAnalyzer::new(&spec);
    analyzer.analyze(true, &None, &vec![present("dep1")]);
    analyzer.analyze(true, &Some("needs dep1".to_string()), &vec![holding("dep1", "dep1"), present("dep2")]);
    analyzer.analyze(true, &None, &vec![present("dep2"), present("dep1")]);
    assert_eq!(analyzer.report(), vec![rule("dep1", "install 1"), rule("dep2", "install 2")]);
}

#[test]
fn rule_matched_by_two_checks_of_one_file_is_reported_once() {
    let spec = app(Some(vec![rule("dep1", "install 1")]));
    let mut analyzer = DependencyAnalyzer::new(&spec);
    analyzer.analyze(true, &Some("abc".to_string()), &vec![present("dep1"), holding("b", "dep1"), present("dep1")]);
    assert_eq!(analyzer.report(), vec![rule("dep1", "install 1")]);
    assert!(analyzer.has_matched("dep1"));
    assert!(!analyzer.has_matched("dep2"));
}

#[test]
fn rules_are_reported_in_the_order_of_their_first_match() {
    let spec = app(Some(vec![rule("a", "1"), rule("b", "2"), rule("c", "3")]));
    let mut analyzer = DependencyAnalyzer::new(&spec);
    analyzer.analyze(true, &None, &vec![present("c"), present("a")]);
    analyzer.analyze(true, &None, &vec![present("b"), present("c")]);
    assert_eq!(analyzer.report(), vec![rule("c", "3"), rule("a", "1"), rule("b", "2")]);
}

#[test]
fn later_rule_of_the_same_name_counts() {
    let spec = app(Some(vec![rule("dep", "first"), rule("other", "x"), rule("dep", "last")]));
    let mut analyzer = DependencyAnalyzer::new(&spec);
    assert_eq!(analyzer.block_for("dep"), Some("last".to_string()));
    assert_eq!(analyzer.block_for("other"), Some("x".to_string()));
    assert_eq!(analyzer.block_for("none"), None);
    analyzer.analyze(true, &None, &vec![present("dep")]);
    assert_eq!(analyzer.report(), vec![rule("dep", "last")]);
}

#[test]
fn text_is_needed_only_for_contains() {
    assert!(!DependencyAnalyzer::needs_contents(&vec![]));
    assert!(!DependencyAnalyzer::needs_contents(&vec![present("a"), present("b")]));
    assert!(DependencyAnalyzer::needs_contents(&vec![present("a"), holding("x", "b")]));
}

#[test]
fn known_rules_are_those_of_the_app() {
    let spec = app(Some(vec![rule("dep1", "install 1")]));
    let analyzer = DependencyAnalyzer::new(&spec);
    assert!(analyzer.is_known("dep1"));
    assert!(!analyzer.is_known("dep"));
    assert!(!analyzer.is_known("dep11"));
    assert!(!analyzer.is_known(""));
}
