use vacuum::context::Context;
use vacuum::deps_context::TargetDirectoryContext;
use vacuum::domain::{Action, App, DependencyCheck, Folder};
use vacuum::error::VacuumError;
use vacuum::executor::{execute, Step, Walk};
use vacuum::parser::{PomParser, VacuumFileParser};
use vacuum::path::Location;
use vacuum::platform::Platform;
use vacuum::store_context::StoreContext;
use vacuum::use_cases::{DepsUseCase, RestoreUseCase, StoreUseCase};

fn at(text: &str) -> Location {
    Location::from_text(text)
}

fn platform() -> Platform {
    Platform::from_texts(Some("/home/u".to_string()), Some("/cfg".to_string()), None)
}

fn parsed(text: &str) -> App {
    PomParser::parse(text.to_string()).unwrap()
}

/// One line for each step that asks something of the driver.
fn told(step: &Step<StoreContext>) -> String {
    match step {
        Step::File { context, name, checks } => format!(
            "file {} in {} -> {}{}",
            name,
            context.source.to_text(),
            context.target.to_text(),
            if checks.is_some() { " checked" } else { "" }
        ),
        Step::Files { context, pattern } => {
            format!("files {} in {} -> {}", pattern, context.source.to_text(), context.target.to_text())
        }
        Step::Execute { context, command, capture } => format!(
            "exec {} in {} -> {} >> {:?}",
            command,
            context.source.to_text(),
            context.target.to_text(),
            capture
        ),
        Step::Search { glob } => format!("search {}", glob),
        Step::Missing { folder } => format!("missing {:?}", folder),
        Step::Moved => "moved".to_string(),
        Step::Done => "done".to_string(),
    }
}

/// Drives a store walk, answering each search from `matches` in turn.
fn driven(walk: &mut Walk<StoreContext>, matches: Vec<Vec<Location>>) -> Vec<String> {
    let mut answers = matches.into_iter();
    let mut lines = vec![];
    for _ in 0..1000 {
        let step = walk.next();
        match step {
            Step::Moved => {}
            Step::Done => {
                lines.push("done".to_string());
                return lines;
            }
            Step::Search { .. } => {
                lines.push(told(&step));
                assert!(walk.found(&answers.next().unwrap()));
            }
            _ => {
                lines.push(told(&step));
                walk.settle(Ok(()));
            }
        }
    }
    panic!("the walk does not end");
}

#[test]
fn scenario_store_of_a_file_in_the_configuration_directory() {
    let app = parsed("app \"x\" { config { cd \"x\" { file \"a.yml\" } } }");
    let mut walk = execute(platform(), StoreContext::new(at("/bak/x")), &app);
    assert_eq!(driven(&mut walk, vec![]), vec!["file a.yml in /cfg/x -> /bak/x/config/x", "done"]);
    assert_eq!(walk.finish(), Ok(()));
}

#[test]
fn actions_run_depth_first_in_the_order_written() {
    let app = parsed(
        "app \"x\" { file \"1\" home { file \"2\" cd \"a\" { files \"3\" exec \"4\" >> \"o\" } file \"5\" [exists -> d] } \
         exec \"6\" cd \"b\" { cd \"c\" { file \"8\" } } file \"7\" }",
    );
    let mut walk = execute(platform(), StoreContext::new(at("/bak")), &app);
    assert_eq!(
        driven(&mut walk, vec![]),
        vec![
            "file 1 in  -> /bak",
            "file 2 in /home/u -> /bak/home",
            "files 3 in /home/u/a -> /bak/home/a",
            "exec 4 in /home/u/a -> /bak/home/a >> Some(\"o\")",
            "file 5 in /home/u -> /bak/home checked",
            "exec 6 in  -> /bak >> None",
            "file 8 in b/c -> /bak/b/c",
            "file 7 in  -> /bak",
            "done",
        ]
    );
}

#[test]
fn search_runs_its_body_once_for_each_match_in_order() {
    let app = parsed(
        "app \"webstorm\" { home { search \".WebStorm*\" { cd \"config\" { cd \"keymaps\" { files \"*.xml\" } \
         cd \"options\" { file \"editor.xml\" } } } file \"after\" } }",
    );
    let mut walk = execute(platform(), StoreContext::new(at("/bak/webstorm")), &app);
    let found = vec![at("/home/u/.WebStorm2019.1"), at("/home/u/.WebStorm2020.2")];
    assert_eq!(
        driven(&mut walk, vec![found]),
        vec![
            "search /home/u/.WebStorm*",
            "files *.xml in /home/u/.WebStorm2019.1/config/keymaps -> /bak/webstorm/home/.WebStorm2019.1/config/keymaps",
            "file editor.xml in /home/u/.WebStorm2019.1/config/options -> /bak/webstorm/home/.WebStorm2019.1/config/options",
            "files *.xml in /home/u/.WebStorm2020.2/config/keymaps -> /bak/webstorm/home/.WebStorm2020.2/config/keymaps",
            "file editor.xml in /home/u/.WebStorm2020.2/config/options -> /bak/webstorm/home/.WebStorm2020.2/config/options",
            "file after in /home/u -> /bak/webstorm/home",
            "done",
        ]
    );
}

#[test]
fn search_without_matches_skips_its_body() {
    let app = parsed("app \"x\" { home { search \"*\" { file \"never\" } file \"after\" } }");
    let mut walk = execute(platform(), StoreContext::new(at("/bak")), &app);
    assert_eq!(
        driven(&mut walk, vec![vec![]]),
        vec!["search /home/u/*", "file after in /home/u -> /bak/home", "done"]
    );
}

#[test]
fn nested_searches_fan_out() {
    let app = parsed("app \"x\" { home { search \"a*\" { search \"b*\" { file \"f\" } } } }");
    let mut walk = execute(platform(), StoreContext::new(at("/bak")), &app);
    let lines = driven(
        &mut walk,
        vec![
            vec![at("/home/u/a1"), at("/home/u/a2")],
            vec![at("/home/u/a1/b1")],
            vec![at("/home/u/a2/b1"), at("/home/u/a2/b2")],
        ],
    );
    assert_eq!(
        lines,
        vec![
            "search /home/u/a*",
            "search /home/u/a1/b*",
            "file f in /home/u/a1/b1 -> /bak/home/a1/b1",
            "search /home/u/a2/b*",
            "file f in /home/u/a2/b1 -> /bak/home/a2/b1",
            "file f in /home/u/a2/b2 -> /bak/home/a2/b2",
            "done",
        ]
    );
}

#[test]
fn waiting_search_is_asked_again() {
    let app = parsed("app \"x\" { home { search \"a*\" { file \"f\" } } }");
    let mut walk = execute(platform(), StoreContext::new(at("/bak")), &app);
    assert_eq!(told(&walk.next()), "moved");
    assert_eq!(told(&walk.next()), "search /home/u/a*");
    assert_eq!(told(&walk.next()), "search /home/u/a*");
    assert!(!walk.is_done());
    assert!(walk.found(&vec![at("/home/u/a1")]));
    assert_eq!(told(&walk.next()), "file f in /home/u/a1 -> /bak/home/a1");
}

#[test]
fn match_from_elsewhere_is_refused_and_the_search_waits_on() {
    let app = parsed("app \"x\" { home { search \"a*\" { file \"f\" } } }");
    let mut walk = execute(platform(), StoreContext::new(at("/bak")), &app);
    assert_eq!(told(&walk.next()), "moved");
    assert_eq!(told(&walk.next()), "search /home/u/a*");
    assert!(!walk.found(&vec![at("/home/u/a1"), at("/elsewhere/a2")]));
    assert_eq!(told(&walk.next()), "search /home/u/a*");
    assert!(walk.found(&vec![at("/home/u/a1")]));
    assert_eq!(told(&walk.next()), "file f in /home/u/a1 -> /bak/home/a1");
}

#[test]
fn matches_without_a_waiting_search_change_nothing() {
    let app = parsed("app \"x\" { file \"f\" }");
    let mut walk = execute(platform(), StoreContext::new(at("/bak")), &app);
    assert!(walk.found(&vec![at("/anything")]));
    assert_eq!(driven(&mut walk, vec![]), vec!["file f in  -> /bak", "done"]);
}

#[test]
fn first_failure_ends_the_walk() {
    let app = parsed("app \"x\" { file \"1\" home { file \"2\" file \"3\" } file \"4\" }");
    let mut walk = execute(platform(), StoreContext::new(at("/bak")), &app);
    assert_eq!(told(&walk.next()), "file 1 in  -> /bak");
    walk.settle(Ok(()));
    assert_eq!(told(&walk.next()), "moved");
    assert_eq!(told(&walk.next()), "file 2 in /home/u -> /bak/home");
    walk.settle(Err(VacuumError::IoError("disk full".to_string())));
    assert!(walk.is_done());
    assert_eq!(told(&walk.next()), "done");
    walk.settle(Err(VacuumError::IoError("later".to_string())));
    walk.settle(Ok(()));
    assert_eq!(told(&walk.next()), "done");
    assert_eq!(walk.finish(), Err(VacuumError::IoError("disk full".to_string())));
}

#[test]
fn failure_while_a_search_waits_ends_the_walk() {
    let app = parsed("app \"x\" { home { search \"a*\" { file \"f\" } } }");
    let mut walk = execute(platform(), StoreContext::new(at("/bak")), &app);
    walk.next();
    assert_eq!(told(&walk.next()), "search /home/u/a*");
    walk.settle(Err(VacuumError::ProcessError("gone".to_string())));
    assert_eq!(told(&walk.next()), "done");
    assert!(walk.found(&vec![at("/home/u/a1")]));
    assert_eq!(told(&walk.next()), "done");
    assert_eq!(walk.finish(), Err(VacuumError::ProcessError("gone".to_string())));
}

#[test]
fn unknown_directory_is_reported_and_passed_over() {
    let app = parsed("app \"x\" { local { file \"never\" } file \"after\" }");
    let mut walk = execute(platform(), StoreContext::new(at("/bak")), &app);
    assert_eq!(told(&walk.next()), "missing Local");
    assert_eq!(told(&walk.next()), "file after in  -> /bak");
    assert_eq!(told(&walk.next()), "moved");
    assert_eq!(told(&walk.next()), "done");
    assert_eq!(walk.finish(), Ok(()));
}

#[test]
fn empty_app_is_done_after_leaving_its_list() {
    let app = App { name: "x".into(), actions: vec![], dependencies: None };
    let mut walk = execute(platform(), StoreContext::new(at("/bak")), &app);
    assert!(!walk.is_done());
    assert!(matches!(walk.next(), Step::Moved));
    assert!(walk.is_done());
    assert!(matches!(walk.next(), Step::Done));
    assert!(matches!(walk.next(), Step::Done));
    assert_eq!(walk.finish(), Ok(()));
}

#[test]
fn checks_travel_with_their_file() {
    let app = App {
        name: "x".into(),
        actions: vec![Action::Context(
            Folder::Home,
            vec![Action::File("f".into(), Some(vec![DependencyCheck::Exists("dep".into())]))],
        )],
        dependencies: None,
    };
    let mut walk = Walk::new(platform(), TargetDirectoryContext::new(at("/bak/x")), &app.actions);
    assert!(matches!(walk.next(), Step::Moved));
    match walk.next() {
        Step::File { context, name, checks } => {
            assert_eq!(context.current(), at("/bak/x/home"));
            assert_eq!(name, "f");
            assert_eq!(checks, &Some(vec![DependencyCheck::Exists("dep".into())]));
        }
        _ => panic!("expected a file"),
    }
}

#[test]
fn use_cases_start_in_their_contexts() {
    let app = parsed("app \"x\" { file \"f\" }");
    let (mut store, handler) = StoreUseCase::new(at("/bak/x")).run(platform(), &app);
    assert_eq!(handler.name(), "x");
    match store.next() {
        Step::File { context, .. } => assert_eq!(context, StoreContext::new(at("/bak/x"))),
        _ => panic!("expected a file"),
    }
    let (mut restore, handler) = RestoreUseCase::new(at("/bak/x")).run(platform(), &app);
    assert_eq!(handler.name(), "x");
    match restore.next() {
        Step::File { context, .. } => {
            assert_eq!(context.current(), (at("/bak/x"), at("")));
        }
        _ => panic!("expected a file"),
    }
    let (mut scan, analyzer) = DepsUseCase::new(at("/bak/x")).run(platform(), &app);
    assert_eq!(analyzer.report(), vec![]);
    match scan.next() {
        Step::File { context, .. } => assert_eq!(context.current(), at("/bak/x")),
        _ => panic!("expected a file"),
    }
}
