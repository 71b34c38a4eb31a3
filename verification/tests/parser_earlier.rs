use vacuum::domain::{Action, App, DependencyCheck, Folder};
use vacuum::parser::{
    command_exec, command_file, command_files, context_custom, context_home, context_search,
    dependency_contains, dependency_exists, parse_actions, parse_vacuum_file,
};

fn letters(text: &str) -> Vec<char> {
    text.chars().collect::<Vec<_>>()
}

#[test]
fn pom_parser_test_parse_dependency_exists() {
    let input = letters(r#"exists -> rule"#);
    let r = dependency_exists(&input, 0).unwrap().0;

    assert_eq!(r, DependencyCheck::Exists("rule".into()))
}

#[test]
fn pom_parser_test_parse_dependency_contains() {
    let input = letters(r#"contains "content" -> dep"#);
    let r = dependency_contains(&input, 0).unwrap().0;

    assert_eq!(r, DependencyCheck::Contains("content".into(), "dep".into()))
}

#[test]
fn pom_parser_test_parse_context_custom() {
    let input = letters(
        r#"cd "WebStorm" { 
            file "*.xml"; 
            exec "ls files" 
        }"#,
    );
    let r = context_custom(&input, 0).map(|found| found.0);

    assert_eq!(
        r,
        Ok(Action::Context(
            Folder::Custom("WebStorm".into()),
            vec![
                Action::File("*.xml".into(), None),
                Action::Execute("ls files".into(), None)
            ]
        ))
    )
}

#[test]
fn pom_parser_test_parse_context_search() {
    let input = letters(
        r#"search ".WebStorm*" { 
            file "*.xml"; 
            exec "ls files"
        }"#,
    );

    let r = context_search(&input, 0).map(|found| found.0);
    assert_eq!(
        r,
        Ok(Action::Context(
            Folder::Search(".WebStorm*".into()),
            vec![
                Action::File("*.xml".into(), None),
                Action::Execute("ls files".into(), None)
            ]
        ))
    )
}

#[test]
fn pom_parser_test_parse_context_home() {
    let input = letters(
        r#"home { 
            file "*.xml"; 
            exec "ls files" 
        }"#,
    );

    let r = context_home(&input, 0).map(|found| found.0);
    assert_eq!(
        r,
        Ok(Action::Context(
            Folder::Home,
            vec![
                Action::File("*.xml".into(), None),
                Action::Execute("ls files".into(), None)
            ]
        ))
    )
}

#[test]
fn pom_parser_test_parse_actions() {
    let input = letters(
        r#"{ 
            file "*.xml"
            exec "ls files" 
        }"#,
    );

    let r = parse_actions(&input, 0).map(|found| found.0);
    assert_eq!(
        r,
        Ok(vec![
            Action::File("*.xml".into(), None),
            Action::Execute("ls files".into(), None)
        ])
    )
}

#[test]
fn pom_parser_test_parse_file() {
    let input = letters(r#"file "keyboard.xml""#);
    let r = command_file(&input, 0).map(|found| found.0);
    assert_eq!(r, Ok(Action::File("keyboard.xml".into(), None)))
}

#[test]
fn pom_parser_test_parse_files() {
    let input = letters(r#"files "*.xml""#);
    let r = command_files(&input, 0).map(|found| found.0);
    assert_eq!(r, Ok(Action::Files("*.xml".into())))
}

#[test]
fn pom_parser_test_parse_execute() {
    let input = letters(r#"exec "ls home""#);
    let r = command_exec(&input, 0).map(|found| found.0);
    assert_eq!(r, Ok(Action::Execute("ls home".into(), None)))
}

#[test]
fn pom_parser_test_parse_execute_with_capture() {
    let input = letters(r#"exec "ls home" >> "output.txt""#);
    let r = command_exec(&input, 0).map(|found| found.0);
    assert_eq!(
        r,
        Ok(Action::Execute("ls home".into(), Some("output.txt".into())))
    )
}

#[test]
fn pom_parser_test_parse_app() {
    let input = letters(
        r#"
            app "webstorm" {
                home {
                    search ".WebStorm*" {
                        cd "config" {
                            cd "keymaps" {
                                files "*.xml"
                            }
                            cd "options" {
                                file "editor.xml"
                            }
                        }
                    }
                }
            }"#,
    );

    let r = parse_vacuum_file(&input, 0).map(|found| found.0);
    assert_eq!(
        r,
        Ok(App {
            name: "webstorm".into(),
            actions: vec![Action::Context(
                Folder::Home,
                vec![Action::Context(
                    Folder::Search(".WebStorm*".into()),
                    vec![Action::Context(
                        Folder::Custom("config".into()),
                        vec![
                            Action::Context(
                                Folder::Custom("keymaps".into()),
                                vec![Action::Files("*.xml".into())],
                            ),
                            Action::Context(
                                Folder::Custom("options".into()),
                                vec![Action::File("editor.xml".into(), None)],
                            ),
                        ],
                    )],
                )],
            )],
            dependencies: None
        })
    );
}

#[test]
fn parser_test_parse_context_custom() {
    let input = letters(
        r#"cd "WebStorm" { 
            file "*.xml"; 
            exec "ls files" 
        }"#,
    );
    let r = context_custom(&input, 0).map(|found| found.0);

    assert_eq!(
        r,
        Ok(Action::Context(
            Folder::Custom("WebStorm".into()),
            vec![
                Action::File("*.xml".into(), None),
                Action::Execute("ls files".into(), None)
            ]
        ))
    )
}

#[test]
fn parser_test_parse_context_search() {
    let input = letters(
        r#"search ".WebStorm*" { 
            file "*.xml"; 
            exec "ls files"
        }"#,
    );

    let r = context_search(&input, 0).map(|found| found.0);
    assert_eq!(
        r,
        Ok(Action::Context(
            Folder::Search(".WebStorm*".into()),
            vec![
                Action::File("*.xml".into(), None),
                Action::Execute("ls files".into(), None)
            ]
        ))
    )
}

#[test]
fn parser_test_parse_context_home() {
    let input = letters(
        r#"home { 
            file "*.xml"; 
            exec "ls files" 
        }"#,
    );

    let r = context_home(&input, 0).map(|found| found.0);
    assert_eq!(
        r,
        Ok(Action::Context(
            Folder::Home,
            vec![
                Action::File("*.xml".into(), None),
                Action::Execute("ls files".into(), None)
            ]
        ))
    )
}

#[test]
fn parser_test_parse_actions() {
    let input = letters(
        r#"{ 
            file "*.xml"
            exec "ls files" 
        }"#,
    );

    let r = parse_actions(&input, 0).map(|found| found.0);
    assert_eq!(
        r,
        Ok(vec![
            Action::File("*.xml".into(), None),
            Action::Execute("ls files".into(), None)
        ])
    )
}

#[test]
fn parser_test_parse_file() {
    let input = letters(r#"file "keyboard.xml""#);
    let r = command_file(&input, 0).map(|found| found.0);
    assert_eq!(r, Ok(Action::File("keyboard.xml".into(), None)))
}

#[test]
fn parser_test_parse_files() {
    let input = letters(r#"files "*.xml""#);
    let r = command_files(&input, 0).map(|found| found.0);
    assert_eq!(r, Ok(Action::Files("*.xml".into())))
}

#[test]
fn parser_test_parse_execute() {
    let input = letters(r#"exec "ls home""#);
    let r = command_exec(&input, 0).map(|found| found.0);
    assert_eq!(r, Ok(Action::Execute("ls home".into(), None)))
}

#[test]
fn parser_test_parse_app() {
    let input = letters(
        r#"
            app "webstorm" {
                home {
                    search ".WebStorm*" {
                        cd "config" {
                            cd "keymaps" {
                                files "*.xml"
                            }
                            cd "options" {
                                file "editor.xml"
                            }
                        }
                    }
                }
            }"#,
    );

    let r = parse_vacuum_file(&input, 0).map(|found| found.0);
    assert_eq!(
        r,
        Ok(App {
            name: "webstorm".into(),
            actions: vec![Action::Context(
                Folder::Home,
                vec![Action::Context(
                    Folder::Search(".WebStorm*".into()),
                    vec![Action::Context(
                        Folder::Custom("config".into()),
                        vec![
                            Action::Context(
                                Folder::Custom("keymaps".into()),
                                vec![Action::Files("*.xml".into())],
                            ),
                            Action::Context(
                                Folder::Custom("options".into()),
                                vec![Action::File("editor.xml".into(), None)],
                            ),
                        ],
                    )],
                )],
            )],
            dependencies: None
        })
    );
}

