use vacuum::domain::{Action, App, Dependency, DependencyCheck, Folder};
use vacuum::parser::{
    command_exec, command_file, command_files, context_custom, context_home, context_search,
    dependencies, dependency_contains, dependency_exists, dependency_rule, parse_actions,
    parse_dependencies_section, parse_vacuum_file,
};

fn chars(text: &str) -> Vec<char> {
    text.chars().collect::<Vec<_>>()
}

#[test]
fn test_parse_dependency_exists() {
    let input = chars(r#"exists     ->   rule   , contains"#);
    let r = dependency_exists(&input, 0).unwrap().0;

    assert_eq!(r, DependencyCheck::Exists("rule".into()))
}

#[test]
fn test_parse_dependency_contains() {
    let input = chars(r#"contains  "content"  ->  dep,exists "#);
    let r = dependency_contains(&input, 0).unwrap().0;

    assert_eq!(r, DependencyCheck::Contains("content".into(), "dep".into()))
}

#[test]
fn test_parse_dependencies() {
    let input = chars(r#"[exists -> dep1   , contains "content" -> dep2]"#);
    let r = dependencies(&input, 0).unwrap().0;

    assert_eq!(
        r,
        vec![
            DependencyCheck::Exists("dep1".into()),
            DependencyCheck::Contains("content".into(), "dep2".into())
        ]
    )
}

#[test]
fn test_parse_dependency_rule() {
    let input = chars(
        r#"
           
                dep1 {
                    curl -L http://application.com
                }
          
        "#,
    );
    let r = dependency_rule(&input, 0).unwrap().0;

    assert_eq!(
        r,
        Dependency {
            name: "dep1".into(),
            block: r#"
                    curl -L http://application.com
                "#
            .into(),
        }
    )
}

#[test]
fn test_parse_dependencies_section() {
    let input = chars(
        r#"
            dependencies {
                dep1 {
                    curl -L http://application.com
                }
                dep2 {
                    curl -L http://application2.com
                }
            }
        "#,
    );
    let r = parse_dependencies_section(&input, 0).unwrap().0;

    assert_eq!(
        r,
        vec![
            Dependency {
                name: "dep1".into(),
                block: r#"
                    curl -L http://application.com
                "#
                .into(),
            },
            Dependency {
                name: "dep2".into(),
                block: r#"
                    curl -L http://application2.com
                "#
                .into(),
            }
        ]
    )
}

#[test]
fn test_parse_context_custom() {
    let input = chars(
        r#"cd "WebStorm" { 
            file "*.xml"; 
            exec "ls files" 
        }"#,
    );
    let r = context_custom(&input, 0).map(|found| found.0);

    assert_eq!(
        r,
        Ok(Action::Context(
            Folder::Custom("WebStorm".into()),
            vec![
                Action::File("*.xml".into(), None),
                Action::Execute("ls files".into(), None)
            ]
        ))
    )
}

#[test]
fn test_parse_context_search() {
    let input = chars(
        r#"search ".WebStorm*" { 
            file "*.xml"; 
            exec "ls files"
        }"#,
    );

    let r = context_search(&input, 0).map(|found| found.0);
    assert_eq!(
        r,
        Ok(Action::Context(
            Folder::Search(".WebStorm*".into()),
            vec![
                Action::File("*.xml".into(), None),
                Action::Execute("ls files".into(), None)
            ]
        ))
    )
}

#[test]
fn test_parse_context_home() {
    let input = chars(
        r#"home { 
            file "*.xml"; 
            exec "ls files" 
        }"#,
    );

    let r = context_home(&input, 0).map(|found| found.0);
    assert_eq!(
        r,
        Ok(Action::Context(
            Folder::Home,
            vec![
                Action::File("*.xml".into(), None),
                Action::Execute("ls files".into(), None)
            ]
        ))
    )
}

#[test]
fn test_parse_actions() {
    let input = chars(
        r#"{ 
            file "*.xml"
            exec "ls files" 
        }"#,
    );

    let r = parse_actions(&input, 0).map(|found| found.0);
    assert_eq!(
        r,
        Ok(vec![
            Action::File("*.xml".into(), None),
            Action::Execute("ls files".into(), None)
        ])
    )
}

#[test]
fn test_parse_file() {
    let input = chars(r#"file "keyboard.xml""#);
    let r = command_file(&input, 0).map(|found| found.0);
    assert_eq!(r, Ok(Action::File("keyboard.xml".into(), None)))
}

#[test]
fn test_parse_file_with_dependencies() {
    let input = chars(r#"file "keyboard.xml" [exists -> dep1 , contains "plug" -> dep2 ]"#);

    let r = command_file(&input, 0).map(|found| found.0);
    assert_eq!(
        r,
        Ok(Action::File(
            "keyboard.xml".into(),
            Some(vec![
                DependencyCheck::Exists("dep1".into()),
                DependencyCheck::Contains("plug".into(), "dep2".into())
            ]),
        ))
    )
}

#[test]
fn test_parse_files() {
    let input = chars(r#"files "*.xml""#);
    let r = command_files(&input, 0).map(|found| found.0);
    assert_eq!(r, Ok(Action::Files("*.xml".into())))
}

#[test]
fn test_parse_execute() {
    let input = chars(r#"exec "ls home""#);
    let r = command_exec(&input, 0).map(|found| found.0);
    assert_eq!(r, Ok(Action::Execute("ls home".into(), None)))
}

#[test]
fn test_parse_execute_with_capture() {
    let input = chars(r#"exec "ls home" >> "output.txt""#);
    let r = command_exec(&input, 0).map(|found| found.0);
    assert_eq!(
        r,
        Ok(Action::Execute("ls home".into(), Some("output.txt".into())))
    )
}

#[test]
fn test_parse_app() {
    let input = chars(
        r#"
            app "webstorm" {
                home {
                    search ".WebStorm*" {
                        cd "config" {
                            cd "keymaps" {
                                files "*.xml"
                            }
                            cd "options" {
                                file "editor.xml"
                            }
                        }
                    }
                }
            }"#,
    );

    let r = parse_vacuum_file(&input, 0).map(|found| found.0);
    assert_eq!(
        r,
        Ok(App {
            name: "webstorm".into(),
            actions: vec![Action::Context(
                Folder::Home,
                vec![Action::Context(
                    Folder::Search(".WebStorm*".into()),
                    vec![Action::Context(
                        Folder::Custom("config".into()),
                        vec![
                            Action::Context(
                                Folder::Custom("keymaps".into()),
                                vec![Action::Files("*.xml".into())],
                            ),
                            Action::Context(
                                Folder::Custom("options".into()),
                                vec![Action::File("editor.xml".into(), None)],
                            ),
                        ],
                    )],
                )],
            )],
            dependencies: None
        })
    );
}

#[test]
fn test_parse_deps() {
    let input = chars(
        r#"
            app "some-app" {
                home {
                    file "some-app.config" [exists -> dep1, contains "content" -> dep2]
                }
            }
            
            dependencies {
                dep1 {
                    curl -L http://application.com
                }
                dep2 {
                    curl -L http://application2.com
                }
            }
            "#,
    );

    let r = parse_vacuum_file(&input, 0).map(|found| found.0);
    assert_eq!(
        r,
        Ok(App {
            name: "some-app".into(),
            actions: vec![Action::Context(
                Folder::Home,
                vec![Action::File(
                    "some-app.config".into(),
                    Some(vec![
                        DependencyCheck::Exists("dep1".into()),
                        DependencyCheck::Contains("content".into(), "dep2".into())
                    ]),
                )],
            )],
            dependencies: Some(vec![
                Dependency {
                    name: "dep1".into(),
                    block: r#"
                    curl -L http://application.com
                "#
                    .into(),
                },
                Dependency {
                    name: "dep2".into(),
                    block: r#"
                    curl -L http://application2.com
                "#
                    .into(),
                }
            ])
        })
    );
}
