use vacuum::command::{command_line, split_words};
use vacuum::context::Context;
use vacuum::error::VacuumError;
use vacuum::file_system_executor::{
    first_job, next_job, CopyJob, CopyStep, FileSystemExecutor, FilesStep, Launch, RunStep,
};
use vacuum::path::Location;
use vacuum::platform::Platform;
use vacuum::restore_context::RestoreContext;
use vacuum::store_context::StoreContext;

fn at(text: &str) -> Location {
    Location::from_text(text)
}

fn handler() -> FileSystemExecutor {
    FileSystemExecutor::new("x".to_string())
}

fn job(source: &str, target: &str) -> CopyJob {
    CopyJob { source: at(source), target: at(target) }
}

#[test]
fn handler_keeps_the_name_of_its_app() {
    assert_eq!(handler().name(), "x");
}

#[test]
fn file_is_copied_one_level_below_the_context() {
    let platform = Platform::from_texts(None, Some("/cfg".to_string()), None);
    let store = StoreContext::new(at("/bak/x")).config(&platform).unwrap().sub("x");
    let found = handler().handle_file(&store, "a.yml");
    assert_eq!(found, job("/cfg/x/a.yml", "/bak/x/config/x/a.yml"));
    // The file that is there: its directory is made, then it is copied.
    assert_eq!(found.start(true), CopyStep::MakeDirectory(at("/bak/x/config/x")));
    assert_eq!(
        found.made_directory(Ok(())),
        CopyStep::Copy { source: at("/cfg/x/a.yml"), target: at("/bak/x/config/x/a.yml") }
    );
    assert_eq!(CopyJob::copied(Ok(())), Ok(()));
}

#[test]
fn restore_copies_the_other_way() {
    let platform = Platform::from_texts(None, Some("/cfg".to_string()), None);
    let restore = RestoreContext::new(at("/bak/x")).config(&platform).unwrap().sub("x");
    let found = handler().handle_file(&restore, "a.yml");
    assert_eq!(found, job("/bak/x/config/x/a.yml", "/cfg/x/a.yml"));
    assert_eq!(found.start(true), CopyStep::MakeDirectory(at("/cfg/x")));
}

#[test]
fn missing_file_is_success_without_a_touch() {
    let found = job("/cfg/x/a.yml", "/bak/x/config/x/a.yml");
    assert_eq!(found.start(false), CopyStep::Finish(Ok(())));
    // Even where there would be no place to copy to.
    assert_eq!(job("a", "").start(false), CopyStep::Finish(Ok(())));
}

#[test]
fn target_without_parent_has_no_place() {
    assert_eq!(job("/a", "").start(true), CopyStep::NoParent);
    assert_eq!(job("/a", "/").start(true), CopyStep::NoParent);
    assert_eq!(job("/a", "").start_match(false), CopyStep::NoParent);
    assert_eq!(job("/a", "b").start(true), CopyStep::MakeDirectory(at("")));
}

#[test]
fn directory_that_cannot_be_made_is_an_io_error_and_nothing_is_copied() {
    let found = job("/s/a", "/t/a");
    assert_eq!(
        found.made_directory(Err("denied".to_string())),
        CopyStep::Finish(Err(VacuumError::IoError("denied".to_string())))
    );
    assert_eq!(found.made_directory(Ok(())), CopyStep::Copy { source: at("/s/a"), target: at("/t/a") });
}

#[test]
fn files_action_makes_its_copies_one_after_the_other() {
    assert_eq!(first_job(0), FilesStep::Finish(Ok(())));
    assert_eq!(first_job(3), FilesStep::Run(0));
    assert_eq!(next_job(3, 0, Ok(())), FilesStep::Run(1));
    assert_eq!(next_job(3, 1, Ok(())), FilesStep::Run(2));
    assert_eq!(next_job(3, 2, Ok(())), FilesStep::Finish(Ok(())));
    assert_eq!(next_job(1, 0, Ok(())), FilesStep::Finish(Ok(())));
}

#[test]
fn first_failed_copy_ends_the_files_action() {
    let failure = || VacuumError::IoError("disk full".to_string());
    assert_eq!(next_job(3, 0, Err(failure())), FilesStep::Finish(Err(failure())));
    assert_eq!(next_job(3, 1, Err(failure())), FilesStep::Finish(Err(failure())));
    assert_eq!(next_job(3, 2, Err(failure())), FilesStep::Finish(Err(failure())));
    // Driven with the second of three copies failing, the third is never asked for.
    let mut asked = vec![];
    let mut step = first_job(3);
    let outcome = loop {
        match step {
            FilesStep::Finish(outcome) => break outcome,
            FilesStep::Run(index) => {
                asked.push(index);
                step = next_job(3, index, if index == 1 { Err(failure()) } else { Ok(()) });
            }
        }
    };
    assert_eq!(asked, vec![0, 1]);
    assert_eq!(outcome, Err(failure()));
}

#[test]
fn failed_copy_is_an_io_error() {
    assert_eq!(CopyJob::copied(Err("disk full".to_string())), Err(VacuumError::IoError("disk full".to_string())));
}

#[test]
fn files_copies_matches_but_not_directories() {
    let store = StoreContext { source: at("/src"), target: at("/bak") }.sub("keymaps");
    assert_eq!(store.glob("*.xml"), "/src/keymaps/*.xml");
    let found = vec![at("/src/keymaps/k1.xml"), at("/src/keymaps/k2.xml"), at("/src/keymaps/sub")];
    let is_directory = [false, false, true];
    let jobs = handler().handle_files(&store, &found).unwrap();
    assert_eq!(
        jobs,
        vec![
            job("/src/keymaps/k1.xml", "/bak/keymaps/k1.xml"),
            job("/src/keymaps/k2.xml", "/bak/keymaps/k2.xml"),
            job("/src/keymaps/sub", "/bak/keymaps/sub"),
        ]
    );
    let steps: Vec<CopyStep> = jobs.iter().zip(is_directory).map(|(j, d)| j.start_match(d)).collect();
    assert_eq!(
        steps,
        vec![
            CopyStep::MakeDirectory(at("/bak/keymaps")),
            CopyStep::MakeDirectory(at("/bak/keymaps")),
            CopyStep::Finish(Ok(())),
        ]
    );
}

#[test]
fn files_mirrors_matches_in_subdirectories() {
    let store = StoreContext { source: at("/src"), target: at("/bak") };
    let jobs = handler().handle_files(&store, &vec![at("/src/a/b/c.txt")]).unwrap();
    assert_eq!(jobs, vec![job("/src/a/b/c.txt", "/bak/a/b/c.txt")]);
    assert_eq!(jobs[0].start_match(false), CopyStep::MakeDirectory(at("/bak/a/b")));
    assert_eq!(handler().handle_files(&store, &vec![]), Some(vec![]));
}

#[test]
fn files_refuses_matches_from_elsewhere() {
    let store = StoreContext { source: at("/src"), target: at("/bak") };
    assert_eq!(handler().handle_files(&store, &vec![at("/src/a"), at("/other/b")]), None);
    assert_eq!(handler().handle_files(&store, &vec![at("src/a")]), None);
}

#[test]
fn command_is_split_on_white_space() {
    assert_eq!(split_words("echo hi"), vec!["echo".to_string(), "hi".to_string()]);
    assert_eq!(
        split_words("  ls\t-la \n /tmp\u{a0}x\u{3000}"),
        vec!["ls".to_string(), "-la".to_string(), "/tmp".to_string(), "x".to_string()]
    );
    assert_eq!(split_words("echo \"a b\""), vec!["echo".to_string(), "\"a".to_string(), "b\"".to_string()]);
    assert_eq!(split_words(""), Vec::<String>::new());
    assert_eq!(split_words(" \t "), Vec::<String>::new());
    assert_eq!(split_words("one"), vec!["one".to_string()]);
}

#[test]
fn command_line_is_what_the_standard_library_splits() {
    for command in ["echo hi", "  a  b\tc\n", "", "x\u{b}y\u{c}z\u{85}w", "no-space", "é è\u{2003}ê"] {
        let expected: Vec<String> = command.split_whitespace().map(String::from).collect();
        assert_eq!(command_line(command, false), expected);
    }
}

#[test]
fn white_space_is_what_the_standard_library_takes_for_it() {
    let listed = |c: char| {
        let code = c as u32;
        (0x09..=0x0d).contains(&code)
            || [0x20, 0x85, 0xa0, 0x1680, 0x2028, 0x2029, 0x202f, 0x205f, 0x3000].contains(&code)
            || (0x2000..=0x200a).contains(&code)
    };
    let mut text = String::new();
    for c in (0..=0x10ffff_u32).filter_map(char::from_u32) {
        assert_eq!(c.is_whitespace(), listed(c), "on {:?}", c);
        text.clear();
        text.push('a');
        text.push(c);
        text.push('b');
        if listed(c) {
            assert_eq!(split_words(&text), vec!["a".to_string(), "b".to_string()], "on {:?}", c);
        } else if code_is_sampled(c) {
            assert_eq!(split_words(&text), vec![text.clone()], "on {:?}", c);
        }
    }
}

fn code_is_sampled(c: char) -> bool {
    (c as u32) < 0x3100 || (c as u32) % 997 == 0
}

#[test]
fn command_line_goes_through_the_shell_on_windows() {
    assert_eq!(
        command_line("echo hi", true),
        vec!["cmd".to_string(), "/c".to_string(), "echo".to_string(), "hi".to_string()]
    );
    assert_eq!(command_line("", true), vec!["cmd".to_string(), "/c".to_string()]);
}

#[test]
fn execute_launches_the_first_word() {
    assert_eq!(
        handler().handle_execute("echo hi there", false),
        Some(Launch { program: "echo".to_string(), arguments: vec!["hi".to_string(), "there".to_string()] })
    );
    assert_eq!(
        handler().handle_execute("ls", false),
        Some(Launch { program: "ls".to_string(), arguments: vec![] })
    );
    assert_eq!(
        handler().handle_execute("dir", true),
        Some(Launch { program: "cmd".to_string(), arguments: vec!["/c".to_string(), "dir".to_string()] })
    );
    assert_eq!(handler().handle_execute("   ", false), None);
    assert_eq!(handler().handle_execute("", false), None);
    assert_eq!(
        handler().handle_execute("", true),
        Some(Launch { program: "cmd".to_string(), arguments: vec!["/c".to_string()] })
    );
}

#[test]
fn output_is_kept_only_after_status_zero() {
    let store = StoreContext { source: at("/src"), target: at("/bak/x") };
    let capture = Some("out.txt".to_string());
    assert_eq!(handler().ran(&store, &capture, Ok(true)), RunStep::Write(at("/bak/x/out.txt")));
    assert_eq!(handler().ran(&store, &capture, Ok(false)), RunStep::Finish(Ok(())));
    assert_eq!(handler().ran(&store, &None, Ok(true)), RunStep::Finish(Ok(())));
    assert_eq!(handler().ran(&store, &None, Ok(false)), RunStep::Finish(Ok(())));
}

#[test]
fn command_that_cannot_start_is_a_process_error() {
    let store = StoreContext { source: at("/src"), target: at("/bak/x") };
    assert_eq!(
        handler().ran(&store, &Some("out.txt".to_string()), Err("not found".to_string())),
        RunStep::Finish(Err(VacuumError::ProcessError("not found".to_string())))
    );
}

#[test]
fn output_that_cannot_be_written_is_an_io_error() {
    assert_eq!(handler().wrote(Ok(())), Ok(()));
    assert_eq!(handler().wrote(Err("denied".to_string())), Err(VacuumError::IoError("denied".to_string())));
}
