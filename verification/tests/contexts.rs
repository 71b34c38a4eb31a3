use vacuum::context::{glob_pattern, Context};
use vacuum::deps_context::TargetDirectoryContext;
use vacuum::path::Location;
use vacuum::platform::Platform;
use vacuum::restore_context::RestoreContext;
use vacuum::store_context::StoreContext;

fn at(text: &str) -> Location {
    Location::from_text(text)
}

fn platform() -> Platform {
    Platform::from_texts(
        Some("/home/u".to_string()),
        Some("/cfg".to_string()),
        Some("/home/u/.local/share".to_string()),
    )
}

fn bare() -> Platform {
    Platform::from_texts(None, None, None)
}

fn pair(context: &(Location, Location)) -> (String, String) {
    (context.0.to_text(), context.1.to_text())
}

#[test]
fn store_starts_with_nowhere_to_read() {
    let store = StoreContext::new(at("/bak/x"));
    assert_eq!(pair(&store.current()), ("".to_string(), "/bak/x".to_string()));
    assert_eq!(store.source, Location::new());
    assert_eq!(store.target, at("/bak/x"));
}

#[test]
fn restore_starts_with_nowhere_to_write() {
    let restore = RestoreContext::new(at("/bak/x"));
    assert_eq!(pair(&restore.current()), ("/bak/x".to_string(), "".to_string()));
}

#[test]
fn scan_starts_in_the_backup_tree() {
    let scan = TargetDirectoryContext::new(at("/bak/x"));
    assert_eq!(scan.current(), at("/bak/x"));
}

#[test]
fn store_enters_well_known_directories() {
    let store = StoreContext::new(at("/bak/x"));
    let p = platform();
    assert_eq!(pair(&store.home(&p).unwrap().current()), ("/home/u".to_string(), "/bak/x/home".to_string()));
    assert_eq!(pair(&store.config(&p).unwrap().current()), ("/cfg".to_string(), "/bak/x/config".to_string()));
    assert_eq!(
        pair(&store.local(&p).unwrap().current()),
        ("/home/u/.local/share".to_string(), "/bak/x/local".to_string())
    );
    // The source that was current is left behind.
    let deeper = store.sub("somewhere").home(&p).unwrap();
    assert_eq!(pair(&deeper.current()), ("/home/u".to_string(), "/bak/x/somewhere/home".to_string()));
}

#[test]
fn restore_enters_well_known_directories() {
    let restore = RestoreContext::new(at("/bak/x"));
    let p = platform();
    assert_eq!(pair(&restore.home(&p).unwrap().current()), ("/bak/x/home".to_string(), "/home/u".to_string()));
    assert_eq!(pair(&restore.config(&p).unwrap().current()), ("/bak/x/config".to_string(), "/cfg".to_string()));
    assert_eq!(
        pair(&restore.local(&p).unwrap().current()),
        ("/bak/x/local".to_string(), "/home/u/.local/share".to_string())
    );
}

#[test]
fn scan_enters_well_known_directories_inside_the_backup_tree() {
    let scan = TargetDirectoryContext::new(at("/bak/x"));
    assert_eq!(scan.home(&bare()).unwrap().current(), at("/bak/x/home"));
    assert_eq!(scan.config(&bare()).unwrap().current(), at("/bak/x/config"));
    assert_eq!(scan.local(&platform()).unwrap().current(), at("/bak/x/local"));
}

#[test]
fn unknown_directories_give_no_context() {
    let store = StoreContext::new(at("/bak/x"));
    let restore = RestoreContext::new(at("/bak/x"));
    assert_eq!(store.home(&bare()), None);
    assert_eq!(store.config(&bare()), None);
    assert_eq!(store.local(&bare()), None);
    assert_eq!(restore.home(&bare()), None);
    assert_eq!(restore.config(&bare()), None);
    assert_eq!(restore.local(&bare()), None);
    let partly = Platform::from_texts(Some("/h".to_string()), None, None);
    assert!(store.home(&partly).is_some());
    assert_eq!(store.config(&partly), None);
}

#[test]
fn sub_descends_on_both_sides() {
    let store = StoreContext::new(at("/bak/x")).config(&platform()).unwrap();
    let deeper = store.sub("x");
    assert_eq!(pair(&deeper.current()), ("/cfg/x".to_string(), "/bak/x/config/x".to_string()));
    // The old context is as it was.
    assert_eq!(pair(&store.current()), ("/cfg".to_string(), "/bak/x/config".to_string()));
    let scan = TargetDirectoryContext::new(at("/bak")).sub("a/b");
    assert_eq!(scan.current(), at("/bak/a/b"));
}

#[test]
fn glob_is_matched_on_the_source_side() {
    let store = StoreContext::new(at("/bak/x")).home(&platform()).unwrap();
    assert_eq!(store.glob(".WebStorm*"), "/home/u/.WebStorm*");
    let restore = RestoreContext::new(at("/bak/x")).home(&platform()).unwrap();
    assert_eq!(restore.glob(".WebStorm*"), "/bak/x/home/.WebStorm*");
    let scan = TargetDirectoryContext::new(at("/bak/x"));
    assert_eq!(scan.glob("*.xml"), "/bak/x/*.xml");
    assert_eq!(glob_pattern(&at(""), "*"), "/*");
    assert_eq!(glob_pattern(&at("/"), "*"), "//*");
    assert_eq!(glob_pattern(&at("rel/dir"), "a/*.b"), "rel/dir/a/*.b");
}

#[test]
fn search_keeps_the_relative_path_of_each_match() {
    let store = StoreContext { source: at("/s"), target: at("/t") };
    let children = store.search(&vec![at("/s/foo/bar"), at("/s/baz"), at("/s")]);
    assert_eq!(children.len(), 3);
    assert_eq!(pair(&children[0].current()), ("/s/foo/bar".to_string(), "/t/foo/bar".to_string()));
    assert_eq!(pair(&children[1].current()), ("/s/baz".to_string(), "/t/baz".to_string()));
    assert_eq!(pair(&children[2].current()), ("/s".to_string(), "/t".to_string()));
}

#[test]
fn covered_tells_whether_every_match_lies_below_the_source() {
    let store = StoreContext { source: at("/s"), target: at("/t") };
    assert!(store.covered(&vec![at("/s/foo/bar"), at("/s")]));
    assert!(store.covered(&vec![]));
    assert!(!store.covered(&vec![at("/s/foo"), at("/t/foo")]));
    let restore = RestoreContext { source: at("/s"), target: at("/t") };
    assert!(!restore.covered(&vec![at("/t/foo")]));
    assert!(restore.covered(&vec![at("/s/foo")]));
    let scan = TargetDirectoryContext::new(at("/s"));
    assert!(scan.covered(&vec![at("/s/x")]));
    assert!(!scan.covered(&vec![at("s/x")]));
    let nowhere = StoreContext::new(at("/bak"));
    assert!(nowhere.covered(&vec![at("/anything"), at("relative")]));
}

#[test]
fn search_without_matches_gives_no_children() {
    let store = StoreContext { source: at("/s"), target: at("/t") };
    assert_eq!(store.search(&vec![]), vec![]);
    let scan = TargetDirectoryContext::new(at("/s"));
    assert_eq!(scan.search(&vec![]), vec![]);
}

#[test]
fn scan_search_stands_at_each_match() {
    let scan = TargetDirectoryContext::new(at("/bak/x/home"));
    let children = scan.search(&vec![at("/bak/x/home/.WebStorm2019"), at("/bak/x/home/.WebStorm2020/")]);
    assert_eq!(children.len(), 2);
    assert_eq!(children[0].current(), at("/bak/x/home/.WebStorm2019"));
    assert_eq!(children[1].current(), at("/bak/x/home/.WebStorm2020"));
}

#[test]
fn store_and_restore_mirror_each_other() {
    let p = platform();
    let store = StoreContext::new(at("/bak/x")).home(&p).unwrap().sub("dir");
    let restore = RestoreContext::new(at("/bak/x")).home(&p).unwrap().sub("dir");
    let (read, written) = store.current();
    let (read_back, written_back) = restore.current();
    assert_eq!(read, written_back);
    assert_eq!(written, read_back);

    let stored = store.search(&vec![at("/home/u/dir/.App1/conf")]);
    let restored = restore.search(&vec![at("/bak/x/home/dir/.App1/conf")]);
    let (read, written) = stored[0].current();
    let (read_back, written_back) = restored[0].current();
    assert_eq!(written.to_text(), "/bak/x/home/dir/.App1/conf");
    assert_eq!(read, written_back);
    assert_eq!(written, read_back);
}

#[test]
fn duplicate_is_equal() {
    let store = StoreContext { source: at("/s"), target: at("/t") };
    assert_eq!(store.duplicate(), store);
    let restore = RestoreContext { source: at("/s"), target: at("/t") };
    assert_eq!(restore.duplicate(), restore);
    let scan = TargetDirectoryContext::new(at("/s"));
    assert_eq!(scan.duplicate(), scan);
    assert_eq!(platform().duplicate(), platform());
}
