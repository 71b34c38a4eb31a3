use vacuum::path::Location;

fn at(text: &str) -> Location {
    Location::from_text(text)
}

#[test]
fn text_is_normalized() {
    assert_eq!(at("/a//b/./c/").to_text(), "/a/b/c");
    assert_eq!(at("a/b").to_text(), "a/b");
    assert_eq!(at("./a/./b/.").to_text(), "a/b");
    assert_eq!(at("").to_text(), "");
    assert_eq!(at("/").to_text(), "/");
    assert_eq!(at("///").to_text(), "/");
    assert_eq!(at(".").to_text(), "");
    assert_eq!(at("../a/..").to_text(), "../a/..");
    assert_eq!(at(".hidden/..x/.").to_text(), ".hidden/..x");
    assert_eq!(at("/home/ü ser/file name.txt").to_text(), "/home/ü ser/file name.txt");
}

#[test]
fn equal_locations_have_equal_components() {
    assert_eq!(at("/a/b"), at("//a/./b/"));
    assert_ne!(at("/a/b"), at("a/b"));
    assert_ne!(at("a/b"), at("a/b/c"));
    assert_eq!(Location::new(), at(""));
    assert_eq!(at("a").duplicate(), at("a"));
}

#[test]
fn absolute_or_relative() {
    assert!(at("/a").is_absolute());
    assert!(at("/").is_absolute());
    assert!(!at("a/b").is_absolute());
    assert!(!at("").is_absolute());
    assert!(!Location::new().is_absolute());
}

#[test]
fn join_extends_or_replaces() {
    assert_eq!(at("/a").join(&at("b/c")).to_text(), "/a/b/c");
    assert_eq!(at("a").join(&at("")).to_text(), "a");
    assert_eq!(at("").join(&at("b")).to_text(), "b");
    assert_eq!(at("/a/b").join(&at("/c")).to_text(), "/c");
    assert_eq!(at("a/b").join(&at("/")).to_text(), "/");
    assert_eq!(at("/").join(&at("x")).to_text(), "/x");
}

#[test]
fn sub_takes_a_name_apart() {
    assert_eq!(at("/bak/x").sub("config").to_text(), "/bak/x/config");
    assert_eq!(at("/bak/x").sub("a/b//c").to_text(), "/bak/x/a/b/c");
    assert_eq!(at("/bak/x").sub("/etc").to_text(), "/etc");
    assert_eq!(at("/bak/x").sub("").to_text(), "/bak/x");
    assert_eq!(at("").sub("a.yml").to_text(), "a.yml");
}

#[test]
fn strip_prefix_gives_what_is_left_below() {
    assert_eq!(at("/s/foo/bar").strip_prefix(&at("/s")), Some(at("foo/bar")));
    assert_eq!(at("/s/foo").strip_prefix(&at("/s/foo")), Some(at("")));
    assert_eq!(at("s/foo").strip_prefix(&at("s")), Some(at("foo")));
    assert_eq!(at("/s/foo").strip_prefix(&at("")), Some(at("/s/foo")));
    assert_eq!(at("s/foo").strip_prefix(&at("")), Some(at("s/foo")));
    assert_eq!(at("/s/foo").strip_prefix(&at("/t")), None);
    assert_eq!(at("/s/foo").strip_prefix(&at("s")), None);
    assert_eq!(at("s/foo").strip_prefix(&at("/s")), None);
    assert_eq!(at("/s").strip_prefix(&at("/s/foo")), None);
    assert_eq!(at("/sfoo/x").strip_prefix(&at("/s")), None);
    assert_eq!(at("/").strip_prefix(&at("/")), Some(at("")));
}

#[test]
fn is_under_agrees_with_strip_prefix() {
    for (path, base) in [
        ("/s/foo/bar", "/s"),
        ("/s/foo", "/t"),
        ("s/foo", ""),
        ("/s/foo", ""),
        ("/s/foo", "s"),
        ("s", "/s"),
        ("", ""),
        ("a/b", "a/b/c"),
    ] {
        assert_eq!(at(path).is_under(&at(base)), at(path).strip_prefix(&at(base)).is_some());
    }
}

#[test]
fn parent_drops_the_last_component() {
    assert_eq!(at("/bak/x/config/x/a.yml").parent(), Some(at("/bak/x/config/x")));
    assert_eq!(at("/a").parent(), Some(at("/")));
    assert_eq!(at("a").parent(), Some(at("")));
    assert_eq!(at("a/..").parent(), Some(at("a")));
    assert_eq!(at("/").parent(), None);
    assert_eq!(at("").parent(), None);
}

#[test]
fn joining_what_was_stripped_gives_the_path_back() {
    for (path, base) in [("/s/foo/bar", "/s"), ("s/foo", "s"), ("/s/foo", ""), ("x", "x")] {
        let rest = at(path).strip_prefix(&at(base)).unwrap();
        assert_eq!(at(base).join(&rest), at(path));
    }
}
