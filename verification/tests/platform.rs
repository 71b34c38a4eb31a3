use vacuum::path::Location;
use vacuum::platform::Platform;

fn named(path: Option<std::path::PathBuf>) -> Option<Location> {
    path.and_then(|p| p.to_str().map(Location::from_text))
}

#[test]
fn platform_from_texts_names_each_directory() {
    let platform = Platform::from_texts(Some("/home/u/".to_string()), None, Some("rel//dir".to_string()));
    assert_eq!(platform.home, Some(Location::from_text("/home/u")));
    assert_eq!(platform.config, None);
    assert_eq!(platform.local.map(|l| l.to_text()), Some("rel/dir".to_string()));
}

#[test]
fn detected_platform_is_what_the_platform_tells() {
    let platform = Platform::detect();
    assert_eq!(platform.home, named(dirs::home_dir()));
    assert_eq!(platform.config, named(dirs::config_dir()));
    assert_eq!(platform.local, named(dirs::data_local_dir()));
}
