use cce_browser::paths::is_same_place;
use cce_browser::settings::{
    load, same_opt, search_prefix, BarPosition, ColorScheme, Config, Settings, DEFAULT_HOMEPAGE,
};

#[test]
fn nothing_said_is_the_standard() {
    let s = load(&Config::default(), "/home/me");
    assert!(s.says_same(&Settings::default()));
    assert_eq!(s.homepage, DEFAULT_HOMEPAGE);
    assert_eq!(s.search_prefix, search_prefix("duckduckgo"));
    assert_eq!(s.download_dir, None);
    assert!(s.history);
    assert_eq!(s.bar_position, BarPosition::Top);
    assert_eq!(s.color_scheme, ColorScheme::Dark);
    assert_eq!(s.external_browser, None);
}

#[test]
fn what_is_said_is_taken() {
    let c = Config {
        homepage: Some("  https://example.com ".to_string()),
        search: Some("google".to_string()),
        download_dir: Some("~/dl".to_string()),
        history: Some(false),
        bar_position: Some("bottom".to_string()),
        color_scheme: Some("light".to_string()),
        external_browser: Some(" firefox ".to_string()),
    };
    let s = load(&c, "/home/me");
    assert_eq!(s.homepage, "https://example.com");
    assert_eq!(s.search_prefix, "https://www.google.com/search?q=");
    assert_eq!(s.download_dir.as_deref(), Some("/home/me/dl"));
    assert!(!s.history);
    assert_eq!(s.bar_position, BarPosition::Bottom);
    assert_eq!(s.color_scheme, ColorScheme::Light);
    assert_eq!(s.external_browser.as_deref(), Some("firefox"));
    assert!(!s.says_same(&Settings::default()));
    assert!(s.says_same(&s.clone()));
}

#[test]
fn unknown_keys_are_the_standard_ones() {
    assert_eq!(search_prefix("bing"), "https://www.bing.com/search?q=");
    assert_eq!(
        search_prefix("wikipedia"),
        "https://en.wikipedia.org/wiki/Special:Search?search="
    );
    assert_eq!(search_prefix("altavista"), "https://duckduckgo.com/html/?q=");
    assert_eq!(BarPosition::from_key("sideways"), BarPosition::Top);
    assert_eq!(ColorScheme::from_key("sepia"), ColorScheme::Dark);
    assert!(!ColorScheme::Light.is_dark());
    assert!(ColorScheme::Dark.is_dark());
    assert!(!ColorScheme::Dark.forces_dark());
    assert!(ColorScheme::ForceDark.forces_dark());
    assert_eq!(load(&Config { homepage: Some("   ".into()), ..Config::default() }, "/h").homepage, DEFAULT_HOMEPAGE);
}

#[test]
fn directories_are_compared_part_by_part() {
    let same = |a: &str, b: &str| is_same_place(&Some(a.to_string()), &Some(b.to_string()));
    for other in ["/a/b/", "/a//b", "/a/./b", "/a/b/.", "//a/b", "/./a/b"] {
        assert!(same("/a/b", other), "{other}");
        assert_eq!(std::path::Path::new("/a/b"), std::path::Path::new(other));
    }
    for (a, b) in [("/a", "a"), ("/a", "/b"), ("./a", "a"), ("/a/..", "/"), (".a", "a"), ("/a", "")] {
        assert!(!same(a, b), "{a} {b}");
        assert_ne!(std::path::Path::new(a), std::path::Path::new(b));
    }
    assert!(same(".", "./") && same("./.", ".") && !same(".", ""));
    assert!(!is_same_place(&Some("/a".to_string()), &None) && is_same_place(&None, &None));
}

#[test]
fn optional_texts_are_compared() {
    let a = Some("x".to_string());
    assert!(same_opt(&a, &a.clone()));
    assert!(!same_opt(&a, &None));
    assert!(!same_opt(&a, &Some("y".to_string())));
    assert!(same_opt(&None, &None));
}
