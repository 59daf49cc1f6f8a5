use cce_browser::address::{
    choose_url, insecure_origin, outside_command, page_named, parse_startup_arg, parse_url_input,
    split_words,
};
use cce_browser::weburl::Url;

const SEARCH: &str = "https://duckduckgo.com/?q=";

#[test]
fn startup_arg_resolves_an_existing_path_to_a_file_url() {
    let page = "/tmp/cce-browser-argv-test/page.html";

    let u = parse_startup_arg(page, Some(page), SEARCH).unwrap();
    assert_eq!(u.scheme(), "file");
    assert!(u.path().ends_with("page.html"), "got {}", u.as_str());

    // The bar parser is what this guards against: a dotted, space-free
    // path takes its bare-host branch and becomes a bogus https URL.
    let bar = parse_url_input(page, SEARCH).unwrap();
    assert_eq!(bar.scheme(), "https");
}

#[test]
fn only_loopback_escapes_the_insecure_warning() {
    assert!(!insecure_origin("https://example.com", "example.com"));
    assert!(insecure_origin("http://example.com", "example.com"));
    assert!(!insecure_origin("http://localhost:8731", "localhost"));
    assert!(!insecure_origin("http://127.0.0.1:8080", "127.0.0.1"));
    assert!(!insecure_origin("http://dev.localhost", "dev.localhost"));
    // A file: page has no transport to secure, and no origin worth the
    // name; say so rather than stay quiet.
    assert!(insecure_origin("null", ""));
}

#[test]
fn a_loopback_number_counts_in_either_spelling() {
    let own = Url::parse("http://[::1]:8731/").unwrap();
    assert_eq!(own.host_str(), Some("[::1]"));
    assert!(!insecure_origin("http://[::1]:8731", "[::1]"));
    assert!(!insecure_origin("http://[::1]:8731", "::1"));
    assert!(insecure_origin("http://[::2]:8731", "[::2]"));
}

#[test]
fn startup_arg_still_takes_urls_and_searches() {
    let u = parse_startup_arg("https://example.com/x", None, SEARCH).unwrap();
    assert_eq!(u.as_str(), "https://example.com/x");

    // A bare host that is not a path still guesses https.
    assert_eq!(parse_startup_arg("example.com", None, SEARCH).unwrap().scheme(), "https");

    // A non-existent path is not a file: it falls through to the bar rules.
    let missing = parse_startup_arg("/nonexistent/nope.html", None, SEARCH).unwrap();
    assert_ne!(missing.scheme(), "file");
}

#[test]
fn what_is_typed_is_an_address_a_host_or_a_search() {
    let bar = |s: &str| parse_url_input(s, SEARCH).map(|u| u.as_str().to_string());
    assert_eq!(bar("https://example.com"), Some("https://example.com/".to_string()));
    assert_eq!(bar("  example.com/a  "), Some("https://example.com/a".to_string()));
    assert_eq!(
        bar("rust ownership & borrowing"),
        Some("https://duckduckgo.com/?q=rust+ownership+%26+borrowing".to_string())
    );
    assert_eq!(bar("word"), Some("https://duckduckgo.com/?q=word".to_string()));
    assert_eq!(bar(""), None);
    assert_eq!(bar("   "), None);
}

#[test]
fn pages_go_by_their_names() {
    assert_eq!(page_named("About:History"), Some("cce://history"));
    assert_eq!(page_named("about:bookmarks"), Some("cce://bookmarks"));
    assert_eq!(page_named("about:favorites"), Some("cce://favorites"));
    assert_eq!(page_named("about:downloads"), Some("cce://downloads"));
    assert_eq!(page_named("about:cookies"), Some("cce://cookies"));
    assert_eq!(page_named("about:blank"), None);
    assert_eq!(parse_url_input(" about:COOKIES ", SEARCH).unwrap().as_str(), "cce://cookies");
}

#[test]
fn the_first_reading_that_loads_is_chosen() {
    let u = |s: &str| Url::parse(s);
    let pick = choose_url("example.com", None, u("https://example.com"), u("https://s.example/?q=x"));
    assert_eq!(pick.unwrap().as_str(), "https://example.com/");
    let search = choose_url("two words", None, None, u("https://s.example/?q=x"));
    assert_eq!(search.unwrap().as_str(), "https://s.example/?q=x");
}

#[test]
fn searches_are_escaped_as_forms_are() {
    let q = |s: &str| parse_url_input(s, SEARCH).unwrap().as_str().to_string();
    assert_eq!(q("a b&c=d/é"), "https://duckduckgo.com/?q=a+b%26c%3Dd%2F%C3%A9");
    assert_eq!(q("AZaz09*-_ x"), "https://duckduckgo.com/?q=AZaz09*-_+x");
}

#[test]
fn only_some_schemes_are_loaded_as_they_stand() {
    let q = |s: &str| parse_url_input(s, SEARCH).unwrap().as_str().to_string();
    assert_eq!(q("file:///tmp/x"), "file:///tmp/x");
    assert_eq!(q("data:text/plain,hi"), "data:text/plain,hi");
    assert_eq!(q("mailto:me"), "https://duckduckgo.com/?q=mailto%3Ame");
    assert_eq!(q("localhost:8080"), "https://duckduckgo.com/?q=localhost%3A8080");
}

#[test]
fn commands_are_split_at_white_space() {
    assert_eq!(split_words("  firefox --new-tab\tx \n"), ["firefox", "--new-tab", "x"]);
    assert!(split_words(" \u{2003} ").is_empty());
}

#[test]
fn another_browser_is_never_this_one() {
    let set = Some("firefox --private".to_string());
    assert_eq!(
        outside_command(&set, "cce-browser.desktop\n"),
        Some(vec!["firefox".to_string(), "--private".to_string()])
    );
    assert_eq!(outside_command(&None, " cce-browser.desktop\n"), None);
    assert_eq!(outside_command(&None, "firefox.desktop\n"), Some(vec!["xdg-open".to_string()]));
    assert_eq!(outside_command(&None, ""), Some(vec!["xdg-open".to_string()]));
    assert_eq!(outside_command(&Some("  ".to_string()), ""), None);
}

#[test]
fn urls_are_taken_apart() {
    let u = Url::parse("https://User@WWW.Example.com:8443/a/b.html?q=1#f").unwrap();
    assert_eq!(u.as_str(), "https://User@www.example.com:8443/a/b.html?q=1#f");
    assert_eq!(u.scheme(), "https");
    assert_eq!(u.host_str(), Some("www.example.com"));
    assert_eq!(u.path(), "/a/b.html");
    assert_eq!(u.last_segment().as_deref(), Some("b.html"));
    assert_eq!(u.copy().as_str(), u.as_str());
    let blank = Url::parse("about:blank").unwrap();
    assert_eq!(blank.host_str(), None);
    assert_eq!(blank.path(), "blank");
    assert_eq!(blank.last_segment(), None);
    assert!(Url::parse("not a url").is_none());
    assert!(Url::parse("").is_none());
}

#[test]
fn files_have_addresses_by_their_absolute_path() {
    let u = Url::from_file_path("/home/me/a b.html").unwrap();
    assert_eq!(u.as_str(), "file:///home/me/a%20b.html");
    assert_eq!(u.scheme(), "file");
    assert_eq!(u.host_str(), None);
    assert!(Url::from_file_path("relative.html").is_none());
}
