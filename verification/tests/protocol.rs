use cce_browser::downloads::Downloads;
use cce_browser::pages::{Bookmarks, Favorites, History};
use cce_browser::protocol::{cookies_cleared_page, cookies_page, CceProtocol};

fn pages() -> CceProtocol {
    CceProtocol {
        history: History::load(""),
        bookmarks: Bookmarks::load(""),
        favorites: Favorites::load(""),
        downloads: Downloads::new(),
        clear_cookies: false,
    }
}

#[test]
fn every_page_is_served() {
    let mut p = pages();
    for page in ["history", "bookmarks", "favorites", "downloads", "cookies"] {
        let body = p.route(&format!("cce://{page}"), 1);
        assert!(body.is_some(), "{page}");
        assert_eq!(p.route(&format!("cce://{page}/"), 1), body);
    }
    assert!(p.route("cce://nowhere", 1).is_none());
}

#[test]
fn a_remove_link_removes_its_own_entry() {
    let mut p = pages();
    let odd = "https://example.com/?a=1&b=2 c+d";
    p.bookmarks.toggle(odd, "Odd", 1);
    p.bookmarks.toggle("https://other.example/", "Other", 2);
    let page = p.route("cce://bookmarks", 3).unwrap();
    let start = page.find("cce://bookmarks/remove?url=https%3A%2F%2Fexample.com").unwrap();
    let rest = &page[start..];
    let link = &rest[..rest.find('"').unwrap()];
    p.route(link, 4);
    assert!(!p.bookmarks.contains(odd));
    assert!(p.bookmarks.contains("https://other.example/"));
}

#[test]
fn clearing_links_clear() {
    let mut p = pages();
    p.history.record("https://a.example/", "A", 1);
    assert!(p.route("cce://history/clear", 2).unwrap().contains("No history yet."));
    assert!(p.history.log.entries.is_empty());
    assert!(!p.clear_cookies);
    assert_eq!(p.route("cce://cookies", 3).unwrap(), cookies_page());
    assert!(!p.clear_cookies, "the page asks first");
    assert_eq!(p.route("cce://cookies/clear", 4).unwrap(), cookies_cleared_page());
    assert!(p.clear_cookies);
}

#[test]
fn favorites_are_edited_by_links() {
    let mut p = pages();
    p.favorites.add("https://a.example/", "A", 1);
    p.favorites.add("https://b.example/", "B", 2);
    let pairs = |url: &str| vec![("url".to_string(), url.to_string())];
    p.route_pairs("favorites/up", &pairs("https://b.example/"), 3);
    let labels: Vec<String> = p.favorites.snapshot().iter().map(|f| f.label.clone()).collect();
    assert_eq!(labels, ["B", "A"]);
    // A slash at the end names the same page.
    p.route("cce://favorites/down?url=https%3A%2F%2Fb.example%2F", 3);
    p.route("cce://favorites/up/?url=https%3A%2F%2Fb.example%2F", 3);
    let labels: Vec<String> = p.favorites.snapshot().iter().map(|f| f.label.clone()).collect();
    assert_eq!(labels, ["B", "A"]);
    p.route_pairs("favorites/remove", &pairs("https://a.example/"), 4);
    assert_eq!(p.favorites.snapshot().len(), 1);
}
