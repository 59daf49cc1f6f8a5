use cce_browser::session::{gather_tabs, Session};
use cce_browser::weburl::Url;

fn texts(tabs: &[Url]) -> Vec<String> {
    tabs.iter().map(|u| u.as_str().to_string()).collect()
}

#[test]
fn round_trips_tabs_and_active_index() {
    let s = Session::new();
    let text = s
        .save(&vec![
            ("https://example.com/".to_string(), false),
            ("https://example.org/".to_string(), true),
        ])
        .unwrap();

    let mut fresh = Session::new();
    let (tabs, active) = fresh.load(&text);
    assert_eq!(texts(&tabs), ["https://example.com/", "https://example.org/"]);
    assert_eq!(active, 1);
}

#[test]
fn empty_save_clears_and_loads_as_nothing() {
    let mut s = Session::new();
    let full = s.save(&vec![("https://example.com/".to_string(), true)]).unwrap();
    s.written(full);
    let text = s.save(&vec![]).unwrap();

    let (tabs, active) = Session::new().load(&text);
    assert!(tabs.is_empty());
    assert_eq!(active, 0);
}

#[test]
fn missing_file_and_junk_lines_load_as_fewer_tabs() {
    let mut s = Session::new();
    assert!(s.load("").0.is_empty());

    let (tabs, active) =
        Session::new().load("no-tab-here\n1\tnot a url\n0\thttps://example.com/\n");
    assert_eq!(tabs.len(), 1);
    assert_eq!(active, 0);
}

#[test]
fn the_file_is_a_line_for_each_tab() {
    let s = Session::new();
    let text = s.save(&vec![("a:b".to_string(), true), ("c:d".to_string(), false)]).unwrap();
    assert_eq!(text, "1\ta:b\n0\tc:d\n");
}

#[test]
fn what_was_written_is_not_written_again() {
    let mut s = Session::new();
    let tabs = vec![("https://example.com/".to_string(), true)];
    let text = s.save(&tabs).unwrap();
    assert!(s.save(&tabs).is_some(), "a write that failed is tried again");
    s.written(text.clone());
    assert_eq!(s.save(&tabs), None);
    let mut read = Session::new();
    read.load(&text);
    assert_eq!(read.save(&tabs), None);
}

#[test]
fn the_marked_tab_is_found_among_those_that_parse() {
    let u = |s: &str| Url::parse(s);
    let found = vec![
        (false, u("https://a.example/")),
        (false, None),
        (true, u("https://b.example/")),
    ];
    let (tabs, active) = gather_tabs(&found);
    assert_eq!(texts(&tabs), ["https://a.example/", "https://b.example/"]);
    assert_eq!(active, 1);
}
