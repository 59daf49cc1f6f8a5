use cce_browser::html::html_escape;
use cce_browser::pages::{default_label, is_internal, label_with, Bookmarks, Favorites, History};
use cce_browser::store::{read_tsv, sanitize, write_tsv};
use cce_browser::weburl::Url;

fn store() -> Favorites {
    Favorites::load("")
}

fn labels(f: &Favorites) -> Vec<String> {
    f.snapshot().iter().map(|x| x.label.clone()).collect()
}

#[test]
fn labels_fall_back_to_host_then_file_name() {
    assert_eq!(default_label("https://www.example.com/a", "Example"), "Example");
    assert_eq!(default_label("https://www.example.com/a", "  "), "example.com");
    assert_eq!(default_label("file:///home/me/page.html", ""), "page.html");
    assert_eq!(default_label("about:blank", ""), "about:blank");
}

#[test]
fn strip_order_is_insertion_order_and_shifts_move_one_place() {
    let mut f = store();
    f.add("https://a.example/", "A", 1);
    f.add("https://b.example/", "B", 2);
    f.add("https://c.example/", "C", 3);
    f.add("https://b.example/", "again", 4); // already there: no duplicate
    assert_eq!(labels(&f), ["A", "B", "C"]);
    f.shift("https://c.example/", -1);
    assert_eq!(labels(&f), ["A", "C", "B"]);
    f.shift("https://a.example/", -1); // already first: stays
    assert_eq!(labels(&f), ["A", "C", "B"]);
    f.rename("https://c.example/", "Sea");
    assert_eq!(labels(&f), ["A", "Sea", "B"]);
    assert!(!f.toggle("https://a.example/", "A", 5));
    assert!(f.toggle("https://d.example/", "D", 6));
    assert_eq!(labels(&f), ["Sea", "B", "D"]);

    // Round-trips through the file.
    let change = f.log.change.take();
    assert!(change.replace);
    let back = Favorites::load(&change.text);
    let pairs = |f: &Favorites| -> Vec<(String, String)> {
        f.snapshot().iter().map(|x| (x.url.clone(), x.label.clone())).collect()
    };
    assert_eq!(pairs(&back), pairs(&f));
}

#[test]
fn internal_pages_are_refused() {
    let mut f = store();
    f.add("cce://history", "History", 1);
    f.add("about:blank", "", 2);
    assert!(f.snapshot().is_empty());
}

#[test]
fn internal_addresses_are_known() {
    assert!(is_internal("cce://history"));
    assert!(is_internal("cce:x"));
    assert!(is_internal("about:blank"));
    assert!(!is_internal("about:config"));
    assert!(!is_internal("https://example.com/"));
}

#[test]
fn a_page_that_does_not_parse_is_labelled_by_its_address() {
    assert_eq!(label_with("weird", "", &None), "weird");
    let u = Url::parse("https://www.example.com/");
    assert_eq!(label_with("https://www.example.com/", "", &u), "example.com");
}

#[test]
fn shifting_there_and_back_restores_the_strip() {
    let mut f = store();
    for (i, u) in ["https://a.example/", "https://b.example/", "https://c.example/"].iter().enumerate() {
        f.add(u, "", i as u64);
    }
    let before = labels(&f);
    f.shift("https://a.example/", 1);
    assert_ne!(labels(&f), before);
    f.shift("https://a.example/", -1);
    assert_eq!(labels(&f), before);
    f.shift("https://c.example/", 1);
    f.shift("https://nowhere.example/", 1);
    f.shift("https://b.example/", isize::MAX);
    f.shift("https://b.example/", isize::MIN);
    assert_eq!(labels(&f), before);
}

#[test]
fn history_skips_internal_pages_and_reloads() {
    let mut h = History::load("");
    h.record("https://a.example/", "A", 10);
    h.record("https://a.example/", "A again", 11);
    h.record("cce://history", "History", 12);
    h.record("about:blank", "", 13);
    h.record("https://b.example/", "B\tb", 14);
    h.record("https://a.example/", "A", 15);
    let urls: Vec<&str> = h.log.entries.iter().map(|e| e.url.as_str()).collect();
    assert_eq!(urls, ["https://a.example/", "https://b.example/", "https://a.example/"]);
    let change = h.log.change.take();
    assert!(!change.replace);
    assert_eq!(
        change.text,
        "10\thttps://a.example/\tA\n14\thttps://b.example/\tB b\n15\thttps://a.example/\tA\n"
    );
    let back = History::load(&change.text);
    assert_eq!(back.log.entries.len(), 3);
    assert_eq!(back.html(), h.html());
    h.clear();
    let emptied = h.log.change.take();
    assert!(emptied.replace);
    assert_eq!(emptied.text, "");
    assert!(h.html().contains("No history yet."));
}

#[test]
fn the_newest_visit_is_shown_first() {
    let mut h = History::load("");
    h.record("https://old.example/", "Old", 1);
    h.record("https://new.example/", "<New>", 2);
    let page = h.html();
    let new = page.find("&lt;New&gt;").unwrap();
    let old = page.find("Old").unwrap();
    assert!(new < old);
    assert!(!page.contains("<New>"));
}

#[test]
fn the_star_pressed_twice_leaves_no_trace() {
    let mut b = Bookmarks::load("");
    assert!(b.toggle("https://a.example/", "A", 1));
    assert!(b.contains("https://a.example/"));
    assert_eq!(b.title_of("https://a.example/").as_deref(), Some("A"));
    assert!(!b.toggle("https://a.example/", "A", 2));
    assert!(!b.contains("https://a.example/"));
    assert_eq!(b.title_of("https://a.example/"), None);
    assert!(b.log.entries.is_empty());
    let refused = b.toggle("cce://history", "History", 3);
    assert!(!refused || !b.contains("cce://history"));
}

#[test]
fn the_newest_bookmark_is_listed_first() {
    let mut b = Bookmarks::load("");
    b.toggle("https://a.example/", "A", 1);
    b.toggle("https://b.example/", "", 2);
    let listed: Vec<String> = b.snapshot().iter().map(|x| x.url.clone()).collect();
    assert_eq!(listed, ["https://b.example/", "https://a.example/"]);
    let page = b.html(&store());
    assert!(page.contains("https://b.example/"));
    b.remove("https://b.example/");
    assert_eq!(b.snapshot().len(), 1);
}

#[test]
fn logs_read_back_what_was_written() {
    let text = "1\thttps://a.example/\tA\nnonsense\nx\tu\tt\n2\thttps://b.example/\tB\twith tab\n";
    let entries = read_tsv(text);
    assert_eq!(entries.len(), 2);
    assert_eq!((entries[1].ts, entries[1].title.as_str()), (2, "B\twith tab"));
    let again = read_tsv(&write_tsv(&entries));
    assert_eq!(again.len(), 2);
    assert_eq!(again[0].url, "https://a.example/");
    assert_eq!(sanitize("a\tb\nc\rd"), "a b c d");
}

#[test]
fn markup_is_inert() {
    assert_eq!(html_escape("<a href=\"x\">&</a>"), "&lt;a href=&quot;x&quot;&gt;&amp;&lt;/a&gt;");
    assert_eq!(html_escape("&lt;"), "&amp;lt;");
    assert_eq!(html_escape("plain"), "plain");
}

#[test]
fn an_emptied_label_falls_back() {
    let mut f = store();
    f.add("https://www.example.com/x", "Title", 1);
    f.relabel("https://www.example.com/x", "Shown");
    assert_eq!(labels(&f), ["Shown"]);
    f.rename("https://www.example.com/x", "   ");
    assert_eq!(labels(&f), ["example.com"]);
    assert!(f.html().contains("example.com"));
    assert!(f.contains("https://www.example.com/x"));
    f.remove("https://www.example.com/x");
    assert!(!f.contains("https://www.example.com/x"));
}
