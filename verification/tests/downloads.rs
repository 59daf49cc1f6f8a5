use cce_browser::downloads::{
    candidate_name, download_dir, filename_for, is_download_url, percent_decode, set_download_dir,
    DownloadDir, Downloads, State, Update,
};
use cce_browser::sizes::human_size;
use cce_browser::transfers::{begin, ended, free_name, Transfer};
use cce_browser::weburl::Url;

/// The argv case: a release-artifact URL must be recognized before it is ever handed to the engine.
#[test]
fn download_urls_are_recognized_by_extension() {
    for u in [
        "https://example.com/rel/app-1.2.3.tar.gz",
        "http://127.0.0.1:8740/big.bin",
        "https://example.com/Installer.EXE",
        "https://example.com/x.zip?token=abc",
    ] {
        assert!(is_download_url(&Url::parse(u).unwrap()), "should download: {u}");
    }
}

#[test]
fn ordinary_pages_and_non_http_schemes_are_not_downloads() {
    for u in [
        "https://www.cloudflare.com/",
        "https://example.com/page.html",
        "https://example.com/binary", // no extension: navigates
        "cce://downloads",
        "file:///home/me/x.zip", // only http(s) is fetched here
    ] {
        assert!(!is_download_url(&Url::parse(u).unwrap()), "should not download: {u}");
    }
}

#[test]
fn names_come_from_the_last_segment() {
    let name = |u: &str| filename_for(&Url::parse(u).unwrap());
    assert_eq!(name("https://example.com/a/b%20c.zip?x=1"), "b c.zip");
    assert_eq!(name("https://example.com/%C3%A9t%C3%A9.pdf"), "été.pdf");
    assert!(!name("https://example.com/").is_empty());
    assert!(!name("https://example.com/..%2F..%2Fetc").contains('/'));
}

#[test]
fn percent_signs_are_decoded() {
    assert_eq!(percent_decode("a%20b"), "a b");
    assert_eq!(percent_decode("%C3%A9"), "é");
    assert_eq!(percent_decode("100%"), "100%");
    assert_eq!(percent_decode("%zz%4"), "%zz%4");
    // Not a text.
    assert_eq!(percent_decode("a%FFb"), "a%FFb");
}

#[test]
fn path_hostile_names_are_left_alone() {
    assert_eq!(percent_decode("a%2Fb"), "a%2Fb");
    assert_eq!(percent_decode("a%00b%20c"), "a%00b%20c");
    let name = |u: &str| filename_for(&Url::parse(u).unwrap());
    assert_eq!(name("https://example.com/..%2F..%2Fetc"), "..%2F..%2Fetc");
    assert_eq!(name("https://example.com/a%20b%00.zip"), "a%20b%00.zip");
}

#[test]
fn taken_names_are_numbered() {
    let first = candidate_name("app.tar.gz", 0);
    let second = candidate_name("app.tar.gz", 1);
    let third = candidate_name("app.tar.gz", 2);
    assert_eq!(first, "app.tar.gz");
    assert_ne!(second, first);
    assert_ne!(third, second);
    assert!(second.ends_with(".gz"));
    assert_ne!(candidate_name("README", 1), "README");
}

#[test]
fn sizes_read_as_people_write_them() {
    assert_eq!(human_size(0), "0 B");
    assert_eq!(human_size(1023), "1023 B");
    assert_eq!(human_size(1024), "1.0 KB");
    assert_eq!(human_size(1536), "1.5 KB");
    assert_eq!(human_size(5 * 1024 * 1024), "5.0 MB");
}

/// The same text as dividing and printing with one decimal gives.
#[test]
fn sizes_round_as_decimals_do() {
    let by_division = |b: u64| -> String {
        let units = ["B", "KB", "MB", "GB", "TB"];
        let mut value = b as f64;
        let mut unit = 0;
        while value >= 1024.0 && unit < 4 {
            value /= 1024.0;
            unit += 1;
        }
        if unit == 0 {
            format!("{b} B")
        } else {
            format!("{value:.1} {}", units[unit])
        }
    };
    let mut n: u64 = 1;
    for _ in 0..4000 {
        assert_eq!(human_size(n), by_division(n), "{n}");
        n = n.wrapping_mul(6364136223846793005).wrapping_add(1442695040888963407) >> (n % 40);
    }
    for n in [1075, 1076, 1127, 1128, 1178, 1179, 1047552, 1048524, 1048525, 1048575, 1048576] {
        assert_eq!(human_size(n), by_division(n), "{n}");
    }
}

#[test]
fn the_directory_is_chosen_or_found() {
    let mut place = DownloadDir::default();
    assert_eq!(download_dir(&place, "/home/me", None), "/home/me/Downloads");
    let dirs = "XDG_DESKTOP_DIR=\"$HOME/Desktop\"\nXDG_DOWNLOAD_DIR=\"$HOME/Saved\"\n";
    assert_eq!(download_dir(&place, "/home/me", Some(dirs)), "/home/me/Saved");
    set_download_dir(&mut place, Some("/data".to_string()));
    assert_eq!(download_dir(&place, "/home/me", Some(dirs)), "/data");
    set_download_dir(&mut place, None);
    assert_eq!(download_dir(&place, "/home/me", None), "/home/me/Downloads");
}

#[test]
fn updates_reach_their_own_download() {
    let mut list = Downloads::new();
    let url = Url::parse("https://example.com/a.zip").unwrap();
    let a = list.start(&url, "a.zip".to_string(), "/d/a.zip".to_string(), 100);
    let b = list.adopt(
        "https://example.com/b.zip".to_string(),
        "b.zip".to_string(),
        "/d/b.zip".to_string(),
        Some(2048),
        101,
    );
    assert_ne!(a, b);
    list.with_item(a, Update::Total(Some(1024)));
    list.with_item(a, Update::Received(512));
    list.with_item(b, Update::Failed("no space".to_string()));
    list.with_item(999, Update::Done);
    let find = |list: &Downloads, id: u64| list.items.iter().find(|d| d.id == id).cloned();
    let one = find(&list, a).unwrap();
    assert_eq!((one.total, one.received), (Some(1024), 512));
    assert!(matches!(one.state, State::Active));
    let other = find(&list, b).unwrap();
    assert_eq!(other.total, Some(2048));
    assert!(matches!(other.state, State::Failed(e) if e == "no space"));
    let page = list.html();
    assert!(page.contains("a.zip"));
    assert!(page.contains("no space"));
    list.clear_finished();
    assert!(find(&list, a).is_some());
    assert!(find(&list, b).is_none());
    list.with_item(b, Update::Done);
    assert_eq!(list.items.len(), 1);
    list.with_item(a, Update::Done);
    list.clear_finished();
    assert!(list.items.is_empty());
    assert!(list.html().contains("No downloads"));
}

#[test]
fn a_download_never_overwrites_a_file() {
    let taken = |names: &[&str]| names.iter().map(|s| s.to_string()).collect::<Vec<_>>();
    assert_eq!(free_name("a.zip", &taken(&[])), "a.zip");
    assert_eq!(free_name("a.zip", &taken(&["a.zip"])), "a.1.zip");
    assert_eq!(free_name("a.tar.gz", &taken(&["a.tar.gz", "a.tar.1.gz"])), "a.tar.2.gz");
    assert_eq!(free_name("README", &taken(&["README", "README.2"])), "README.1");
    assert_eq!(free_name(".bashrc", &taken(&[".bashrc"])), ".bashrc.1");
}

#[test]
fn a_download_begins_under_a_free_name() {
    let mut list = Downloads::new();
    let url = Url::parse("https://example.com/x/a%20b.zip").unwrap();
    let (id, path) = begin(&mut list, &url, "/d", &vec!["a b.zip".to_string()], 7);
    assert_eq!(path, "/d/a b.1.zip");
    let d = &list.items[0];
    assert_eq!((d.id, d.filename.as_str(), d.path.as_str()), (id, "a b.1.zip", path.as_str()));
    assert_eq!((d.ts, d.received, d.total), (7, 0, None));
    list.with_item(id, ended(Err("HTTP 404".to_string())));
    assert!(matches!(&list.items[0].state, State::Failed(e) if e == "HTTP 404"));
    list.with_item(id, ended(Ok(())));
    assert!(matches!(list.items[0].state, State::Done));
}

#[test]
fn the_engines_downloads_are_listed_once_they_have_a_place() {
    let mut list = Downloads::new();
    let mut t = Transfer::new();
    t.received(&mut list, 5);
    t.finished(&mut list);
    t.failed(&mut list, None);
    assert!(list.items.is_empty());
    let path = t.decide(
        &mut list,
        Some("https://example.com/f".to_string()),
        Some("f.pdf".to_string()),
        "/d",
        &vec![],
        0,
        1,
    );
    assert_eq!(path, "/d/f.pdf");
    assert_eq!(list.items[0].total, None);
    t.received(&mut list, 5);
    assert_eq!(list.items[0].received, 5);
    t.failed(&mut list, None);
    assert!(matches!(&list.items[0].state, State::Failed(e) if e == "download failed"));
    t.finished(&mut list);
    assert!(matches!(list.items[0].state, State::Done));
    let mut other = Transfer::new();
    assert_eq!(other.decide(&mut list, None, None, "/d", &vec![], 9, 2), "/d/download");
    assert_eq!(list.items[1].total, Some(9));
}
