use cce_browser::accounts::{
    account_from, entry_host, keyring_unlisted, keyring_unreachable, normalize_host, read_items,
    registrable_label, skip_collection, Account, Accounts, KeyringItem,
    Request, Secret,
};
use cce_browser::message::Message;

fn account(label: &str, url: &str) -> Account {
    Account {
        path: format!("/{}", label),
        label: label.to_string(),
        username: "me".to_string(),
        url: url.to_string(),
    }
}

#[test]
fn a_stored_url_matches_its_own_host_and_its_subdomains() {
    let a = account("Example", "https://example.com/login?next=/");
    assert!(a.matches("example.com"));
    assert!(a.matches("www.example.com"), "www is not a different site");
    assert!(a.matches("login.example.com"), "a parent domain covers its subdomains");
    assert!(!a.matches("example.com.evil.test"), "suffix games are not matches");
    assert!(!a.matches("notexample.com"));
    assert!(!a.matches("example.org"));
}

#[test]
fn a_subdomain_entry_does_not_leak_upward() {
    let a = account("Mail", "https://mail.example.com/");
    assert!(a.matches("mail.example.com"));
    assert!(!a.matches("example.com"), "the parent is a different site");
    assert!(!a.matches("chat.example.com"), "so is a sibling");
}

#[test]
fn a_bare_host_is_a_url_too() {
    assert_eq!(entry_host("example.com"), Some("example.com".to_string()));
    assert_eq!(entry_host("https://WWW.Example.COM/x"), Some("example.com".to_string()));
    assert_eq!(entry_host("  "), None);
    assert_eq!(entry_host("not a url at all"), None);
}

#[test]
fn an_entry_without_a_url_falls_back_to_its_title() {
    let a = account("GitHub", "");
    assert!(a.matches("github.com"));
    assert!(a.matches("gist.github.com"), "the site name is the same one");
    assert!(!a.matches("github.evil.test"));
    assert!(!a.matches("gitlab.com"));

    // The fallback is only for entries with nothing else to go on.
    let titled = account("GitHub", "https://example.com/");
    assert!(!titled.matches("github.com"), "a stored URL wins over the title");
}

#[test]
fn country_code_domains_still_find_their_name() {
    assert_eq!(registrable_label("bbc.co.uk").as_deref(), Some("bbc"));
    assert_eq!(registrable_label("www.example.com").as_deref(), Some("example"));
    assert_eq!(registrable_label("localhost"), None);
}

#[test]
fn a_password_never_prints_itself() {
    let s = Secret::new("hunter2".to_string());
    assert_eq!(s.debug_text(), "Secret(…)");
    assert_eq!(
        Message::Credential("/p".into(), s.copy()).debug_text(),
        "Credential(\"/p\", Secret(…))"
    );
    assert_eq!(s.expose(), "hunter2");
}

#[test]
fn messages_print_what_they_carry() {
    assert_eq!(Message::Spin.debug_text(), "Spin");
    assert_eq!(Message::Quit.debug_text(), "Quit");
    assert_eq!(Message::Accounts(Err("locked".into())).debug_text(), "Accounts(Err(\"locked\"))");
    assert_eq!(Message::Accounts(Ok(Vec::new())).debug_text(), "Accounts(Ok(…))");
    assert_eq!(Message::OpenExternal(None).debug_text(), "OpenExternal(None)");
    assert_eq!(
        Message::OpenExternal(Some("a.example".into())).debug_text(),
        "OpenExternal(Some(\"a.example\"))"
    );
}

#[test]
fn hosts_are_normalized() {
    assert_eq!(normalize_host("WWW.Example.COM"), "example.com");
    assert_eq!(normalize_host("mail.example.com"), "mail.example.com");
    assert_eq!(normalize_host("ÄRGER.example"), "ärger.example");
}

#[test]
fn the_best_matches_come_first() {
    let mut accounts = Accounts::new();
    accounts.loaded(Ok(vec![
        account("example", ""),
        account("zeta", "https://example.com/"),
        account("Alpha", "example.com"),
        account("other", "https://example.org/"),
    ]));
    let labels: Vec<String> =
        accounts.matching("login.example.com").iter().map(|a| a.label.clone()).collect();
    assert_eq!(labels, ["Alpha", "zeta", "example"]);
    assert!(accounts.matching("nowhere.test").is_empty());
}

#[test]
fn equal_titles_keep_their_order() {
    let mut accounts = Accounts::new();
    let mut first = account("Same", "https://example.com/");
    first.path = "/1".to_string();
    let mut second = account("same", "https://example.com/");
    second.path = "/2".to_string();
    accounts.loaded(Ok(vec![first, second]));
    let paths: Vec<String> =
        accounts.matching("example.com").iter().map(|a| a.path.clone()).collect();
    assert_eq!(paths, ["/1", "/2"]);
}

#[test]
fn the_index_is_read_once() {
    let mut accounts = Accounts::new();
    assert!(matches!(accounts.ensure_loaded(), Some(Request::Load)));
    assert!(accounts.is_loading());
    assert!(accounts.ensure_loaded().is_none());
    accounts.loaded(Err("no keyring".to_string()));
    assert!(!accounts.is_loading());
    assert_eq!(accounts.error.as_deref(), Some("no keyring"));
    assert!(accounts.ensure_loaded().is_none(), "a failed load is not tried on every focus");
    accounts.loaded(Ok(vec![account("A", "a.example")]));
    assert_eq!(accounts.error, None);
    assert_eq!(accounts.all.len(), 1);
}

#[test]
fn one_password_is_fetched_by_its_handle() {
    let accounts = Accounts::new();
    assert!(matches!(accounts.fetch("/org/x"), Request::Fetch(p) if p == "/org/x"));
}

#[test]
fn a_collection_is_read_unless_it_says_it_is_locked() {
    assert!(!skip_collection(Some(false)));
    assert!(skip_collection(Some(true)));
}

#[test]
fn entries_take_their_fields_from_attributes() {
    let attrs = vec![
        ("UserName".to_string(), "me".to_string()),
        ("URL".to_string(), "https://example.com".to_string()),
    ];
    let a = account_from("/p".to_string(), "Title".to_string(), &attrs).unwrap();
    assert_eq!(a.path, "/p");
    assert_eq!(a.label, "Title");
    assert_eq!(a.username, "me");
    assert_eq!(a.url, "https://example.com");
}

#[test]
fn entries_that_say_nothing_are_no_accounts() {
    assert!(account_from("/p".to_string(), "T".to_string(), &vec![]).is_none());
    let blank = vec![
        ("UserName".to_string(), "  ".to_string()),
        ("user".to_string(), "fallback".to_string()),
    ];
    let a = account_from("/p".to_string(), "T".to_string(), &blank).unwrap();
    assert_eq!(a.username, "fallback");
    assert_eq!(a.url, "");
    assert!(skip_collection(None), "what cannot be asked is left alone");
}

#[test]
fn the_keyrings_entries_become_accounts() {
    let item = |path: &str, attrs: Option<Vec<(String, String)>>| KeyringItem {
        path: path.to_string(),
        label: None,
        attributes: attrs,
    };
    let user = |n: &str| Some(vec![("username".to_string(), n.to_string())]);
    let found = vec![
        item("/1", user("ann")),
        item("/2", None),
        item("/3", Some(vec![])),
        item("/4", user("bob")),
    ];
    let accounts = read_items(&found);
    let paths: Vec<&str> = accounts.iter().map(|a| a.path.as_str()).collect();
    assert_eq!(paths, ["/1", "/4"]);
    assert_eq!(accounts[1].username, "bob");
    assert_eq!(accounts[1].label, "");
    assert_eq!(keyring_unreachable("down"), "no secret service: down");
    assert_eq!(keyring_unlisted("x"), "listing collections failed: x");
}
