use cce_browser::browser::scene::{bm_scene, ctx_lit, list_rows, modal_fields};
use cce_browser::browser::state::BrowserApp;
use cce_browser::downloads::Downloads;
use cce_browser::menus::{AcMenu, BmHit, BmMenu, CtxMenu};
use cce_browser::modal::Modal;
use cce_browser::pages::{Bookmarks, Favorite, Favorites, History};
use cce_browser::protocol::CceProtocol;
use cce_browser::settings::Settings;
use cce_browser::wpe::formwatch::Place;
use cce_browser::wpe::host::{ContextMenuInfo, PendingAuth};
use cce_browser::accounts::Account;

fn app() -> BrowserApp {
    let pages = CceProtocol {
        history: History::load(""),
        bookmarks: Bookmarks::load(""),
        favorites: Favorites::load("1\thttps://f.example/\tFav\n"),
        downloads: Downloads::new(),
        clear_cookies: false,
    };
    let text = "0\thttps://a.example/\n1\thttps://b.example/\n";
    BrowserApp::new(Settings::default(), true, text, None, None, pages).unwrap()
}

#[test]
fn the_strips_say_what_is_open_and_saved() {
    let mut app = app();
    app.host.notify(0, Some("First".to_string()), None, false);
    app.host.pump(&mut app.pages.history, 1);
    let tabs = app.tab_pills();
    assert_eq!(tabs.len(), 2);
    assert_eq!((tabs[0].label.as_str(), tabs[0].lit, tabs[0].loading), ("First", false, false));
    assert_eq!((tabs[1].label.as_str(), tabs[1].lit), ("https://b.example/", true));
    app.fav_hover = Some(0);
    let favorites = app.favorite_pills();
    assert_eq!((favorites[0].label.as_str(), favorites[0].lit), ("Fav", true));
    assert_eq!(app.window_title(), "Browser");
    app.title = Some("T".to_string());
    assert_eq!(app.window_title(), "T");
}

#[test]
fn the_bar_lights_what_is_on() {
    let mut app = app();
    assert!(!app.starred() && !app.dot_lit());
    assert_eq!(app.caret(), None);
    app.toggle_bookmark(1);
    app.open_chrome();
    assert!(app.starred() && app.dot_lit());
    app.focus_bar();
    assert_eq!(app.caret(), Some(18));
    assert!(app.bookmarks_scene(3).is_none());
    app.open_bm_menu();
    assert_eq!(app.bookmarks_scene(3).unwrap().toggle, "Remove Bookmark");
}

#[test]
fn the_bookmarks_menu_says_what_it_does() {
    let items = (0..4)
        .map(|i| Favorite { url: format!("u{i}"), label: format!("l{i}") })
        .collect::<Vec<_>>();
    let mut m = BmMenu { items, scroll: 1, hover: Some(BmHit::Entry(2, true)) };
    let s = bm_scene(&m, 2, false, true);
    assert_eq!((s.toggle, s.toggle_live, s.toggle_lit), ("Bookmark This Page", true, false));
    let rows: Vec<(usize, &str, bool, bool)> =
        s.rows.iter().map(|r| (r.index, r.label.as_str(), r.hovered, r.on_remove)).collect();
    assert_eq!(rows, [(1, "l1", false, false), (2, "l2", true, true)]);
    assert_eq!(s.thumb, Some((1, 2, 4)));
    assert_eq!(s.manage, "Manage Bookmarks (4)");
    assert!(!s.empty && !s.manage_lit);
    m.hover = Some(BmHit::Toggle);
    assert!(!bm_scene(&m, 9, false, false).toggle_lit, "a row that does nothing is not lit");
    let empty = BmMenu { items: vec![], scroll: 0, hover: Some(BmHit::Manage) };
    let s = bm_scene(&empty, 2, true, false);
    assert!(s.empty && s.rows.is_empty() && s.manage_lit);
    assert_eq!(s.thumb, None);
}

#[test]
fn fields_hint_until_something_is_typed() {
    let mut m = Modal::for_auth(PendingAuth {
        host: "h".to_string(),
        realm: String::new(),
        retry: false,
    });
    let f = modal_fields(&m);
    assert_eq!((f[0].text.as_str(), f[0].hint, f[0].focused), ("Username", true, true));
    assert_eq!((f[1].text.as_str(), f[1].hint, f[1].focused), ("Password", true, false));
    m.fields[1].edit.text = "abc".to_string();
    let f = modal_fields(&m);
    assert_eq!((f[1].text.as_str(), f[1].hint), ("•••", false));
}

#[test]
fn the_account_list_marks_what_is_picked() {
    let mut m = AcMenu {
        all: (0..8)
            .map(|i| Account {
                path: String::new(),
                label: "Site".to_string(),
                username: format!("user{i}"),
                url: String::new(),
            })
            .collect(),
        shown: Vec::new(),
        selected: 0,
        scroll: 0,
        anchor: Place { x: 0, y: 0, width: 0, height: 0 },
        host: String::new(),
        insecure: false,
        hover: Some(3),
    };
    m.refilter("");
    m.step(-1);
    let rows = list_rows(&m);
    let picked: Vec<(&str, bool)> = rows.iter().map(|r| (r.first.as_str(), r.picked)).collect();
    assert_eq!(
        picked,
        [
            ("user2", false),
            ("user3", true),
            ("user4", false),
            ("user5", false),
            ("user6", false),
            ("user7", true),
        ]
    );
}

#[test]
fn only_live_items_are_lit() {
    let info = ContextMenuInfo {
        link: None,
        image_uri: None,
        is_selection: false,
        is_editable: false,
        can_go_back: false,
        can_go_forward: true,
    };
    let menu = CtxMenu::build(&info, false, false);
    assert_eq!(ctx_lit(&menu, Some(0)), [false, false, false, false, false]);
    assert_eq!(ctx_lit(&menu, Some(1)), [false, true, false, false, false]);
    assert_eq!(ctx_lit(&menu, None), [false; 5]);
}
