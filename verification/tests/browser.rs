use cce_browser::accounts::{Account, Request, Secret};
use cce_browser::action::Action;
use cce_browser::browser::keys::{chord, list_key, page_key, Chord, ListKey, PageKey};
use cce_browser::browser::pointer::Hits;
use cce_browser::browser::state::BrowserApp;
use cce_browser::downloads::{DownloadDir, Downloads};
use cce_browser::input::{ElementState, Key, KeyEvent, MouseButton, NamedKey};
use cce_browser::menus::BmHit;
use cce_browser::message::{EditingCommand, Message};
use cce_browser::pages::{Bookmarks, Favorites, History};
use cce_browser::protocol::CceProtocol;
use cce_browser::session::Session;
use cce_browser::settings::{ColorScheme, Settings};
use cce_browser::weburl::Url;
use cce_browser::wpe::formwatch::{FormEvent, Place};
use cce_browser::wpe::host::{ContextMenuInfo, PendingAuth, PendingDialog};

fn pages() -> CceProtocol {
    CceProtocol {
        history: History::load(""),
        bookmarks: Bookmarks::load(""),
        favorites: Favorites::load(""),
        downloads: Downloads::new(),
        clear_cookies: false,
    }
}

/// A browser on two tabs, the first one shown, with nothing left to be done.
fn app() -> BrowserApp {
    let text = "1\thttps://a.example/\n0\thttps://b.example/\n";
    let mut app = BrowserApp::new(Settings::default(), true, text, None, None, pages()).unwrap();
    app.host.outbox.clear();
    app.rebuild = false;
    app
}

fn urls(app: &BrowserApp) -> Vec<String> {
    app.host
        .tabs
        .iter()
        .map(|t| t.url.as_ref().map_or(String::new(), |u| u.as_str().to_string()))
        .collect()
}

fn event(key: Key, ctrl: bool, shift: bool) -> KeyEvent {
    let text = match &key {
        Key::Character(c) if !ctrl => Some(c.clone()),
        _ => None,
    };
    KeyEvent {
        state: ElementState::Pressed,
        logical_key: key,
        text,
        repeat: false,
        ctrl,
        shift,
        alt: false,
    }
}

fn ch(c: &str) -> KeyEvent {
    event(Key::Character(c.to_string()), false, false)
}

fn ctrl(c: &str) -> KeyEvent {
    event(Key::Character(c.to_string()), true, false)
}

fn ctrl_shift(c: &str) -> KeyEvent {
    event(Key::Character(c.to_string()), true, true)
}

fn named(n: NamedKey) -> KeyEvent {
    event(Key::Named(n), false, false)
}

fn press(app: &mut BrowserApp, e: &KeyEvent) -> Option<Message> {
    app.handle_key_input(e, None, 100)
}

fn nowhere() -> Hits {
    Hits {
        accept: false,
        cancel: false,
        prompt_field: None,
        item: None,
        account: None,
        account_plate: false,
        bookmark: None,
        bookmark_plate: false,
        bookmark_rows: 5,
        dot: false,
        chrome: false,
        tab: None,
        favorite: None,
        plus: false,
        back: false,
        forward: false,
        reload: false,
        star: false,
        bookmarks: false,
        url: false,
        caret: 0,
    }
}

fn on_bar() -> Hits {
    Hits { chrome: true, ..nowhere() }
}

fn click(app: &mut BrowserApp, button: MouseButton, hits: &Hits) -> Option<Message> {
    app.handle_mouse_input(button, ElementState::Pressed, hits, 100)
}

fn left(app: &mut BrowserApp, hits: &Hits) -> Option<Message> {
    click(app, MouseButton::Left, hits)
}

fn saved(app: &BrowserApp) -> Option<String> {
    app.host.outbox.iter().rev().find_map(|a| match a {
        Action::SaveSession(t) => Some(t.clone()),
        _ => None,
    })
}

// -- Starting ---------------------------------------------------------------------------------

#[test]
fn saved_tabs_come_back_with_the_saved_one_shown() {
    let app = app();
    assert_eq!(urls(&app), ["https://a.example/", "https://b.example/"]);
    assert_eq!(app.host.active_index(), 0);
    assert_eq!(app.url.text, "https://a.example/");
    assert!(app.loading);
    assert!(!app.chrome_open);
}

#[test]
fn an_argument_is_an_extra_tab_on_top_of_saved_ones() {
    let text = "1\thttps://a.example/\n";
    let app =
        BrowserApp::new(Settings::default(), true, text, Some("b.example"), None, pages()).unwrap();
    assert_eq!(urls(&app), ["https://a.example/", "https://b.example/"]);
    assert_eq!(app.host.active_index(), 1);
}

#[test]
fn a_fresh_launch_is_on_the_argument_or_the_homepage() {
    let start = |arg: Option<&str>, existing: Option<&str>| {
        urls(&BrowserApp::new(Settings::default(), true, "", arg, existing, pages()).unwrap())
    };
    assert_eq!(start(None, None), ["https://servo.org/"]);
    assert_eq!(start(Some("https://x.example/"), None), ["https://x.example/"]);
    assert_eq!(start(Some("page.html"), Some("/home/me/page.html")), ["file:///home/me/page.html"]);
    let mut odd = Settings::default();
    odd.homepage = "   ".to_string();
    let app = BrowserApp::new(odd, true, "", None, None, pages()).unwrap();
    assert_eq!(urls(&app), ["https://servo.org/"], "a blank homepage is the standard one");
}

#[test]
fn there_is_no_start_without_a_page() {
    let none = BrowserApp::start(
        Settings::default(),
        true,
        Session::new(),
        &vec![],
        0,
        None,
        None,
        pages(),
    );
    assert!(none.is_none());
}

#[test]
fn the_settings_reach_the_engine_at_the_start() {
    let mut s = Settings::default();
    s.color_scheme = ColorScheme::ForceDark;
    s.history = false;
    let app = BrowserApp::new(s, false, "", None, None, pages()).unwrap();
    assert!(!app.host.history_enabled);
    assert!(app.host.force_dark);
    assert!(app.host.outbox.iter().any(|a| matches!(a, Action::InvertPages(true))));
    assert!(matches!(app.host.outbox.last(), Some(Action::WatchForms(false))));
}

// -- Keys -------------------------------------------------------------------------------------

#[test]
fn chords_are_told_apart() {
    assert_eq!(chord(&ctrl("t"), false), Some(Chord::NewTab));
    assert_eq!(chord(&ctrl("w"), false), Some(Chord::CloseTab));
    assert_eq!(chord(&ctrl("d"), false), Some(Chord::ToggleBookmark));
    assert_eq!(chord(&ctrl_shift("D"), false), Some(Chord::ToggleFavorite));
    assert_eq!(chord(&ctrl("b"), false), Some(Chord::Bookmarks));
    assert_eq!(chord(&ctrl_shift("b"), false), Some(Chord::Favorites));
    assert_eq!(chord(&ctrl("h"), false), Some(Chord::History));
    assert_eq!(chord(&ctrl("j"), false), Some(Chord::Downloads));
    assert_eq!(chord(&ctrl_shift("O"), false), Some(Chord::OpenOutside));
    assert_eq!(chord(&ctrl("o"), false), None);
    assert_eq!(chord(&ch("t"), false), None);
    let tab = |shift: bool| event(Key::Named(NamedKey::Tab), true, shift);
    assert_eq!(chord(&tab(false), true), Some(Chord::NextTab));
    assert_eq!(chord(&tab(true), true), Some(Chord::PreviousTab));
    assert_eq!(chord(&tab(false), false), None);
    let delete = event(Key::Named(NamedKey::Delete), true, true);
    assert_eq!(chord(&delete, false), Some(Chord::Cookies));
    let mut up = ctrl("t");
    up.state = ElementState::Released;
    assert_eq!(chord(&up, false), None);
}

#[test]
fn page_keys_are_told_apart() {
    assert_eq!(page_key(&ctrl("c"), false), PageKey::Edit(EditingCommand::Copy));
    assert_eq!(page_key(&ctrl("x"), false), PageKey::Edit(EditingCommand::Cut));
    assert_eq!(page_key(&ctrl("v"), false), PageKey::Edit(EditingCommand::Paste));
    assert_eq!(page_key(&ctrl("l"), false), PageKey::FocusBar);
    assert_eq!(page_key(&ctrl("r"), false), PageKey::Reload);
    assert_eq!(page_key(&named(NamedKey::F5), false), PageKey::Reload);
    assert_eq!(page_key(&named(NamedKey::Escape), true), PageKey::FoldBar);
    assert_eq!(page_key(&named(NamedKey::Escape), false), PageKey::Forward);
    assert_eq!(page_key(&ch("c"), false), PageKey::Forward);
    assert_eq!(list_key(&named(NamedKey::Enter)), Some(ListKey::Pick));
    assert_eq!(list_key(&ch("x")), None);
}

#[test]
fn tabs_are_opened_closed_and_switched_by_chords() {
    let mut app = app();
    assert!(press(&mut app, &ctrl("t")).is_none());
    assert_eq!(app.host.tab_count(), 3);
    assert!(app.url_focused && app.chrome_open);
    assert_eq!(app.url.text, "");
    assert_eq!(saved(&app).unwrap(), "0\thttps://a.example/\n0\thttps://b.example/\n");
    press(&mut app, &event(Key::Named(NamedKey::Tab), true, false));
    assert_eq!(app.host.active_index(), 0);
    assert!(!app.url_focused);
    press(&mut app, &event(Key::Named(NamedKey::Tab), true, true));
    assert_eq!(app.host.active_index(), 2);
    assert!(press(&mut app, &ctrl("w")).is_none());
    assert!(press(&mut app, &ctrl("w")).is_none());
    assert!(matches!(press(&mut app, &ctrl("w")), Some(Message::Quit)));
    assert_eq!(saved(&app).unwrap(), "", "nothing comes back of what was closed");
}

#[test]
fn what_is_typed_is_loaded_on_enter() {
    let mut app = app();
    press(&mut app, &ctrl("l"));
    assert!(app.url_focused && app.chrome_open);
    for c in ["x", ".", "e", "x", "a", "m", "p", "l", "e"] {
        press(&mut app, &ch(c));
    }
    assert_eq!(app.url.text, "x.example");
    assert!(app.host.outbox.is_empty(), "no key reaches the page");
    press(&mut app, &named(NamedKey::Enter));
    assert!(matches!(&app.host.outbox[0], Action::Load(0, u) if u == "https://x.example/"));
    assert!(!app.url_focused && !app.chrome_open && app.loading);
}

#[test]
fn escape_gives_the_focus_back_to_the_page() {
    let mut app = app();
    press(&mut app, &ctrl("l"));
    press(&mut app, &ch("z"));
    press(&mut app, &named(NamedKey::Escape));
    assert!(!app.url_focused);
    assert_eq!(app.url.text, "https://a.example/");
    press(&mut app, &named(NamedKey::Escape));
    assert!(!app.chrome_open);
    press(&mut app, &named(NamedKey::Escape));
    assert!(matches!(app.host.outbox[..], [Action::ForwardKey(0)]));
}

#[test]
fn copying_in_the_bar_reaches_the_clipboard() {
    let mut app = app();
    press(&mut app, &ctrl("l"));
    press(&mut app, &ctrl("c"));
    assert!(matches!(&app.host.outbox[0], Action::CopyText(t) if t == "https://a.example/"));
    app.handle_key_input(&ctrl("v"), Some("pasted".to_string()), 1);
    assert_eq!(app.url.text, "pasted");
}

#[test]
fn internal_pages_are_reused_and_reloaded() {
    let mut app = app();
    press(&mut app, &ctrl("h"));
    assert_eq!(urls(&app)[2], "cce://history");
    press(&mut app, &event(Key::Named(NamedKey::Tab), true, false));
    app.host.outbox.clear();
    press(&mut app, &ctrl("h"));
    assert_eq!(app.host.tab_count(), 3);
    assert_eq!(app.host.active_index(), 2);
    assert!(matches!(app.host.outbox.last(), Some(Action::Reload(2))));
}

#[test]
fn stores_are_toggled_by_chords() {
    let mut app = app();
    press(&mut app, &ctrl("d"));
    assert!(app.pages.bookmarks.contains("https://a.example/"));
    press(&mut app, &ctrl("d"));
    assert!(!app.pages.bookmarks.contains("https://a.example/"));
    press(&mut app, &ctrl_shift("D"));
    assert_eq!(app.favs.len(), 1);
    assert_eq!(app.favs[0].label, "a.example");
    press(&mut app, &ctrl_shift("o"));
    assert!(app
        .host
        .outbox
        .iter()
        .any(|a| matches!(a, Action::OpenOutside(u, None) if u == "https://a.example/")));
}

#[test]
fn plain_keys_are_the_pages() {
    let mut app = app();
    press(&mut app, &ch("x"));
    press(&mut app, &ctrl("v"));
    press(&mut app, &named(NamedKey::F5));
    assert!(matches!(
        app.host.outbox[..],
        [
            Action::ForwardKey(0),
            Action::SyncClipboard,
            Action::Edit(0, EditingCommand::Paste),
            Action::Reload(0),
        ]
    ));
}

// -- Prompts ----------------------------------------------------------------------------------

#[test]
fn a_prompt_takes_every_key_and_click() {
    let mut app = app();
    app.host.dialog = Some(PendingDialog {
        message: "name?".to_string(),
        prompt_default: Some("old".to_string()),
        has_cancel: true,
    });
    app.update(Message::Spin, None, 7);
    assert!(app.modal.is_some() && app.rebuild);
    press(&mut app, &ctrl("t"));
    assert_eq!(app.host.tab_count(), 2);
    left(&mut app, &nowhere());
    assert!(app.host.outbox.is_empty());
    press(&mut app, &ch("n"));
    press(&mut app, &named(NamedKey::Enter));
    assert!(matches!(&app.host.outbox[0], Action::PromptText(Some(t)) if t == "n"));
    assert!(matches!(app.host.outbox[1], Action::CloseDialog));
    assert!(app.modal.is_none());
}

#[test]
fn an_alert_has_no_cancel_button() {
    let mut app = app();
    app.host.dialog = Some(PendingDialog {
        message: "hi".to_string(),
        prompt_default: None,
        has_cancel: false,
    });
    app.update(Message::Spin, None, 7);
    left(&mut app, &Hits { cancel: true, ..nowhere() });
    assert!(app.modal.is_some() && app.host.outbox.is_empty());
    left(&mut app, &Hits { accept: true, ..nowhere() });
    assert!(app.modal.is_none());
    assert!(matches!(app.host.outbox[..], [Action::CloseDialog]));
}

#[test]
fn a_challenge_is_answered_by_its_button() {
    let mut app = app();
    app.host.auth =
        Some(PendingAuth { host: "h".to_string(), realm: String::new(), retry: false });
    app.update(Message::Spin, None, 7);
    press(&mut app, &ch("u"));
    press(&mut app, &named(NamedKey::Tab));
    press(&mut app, &ch("p"));
    left(&mut app, &Hits { prompt_field: Some(0), ..nowhere() });
    press(&mut app, &ch("2"));
    left(&mut app, &Hits { accept: true, ..nowhere() });
    assert!(matches!(&app.host.outbox[0], Action::Authenticate(u, p) if u == "u2" && p == "p"));
    app.host.auth = Some(PendingAuth { host: "h".to_string(), realm: String::new(), retry: true });
    app.update(Message::Spin, None, 7);
    left(&mut app, &Hits { cancel: true, ..nowhere() });
    assert!(matches!(app.host.outbox[1], Action::CancelAuthentication));
}

// -- Menus ------------------------------------------------------------------------------------

fn asked(app: &mut BrowserApp) {
    app.host.context_menu = Some(ContextMenuInfo {
        link: Some("https://l.example/".to_string()),
        image_uri: None,
        is_selection: false,
        is_editable: false,
        can_go_back: false,
        can_go_forward: false,
    });
    app.update(Message::Spin, None, 7);
}

#[test]
fn the_right_click_menu_does_what_was_chosen() {
    let mut app = app();
    asked(&mut app);
    assert_eq!(app.ctx_menu.as_ref().unwrap().items[0].label, "Open Link in New Tab");
    left(&mut app, &Hits { item: Some(0), ..nowhere() });
    assert_eq!(urls(&app)[2], "https://l.example/");
    assert!(matches!(app.host.outbox.last(), Some(Action::SaveSession(_))));
    assert!(app.ctx_menu.is_none());
    asked(&mut app);
    app.host.outbox.clear();
    left(&mut app, &Hits { item: Some(2), ..nowhere() });
    assert!(matches!(&app.host.outbox[0], Action::Download(u) if u == "https://l.example/"));
    asked(&mut app);
    app.host.outbox.clear();
    left(&mut app, &Hits { item: Some(3), ..nowhere() });
    assert!(app.host.outbox.is_empty(), "there is nothing to go back to");
    asked(&mut app);
    left(&mut app, &nowhere());
    assert!(app.ctx_menu.is_none() && app.host.outbox.is_empty());
    asked(&mut app);
    press(&mut app, &ch("x"));
    assert!(app.ctx_menu.is_none() && app.host.outbox.is_empty());
}

#[test]
fn the_bookmarks_menu_visits_and_prunes() {
    let mut app = app();
    app.pages.bookmarks.toggle("https://one.example/", "One", 1);
    app.pages.bookmarks.toggle("https://two.example/", "Two", 2);
    app.open_chrome();
    left(&mut app, &Hits { bookmarks: true, ..on_bar() });
    assert_eq!(app.bm_menu.as_ref().unwrap().items.len(), 2);
    let entry = |i: usize, remove: bool| Hits {
        bookmark: Some(BmHit::Entry(i, remove)),
        bookmark_plate: true,
        ..on_bar()
    };
    app.host.outbox.clear();
    click(&mut app, MouseButton::Middle, &entry(0, false));
    assert_eq!(urls(&app)[2], "https://two.example/");
    assert!(app.bm_menu.is_some(), "several can be opened in a row");
    left(&mut app, &entry(0, true));
    assert!(!app.pages.bookmarks.contains("https://two.example/"));
    assert_eq!(app.bm_menu.as_ref().unwrap().items.len(), 1);
    app.host.outbox.clear();
    left(&mut app, &entry(0, false));
    assert!(matches!(&app.host.outbox[0], Action::Load(2, u) if u == "https://one.example/"));
    assert!(app.bm_menu.is_none() && !app.chrome_open);
}

#[test]
fn the_bookmarks_menu_owns_clicks_wheel_and_escape() {
    let mut app = app();
    for i in 0..4 {
        app.pages.bookmarks.toggle(&format!("https://{i}.example/"), "", i);
    }
    app.open_chrome();
    app.open_bm_menu();
    app.handle_mouse_wheel(false, &nowhere());
    assert!(app.host.outbox.is_empty());
    let plate = Hits { bookmark_plate: true, bookmark_rows: 3, ..nowhere() };
    app.handle_mouse_wheel(false, &plate);
    app.handle_mouse_wheel(false, &plate);
    assert_eq!(app.bm_menu.as_ref().unwrap().scroll, 1);
    app.handle_pointer_move(&Hits { bookmark: Some(BmHit::Manage), ..plate });
    assert_eq!(app.bm_menu.as_ref().unwrap().hover, Some(BmHit::Manage));
    assert!(app.host.outbox.is_empty());
    left(&mut app, &plate);
    assert!(app.bm_menu.is_some());
    left(&mut app, &nowhere());
    assert!(app.bm_menu.is_none() && app.host.outbox.is_empty());
    app.open_bm_menu();
    press(&mut app, &named(NamedKey::Escape));
    assert!(app.bm_menu.is_none() && app.chrome_open);
    app.open_bm_menu();
    left(&mut app, &Hits { bookmark: Some(BmHit::Manage), ..plate });
    assert!(urls(&app).contains(&"cce://bookmarks".to_string()));
    app.open_bm_menu();
    left(&mut app, &Hits { bookmark: Some(BmHit::Toggle), ..plate });
    assert!(!app.pages.bookmarks.contains("cce://bookmarks"), "an internal page is not saved");
}

// -- The bar ----------------------------------------------------------------------------------

#[test]
fn the_dot_brings_the_bar_out_and_folds_it() {
    let mut app = app();
    let dot = Hits { dot: true, ..on_bar() };
    left(&mut app, &dot);
    assert!(app.chrome_open);
    click(&mut app, MouseButton::Middle, &dot);
    assert!(app.chrome_open);
    left(&mut app, &dot);
    assert!(!app.chrome_open);
    left(&mut app, &Hits { plus: true, ..on_bar() });
    assert_eq!(app.host.tab_count(), 2, "a bar that folds away is not live");
}

#[test]
fn the_bars_controls_do_their_work() {
    let mut app = app();
    app.open_chrome();
    left(&mut app, &Hits { back: true, ..on_bar() });
    left(&mut app, &Hits { forward: true, ..on_bar() });
    left(&mut app, &Hits { reload: true, ..on_bar() });
    assert!(matches!(
        app.host.outbox[..],
        [Action::Back(0), Action::Forward(0), Action::Reload(0)]
    ));
    left(&mut app, &Hits { star: true, ..on_bar() });
    assert!(app.pages.bookmarks.contains("https://a.example/"));
    left(&mut app, &Hits { plus: true, ..on_bar() });
    assert_eq!(app.host.tab_count(), 3);
    left(&mut app, &Hits { tab: Some((1, false)), ..on_bar() });
    assert_eq!(app.host.active_index(), 1);
    assert!(!app.chrome_open, "picking a tab folds the bar away");
    app.open_chrome();
    left(&mut app, &Hits { tab: Some((2, true)), ..on_bar() });
    assert!(app.chrome_open, "closing one does not");
    click(&mut app, MouseButton::Middle, &Hits { tab: Some((0, false)), ..on_bar() });
    assert!(matches!(
        click(&mut app, MouseButton::Middle, &Hits { tab: Some((0, false)), ..on_bar() }),
        Some(Message::Quit)
    ));
}

#[test]
fn the_field_selects_all_and_then_takes_the_caret() {
    let mut app = app();
    app.open_chrome();
    let field = |caret: usize| Hits { url: true, caret, ..on_bar() };
    left(&mut app, &field(3));
    assert!(app.url_focused);
    assert_eq!(app.url.selection, Some((0, 18)));
    left(&mut app, &field(5));
    assert_eq!((app.url.cursor, app.url.selection), (5, None));
    left(&mut app, &on_bar());
    assert!(!app.url_focused);
}

#[test]
fn favorites_are_visited_from_the_strip() {
    let mut app = app();
    press(&mut app, &ctrl_shift("d"));
    app.open_chrome();
    app.switch_tab(1);
    app.open_chrome();
    app.host.outbox.clear();
    let pill = Hits { favorite: Some(0), ..on_bar() };
    app.handle_pointer_move(&pill);
    assert_eq!(app.fav_hover, Some(0));
    click(&mut app, MouseButton::Middle, &pill);
    assert_eq!(urls(&app)[2], "https://a.example/");
    assert!(app.chrome_open);
    app.host.outbox.clear();
    left(&mut app, &pill);
    assert!(matches!(&app.host.outbox[0], Action::Load(2, u) if u == "https://a.example/"));
    assert!(!app.chrome_open);
    left(&mut app, &Hits { favorite: Some(9), ..on_bar() });
}

#[test]
fn the_page_gets_what_the_chrome_does_not_take() {
    let mut app = app();
    app.open_chrome();
    left(&mut app, &nowhere());
    assert!(!app.chrome_open);
    click(&mut app, MouseButton::Back, &nowhere());
    click(&mut app, MouseButton::Forward, &nowhere());
    app.handle_mouse_wheel(true, &nowhere());
    app.handle_mouse_wheel(true, &on_bar());
    app.handle_pointer_move(&nowhere());
    app.handle_pointer_move(&on_bar());
    app.handle_mouse_input(MouseButton::Right, ElementState::Released, &nowhere(), 1);
    assert!(matches!(
        app.host.outbox[..],
        [
            Action::ForwardPointer(0),
            Action::Back(0),
            Action::Forward(0),
            Action::ForwardPointer(0),
            Action::ForwardPointer(0),
            Action::ForwardPointer(0),
        ]
    ));
}

#[test]
fn hovering_draws_only_what_changed() {
    let mut app = app();
    app.handle_pointer_move(&Hits { dot: true, ..on_bar() });
    assert!(app.dot_hover && app.rebuild);
    app.rebuild = false;
    app.handle_pointer_move(&Hits { dot: true, ..on_bar() });
    assert!(!app.rebuild);
}

// -- Accounts ---------------------------------------------------------------------------------

fn field(origin: &str, password: bool, value: &str, moved: bool) -> FormEvent {
    FormEvent::Field {
        origin: origin.to_string(),
        password,
        rect: Place { x: 1, y: 2, width: 3, height: 4 },
        value: value.to_string(),
        moved,
    }
}

fn account(path: &str, username: &str, url: &str) -> Account {
    Account {
        path: path.to_string(),
        label: "L".to_string(),
        username: username.to_string(),
        url: url.to_string(),
    }
}

fn with_accounts() -> BrowserApp {
    let mut app = app();
    app.update(
        Message::Accounts(Ok(vec![
            account("/1", "ann", "https://a.example/"),
            account("/2", "bob", "https://a.example/"),
            account("/3", "eve", "https://b.example/"),
        ])),
        None,
        7,
    );
    app.host.outbox.clear();
    app
}

#[test]
fn a_login_field_opens_the_list_of_its_own_host() {
    let mut app = app();
    assert!(app.on_form_event(field("https://a.example", false, "", false)));
    assert!(matches!(app.host.outbox[..], [Action::Ask(Request::Load)]));
    assert!(app.ac_menu.is_none(), "the index is still on its way");
    assert!(app.on_form_event(field("https://a.example", false, "", false)));
    assert_eq!(app.host.outbox.len(), 1, "it is asked for once");
    app.update(Message::Accounts(Ok(vec![account("/1", "ann", "a.example")])), None, 7);
    assert!(matches!(&app.host.outbox[1], Action::RunScript(0, js) if js.contains("rescan")));
    app.host.form_events.push(field("https://a.example", false, "", false));
    app.update(Message::Spin, None, 7);
    assert_eq!(app.ac_menu.as_ref().unwrap().shown.len(), 1);
}

#[test]
fn a_frame_from_elsewhere_is_offered_nothing() {
    let mut app = with_accounts();
    assert!(app.on_form_event(field("https://a.example", false, "", false)));
    assert_eq!(app.ac_menu.as_ref().unwrap().shown.len(), 2);
    assert!(!app.on_form_event(field("https://b.example", false, "", false)));
    assert!(app.ac_menu.is_none());
    assert!(!app.on_form_event(field("null", false, "", false)));
    app.accounts_on = false;
    assert!(!app.on_form_event(field("https://a.example", false, "", false)));
    assert!(app.ac_menu.is_none());
}

#[test]
fn typing_filters_and_a_password_field_does_not() {
    let mut app = with_accounts();
    app.on_form_event(field("http://a.example", false, "bo", false));
    let m = app.ac_menu.as_ref().unwrap();
    assert_eq!(m.shown[0].username, "bob");
    assert!(m.insecure, "the page is not encrypted");
    assert_eq!(m.host, "a.example");
    app.on_form_event(field("https://a.example", true, "bo", true));
    let m = app.ac_menu.as_ref().unwrap();
    assert_eq!(m.shown.len(), 2);
    assert!(!m.insecure);
    app.on_form_event(field("https://a.example", false, "zzz", true));
    assert!(app.ac_menu.is_none(), "an empty list is no list");
    app.on_form_event(field("https://a.example", false, "", false));
    assert!(app.on_form_event(FormEvent::Blur));
    assert!(!app.on_form_event(FormEvent::Blur));
}

#[test]
fn the_list_is_driven_by_keys() {
    let mut app = with_accounts();
    app.on_form_event(field("https://a.example", false, "", false));
    press(&mut app, &named(NamedKey::ArrowDown));
    assert_eq!(app.ac_menu.as_ref().unwrap().selected, 1);
    press(&mut app, &named(NamedKey::ArrowUp));
    press(&mut app, &named(NamedKey::ArrowUp));
    press(&mut app, &named(NamedKey::Enter));
    assert!(matches!(&app.host.outbox[..], [Action::Ask(Request::Fetch(p))] if p == "/2"));
    press(&mut app, &ch("x"));
    assert!(matches!(app.host.outbox[1], Action::ForwardKey(0)));
    press(&mut app, &named(NamedKey::Escape));
    assert!(app.ac_menu.is_none());
}

#[test]
fn a_password_goes_only_where_it_was_asked_for() {
    let mut app = with_accounts();
    app.on_form_event(field("https://a.example", false, "", false));
    left(&mut app, &Hits { account: Some(0), ..nowhere() });
    assert!(matches!(&app.host.outbox[..], [Action::Ask(Request::Fetch(p))] if p == "/1"));
    app.host.outbox.clear();
    let secret = || Secret::new("pw".to_string());
    app.update(Message::Credential("/1".to_string(), secret()), None, 7);
    assert!(matches!(&app.host.outbox[..], [Action::RunScript(0, js)]
        if js.contains("\"ann\"") && js.contains("\"pw\"")));
    assert!(app.ac_menu.is_none());
    app.update(Message::Credential("/1".to_string(), secret()), None, 7);
    assert_eq!(app.host.outbox.len(), 1, "it is used once");

    app.host.outbox.clear();
    app.on_form_event(field("https://a.example", false, "", false));
    app.update(Message::Credential("/3".to_string(), secret()), None, 7);
    assert!(app.host.outbox.is_empty(), "an account that is not listed");

    app.on_form_event(field("https://a.example", false, "", false));
    app.host.notify(0, None, Some("https://evil.example/".to_string()), false);
    app.host.pump(&mut app.pages.history, 7);
    app.update(Message::Credential("/1".to_string(), secret()), None, 7);
    assert!(app.host.outbox.is_empty(), "another page");
}

#[test]
fn a_click_beside_the_list_closes_it_and_goes_on() {
    let mut app = with_accounts();
    app.on_form_event(field("https://a.example", false, "", false));
    app.handle_mouse_wheel(true, &Hits { account_plate: true, ..nowhere() });
    app.handle_pointer_move(&Hits { account: Some(1), ..nowhere() });
    assert_eq!(app.ac_menu.as_ref().unwrap().hover, Some(1));
    assert!(app.host.outbox.is_empty());
    left(&mut app, &nowhere());
    assert!(app.ac_menu.is_none());
    assert!(matches!(app.host.outbox[..], [Action::ForwardPointer(0)]));
}

#[test]
fn switching_tabs_forgets_the_login_field() {
    let mut app = with_accounts();
    app.on_form_event(field("https://a.example", false, "", false));
    app.host.form_events.push(FormEvent::Blur);
    app.switch_tab(1);
    assert!(app.ac_menu.is_none());
    assert!(app.host.form_events.is_empty());
}

// -- Messages ---------------------------------------------------------------------------------

#[test]
fn news_reach_the_bar_the_title_and_the_session() {
    let mut app = app();
    app.update(Message::Spin, None, 7);
    assert!(!app.rebuild && app.host.outbox.is_empty());
    app.host.notify(0, Some("A page".to_string()), Some("https://a.example/x".to_string()), false);
    app.update(Message::Spin, None, 7);
    assert!(app.rebuild && !app.loading);
    assert_eq!(app.url.text, "https://a.example/x");
    assert_eq!(app.title.as_deref(), Some("A page"));
    let text = saved(&app).unwrap();
    assert_eq!(text, "1\thttps://a.example/x\n0\thttps://b.example/\n");
    app.session.written(text);
    app.host.outbox.clear();
    app.host.notify(0, Some("Again".to_string()), None, false);
    app.update(Message::Spin, None, 7);
    assert!(app.host.outbox.is_empty(), "the tabs are as they were saved");
}

#[test]
fn visits_are_recorded_while_recording_is_on() {
    let mut app = app();
    app.host.notify(1, Some("B".to_string()), None, true);
    app.update(Message::Spin, None, 3);
    assert!(app.pages.history.log.entries.is_empty(), "it is still loading");
    app.host.notify(1, Some("B".to_string()), Some("https://b.example/in".to_string()), false);
    app.update(Message::Spin, None, 4);
    app.update(Message::Spin, None, 5);
    let all = &app.pages.history.log.entries;
    assert_eq!(all.len(), 1, "a background tab counts, and once");
    assert_eq!((all[0].ts, all[0].url.as_str(), all[0].title.as_str()), (4, "https://b.example/in", "B"));
    assert!(app.pages.route("cce://history", 6).unwrap().contains("https://b.example/in"));

    let mut place = DownloadDir::default();
    let mut off = Settings::default();
    off.history = false;
    app.handle_focus_change(true, off, true, &mut place);
    app.host.notify(0, Some("A".to_string()), None, false);
    app.update(Message::Spin, None, 8);
    assert_eq!(app.pages.history.log.entries.len(), 1);
}

#[test]
fn the_same_directory_is_no_other_setting() {
    let mut app = app();
    let mut place = DownloadDir::default();
    let mut new = Settings::default();
    new.download_dir = Some("/a".to_string());
    app.handle_focus_change(true, new.clone(), true, &mut place);
    assert!(app.rebuild);
    app.rebuild = false;
    app.host.outbox.clear();
    new.download_dir = Some("/a/".to_string());
    app.handle_focus_change(true, new, true, &mut place);
    assert!(!app.rebuild && app.host.outbox.is_empty());
    assert_eq!(place.chosen.as_deref(), Some("/a"));
}

#[test]
fn typing_is_not_disturbed_by_news() {
    let mut app = app();
    press(&mut app, &ctrl("l"));
    press(&mut app, &ch("q"));
    app.host.notify(0, None, Some("https://a.example/y".to_string()), false);
    app.update(Message::Spin, None, 7);
    assert_eq!(app.url.text, "q");
}

#[test]
fn navigation_closes_the_account_list_and_news_alone_do_not() {
    let mut app = with_accounts();
    app.host.notify(0, None, None, true);
    app.update(Message::Spin, None, 7);
    app.on_form_event(field("https://a.example", false, "", false));
    app.host.notify(0, None, None, false);
    app.update(Message::Spin, None, 7);
    assert!(app.ac_menu.is_some());
    app.host.notify(0, None, Some("https://a.example/next".to_string()), false);
    app.update(Message::Spin, None, 7);
    assert!(app.ac_menu.is_none());
}

#[test]
fn a_download_shows_its_page() {
    let mut app = app();
    app.host.download_started = true;
    app.update(Message::Spin, None, 7);
    assert_eq!(urls(&app)[2], "cce://downloads");
}

#[test]
fn later_launches_open_tabs_and_raise_the_window() {
    let mut app = app();
    app.update(Message::OpenExternal(Some("c.example".to_string())), None, 7);
    assert_eq!(urls(&app)[2], "https://c.example/");
    assert!(matches!(app.host.outbox.last(), Some(Action::RaiseWindow)));
    app.update(Message::OpenExternal(Some("x".to_string())), Some("/tmp/x"), 7);
    assert_eq!(urls(&app)[3], "file:///tmp/x");
    app.update(Message::OpenExternal(None), None, 7);
    assert_eq!(urls(&app)[4], "about:blank");
    assert!(app.url_focused);
    let n = app.host.tab_count();
    app.update(Message::OpenExternal(Some("   ".to_string())), None, 7);
    assert_eq!(app.host.tab_count(), n);
    assert!(matches!(app.host.outbox.last(), Some(Action::RaiseWindow)));
    assert!(!app.exit);
    app.update(Message::Quit, None, 7);
    assert!(app.exit);
}

#[test]
fn settings_are_taken_up_with_the_focus() {
    let mut app = app();
    let mut place = DownloadDir::default();
    app.handle_focus_change(true, Settings::default(), true, &mut place);
    assert!(!app.rebuild && app.host.outbox.is_empty());
    let mut new = Settings::default();
    new.download_dir = Some("/data".to_string());
    new.color_scheme = ColorScheme::Light;
    app.handle_focus_change(false, new.clone(), false, &mut place);
    assert!(!app.rebuild);
    app.handle_focus_change(true, new, false, &mut place);
    assert!(app.rebuild && !app.accounts_on);
    assert_eq!(place.chosen.as_deref(), Some("/data"));
    assert!(matches!(
        app.host.outbox[..],
        [Action::WatchForms(false), Action::PreferDark(false)]
    ));
}

#[test]
fn what_was_parsed_elsewhere_is_acted_on() {
    let mut app = app();
    let u = || Url::parse("https://z.example/");
    app.go(None);
    assert!(app.host.outbox.is_empty());
    app.go(u());
    assert!(matches!(&app.host.outbox[0], Action::Load(0, t) if t == "https://z.example/"));
    app.visit(u(), true);
    assert_eq!(urls(&app)[2], "https://z.example/");
    app.show_page("https://z.", u());
    assert_eq!(app.host.tab_count(), 3);
    app.answer_launch(Some(None));
    assert_eq!(app.host.tab_count(), 3);
    assert!(app.on_field(None, "x", Place { x: 0, y: 0, width: 0, height: 0 }, "", false) == false);
}
