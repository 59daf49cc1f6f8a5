use cce_browser::accounts::Account;
use cce_browser::input::{Clipboard, ElementState, Key, KeyEvent, NamedKey};
use cce_browser::lineedit::EditOutcome;
use cce_browser::menus::{
    account_lines, bm_window, AcMenu, BmMenu, CtxAction, CtxMenu, AC_MAX_ROWS,
};
use cce_browser::modal::{Modal, ModalKind};
use cce_browser::pages::Favorite;
use cce_browser::wpe::formwatch::Place;
use cce_browser::wpe::host::{ContextMenuInfo, PendingAuth, PendingDialog};

fn account(label: &str, username: &str) -> Account {
    Account {
        path: format!("/{username}"),
        label: label.to_string(),
        username: username.to_string(),
        url: String::new(),
    }
}

fn list(n: usize) -> AcMenu {
    let mut m = AcMenu {
        all: (0..n).map(|i| account("Site", &format!("user{i}"))).collect(),
        shown: Vec::new(),
        selected: 0,
        scroll: 0,
        anchor: Place { x: 0, y: 0, width: 0, height: 0 },
        host: "site.example".to_string(),
        insecure: false,
        hover: None,
    };
    m.refilter("");
    m
}

#[test]
fn typing_narrows_the_list() {
    let mut m = list(3);
    m.all.push(account("Work MAIL", "boss"));
    m.refilter(" USER1 ");
    assert_eq!(m.shown.len(), 1);
    assert_eq!(m.shown[0].username, "user1");
    m.refilter("mail");
    assert_eq!(m.shown[0].username, "boss");
    m.refilter("nobody");
    assert!(m.shown.is_empty());
    m.refilter("");
    assert_eq!(m.shown.len(), 4);
}

#[test]
fn the_selection_goes_round_and_stays_visible() {
    let mut m = list(9);
    m.step(-1);
    assert_eq!(m.selected, 8);
    assert_eq!(m.first_row(), 9 - AC_MAX_ROWS);
    m.step(1);
    assert_eq!((m.selected, m.first_row()), (0, 0));
    for _ in 0..AC_MAX_ROWS {
        m.step(1);
    }
    assert_eq!((m.selected, m.first_row()), (AC_MAX_ROWS, 1));
    m.refilter("user2");
    assert_eq!((m.selected, m.first_row()), (0, 0));
    let mut none = list(0);
    none.step(1);
    assert_eq!(none.selected, 0);
}

#[test]
fn big_steps_go_round_too() {
    let mut m = list(7);
    m.step(15);
    assert_eq!(m.selected, 1);
    m.step(-16);
    assert_eq!(m.selected, 6);
    m.step(isize::MIN);
    assert!(m.selected < 7);
}

#[test]
fn rows_say_who_and_where() {
    let mut a = account("Example", "me");
    a.url = "https://login.test/".to_string();
    assert_eq!(account_lines(&a), ("me".to_string(), "Example — login.test".to_string()));
    a.label = "My Login.Test".to_string();
    assert_eq!(account_lines(&a).1, "My Login.Test");
    a.label = String::new();
    assert_eq!(account_lines(&a).1, "login.test");
    let bare = account("Title", "");
    assert_eq!(account_lines(&bare), ("Title".to_string(), "Title".to_string()));
}

fn bookmarks(n: usize) -> Vec<Favorite> {
    (0..n).map(|i| Favorite { url: format!("u{i}"), label: format!("l{i}") }).collect()
}

#[test]
fn the_bookmark_list_scrolls_within_its_range() {
    let mut m = BmMenu { items: bookmarks(5), scroll: 0, hover: None };
    m.wheel(true, 3);
    assert_eq!(m.scroll, 0);
    m.wheel(false, 3);
    m.wheel(false, 3);
    m.wheel(false, 3);
    assert_eq!(m.scroll, 2);
    assert_eq!(bm_window(5, m.scroll, 3), (2, 3));
    m.refresh(bookmarks(4), 3);
    assert_eq!(m.scroll, 1);
    m.refresh(bookmarks(0), 3);
    assert_eq!(m.scroll, 0);
    assert_eq!(bm_window(0, 0, 3), (0, 0));
    assert_eq!(bm_window(2, 9, 3), (0, 2));
}

fn info() -> ContextMenuInfo {
    ContextMenuInfo {
        link: None,
        image_uri: None,
        is_selection: false,
        is_editable: false,
        can_go_back: false,
        can_go_forward: true,
    }
}

#[test]
fn the_menu_offers_what_is_there() {
    let labels = |m: &CtxMenu| m.items.iter().map(|i| i.label.clone()).collect::<Vec<_>>();
    let plain = CtxMenu::build(&info(), false, false);
    assert_eq!(
        labels(&plain),
        ["Back", "Forward", "Reload", "Add to Favorites", "Open in Other Browser"]
    );
    let enabled: Vec<bool> = plain.items.iter().map(|i| i.enabled).collect();
    assert_eq!(enabled, [false, true, true, false, true]);
    let full = CtxMenu::build(
        &ContextMenuInfo {
            link: Some("https://l.example/".to_string()),
            image_uri: Some("https://i.example/".to_string()),
            is_selection: true,
            is_editable: true,
            ..info()
        },
        true,
        false,
    );
    assert_eq!(
        labels(&full)[..7],
        [
            "Open Link in New Tab",
            "Copy Link",
            "Download Link",
            "Copy Image Address",
            "Download Image",
            "Copy",
            "Paste",
        ]
    );
    assert!(matches!(&full.items[0].action, CtxAction::OpenInTab(u) if u == "https://l.example/"));
    assert!(matches!(&full.items[3].action, CtxAction::CopyText(u) if u == "https://i.example/"));
    assert_eq!(full.items[10].label, "Remove from Favorites");
    assert!(full.items[10].enabled);
}

fn key(k: NamedKey) -> KeyEvent {
    KeyEvent {
        state: ElementState::Pressed,
        logical_key: Key::Named(k),
        text: None,
        repeat: false,
        ctrl: false,
        shift: false,
        alt: false,
    }
}

#[test]
fn prompts_start_with_their_default_selected() {
    let mut m = Modal::for_dialog(PendingDialog {
        message: "name?".to_string(),
        prompt_default: Some("dflt".to_string()),
        has_cancel: true,
    });
    assert_eq!(m.title, "This page says");
    assert_eq!(m.kind, ModalKind::Script);
    assert_eq!(m.fields[0].edit.selection, Some((0, 4)));
    let mut typed = key(NamedKey::Other);
    typed.logical_key = Key::Character("x".to_string());
    typed.text = Some("x".to_string());
    m.handle_key(&typed, &mut Clipboard::offering(None));
    assert_eq!(m.fields[0].edit.text, "x");
}

#[test]
fn alerts_take_enter_and_escape_alone() {
    let mut m = Modal::for_dialog(PendingDialog {
        message: "hi".to_string(),
        prompt_default: None,
        has_cancel: false,
    });
    assert!(m.fields.is_empty());
    let mut c = Clipboard::offering(None);
    assert_eq!(m.handle_key(&key(NamedKey::Enter), &mut c), EditOutcome::Submit);
    assert_eq!(m.handle_key(&key(NamedKey::Escape), &mut c), EditOutcome::Cancel);
    assert_eq!(m.handle_key(&key(NamedKey::Home), &mut c), EditOutcome::Ignored);
    m.tab(false);
    assert_eq!(m.focused, 0);
}

#[test]
fn challenges_name_their_place_and_mask_the_password() {
    let mut m = Modal::for_auth(PendingAuth {
        host: "host".to_string(),
        realm: "realm".to_string(),
        retry: true,
    });
    assert_eq!(m.title, "Sign in failed — try again");
    assert_eq!(m.message, "host — realm");
    assert!(!m.fields[0].edit.masked);
    assert!(m.fields[1].edit.masked);
    m.tab(false);
    assert_eq!(m.focused, 1);
    m.tab(false);
    assert_eq!(m.focused, 0);
    m.tab(true);
    assert_eq!(m.focused, 1);
    m.focus(0);
    assert_eq!(m.focused, 0);
    let plain = Modal::for_auth(PendingAuth {
        host: "host".to_string(),
        realm: String::new(),
        retry: false,
    });
    assert_eq!((plain.title.as_str(), plain.message.as_str()), ("Sign in", "host"));
}
