use cce_browser::action::Action;
use cce_browser::message::EditingCommand;
use cce_browser::pages::{Bookmarks, Favorites, History};
use cce_browser::webview::ServoHost;
use cce_browser::weburl::Url;
use cce_browser::wpe::formwatch::FormEvent;
use cce_browser::wpe::host::{next_wake, DialogKind, PendingAuth, PendingDialog, WebKitHost};

fn url(s: &str) -> Url {
    Url::parse(s).unwrap()
}

fn three() -> WebKitHost {
    let mut h = WebKitHost::new(url("https://a.example/"));
    h.open_tab(url("https://b.example/"));
    h.open_tab(url("https://c.example/"));
    h.outbox.clear();
    h
}

fn shown(h: &WebKitHost) -> String {
    h.url().unwrap().as_str().to_string()
}

#[test]
fn the_first_tab_is_built_and_shown() {
    let h = WebKitHost::new(url("https://a.example/"));
    assert_eq!(h.tab_count(), 1);
    assert_eq!(h.active_index(), 0);
    assert!(h.loading());
    assert!(matches!(&h.outbox[0], Action::Build(u) if u == "https://a.example/"));
    assert!(matches!(&h.outbox[1], Action::Show(0)));
    assert_eq!(h.outbox.len(), 2);
}

#[test]
fn closing_shows_the_neighbour() {
    let mut h = three();
    assert_eq!(shown(&h), "https://c.example/");
    assert!(h.close_tab(2));
    assert_eq!(shown(&h), "https://b.example/");
    h.activate(0);
    assert!(h.close_tab(0));
    assert_eq!(shown(&h), "https://b.example/");
    assert!(h.close_tab(7), "a tab that is not there changes nothing");
    assert_eq!(h.tab_count(), 1);
    assert!(!h.close_tab(0));
    assert_eq!(h.tab_count(), 0);
}

#[test]
fn closing_another_tab_keeps_the_shown_one() {
    let mut h = three();
    h.activate(1);
    h.close_tab(0);
    assert_eq!(shown(&h), "https://b.example/");
    assert_eq!(h.active_index(), 0);
    h.close_tab(1);
    assert_eq!(shown(&h), "https://b.example/");
}

#[test]
fn activating_hides_and_shows() {
    let mut h = three();
    h.activate(0);
    assert!(matches!(h.outbox[0], Action::Hide(2)));
    assert!(matches!(h.outbox[1], Action::Show(0)));
    h.outbox.clear();
    h.activate(0);
    h.activate(9);
    assert!(h.outbox.is_empty());
}

#[test]
fn reports_reach_the_tabs_when_pumped() {
    let mut h = three();
    let mut history = History::load("");
    assert_eq!(h.pump(&mut history, 1), (false, false));
    h.notify(2, Some("C".to_string()), Some("https://c.example/next".to_string()), false);
    assert_eq!(h.title(), None);
    assert_eq!(h.pump(&mut history, 1), (false, true));
    assert_eq!(h.title().as_deref(), Some("C"));
    assert_eq!(shown(&h), "https://c.example/next");
    assert!(!h.loading());
    h.notify(2, Some(String::new()), Some("not a url".to_string()), true);
    h.pump(&mut history, 1);
    assert_eq!(h.title(), None, "an empty title is none");
    assert_eq!(shown(&h), "https://c.example/next", "what does not parse is not shown");
    assert_eq!(h.pump(&mut history, 1), (false, false));
}

#[test]
fn frames_are_kept_and_replaced() {
    let mut h = three();
    let mut history = History::load("");
    assert_eq!(h.sample_pixel(), None);
    assert_eq!(h.accept_frame(vec![1, 2, 3, 255], (7, 1, 1)), None);
    assert_eq!(h.image(), Some((7, 1, 1)));
    assert_eq!(h.sample_pixel(), Some((1, 2, 3)));
    assert_eq!(h.accept_frame(vec![4, 5, 6, 255], (8, 1, 1)), Some(7));
    assert_eq!(h.pump(&mut history, 1), (true, true));
    assert_eq!(h.pump(&mut history, 1), (false, false));
    h.activate(0);
    h.close_tab(1);
    assert_eq!(h.sample_pixel(), Some((4, 5, 6)), "the last frame stays until the next");
}

#[test]
fn a_prompt_is_answered_with_its_text() {
    let mut h = three();
    h.dialog = Some(PendingDialog {
        message: "name?".to_string(),
        prompt_default: Some("x".to_string()),
        has_cancel: true,
    });
    assert_eq!(h.pending_dialog().unwrap().message, "name?");
    h.respond_dialog(true, Some("me".to_string()));
    assert!(matches!(&h.outbox[0], Action::PromptText(Some(t)) if t == "me"));
    assert!(matches!(h.outbox[1], Action::CloseDialog));
    assert!(h.pending_dialog().is_none());
    h.respond_dialog(true, None);
    assert_eq!(h.outbox.len(), 2, "a dialog is answered once");
}

#[test]
fn questions_and_alerts_are_answered_too() {
    let mut h = three();
    let dialog = |cancel: bool| PendingDialog {
        message: String::new(),
        prompt_default: None,
        has_cancel: cancel,
    };
    h.dialog = Some(dialog(true));
    h.respond_dialog(false, None);
    assert!(matches!(h.outbox[0], Action::Confirm(false)));
    assert!(matches!(h.outbox[1], Action::CloseDialog));
    h.outbox.clear();
    h.dialog = Some(dialog(false));
    h.respond_dialog(true, None);
    assert!(matches!(h.outbox[0], Action::CloseDialog));
    assert_eq!(h.outbox.len(), 1);
    h.outbox.clear();
    h.dialog = Some(PendingDialog {
        message: String::new(),
        prompt_default: Some(String::new()),
        has_cancel: true,
    });
    h.respond_dialog(false, Some("typed".to_string()));
    assert!(matches!(h.outbox[0], Action::PromptText(None)));
}

#[test]
fn challenges_are_answered_or_cancelled() {
    let mut h = three();
    let auth = PendingAuth { host: "h".to_string(), realm: "r".to_string(), retry: false };
    h.auth = Some(auth.clone());
    h.respond_auth(Some(("me".to_string(), "pw".to_string())));
    assert!(matches!(&h.outbox[0], Action::Authenticate(u, p) if u == "me" && p == "pw"));
    h.auth = Some(auth);
    h.respond_auth(None);
    assert!(matches!(h.outbox[1], Action::CancelAuthentication));
    h.respond_auth(None);
    assert_eq!(h.outbox.len(), 2);
}

#[test]
fn pasting_hands_the_clipboard_over_first() {
    let mut h = three();
    h.editing_action_cmd(EditingCommand::Copy);
    assert!(matches!(h.outbox[0], Action::Edit(2, EditingCommand::Copy)));
    h.editing_action_cmd(EditingCommand::Paste);
    assert!(matches!(h.outbox[1], Action::SyncClipboard));
    assert!(matches!(h.outbox[2], Action::Edit(2, EditingCommand::Paste)));
}

#[test]
fn forcing_dark_reloads_every_page_once() {
    let mut h = three();
    h.set_force_dark(true);
    assert!(matches!(h.outbox[0], Action::InvertPages(true)));
    assert_eq!(h.outbox.len(), 4);
    h.set_force_dark(true);
    assert_eq!(h.outbox.len(), 4);
}

#[test]
fn stores_follow_the_page() {
    let mut h = three();
    let mut history = History::load("");
    h.notify(2, Some("C".to_string()), None, false);
    h.pump(&mut history, 1);
    let mut b = Bookmarks::load("");
    let mut f = Favorites::load("");
    assert!(!h.active_bookmarked(&b));
    h.toggle_bookmark(&mut b, 1);
    assert!(h.active_bookmarked(&b));
    assert_eq!(b.title_of("https://c.example/").as_deref(), Some("C"));
    h.toggle_favorite(&mut f, 2);
    assert!(h.active_favorited(&f));
    assert_eq!(f.snapshot()[0].label, "C");
    h.toggle_favorite(&mut f, 3);
    assert!(!h.active_favorited(&f));
}

#[test]
fn the_watchers_reports_are_taken_in_order() {
    let mut h = three();
    h.form_events.push(FormEvent::Blur);
    assert!(matches!(h.take_form_event(), Some(FormEvent::Blur)));
    assert!(h.take_form_event().is_none());
    h.form_events.push(FormEvent::Blur);
    h.clear_form_events();
    assert!(h.take_form_event().is_none());
    h.fill_credentials("u", "p\"");
    assert!(matches!(&h.outbox[0], Action::RunScript(2, js) if js.contains("\"p\\\"\"")));
    h.request_form_state();
    assert!(matches!(&h.outbox[1], Action::RunScript(2, js) if js.contains("rescan")));
}

#[test]
fn only_finished_loads_are_visits() {
    let first = url("https://a.example/");
    let mut h = ServoHost::new(&first);
    h.set_history_enabled(true);
    let mut history = History::load("");
    h.notify_page_title_changed(0, Some("A".to_string()));
    h.notify_url_changed(0, url("https://a.example/"));
    h.notify_load_status_changed(0, false);
    assert_eq!(h.pump(&mut history, 1), (false, true));
    assert!(history.log.entries.is_empty());
    h.notify_load_status_changed(0, true);
    assert_eq!(h.pump(&mut history, 2), (false, true));
    h.notify_load_status_changed(0, true);
    h.pump(&mut history, 3);
    assert_eq!(history.log.entries.len(), 1);
    assert_eq!(history.log.entries[0].url, "https://a.example/");
    assert_eq!(h.title().as_deref(), Some("A"));
    h.notify_new_frame_ready(0);
    assert_eq!(h.pump(&mut history, 4), (true, true));
    assert_eq!(h.title().as_deref(), Some("A"), "a frame alone changes nothing else");
    assert_eq!(h.url().unwrap().as_str(), "https://a.example/");
    assert_eq!(h.accept_frame((7, 1, 1)), None);
    assert_eq!(h.accept_frame((8, 1, 1)), Some(7));
    assert_eq!(h.image(), Some((8, 1, 1)));
    assert_eq!(h.title().as_deref(), Some("A"));
}

#[test]
fn page_views_that_pages_open_become_tabs() {
    let mut h = ServoHost::new(&url("https://a.example/"));
    let mut history = History::load("");
    h.request_create_new();
    h.adopt_opened();
    assert_eq!((h.tab_count(), h.active_index()), (2, 1));
    h.notify_page_title_changed(1, Some("popup".to_string()));
    assert_eq!(h.pump(&mut history, 1), (false, true));
    assert_eq!(h.title().as_deref(), Some("popup"));
    h.request_create_new();
    h.request_create_new();
    h.pump(&mut history, 2);
    assert_eq!((h.tab_count(), h.active_index()), (4, 3));
}

#[test]
fn artifacts_are_downloaded_and_pages_are_not() {
    let mut h = ServoHost::new(&url("https://a.example/"));
    assert!(h.request_navigation(&url("https://a.example/page")));
    assert!(!h.take_download_started());
    assert!(!h.request_navigation(&url("https://a.example/x.zip")));
    assert!(h.take_download_started());
    assert!(!h.take_download_started());
    assert!(h.outbox.iter().any(|a| matches!(a, Action::Download(u) if u == "https://a.example/x.zip")));
}

#[test]
fn the_strip_of_the_other_engine_moves_alike() {
    let mut h = ServoHost::new(&url("https://a.example/"));
    h.open_tab(&url("https://b.example/"));
    assert_eq!(h.tab_count(), 2);
    assert_eq!(h.active_index(), 1);
    assert!(h.url().is_none(), "an address is known once the page reports it");
    assert!(h.close_tab(1));
    assert_eq!(h.active_index(), 0);
    assert!(!h.close_tab(0));
}

#[test]
fn a_file_is_never_handed_to_the_engine() {
    let file = url("https://example.com/rel/app-1.2.3.tar.gz");
    let mut h = ServoHost::new(&file);
    assert!(matches!(&h.outbox[0], Action::Download(u) if u == file.as_str()));
    assert!(matches!(&h.outbox[1], Action::Build(u) if u == "about:blank"));
    assert!(h.take_download_started());
    h.outbox.clear();
    h.load(&file);
    assert!(matches!(&h.outbox[0], Action::Download(_)));
    assert_eq!(h.outbox.len(), 1);
    h.load(&url("https://example.com/page"));
    assert!(matches!(&h.outbox[1], Action::Load(0, u) if u == "https://example.com/page"));
}

#[test]
fn dialogs_are_held_as_their_kind_asks() {
    let mut h = three();
    let text = |s: &str| Some(s.to_string());
    h.hold_dialog(DialogKind::Alert, text("hi"), text("ignored"));
    let d = h.pending_dialog().unwrap();
    assert_eq!((d.message.as_str(), d.prompt_default, d.has_cancel), ("hi", None, false));
    h.hold_dialog(DialogKind::Confirm, None, None);
    let d = h.pending_dialog().unwrap();
    assert_eq!((d.message.as_str(), d.prompt_default, d.has_cancel), ("", None, true));
    h.hold_dialog(DialogKind::Prompt, text("q"), None);
    assert_eq!(h.pending_dialog().unwrap().prompt_default.as_deref(), Some(""));
    h.hold_dialog(DialogKind::BeforeUnload, text("leave?"), None);
    assert!(h.pending_dialog().unwrap().has_cancel);
    h.hold_challenge(text("host"), None, true);
    let a = h.pending_auth().unwrap();
    assert_eq!((a.host.as_str(), a.realm.as_str(), a.retry), ("host", "", true));
}

#[test]
fn the_engine_is_looked_after_in_time() {
    assert_eq!(next_wake(None), 100);
    assert_eq!(next_wake(Some(0)), 4);
    assert_eq!(next_wake(Some(16)), 16);
    assert_eq!(next_wake(Some(u64::MAX)), 250);
}
