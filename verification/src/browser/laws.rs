//! What holds of the browser whatever happens to it.

use vstd::prelude::*;

use crate::action::ActionView;
use crate::browser::commands::{on_page, tab_on};
use crate::browser::keys::Chord;
use crate::browser::launch::launched;
use crate::browser::pointer::Hits;
use crate::browser::state::{saved_tabs, AppView};
use crate::input::{ElementState, KeyEvent, MouseButton};
use crate::menus::{BmHit, CtxActionView};
use crate::message::MessageView;
use crate::pages::strip;
use crate::protocol::ProtocolView;
use crate::settings::SettingsView;
use crate::weburl::{url_parse, UrlView};
use crate::wpe::formwatch::FormEventView;
use crate::wpe::host::{HostView, TabView};

verus! {

// ---------------------------------------------------------------------------------------------
// A field that is not on screen does not have the focus
// ---------------------------------------------------------------------------------------------

impl AppView {
    /// The address bar has the focus only while the utility bar is out.
    pub open spec fn focus_on_screen(self) -> bool {
        self.url_focused ==> self.chrome_open
    }
}

proof fn lemma_synced(a: AppView)
    ensures
        a.page_synced().url_focused == a.url_focused,
        a.page_synced().chrome_open == a.chrome_open,
{
    reveal(AppView::page_synced);
    reveal(AppView::favorites_refreshed);
}

proof fn lemma_persisted(a: AppView)
    ensures
        a.persisted().url_focused == a.url_focused,
        a.persisted().chrome_open == a.chrome_open,
{
    reveal(AppView::persisted);
}

proof fn lemma_tabs_changed(a: AppView)
    ensures
        !a.tabs_changed().url_focused,
{
    reveal(AppView::tabs_changed);
    let b = AppView { url_focused: false, ..a };
    lemma_synced(b);
    lemma_persisted(b.page_synced());
}

proof fn lemma_tab_opened(a: AppView, u: UrlView)
    ensures
        !a.tab_opened(u).url_focused,
{
    reveal(AppView::tab_opened);
    lemma_tabs_changed(a.with_host(a.host.opened(u)));
}

proof fn lemma_tab_switched(a: AppView, i: int)
    ensures
        !a.tab_switched(i).url_focused,
{
    reveal(AppView::tab_switched);
    lemma_tabs_changed(
        AppView {
            ac_menu: None,
            ..a.with_host(HostView { form_events: Seq::empty(), ..a.host }.activated(i))
        },
    );
}

proof fn lemma_tab_closed(a: AppView, i: int)
    requires
        a.focus_on_screen(),
    ensures
        a.tab_closed(i).0.focus_on_screen(),
{
    reveal(AppView::tab_closed);
    let b = a.with_host(a.host.closed(i));
    lemma_persisted(b);
    lemma_tabs_changed(b);
}

proof fn lemma_chrome_closed(a: AppView)
    ensures
        !a.chrome_closed().url_focused,
        !a.chrome_closed().chrome_open,
        a.chrome_closed().bm_menu is None,
{
    reveal(AppView::chrome_closed);
    reveal(AppView::page_synced);
    reveal(AppView::favorites_refreshed);
}

proof fn lemma_page_opened(a: AppView, page: Seq<char>, parsed: Option<UrlView>)
    requires
        a.focus_on_screen(),
    ensures
        a.internal_opened(page, parsed).focus_on_screen(),
        a.page_opened(page).focus_on_screen(),
{
    reveal(AppView::internal_opened);
    reveal(AppView::page_opened);
    let i = tab_on(a.host.tabs, page, 0);
    lemma_tab_switched(a, i);
    if let Some(u) = parsed {
        lemma_tab_opened(a, u);
    }
    if let Some(u) = crate::weburl::url_parse(page) {
        lemma_tab_opened(a, u);
    }
}

proof fn lemma_new_opened(a: AppView)
    requires
        a.focus_on_screen(),
    ensures
        a.new_opened().focus_on_screen(),
{
    reveal(AppView::new_opened);
    reveal(AppView::blank_opened);
    if let Some(u) = crate::weburl::url_parse("about:blank"@) {
        let b = AppView {
            url: crate::modal::empty_line(false),
            url_focused: true,
            chrome_open: true,
            ..a.with_host(a.host.opened(u))
        };
        lemma_synced(b);
        lemma_persisted(b.page_synced());
    }
}

proof fn lemma_toggles(a: AppView, now: u64)
    requires
        a.focus_on_screen(),
    ensures
        a.favorite_switched(now).focus_on_screen(),
        a.bookmark_switched(now).focus_on_screen(),
        a.opened_outside().focus_on_screen(),
{
    reveal(AppView::favorite_switched);
    reveal(AppView::favorites_refreshed);
    reveal(AppView::bookmark_switched);
    reveal(AppView::opened_outside);
}

proof fn lemma_visited(a: AppView, parsed: Option<UrlView>, new_tab: bool)
    requires
        a.focus_on_screen(),
    ensures
        a.visited(parsed, new_tab).focus_on_screen(),
{
    reveal(AppView::visited);
    if let Some(u) = parsed {
        lemma_tab_opened(a, u);
        let b = AppView { bm_menu: None, ..a.loaded(u) };
        lemma_chrome_closed(b);
        lemma_synced(b.chrome_closed());
    }
}

proof fn lemma_url_edited(a: AppView, event: KeyEvent, offer: Option<Seq<char>>)
    requires
        a.focus_on_screen(),
    ensures
        a.url_edited(event, offer).focus_on_screen(),
{
    reveal(AppView::url_edited);
    reveal(AppView::line_edited);
    reveal(AppView::edit_finished);
    reveal(AppView::navigated);
    lemma_synced(a.line_edited(event, offer).0.url_left());
}

proof fn lemma_chord(a: AppView, chord: Chord, now: u64)
    requires
        a.focus_on_screen(),
    ensures
        a.chord_done(chord, now).0.focus_on_screen(),
{
    reveal(AppView::chord_done);
    let b = a.redrawn();
    let n = a.host.tabs.len() as int;
    let i = a.host.active as int;
    match chord {
        Chord::NewTab => lemma_new_opened(b),
        Chord::CloseTab => lemma_tab_closed(b, i),
        Chord::NextTab => lemma_tab_switched(b, crate::browser::keys::tab_after(i, n)),
        Chord::PreviousTab => lemma_tab_switched(b, crate::browser::keys::tab_before(i, n)),
        Chord::Cookies => lemma_page_opened(b, "cce://cookies"@, None),
        Chord::Favorites => lemma_page_opened(b, "cce://favorites"@, None),
        Chord::History => lemma_page_opened(b, "cce://history"@, None),
        Chord::Bookmarks => lemma_page_opened(b, "cce://bookmarks"@, None),
        Chord::Downloads => lemma_page_opened(b, "cce://downloads"@, None),
        _ => {
            lemma_toggles(a, now);
            lemma_toggles(b, now);
        },
    }
}

proof fn lemma_modal_closed(a: AppView, ok: bool)
    requires
        a.focus_on_screen(),
    ensures
        a.modal_closed(ok).focus_on_screen(),
{
    reveal(AppView::modal_closed);
}

proof fn lemma_modal_key(a: AppView, event: KeyEvent, offer: Option<Seq<char>>)
    requires
        a.focus_on_screen(),
    ensures
        a.modal_key(event, offer).focus_on_screen(),
{
    reveal(AppView::modal_key);
    reveal(AppView::modal_typed);
    let b = a.modal_typed(event, offer).0;
    lemma_modal_closed(b, true);
    lemma_modal_closed(b, false);
}

/// No key puts the focus on an address bar that is not on screen.
pub proof fn keys_keep_focus_on_screen(
    a: AppView,
    event: KeyEvent,
    offer: Option<Seq<char>>,
    now: u64,
)
    requires
        a.focus_on_screen(),
    ensures
        a.key_handled(event, offer, now).0.focus_on_screen(),
{
    reveal(AppView::key_handled);
    reveal(AppView::list_key_done);
    reveal(AppView::account_picked);
    reveal(AppView::plain_key);
    reveal(AppView::page_key_done);
    reveal(AppView::bar_focused);
    lemma_modal_key(a.redrawn(), event, offer);
    if let Some(c) = crate::browser::keys::chord_of(event, a.host.tabs.len() > 1) {
        lemma_chord(a, c, now);
    }
    lemma_url_edited(a.redrawn(), event, offer);
    lemma_chrome_closed(a.redrawn());
}

proof fn lemma_refreshed(a: AppView, cap: int)
    requires
        a.focus_on_screen(),
    ensures
        a.bm_menu_refreshed(cap).focus_on_screen(),
{
    reveal(AppView::bm_menu_refreshed);
}

proof fn lemma_bm_clicked(a: AppView, button: MouseButton, hit: BmHit, cap: int, now: u64)
    requires
        a.focus_on_screen(),
    ensures
        a.bm_clicked(button, hit, cap, now).focus_on_screen(),
{
    reveal(AppView::bm_clicked);
    match hit {
        BmHit::Toggle => {
            lemma_toggles(a, now);
            lemma_refreshed(a.bookmark_switched(now), cap);
        },
        BmHit::Entry(i, _) => {
            lemma_visited(a, a.bm_parsed(i as int), false);
            lemma_visited(a, a.bm_parsed(i as int), true);
            lemma_bm_dropped(a, i as int, cap);
        },
        BmHit::Manage => {
            let b = AppView { bm_menu: None, ..a };
            lemma_chrome_closed(b);
            lemma_page_opened(
                b.chrome_closed(),
                "cce://bookmarks"@,
                crate::weburl::url_parse("cce://bookmarks"@),
            );
        },
    }
}

proof fn lemma_bm_dropped(a: AppView, i: int, cap: int)
    requires
        a.focus_on_screen(),
    ensures
        a.bm_dropped(i, cap).focus_on_screen(),
{
    reveal(AppView::bm_dropped);
    reveal(AppView::bm_menu_refreshed);
}

proof fn lemma_ctx_chosen(a: AppView, i: int, now: u64)
    requires
        a.focus_on_screen(),
    ensures
        a.ctx_chosen(i, now).focus_on_screen(),
{
    reveal(AppView::ctx_chosen);
    if let Some(items) = a.ctx_menu {
        if 0 <= i < items.len() {
            lemma_ctx_done(AppView { ctx_menu: None, ..a }, items[i].action, now);
        }
    }
}

proof fn lemma_ctx_done(a: AppView, action: CtxActionView, now: u64)
    requires
        a.focus_on_screen(),
    ensures
        a.ctx_done(action, now).focus_on_screen(),
{
    reveal(AppView::ctx_done);
    lemma_toggles(a, now);
    if let CtxActionView::OpenInTab(uri) = action {
        reveal(AppView::link_opened);
        if let Some(u) = url_parse(uri) {
            let b = a.with_host(a.host.opened(u));
            lemma_synced(b);
            lemma_persisted(b.page_synced());
        }
    }
}

proof fn lemma_control_clicked(a: AppView, hits: Hits, now: u64)
    requires
        a.chrome_open,
    ensures
        a.control_clicked(hits, now).focus_on_screen(),
{
    reveal(AppView::control_clicked);
    reveal(AppView::field_clicked);
    reveal(AppView::bm_menu_opened);
    lemma_new_opened(a);
    lemma_toggles(a, now);
    lemma_synced(a.url_left());
}

proof fn lemma_open_bar_clicked(a: AppView, button: MouseButton, hits: Hits, now: u64)
    requires
        a.chrome_open,
    ensures
        a.open_bar_clicked(button, hits, now).0.focus_on_screen(),
{
    reveal(AppView::open_bar_clicked);
    reveal(AppView::pill_clicked);
    if let Some((i, _)) = hits.tab {
        lemma_tab_closed(a, i as int);
        lemma_chrome_closed(a.tab_switched(i as int));
    }
    if let Some(i) = hits.favorite {
        lemma_visited(
            a,
            crate::weburl::url_parse(a.favs[i as int].url),
            button == MouseButton::Middle,
        );
    }
    lemma_control_clicked(a, hits, now);
}

proof fn lemma_plain_button(a: AppView, button: MouseButton, pressed: bool, hits: Hits, now: u64)
    requires
        a.focus_on_screen(),
    ensures
        a.plain_button(button, pressed, hits, now).0.focus_on_screen(),
{
    reveal(AppView::plain_button);
    reveal(AppView::bookmarks_clicked);
    reveal(AppView::chrome_clicked);
    reveal(AppView::dot_clicked);
    reveal(AppView::page_clicked);
    reveal(AppView::bar_folded);
    let b = a.redrawn();
    if let Some(hit) = hits.bookmark {
        lemma_bm_clicked(b, button, hit, hits.bookmark_rows as int, now);
    }
    lemma_chrome_closed(b);
    if b.chrome_open {
        lemma_open_bar_clicked(b, button, hits, now);
    }
}

/// No click, move or turn of the wheel puts the focus on an address bar that is not on screen.
pub proof fn pointer_keeps_focus_on_screen(
    a: AppView,
    button: MouseButton,
    state: ElementState,
    hits: Hits,
    up: bool,
    now: u64,
)
    requires
        a.focus_on_screen(),
    ensures
        a.button_handled(button, state, hits, now).0.focus_on_screen(),
        a.wheel_handled(up, hits).focus_on_screen(),
        a.move_handled(hits).focus_on_screen(),
{
    reveal(AppView::button_handled);
    reveal(AppView::prompt_clicked);
    reveal(AppView::item_clicked);
    reveal(AppView::account_picked);
    let b = a.redrawn();
    let pressed = state == ElementState::Pressed;
    lemma_modal_closed(b, true);
    lemma_modal_closed(b, false);
    if let Some(i) = hits.item {
        lemma_ctx_chosen(b, i as int, now);
    }
    lemma_plain_button(a, button, pressed, hits, now);
    lemma_plain_button(AppView { ac_menu: None, ..b }, button, pressed, hits, now);
    reveal(AppView::wheel_handled);
    reveal(AppView::move_handled);
    reveal(AppView::list_hovered);
    reveal(AppView::menu_hovered);
    reveal(AppView::bar_hovered);
}

proof fn lemma_form_seen(a: AppView, event: FormEventView)
    requires
        a.focus_on_screen(),
    ensures
        a.form_seen(event).0.focus_on_screen(),
{
    reveal(AppView::form_seen);
    reveal(AppView::field_reported);
    reveal(AppView::accounts_wanted);
}

proof fn lemma_reports_taken(a: AppView, n: nat)
    requires
        a.focus_on_screen(),
    ensures
        a.reports_taken(n).focus_on_screen(),
    decreases n,
{
    if n > 0 {
        reveal(AppView::report_taken);
        let rest = HostView { form_events: a.host.form_events.drop_first(), ..a.host };
        lemma_form_seen(a.with_host(rest), a.host.form_events[0]);
        lemma_reports_taken(a.report_taken(), (n - 1) as nat);
    }
}

proof fn lemma_news_taken(a: AppView)
    requires
        a.focus_on_screen(),
    ensures
        a.news_taken().focus_on_screen(),
{
    reveal(AppView::news_taken);
    reveal(AppView::navigation_noted);
    lemma_synced(a.navigation_noted());
    lemma_persisted(a.navigation_noted().page_synced());
}

proof fn lemma_spun(a: AppView, now: u64)
    requires
        a.focus_on_screen(),
    ensures
        a.spun(now).focus_on_screen(),
{
    reveal(AppView::spun);
    reveal(AppView::pumped);
    reveal(AppView::prompted);
    reveal(AppView::modal_synced);
    reveal(AppView::menu_asked);
    reveal(AppView::ctx_opened);
    reveal(AppView::download_noted);
    let c = a.pumped(now).prompted().menu_asked();
    assert(c.focus_on_screen());
    lemma_page_opened(
        c.with_host(HostView { download_started: false, ..c.host }),
        "cce://downloads"@,
        None,
    );
    let d = c.download_noted();
    lemma_news_taken(d);
    lemma_reports_taken(d, d.host.form_events.len());
    lemma_reports_taken(d.news_taken(), d.news_taken().host.form_events.len());
}

/// No message puts the focus on an address bar that is not on screen, nor do other settings.
pub proof fn messages_keep_focus_on_screen(
    a: AppView,
    msg: MessageView,
    existing: Option<Seq<char>>,
    now: u64,
    focused: bool,
    new: SettingsView,
    accounts_on: bool,
)
    requires
        a.focus_on_screen(),
    ensures
        a.updated(msg, existing, now).focus_on_screen(),
        a.focus_changed(focused, new, accounts_on).focus_on_screen(),
{
    reveal(AppView::updated);
    reveal(AppView::index_taken);
    reveal(AppView::account_filled);
    reveal(AppView::launch_answered);
    lemma_spun(a, now);
    lemma_new_opened(a);
    if let MessageView::OpenExternal(Some(arg)) = msg {
        if let Some(u) = crate::address::argument_url(arg, existing, a.settings.search_prefix) {
            lemma_tab_opened(a, u);
        }
    }
    reveal(AppView::focus_changed);
    reveal(AppView::settings_taken);
    reveal(AppView::accounts_switched);
}

/// The browser starts with its bar folded away and without the focus on it.
pub proof fn launches_start_on_the_page(
    host: HostView,
    settings: SettingsView,
    accounts_on: bool,
    last: Option<Seq<char>>,
    pages: ProtocolView,
)
    ensures
        !launched(host, settings, accounts_on, last, pages).chrome_open,
        launched(host, settings, accounts_on, last, pages).focus_on_screen(),
{
    reveal(launched);
}

/// Folding the bar away takes its menu and the focus of its field with it.
pub proof fn folding_takes_all(a: AppView)
    ensures
        !a.chrome_closed().chrome_open,
        !a.chrome_closed().url_focused,
        a.chrome_closed().bm_menu is None,
{
    lemma_chrome_closed(a);
}

// ---------------------------------------------------------------------------------------------
// What the chrome shows, and what is saved
// ---------------------------------------------------------------------------------------------

/// Text that is being typed into the address bar survives whatever the page reports.
pub proof fn typing_survives_news(a: AppView)
    requires
        a.url_focused,
    ensures
        a.page_synced().url == a.url,
        a.page_synced().url_focused,
{
    reveal(AppView::page_synced);
    reveal(AppView::favorites_refreshed);
}

/// After the page's state is taken over, the strip shows what its store holds.
pub proof fn strip_shows_its_store(a: AppView)
    ensures
        a.page_synced().favs == strip(a.pages.favorites.entries),
{
    reveal(AppView::page_synced);
    reveal(AppView::favorites_refreshed);
}

impl AppView {
    /// The open tabs are what was last written, or what is written next.
    pub open spec fn saved(self) -> bool {
        self.last == Some(self.session_now()) || (self.host.outbox.len() > 0
            && self.host.outbox.last() == ActionView::SaveSession(self.session_now()))
    }
}

/// Opening, closing or showing a tab leaves the open tabs saved, or about to be.
pub proof fn tab_changes_are_saved(a: AppView, u: UrlView, i: int, link: Seq<char>, now: u64)
    ensures
        url_parse(link) is Some ==> a.ctx_done(CtxActionView::OpenInTab(link), now).saved(),
        a.tab_opened(u).saved(),
        a.blank_opened(u).saved(),
        a.tab_closed(i).0.saved(),
        a.tab_switched(i).saved(),
{
    reveal(AppView::tab_opened);
    reveal(AppView::blank_opened);
    reveal(AppView::tab_closed);
    reveal(AppView::tab_switched);
    reveal(AppView::tabs_changed);
    reveal(AppView::ctx_done);
    reveal(AppView::link_opened);
    reveal(AppView::persisted);
}

/// A blank tab is not saved.
pub proof fn blank_tabs_are_not_saved(tabs: Seq<TabView>, active: int, n: nat)
    requires
        n <= tabs.len(),
    ensures
        saved_tabs(tabs, active, n).len() <= n,
        forall|i: int|
            0 <= i < saved_tabs(tabs, active, n).len() ==> (#[trigger] saved_tabs(
                tabs,
                active,
                n,
            )[i]).0 != "about:blank"@,
    decreases n,
{
    if n > 0 {
        blank_tabs_are_not_saved(tabs, active, (n - 1) as nat);
    }
}

/// Closing the last tab saves the empty set and ends the browser, so that the next launch does not
/// restore what was closed.
pub proof fn closing_the_last_ends(a: AppView)
    requires
        a.host.tabs.len() == 1,
    ensures
        a.tab_closed(0).1 == Some(MessageView::Quit),
        a.tab_closed(0).0.session_now() == Seq::<char>::empty(),
        a.tab_closed(0).0.saved(),
{
    reveal(AppView::tab_closed);
    reveal(AppView::persisted);
    let b = a.with_host(a.host.closed(0));
    assert(b.host.tabs.len() == 0);
    assert(saved_tabs(b.host.tabs, b.host.active as int, 0) =~= Seq::empty());
}

/// An internal page that a tab is on already is shown there, and no tab is opened for it.
pub proof fn internal_pages_are_reused(a: AppView, page: Seq<char>, parsed: Option<UrlView>, k: int)
    requires
        parsed is Some,
        0 <= k < a.host.tabs.len(),
        on_page(a.host.tabs[k], page),
        a.host.tabs.len() <= usize::MAX,
    ensures
        ({
            let b = a.internal_opened(page, parsed);
            &&& b.host.tabs == a.host.tabs
            &&& on_page(b.host.tab(), page)
            &&& b.host.outbox.last() == ActionView::Reload(b.host.active)
        }),
{
    reveal(AppView::internal_opened);
    reveal(AppView::tab_switched);
    reveal(AppView::tabs_changed);
    reveal(AppView::persisted);
    reveal(AppView::page_synced);
    reveal(AppView::favorites_refreshed);
    lemma_tab_on(a.host.tabs, page, 0, k);
}

proof fn lemma_tab_on(tabs: Seq<TabView>, page: Seq<char>, i: int, k: int)
    requires
        0 <= i <= k < tabs.len(),
        on_page(tabs[k], page),
    ensures
        i <= tab_on(tabs, page, i) <= k,
        on_page(tabs[tab_on(tabs, page, i)], page),
    decreases k - i,
{
    if !on_page(tabs[i], page) {
        lemma_tab_on(tabs, page, i + 1, k);
    }
}

} // verus!
