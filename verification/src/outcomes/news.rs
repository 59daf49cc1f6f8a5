//! What the engine's news, messages and launches come to.

use vstd::prelude::*;

use crate::action::ActionView;
use crate::address::argument_url;
use crate::browser::launch::{all_opened, launch_host, launched, start_page};
use crate::browser::state::AppView;
use crate::instance::{command_of, command_text, first_line, socket_of};
use crate::message::MessageView;
use crate::outcomes::addresses::{schemes_reach_the_pages, tight, trimming_takes_white_alone};
use crate::outcomes::listings::visits_are_added_last;
use crate::outcomes::tabs::{
    in_step, new_tabs_are_for_typing, tabs_open_last, the_chrome_follows_the_page,
};
use crate::outcomes::menus::honest;
use crate::pages::{recorded, strip, LogView};
use crate::protocol::ProtocolView;
use crate::settings::{ColorScheme, SettingsView};
use crate::store::EntryView;
use crate::text::lemma_index_of_is;
use crate::weburl::{one_line, url_parse, UrlView};
use crate::wpe::host::{completed, synced_tab, visits, wake_after, HostView, TabView};

verus! {

// ---------------------------------------------------------------------------------------------
// Reports
// ---------------------------------------------------------------------------------------------

/// What a page view reports of its page is what its tab is once the tabs are brought up to date: the title,
/// the address and whether it loads. No other tab changes, and what was reported is not taken twice.
pub proof fn tabs_become_what_was_reported(
    h: HostView,
    i: int,
    title: Option<Seq<char>>,
    url: Option<UrlView>,
    loading: bool,
    j: int,
)
    requires
        0 <= i < h.tabs.len(),
    ensures
        ({
            let s = h.noted(i, title, url, loading).synced();
            let t = s.tabs[i];
            &&& s.tabs.len() == h.tabs.len()
            &&& title is Some && (title->0).len() > 0 ==> t.title == title
            &&& title is None || (title->0).len() == 0 ==> t.title is None
            &&& url is Some ==> t.url == url
            &&& url is None && h.tabs[i].signals.url is Some ==> t.url == h.tabs[i].signals.url
            &&& t.loading == loading
            &&& t.image == h.tabs[i].image
            &&& !t.signals.dirty
            &&& 0 <= j < h.tabs.len() && j != i && !h.tabs[j].signals.dirty ==> s.tabs[j] == h.tabs[j]
            &&& s.active == h.active
            &&& s.outbox == h.outbox
            &&& h.noted(i, title, url, loading).any_dirty()
        }),
{
    assert(h.noted(i, title, url, loading).tabs[i].signals.dirty);
}

proof fn lemma_no_visit(tabs: Seq<TabView>, n: nat, h: LogView, enabled: bool, now: u64)
    requires
        n <= tabs.len(),
        !enabled || (forall|j: int| 0 <= j < n ==> !completed(#[trigger] tabs[j])),
    ensures
        visits(tabs, n, h, enabled, now) == h,
    decreases n,
{
    if n > 0 {
        lemma_no_visit(tabs, (n - 1) as nat, h, enabled, now);
        assert(!enabled || !completed(tabs[n - 1]));
    }
}

proof fn lemma_one_visit(tabs: Seq<TabView>, n: nat, k: int, h: LogView, now: u64)
    requires
        0 <= k < n <= tabs.len(),
        forall|j: int| 0 <= j < n && j != k ==> !completed(#[trigger] tabs[j]),
    ensures
        visits(tabs, n, h, true, now) == visits(tabs, (k + 1) as nat, h, true, now),
    decreases n,
{
    if n > k + 1 {
        assert(!completed(tabs[n - 1]));
        lemma_one_visit(tabs, (n - 1) as nat, k, h, now);
    }
}

/// A page that has loaded is recorded at the end of the history, with its address, its title and the time;
/// where the settings say that visits are not recorded, none is, and neither is one of the browser's own
/// pages, or a page that was the last already.
#[verifier::rlimit(40)]
pub proof fn loads_are_recorded(a: AppView, k: int, u: UrlView, now: u64)
    requires
        0 <= k < a.host.tabs.len(),
        a.host.tabs[k].loading,
        a.host.tabs[k].signals.dirty,
        !a.host.tabs[k].signals.loading,
        a.host.tabs[k].signals.url == Some(u),
        forall|j: int| 0 <= j < a.host.tabs.len() && j != k ==> !completed(#[trigger] a.host.tabs[j]),
        one_line(u.text),
        a.host.tabs[k].signals.title is Some ==> one_line(a.host.tabs[k].signals.title->0),
    ensures
        ({
            let before = a.pages.history.entries;
            let after = a.pumped(now).pages.history.entries;
            let title = match a.host.tabs[k].signals.title {
                Some(t) => t,
                None => Seq::empty(),
            };
            let own = "cce:"@.is_prefix_of(u.text) || u.text == "about:blank"@;
            &&& !a.host.history_enabled ==> after == before
            &&& own ==> after == before
            &&& before.len() > 0 && before.last().url == u.text ==> after == before
            &&& a.host.history_enabled && !own && (before.len() == 0 || before.last().url != u.text)
                ==> after == before.push((EntryView { ts: now, url: u.text, title }))
            &&& a.pumped(now).pages.bookmarks == a.pages.bookmarks
            &&& a.pumped(now).pages.favorites == a.pages.favorites
        }),
{
    reveal(AppView::pumped);
    let h = a.pages.history;
    let title = match a.host.tabs[k].signals.title {
        Some(t) => t,
        None => Seq::empty(),
    };
    if !a.host.history_enabled {
        lemma_no_visit(a.host.tabs, a.host.tabs.len(), h, false, now);
    } else {
        lemma_one_visit(a.host.tabs, a.host.tabs.len(), k, h, now);
        assert forall|j: int| 0 <= j < k implies !completed(#[trigger] a.host.tabs[j]) by {}
        lemma_no_visit(a.host.tabs, k as nat, h, true, now);
        assert(one_line(title));
        visits_are_added_last(h, u.text, title, now);
    }
}

/// A page that has not finished loading is not recorded, nor is one that had loaded before.
pub proof fn nothing_else_is_recorded(a: AppView, now: u64)
    requires
        forall|j: int|
            0 <= j < a.host.tabs.len() ==> {
                let t = #[trigger] a.host.tabs[j];
                !t.loading || !t.signals.dirty || t.signals.loading
            },
    ensures
        a.pumped(now).pages.history == a.pages.history,
{
    reveal(AppView::pumped);
    assert forall|j: int| 0 <= j < a.host.tabs.len() implies !completed(#[trigger] a.host.tabs[j]) by {
        let t = a.host.tabs[j];
    }
    lemma_no_visit(
        a.host.tabs,
        a.host.tabs.len(),
        a.pages.history,
        a.host.history_enabled,
        now,
    );
}

/// The engine is looked after again when it asks, but never sooner than four thousandths of a second and never
/// later than a quarter, and after a tenth where it does not ask.
pub proof fn the_engine_is_looked_after(t: u64)
    ensures
        4 <= t <= 250 ==> wake_after(Some(t)) == t,
        t < 4 ==> wake_after(Some(t)) == 4,
        t > 250 ==> wake_after(Some(t)) == 250,
        wake_after(None) == 100,
{
}

// ---------------------------------------------------------------------------------------------
// News
// ---------------------------------------------------------------------------------------------

/// A menu that the page asked for opens, once; a download that started shows the downloads, once; and another
/// address closes the account list.
pub proof fn news_is_taken_once(a: AppView)
    ensures
        a.host.context_menu is Some ==> a.menu_asked() == (AppView {
            rebuild: true,
            host: HostView { context_menu: None, ..a.host },
            ctx_menu: a.ctx_opened(a.host.context_menu->0).ctx_menu,
            ..a
        }),
        a.host.context_menu is None ==> a.menu_asked() == a,
        a.host.download_started ==> a.download_noted() == (AppView {
            host: HostView { download_started: false, ..a.host },
            ..a
        }).page_opened("cce://downloads"@),
        !a.host.download_started ==> a.download_noted() == a,
        ({
            let url = a.host.tabs[a.host.active as int].url;
            let b = a.navigation_noted();
            &&& url is Some && a.nav_url != Some((url->0).text) ==> b.ac_menu is None && b.nav_url
                == Some((url->0).text)
            &&& url is Some && a.nav_url == Some((url->0).text) ==> b == a
            &&& b == (AppView { ac_menu: b.ac_menu, nav_url: b.nav_url, ..a })
        }),
{
    reveal(AppView::menu_asked);
    reveal(AppView::download_noted);
    reveal(AppView::navigation_noted);
    reveal(AppView::ctx_opened);
}

/// What the watcher reported is taken in the order in which it was reported, all of it.
pub proof fn reports_are_taken_in_order(a: AppView)
    requires
        a.host.form_events.len() == 1,
    ensures
        ({
            let rest = AppView { host: HostView { form_events: Seq::empty(), ..a.host }, ..a };
            let (b, draw) = rest.form_seen(a.host.form_events[0]);
            a.reports_taken(1) == (if draw {
                AppView { rebuild: true, ..b }
            } else {
                b
            })
        }),
{
    reveal(AppView::report_taken);
    reveal_with_fuel(AppView::reports_taken, 2);
    assert(a.host.form_events.drop_first() =~= Seq::empty());
}

/// Once the engine has run, the chrome shows the page as it was last reported.
pub proof fn the_chrome_shows_the_news(a: AppView)
    ensures
        in_step(a.news_taken()),
        a.news_taken().host.tabs == a.host.tabs,
        a.news_taken().host.active == a.host.active,
{
    reveal(AppView::news_taken);
    reveal(AppView::navigation_noted);
    reveal(AppView::persisted);
    the_chrome_follows_the_page(a.navigation_noted());
}

// ---------------------------------------------------------------------------------------------
// Launches
// ---------------------------------------------------------------------------------------------

/// A later launch opens its argument in a new tab, and without one a new tab for typing; an argument that
/// means nothing opens none. The window comes to the user each time.
#[verifier::rlimit(40)]
pub proof fn launches_open_their_argument(
    a: AppView,
    arg: Seq<char>,
    existing: Option<Seq<char>>,
    now: u64,
)
    requires
        a.host.wf(),
        a.host.tabs.len() < usize::MAX,
    ensures
        ({
            let b = a.updated(MessageView::OpenExternal(Some(arg)), existing, now);
            let meant = argument_url(arg, existing, a.settings.search_prefix);
            &&& b.rebuild
            &&& b.host.outbox.last() == ActionView::RaiseWindow
            &&& meant is Some ==> b.host.tabs.len() == a.host.tabs.len() + 1 && b.host.tabs.last().url
                == meant && b.host.active == a.host.tabs.len() && b.host.tabs.drop_last() == a.host.tabs
            &&& meant is None ==> b.host.tabs == a.host.tabs && b.host.active == a.host.active
        }),
        ({
            let b = a.updated(MessageView::OpenExternal(None), existing, now);
            let blank = url_parse("about:blank"@);
            &&& b.rebuild
            &&& b.host.outbox.last() == ActionView::RaiseWindow
            &&& blank is Some ==> b.host.tabs.len() == a.host.tabs.len() + 1 && b.host.tabs.last().url
                == blank && b.host.active == a.host.tabs.len() && b.url_focused && b.chrome_open
        }),
{
    reveal(AppView::updated);
    reveal(AppView::launch_answered);
    let meant = argument_url(arg, existing, a.settings.search_prefix);
    if meant is Some {
        tabs_open_last(a, meant->0);
        let c = a.tab_opened(meant->0);
        assert(c.host.tabs.drop_last() =~= c.host.tabs.take(a.host.tabs.len() as int));
    }
    if url_parse("about:blank"@) is Some {
        new_tabs_are_for_typing(a, url_parse("about:blank"@)->0);
    }
}

/// The line that a later launch sends to the browser that runs asks it for what the launch was given: the file
/// that its argument names, else the argument, or a new tab.
#[verifier::rlimit(40)]
pub proof fn launches_are_understood(arg: Seq<char>, absolute: Seq<char>)
    requires
        tight(arg),
        tight(absolute),
        one_line(arg),
        one_line(absolute),
    ensures
        command_text(Some(arg), None) == "open "@ + arg + "\n"@,
        command_text(Some(arg), Some(absolute)) == "open "@ + absolute + "\n"@,
        command_text(None, None) == "new-tab"@ + "\n"@,
        command_of("open "@ + arg) == Some(MessageView::OpenExternal(Some(arg))),
        command_of("new-tab"@) == Some(MessageView::OpenExternal(None)),
        first_line("open "@ + arg + "\n"@) == "open "@ + arg + "\n"@,
{
    reveal_strlit("open ");
    reveal_strlit("new-tab");
    reveal_strlit("\n");
    assert("\n"@ =~= seq!['\n']);
    let line = "open "@ + arg;
    assert("open "@.is_prefix_of(line));
    assert(line.skip(5) =~= arg);
    trimming_takes_white_alone(arg, Seq::empty(), Seq::empty());
    assert(Seq::<char>::empty() + arg + Seq::<char>::empty() =~= arg);
    assert(!"open "@.is_prefix_of("new-tab"@)) by {
        assert("new-tab"@[0] == 'n' && "open "@[0] == 'o');
    }
    let whole = line + "\n"@;
    assert forall|j: int| 0 <= j < line.len() implies whole[j] != '\n' by {
        if j >= 5 {
            assert(whole[j] == arg[j - 5]);
            assert(arg.contains(arg[j - 5]));
        } else {
            assert(whole[j] == "open "@[j]);
        }
    }
    lemma_index_of_is(whole, '\n', line.len() as int);
    assert(whole.take(line.len() as int + 1) =~= whole);
}

/// Browsers on different displays have sockets of their own.
pub proof fn sockets_are_apart(a: Seq<char>, b: Seq<char>)
    requires
        a.len() > 0,
        b.len() > 0,
    ensures
        socket_of(Some(a)) == "/tmp/cce-browser-"@ + a + ".sock"@,
        socket_of(None) == "/tmp/cce-browser.sock"@,
        socket_of(Some(Seq::empty())) == socket_of(None),
        socket_of(Some(a)) == socket_of(Some(b)) ==> a == b,
        socket_of(Some(a)) != socket_of(None),
{
    reveal_strlit("/tmp/cce-browser-");
    reveal_strlit("/tmp/cce-browser.sock");
    reveal_strlit(".sock");
    let x = socket_of(Some(a));
    let y = socket_of(Some(b));
    if x == y {
        assert(x.subrange(17, x.len() - 5) =~= a);
        assert(y.subrange(17, y.len() - 5) =~= b);
    }
    assert(x[16] == '-');
    assert("/tmp/cce-browser.sock"@[16] == '.');
}

/// A launch opens the tabs that were saved, in order, shows the one that was shown, and its argument in a tab
/// on top of them.
pub proof fn launches_restore_what_was_open(
    saved: Seq<UrlView>,
    active: int,
    arg: UrlView,
    start: UrlView,
    i: int,
)
    requires
        0 < saved.len() < usize::MAX,
        0 <= active < saved.len(),
        0 <= i < saved.len(),
    ensures
        ({
            let h = launch_host(saved, active, None, start);
            let g = launch_host(saved, active, Some(arg), start);
            &&& h.tabs.len() == saved.len()
            &&& h.tabs[i].url == Some(saved[i])
            &&& h.active == active
            &&& g.tabs.len() == saved.len() + 1
            &&& g.tabs[i].url == Some(saved[i])
            &&& g.tabs.last().url == Some(arg)
            &&& g.active == saved.len()
        }),
        ({
            let h = launch_host(Seq::empty(), active, None, start);
            &&& h.tabs.len() == 1
            &&& h.tabs[0].url == Some(start)
            &&& h.active == 0
        }),
{
    reveal(launch_host);
    lemma_all_opened(saved, saved.len());
}

proof fn lemma_all_opened(urls: Seq<UrlView>, n: nat)
    requires
        n <= urls.len() < usize::MAX,
    ensures
        ({
            let h = all_opened(urls, n);
            &&& h.tabs.len() == n
            &&& forall|i: int| 0 <= i < n ==> (#[trigger] h.tabs[i]).url == Some(urls[i])
            &&& n > 0 ==> h.active == n - 1
            &&& n == 0 ==> h.active == usize::MAX
        }),
    decreases n,
{
    if n > 0 {
        lemma_all_opened(urls, (n - 1) as nat);
    }
}

/// A launch without saved tabs starts on its argument, else on the homepage, else on the standard page.
pub proof fn launches_start_somewhere(arg: Option<UrlView>, home: Option<UrlView>, usual: Option<UrlView>)
    ensures
        arg is Some ==> start_page(arg, home, usual) == arg,
        arg is None && home is Some ==> start_page(arg, home, usual) == home,
        arg is None && home is None ==> start_page(arg, home, usual) == usual,
{
}

/// A browser that was launched shows the address of its page and the favorites, with the bar folded away, and
/// watches login fields where accounts are offered.
pub proof fn launches_show_the_page(
    host: HostView,
    settings: SettingsView,
    accounts_on: bool,
    last: Option<Seq<char>>,
    pages: ProtocolView,
    u: UrlView,
)
    requires
        host.tabs[host.active as int].url == Some(u),
        u.text != "about:blank"@,
    ensures
        ({
            let a = launched(host, settings, accounts_on, last, pages);
            &&& a.url.text == u.text
            &&& a.pages == pages
            &&& a.settings == settings
            &&& a.accounts_on == accounts_on
            &&& a.favs == strip(pages.favorites.entries)
            &&& !a.chrome_open && !a.url_focused && !a.exit
            &&& a.modal is None && a.ctx_menu is None && a.bm_menu is None && a.ac_menu is None
            &&& a.host.outbox.last() == ActionView::WatchForms(accounts_on)
            &&& a.last == last
        }),
{
    reveal(launched);
}

/// Offering accounts or not is told to the pages, and no list stays open once they are not offered.
pub proof fn accounts_are_switched(a: AppView, on: bool)
    ensures
        on == a.accounts_on ==> a.accounts_switched(on) == a,
        on != a.accounts_on ==> a.accounts_switched(on).host.outbox == a.host.outbox.push(
            ActionView::WatchForms(on),
        ) && a.accounts_switched(on).accounts_on == on,
        on != a.accounts_on && !on ==> a.accounts_switched(on).ac_menu is None,
{
    reveal(AppView::accounts_switched);
}

/// Settings are taken up when the window gains the focus, and not when it loses it.
pub proof fn settings_are_taken_up(a: AppView, new: SettingsView, accounts_on: bool)
    ensures
        a.focus_changed(false, new, accounts_on) == a,
        !(new.says(a.settings) && accounts_on == a.accounts_on) ==> a.focus_changed(
            true,
            new,
            accounts_on,
        ).settings == new && a.focus_changed(true, new, accounts_on).accounts_on == accounts_on
            && a.focus_changed(true, new, accounts_on).rebuild,
{
    reveal(AppView::focus_changed);
    reveal(AppView::settings_taken);
    reveal(AppView::accounts_switched);
}

/// Once the engine has run: a dialog that waits is on screen, a menu that was asked for is open, every tab is what was
/// reported of it, and the chrome shows the one that is shown.
#[verifier::rlimit(30)]
pub proof fn the_engines_news_is_taken(
    a: AppView,
    existing: Option<Seq<char>>,
    now: u64,
    i: int,
    k: int,
)
    requires
        !a.host.download_started,
        a.host.form_events.len() == 0,
        0 <= i < a.host.tabs.len(),
        a.host.active < a.host.tabs.len(),
    ensures
        ({
            let b = a.updated(MessageView::Spin, existing, now);
            let t = a.host.tabs[i];
            &&& a.modal is None && a.host.dialog is Some ==> b.modal is Some && (b.modal->0).message == (
            a.host.dialog->0).message && (b.modal->0).has_cancel == (a.host.dialog->0).has_cancel
            &&& a.modal is None && a.host.dialog is None && a.host.auth is Some ==> b.modal is Some && (
            b.modal->0).fields.len() == 2
            &&& a.modal is Some ==> b.modal == a.modal
            &&& a.host.context_menu is Some ==> b.ctx_menu is Some && b.host.context_menu is None
            &&& a.host.context_menu is Some && 0 <= k < (b.ctx_menu->0).len() ==> honest(
                (b.ctx_menu->0)[k],
                a.host.context_menu->0,
            )
            &&& a.host.context_menu is None ==> b.ctx_menu == a.ctx_menu
            &&& b.host.tabs.len() == a.host.tabs.len()
            &&& b.host.active == a.host.active
            &&& t.signals.dirty ==> b.host.tabs[i].title == t.signals.title && b.host.tabs[i].loading
                == t.signals.loading && (t.signals.url is Some ==> b.host.tabs[i].url == t.signals.url)
            &&& !t.signals.dirty ==> b.host.tabs[i] == t
            &&& a.host.new_frame || t.signals.dirty ==> in_step(b) && b.rebuild
            &&& !b.host.new_frame
            &&& b.pages.history == a.pumped(now).pages.history
        }),
{
    reveal(AppView::updated);
    reveal(AppView::spun);
    reveal(AppView::pumped);
    reveal(AppView::prompted);
    reveal(AppView::modal_synced);
    reveal(AppView::download_noted);
    let p = a.pumped(now);
    let q = p.prompted();
    let m = q.menu_asked();
    news_is_taken_once(q);
    news_is_taken_once(m);
    if a.host.context_menu is Some {
        crate::outcomes::menus::the_menu_opens(q, a.host.context_menu->0);
    }
    let d = m.download_noted();
    lemma_news_keeps(d);
    assert(p.host.tabs[i] == synced_tab(a.host.tabs[i]));
    if a.host.tabs[i].signals.dirty {
        assert(a.host.any_dirty());
    }
    let s = if a.has_news() {
        d.news_taken()
    } else {
        d
    };
    assert(s.host.form_events.len() == 0);
    assert(s.reports_taken(0) == s);
    the_chrome_shows_the_news(d);
}

proof fn lemma_news_keeps(a: AppView)
    ensures
        ({
            let b = a.news_taken();
            &&& b.modal == a.modal
            &&& b.ctx_menu == a.ctx_menu
            &&& b.host.form_events == a.host.form_events
            &&& b.host.context_menu == a.host.context_menu
            &&& b.host.new_frame == a.host.new_frame
            &&& b.pages == a.pages
        }),
{
    reveal(AppView::news_taken);
    reveal(AppView::navigation_noted);
    reveal(AppView::persisted);
    the_chrome_follows_the_page(a.navigation_noted());
}

/// A line that asks for neither an address nor a new tab asks for nothing.
pub proof fn other_lines_ask_for_nothing(line: Seq<char>)
    requires
        !"open "@.is_prefix_of(line),
        line != "new-tab"@,
    ensures
        command_of(line) is None,
{
}

/// A load has just ended where its tab was loading and its page now says that it is not.
pub proof fn loads_end_once(t: TabView)
    ensures
        completed(t) <==> t.loading && t.signals.dirty && !t.signals.loading,
        !completed(synced_tab(t)),
{
}

/// Settings that are taken up reach the engine: whether visits are recorded, and the colors.
pub proof fn settings_that_are_taken_up_reach_the_engine(
    a: AppView,
    new: SettingsView,
    accounts_on: bool,
)
    requires
        !(new.says(a.settings) && accounts_on == a.accounts_on),
    ensures
        ({
            let b = a.settings_taken(new, accounts_on);
            &&& b.settings == new
            &&& b.host.history_enabled == new.history
            &&& b.host.force_dark == (new.color_scheme == ColorScheme::ForceDark)
            &&& b.host.outbox.contains(
                ActionView::PreferDark(new.color_scheme == ColorScheme::Dark),
            )
        }),
{
    reveal(AppView::settings_taken);
    reveal(AppView::accounts_switched);
    let c = a.accounts_switched(accounts_on);
    schemes_reach_the_pages(c.host, new);
    let b = a.settings_taken(new, accounts_on);
    assert(b.host.outbox[c.host.outbox.len() as int] == ActionView::PreferDark(
        new.color_scheme == ColorScheme::Dark,
    ));
}

/// A browser that was launched does with visits and colors what its settings say.
pub proof fn launches_apply_the_settings(
    host: HostView,
    settings: SettingsView,
    accounts_on: bool,
    last: Option<Seq<char>>,
    pages: ProtocolView,
)
    ensures
        ({
            let a = launched(host, settings, accounts_on, last, pages);
            &&& a.host.history_enabled == settings.history
            &&& a.host.force_dark == (settings.color_scheme == ColorScheme::ForceDark)
            &&& a.host.tabs == host.tabs
            &&& a.host.outbox.contains(
                ActionView::PreferDark(settings.color_scheme == ColorScheme::Dark),
            )
        }),
{
    reveal(launched);
    schemes_reach_the_pages(host, settings);
    let a = launched(host, settings, accounts_on, last, pages);
    assert(a.host.outbox[host.outbox.len() as int] == ActionView::PreferDark(
        settings.color_scheme == ColorScheme::Dark,
    ));
}

} // verus!
