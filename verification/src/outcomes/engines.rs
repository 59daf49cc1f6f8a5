//! What the two engines' hosts do: what is done to the tab that is shown, what is taken from a page, and what is
//! remembered of it.

use vstd::prelude::*;

use crate::action::ActionView;
use crate::message::EditingCommand;
use crate::outcomes::logins::fills;
use crate::pages::{recorded, Bookmarks, Favorites, History};
use crate::store::{has_entry, EntryView};
use crate::weburl::{one_line, url_parse, Url, UrlView};
use crate::webview::ServoHost;
use crate::wpe::formwatch::{FormEvent, RESCAN_JS};
use crate::wpe::host::{
    context_opt, ContextMenuInfo, DialogKind, HostView, PendingAuth, PendingDialog, WebKitHost,
};

verus! {

/// Whether something was done on a host and nothing else happened.
pub open spec fn host_did(before: WebKitHost, what: Seq<ActionView>, after: WebKitHost) -> bool {
    after@ == (HostView { outbox: before@.outbox + what, ..before@ })
}

proof fn lemma_pushed(o: Seq<ActionView>, x: ActionView)
    ensures
        o.push(x) == o + seq![x],
{
    assert(o.push(x) =~= o + seq![x]);
}

// ---------------------------------------------------------------------------------------------
// The tab that is shown
// ---------------------------------------------------------------------------------------------

/// Loading loads the address in the tab that is shown.
pub proof fn loading_loads(h: &mut WebKitHost, url: Url)
    requires
        call_ensures(WebKitHost::load, (h, &url), ()),
    ensures
        host_did(*old(h), seq![ActionView::Load(old(h).active, url@.text)], *final(h)),
{
    lemma_pushed(old(h)@.outbox, ActionView::Load(old(h).active, url@.text));
}

/// Reloading reloads the tab that is shown.
pub proof fn reloading_reloads(h: &mut WebKitHost)
    requires
        call_ensures(WebKitHost::reload, (h,), ()),
    ensures
        host_did(*old(h), seq![ActionView::Reload(old(h).active)], *final(h)),
{
    lemma_pushed(old(h)@.outbox, ActionView::Reload(old(h).active));
}

/// Going back goes back in the tab that is shown.
pub proof fn going_back_goes_back(h: &mut WebKitHost)
    requires
        call_ensures(WebKitHost::back, (h,), ()),
    ensures
        host_did(*old(h), seq![ActionView::Back(old(h).active)], *final(h)),
{
    lemma_pushed(old(h)@.outbox, ActionView::Back(old(h).active));
}

/// Going forward goes forward in the tab that is shown.
pub proof fn going_forward_goes_forward(h: &mut WebKitHost)
    requires
        call_ensures(WebKitHost::forward, (h,), ()),
    ensures
        host_did(*old(h), seq![ActionView::Forward(old(h).active)], *final(h)),
{
    lemma_pushed(old(h)@.outbox, ActionView::Forward(old(h).active));
}

/// An editing command goes to the page that is shown; the clipboard is handed over before a paste, and only then.
pub proof fn editing_goes_to_the_page(h: &mut WebKitHost, c: EditingCommand)
    requires
        call_ensures(WebKitHost::editing_action_cmd, (h, c), ()),
    ensures
        c == EditingCommand::Paste ==> host_did(
            *old(h),
            seq![ActionView::SyncClipboard, ActionView::Edit(old(h).active, c)],
            *final(h),
        ),
        c != EditingCommand::Paste ==> host_did(
            *old(h),
            seq![ActionView::Edit(old(h).active, c)],
            *final(h),
        ),
{
    let o = old(h)@.outbox;
    lemma_pushed(o, ActionView::Edit(old(h).active, c));
    assert(o.push(ActionView::SyncClipboard).push(ActionView::Edit(old(h).active, c)) =~= o + seq![
        ActionView::SyncClipboard,
        ActionView::Edit(old(h).active, c),
    ]);
}

/// A credential goes into the page that is shown, the username first and the password second.
pub proof fn credentials_go_into_the_page(h: &mut WebKitHost, user: &str, pass: &str)
    requires
        call_ensures(WebKitHost::fill_credentials, (h, user, pass), ()),
    ensures
        host_did(
            *old(h),
            seq![ActionView::RunScript(old(h).active, fills(user@, pass@))],
            *final(h),
        ),
{
    lemma_pushed(old(h)@.outbox, ActionView::RunScript(old(h).active, fills(user@, pass@)));
}

/// The watcher of the page that is shown is asked for its field.
pub proof fn the_watcher_is_asked(h: &mut WebKitHost)
    requires
        call_ensures(WebKitHost::request_form_state, (h,), ()),
    ensures
        host_did(*old(h), seq![ActionView::RunScript(old(h).active, RESCAN_JS@)], *final(h)),
{
    lemma_pushed(old(h)@.outbox, ActionView::RunScript(old(h).active, RESCAN_JS@));
}

/// What is known of the tab that is shown is what that tab holds.
pub proof fn the_shown_tab_is_asked(
    h: WebKitHost,
    title: Option<String>,
    url: Option<Url>,
    loading: bool,
    image: Option<(u32, u32, u32)>,
    count: usize,
    active: usize,
)
    requires
        h.active < h.tabs@.len(),
        call_ensures(WebKitHost::title, (&h,), title),
        call_ensures(WebKitHost::url, (&h,), url),
        call_ensures(WebKitHost::loading, (&h,), loading),
        call_ensures(WebKitHost::image, (&h,), image),
        call_ensures(WebKitHost::tab_count, (&h,), count),
        call_ensures(WebKitHost::active_index, (&h,), active),
    ensures
        ({
            let t = h.tabs@[h.active as int];
            &&& title is Some <==> t.title is Some
            &&& title is Some ==> (title->0)@ == (t.title->0)@
            &&& url is Some <==> t.url is Some
            &&& url is Some ==> (url->0)@ == (t.url->0)@
            &&& loading == t.loading
            &&& image == t.image
            &&& count == h.tabs@.len()
            &&& active == h.active
        }),
{
    assert(h@.tabs[h.active as int] == h.tabs@[h.active as int]@);
}

// ---------------------------------------------------------------------------------------------
// What pages report
// ---------------------------------------------------------------------------------------------

/// A report is for the tab that it names: once taken up, the tab has the title, the address and the state that were
/// reported, and a load that ended is recorded with them.
#[verifier::rlimit(40)]
pub proof fn reports_come_through(
    h: &mut WebKitHost,
    g: &mut WebKitHost,
    history: &mut History,
    i: usize,
    title: Option<String>,
    uri: Option<String>,
    loading: bool,
    u: UrlView,
    now: u64,
    r: (bool, bool),
)
    requires
        i < old(h).tabs@.len(),
        call_ensures(WebKitHost::notify, (h, i, title, uri, loading), ()),
        *old(g) == *final(h),
        call_ensures(WebKitHost::pump, (g, history, now), r),
        title is Some && (title->0)@.len() > 0,
        uri is Some && (uri->0)@.len() > 0,
        url_parse((uri->0)@) == Some(u),
    ensures
        final(g)@.tabs[i as int].title == Some((title->0)@),
        final(g)@.tabs[i as int].url == Some(u),
        final(g)@.tabs[i as int].loading == loading,
        final(g)@.active == old(h)@.active,
        final(g)@.outbox == old(h)@.outbox,
        r.1,
{
    crate::outcomes::news::tabs_become_what_was_reported(
        old(h)@,
        i as int,
        Some((title->0)@),
        Some(u),
        loading,
        0,
    );
}

/// A frame becomes the picture of the tab that is shown, and the picture that it replaces is handed back.
pub proof fn frames_are_shown(
    h: &mut WebKitHost,
    pixels: Vec<u8>,
    image: (u32, u32, u32),
    gone: Option<u32>,
    j: int,
)
    requires
        old(h).active < old(h).tabs@.len(),
        call_ensures(WebKitHost::accept_frame, (h, pixels, image), gone),
    ensures
        ({
            let here = old(h).active as int;
            &&& final(h)@.tabs.len() == old(h)@.tabs.len()
            &&& final(h)@.tabs[here].image == Some(image)
            &&& final(h)@.tabs[here].title == old(h)@.tabs[here].title
            &&& final(h)@.tabs[here].url == old(h)@.tabs[here].url
            &&& 0 <= j < old(h)@.tabs.len() && j != here ==> final(h)@.tabs[j] == old(h)@.tabs[j]
            &&& final(h)@.new_frame
            &&& final(h)@.last_frame == Some((pixels@, image.1, image.2))
            &&& old(h)@.tabs[here].image is None ==> gone is None
            &&& old(h)@.tabs[here].image is Some ==> gone == Some(
                (old(h)@.tabs[here].image->0).0,
            )
        }),
{
}

/// The first pixel of the last frame is its first three bytes.
pub proof fn the_first_pixel_is_sampled(h: WebKitHost, r: Option<(u8, u8, u8)>)
    requires
        call_ensures(WebKitHost::sample_pixel, (&h,), r),
        h.last_frame is Some ==> (h.last_frame->0).0@.len() >= 3,
    ensures
        h.last_frame is None ==> r is None,
        h.last_frame is Some ==> r == Some(
            (
                (h.last_frame->0).0@[0],
                (h.last_frame->0).0@[1],
                (h.last_frame->0).0@[2],
            ),
        ),
{
}

/// A dialog of a page waits as what the page said.
pub proof fn dialogs_wait(h: &mut WebKitHost, kind: DialogKind, message: String, default: String)
    requires
        call_ensures(WebKitHost::hold_dialog, (h, kind, Some(message), Some(default)), ()),
    ensures
        ({
            let d = final(h)@.dialog->0;
            &&& final(h)@ == (HostView { dialog: final(h)@.dialog, ..old(h)@ })
            &&& final(h)@.dialog is Some
            &&& d.message == message@
            &&& kind == DialogKind::Prompt ==> d.prompt_default == Some(default@) && d.has_cancel
            &&& kind == DialogKind::Alert ==> d.prompt_default is None && !d.has_cancel
            &&& kind == DialogKind::Confirm || kind == DialogKind::BeforeUnload ==> d.prompt_default is None
                && d.has_cancel
        }),
{
}

/// A challenge waits with the host and the realm that it is for, and whether it is a second try.
pub proof fn challenges_wait(h: &mut WebKitHost, host: String, realm: String, retry: bool)
    requires
        call_ensures(WebKitHost::hold_challenge, (h, Some(host), Some(realm), retry), ()),
    ensures
        ({
            let c = final(h)@.auth->0;
            &&& final(h)@ == (HostView { auth: final(h)@.auth, ..old(h)@ })
            &&& final(h)@.auth is Some
            &&& c.host == host@
            &&& c.realm == realm@
            &&& c.retry == retry
        }),
{
}

/// The answer to a dialog reaches the page, and to a challenge the server: the text of a prompt, the choice of a
/// question, the username and the password.
#[verifier::rlimit(40)]
pub proof fn answers_reach_the_page(
    h: &mut WebKitHost,
    g: &mut WebKitHost,
    ok: bool,
    text: String,
    user: String,
    pass: String,
)
    requires
        old(h)@.dialog is Some,
        old(g)@.auth is Some,
        call_ensures(WebKitHost::respond_dialog, (h, ok, Some(text)), ()),
        call_ensures(WebKitHost::respond_auth, (g, Some((user, pass))), ()),
    ensures
        ({
            let d = old(h)@.dialog->0;
            let before = old(h)@.outbox;
            let after = final(h)@.outbox;
            &&& final(h)@.dialog is None
            &&& d.prompt_default is Some && ok ==> after == before + seq![
                ActionView::PromptText(Some(text@)),
                ActionView::CloseDialog,
            ]
            &&& d.prompt_default is Some && !ok ==> after == before + seq![
                ActionView::PromptText(None),
                ActionView::CloseDialog,
            ]
            &&& d.prompt_default is None && d.has_cancel ==> after == before + seq![
                ActionView::Confirm(ok),
                ActionView::CloseDialog,
            ]
            &&& d.prompt_default is None && !d.has_cancel ==> after == before + seq![
                ActionView::CloseDialog,
            ]
        }),
        final(g)@.auth is None,
        final(g)@.outbox == old(g)@.outbox + seq![ActionView::Authenticate(user@, pass@)],
{
    let before = old(h)@.outbox;
    assert(before.push(ActionView::PromptText(Some(text@))).push(ActionView::CloseDialog) =~= before
        + seq![ActionView::PromptText(Some(text@)), ActionView::CloseDialog]);
    assert(before.push(ActionView::PromptText(None)).push(ActionView::CloseDialog) =~= before + seq![
        ActionView::PromptText(None),
        ActionView::CloseDialog,
    ]);
    assert(before.push(ActionView::Confirm(ok)).push(ActionView::CloseDialog) =~= before + seq![
        ActionView::Confirm(ok),
        ActionView::CloseDialog,
    ]);
    lemma_pushed(before, ActionView::CloseDialog);
    lemma_pushed(old(g)@.outbox, ActionView::Authenticate(user@, pass@));
}

/// What waits is what is seen of it.
pub proof fn what_waits_is_seen(h: WebKitHost, d: Option<PendingDialog>, a: Option<PendingAuth>)
    requires
        call_ensures(WebKitHost::pending_dialog, (&h,), d),
        call_ensures(WebKitHost::pending_auth, (&h,), a),
    ensures
        d is Some <==> h.dialog is Some,
        d is Some ==> (d->0).message@ == (h.dialog->0).message@ && (d->0).has_cancel == (
        h.dialog->0).has_cancel,
        a is Some <==> h.auth is Some,
        a is Some ==> (a->0).host@ == (h.auth->0).host@ && (a->0).realm@ == (h.auth->0).realm@ && (
        a->0).retry == (h.auth->0).retry,
{
    if d is Some {
        assert((d->0)@ == (h.dialog->0)@);
    }
    if a is Some {
        assert((a->0)@ == (h.auth->0)@);
    }
}

/// A menu that was asked for, a download that started and the oldest report of a field are each taken once.
pub proof fn news_leaves_the_host(
    h: &mut WebKitHost,
    g: &mut WebKitHost,
    f: &mut WebKitHost,
    menu: Option<ContextMenuInfo>,
    started: bool,
    event: Option<FormEvent>,
)
    requires
        call_ensures(WebKitHost::take_context_menu, (h,), menu),
        call_ensures(WebKitHost::take_download_started, (g,), started),
        call_ensures(WebKitHost::take_form_event, (f,), event),
    ensures
        context_opt(menu) == old(h)@.context_menu,
        final(h)@ == (HostView { context_menu: None, ..old(h)@ }),
        started == old(g)@.download_started,
        final(g)@ == (HostView { download_started: false, ..old(g)@ }),
        event is Some <==> old(f)@.form_events.len() > 0,
        event is Some ==> (event->0)@ == old(f)@.form_events[0] && final(f)@ == (HostView {
            form_events: old(f)@.form_events.drop_first(),
            ..old(f)@
        }),
{
}

/// What the settings say of visits, of colors and of accounts reaches the engine.
pub proof fn settings_reach_the_engine(
    h: &mut WebKitHost,
    g: &mut WebKitHost,
    f: &mut WebKitHost,
    on: bool,
)
    requires
        call_ensures(WebKitHost::set_history_enabled, (h, on), ()),
        call_ensures(WebKitHost::set_color_scheme_dark, (g, on), ()),
        call_ensures(WebKitHost::set_accounts_enabled, (f, on), ()),
    ensures
        final(h)@ == (HostView { history_enabled: on, ..old(h)@ }),
        host_did(*old(g), seq![ActionView::PreferDark(on)], *final(g)),
        host_did(*old(f), seq![ActionView::WatchForms(on)], *final(f)),
{
    lemma_pushed(old(g)@.outbox, ActionView::PreferDark(on));
    lemma_pushed(old(f)@.outbox, ActionView::WatchForms(on));
}

/// Whether the page that is shown is starred, or a favorite, is whether its address is in the list.
pub proof fn stars_are_for_the_page(
    h: WebKitHost,
    b: Bookmarks,
    v: Favorites,
    starred: bool,
    favorite: bool,
)
    requires
        h.active < h.tabs@.len(),
        call_ensures(WebKitHost::active_bookmarked, (&h, &b), starred),
        call_ensures(WebKitHost::active_favorited, (&h, &v), favorite),
    ensures
        ({
            let url = h@.tabs[h.active as int].url;
            &&& starred <==> url is Some && has_entry(b@.entries, (url->0).text)
            &&& favorite <==> url is Some && has_entry(v@.entries, (url->0).text)
        }),
{
}

/// The star of the page that is shown adds that page, under its title, or takes it away.
pub proof fn the_star_is_switched(h: WebKitHost, b: &mut Bookmarks, now: u64)
    requires
        h.active < h.tabs@.len(),
        h@.tabs[h.active as int].url is Some,
        h@.tabs[h.active as int].title is Some,
        one_line((h@.tabs[h.active as int].url->0).text),
        one_line(h@.tabs[h.active as int].title->0),
        call_ensures(WebKitHost::toggle_bookmark, (&h, b, now), ()),
    ensures
        ({
            let url = (h@.tabs[h.active as int].url->0).text;
            let title = h@.tabs[h.active as int].title->0;
            let own = "cce:"@.is_prefix_of(url) || url == "about:blank"@;
            &&& !own && !has_entry(old(b)@.entries, url) ==> final(b)@.entries == old(b)@.entries.push(
                (EntryView { ts: now, url, title }),
            )
            &&& !own && has_entry(old(b)@.entries, url) ==> final(b)@.entries.len()
                == old(b)@.entries.len() - 1
            &&& own ==> final(b)@.entries == old(b)@.entries
        }),
{
    crate::outcomes::listings::the_star_adds_and_removes(
        old(b)@,
        (h@.tabs[h.active as int].url->0).text,
        h@.tabs[h.active as int].title->0,
        now,
    );
}

// ---------------------------------------------------------------------------------------------
// The other engine
// ---------------------------------------------------------------------------------------------

/// With the other engine, going back and forward go where the page can go, and reloading reloads, in the tab that is
/// shown.
pub proof fn servo_goes_where_it_is_told(
    h: &mut ServoHost,
    g: &mut ServoHost,
    f: &mut ServoHost,
    can: bool,
)
    requires
        call_ensures(ServoHost::back, (h, can), ()),
        call_ensures(ServoHost::forward, (g, can), ()),
        call_ensures(ServoHost::reload, (f,), ()),
    ensures
        can ==> final(h)@ == (crate::webview::HostView {
            outbox: old(h)@.outbox.push(ActionView::Back(old(h).active)),
            ..old(h)@
        }),
        !can ==> final(h)@ == old(h)@,
        can ==> final(g)@ == (crate::webview::HostView {
            outbox: old(g)@.outbox.push(ActionView::Forward(old(g).active)),
            ..old(g)@
        }),
        !can ==> final(g)@ == old(g)@,
        final(f)@ == (crate::webview::HostView {
            outbox: old(f)@.outbox.push(ActionView::Reload(old(f).active)),
            ..old(f)@
        }),
{
}

/// With the other engine, an address is loaded in the tab that is shown unless it is a file to download, and a
/// navigation of a page is let through under the same rule; a file is fetched instead.
pub proof fn servo_loads_pages_and_fetches_files(
    h: &mut ServoHost,
    g: &mut ServoHost,
    url: Url,
    allowed: bool,
)
    requires
        call_ensures(ServoHost::load, (h, &url), ()),
        call_ensures(ServoHost::request_navigation, (g, &url), allowed),
    ensures
        ({
            let file = crate::downloads::downloads(url@);
            &&& !file ==> final(h)@ == (crate::webview::HostView {
                outbox: old(h)@.outbox.push(ActionView::Load(old(h).active, url@.text)),
                ..old(h)@
            })
            &&& file ==> final(h)@.outbox == old(h)@.outbox.push(ActionView::Download(url@.text))
                && final(h)@.download_started
            &&& allowed == !file
            &&& allowed ==> final(g)@ == old(g)@
            &&& file ==> final(g)@.outbox == old(g)@.outbox.push(ActionView::Download(url@.text))
                && final(g)@.download_started
        }),
{
}

/// With the other engine, a new tab comes last and is shown, and loads its address unless that is a file.
pub proof fn servo_opens_tabs(h: &mut ServoHost, url: Url)
    requires
        old(h).active < old(h).tabs@.len(),
        old(h).tabs@.len() < usize::MAX,
        !crate::downloads::downloads(url@),
        call_ensures(ServoHost::open_tab, (h, &url), ()),
    ensures
        final(h)@.tabs.len() == old(h)@.tabs.len() + 1,
        final(h)@.tabs.drop_last() == old(h)@.tabs,
        final(h)@.active == old(h)@.tabs.len(),
        final(h)@.outbox == old(h)@.outbox + seq![
            ActionView::Build(url@.text),
            ActionView::Hide(old(h).active),
            ActionView::Show(old(h).tabs@.len() as usize),
        ],
{
    assert(final(h)@.tabs.drop_last() =~= old(h)@.tabs);
    assert(final(h)@.outbox =~= old(h)@.outbox + seq![
        ActionView::Build(url@.text),
        ActionView::Hide(old(h).active),
        ActionView::Show(old(h).tabs@.len() as usize),
    ]);
}

/// With the other engine, what is observed of a page is noted of its tab and of no other: its title, its address,
/// whether its load is complete, and that it has a new frame.
pub proof fn servo_observes_each_page(
    h: &mut ServoHost,
    g: &mut ServoHost,
    f: &mut ServoHost,
    e: &mut ServoHost,
    i: usize,
    title: String,
    url: Url,
    complete: bool,
    j: int,
)
    requires
        i < old(h).tabs@.len(),
        i < old(g).tabs@.len(),
        i < old(f).tabs@.len(),
        i < old(e).tabs@.len(),
        call_ensures(ServoHost::notify_page_title_changed, (h, i, Some(title)), ()),
        call_ensures(ServoHost::notify_url_changed, (g, i, url), ()),
        call_ensures(ServoHost::notify_load_status_changed, (f, i, complete), ()),
        call_ensures(ServoHost::notify_new_frame_ready, (e, i), ()),
    ensures
        final(h)@.dirty && final(g)@.dirty && final(f)@.dirty && final(e)@.dirty,
        final(h)@.tabs[i as int].signals is Some,
        (final(h)@.tabs[i as int].signals->0).title == Some(title@),
        final(g)@.tabs[i as int].signals is Some,
        (final(g)@.tabs[i as int].signals->0).url == Some(url@),
        final(f)@.tabs[i as int].signals is Some,
        (final(f)@.tabs[i as int].signals->0).loading == Some(!complete),
        final(e)@.tabs[i as int].signals is Some,
        (final(e)@.tabs[i as int].signals->0).frame_ready,
        0 <= j < old(h).tabs@.len() && j != i ==> final(h)@.tabs[j] == old(h)@.tabs[j],
        0 <= j < old(g).tabs@.len() && j != i ==> final(g)@.tabs[j] == old(g)@.tabs[j],
        0 <= j < old(f).tabs@.len() && j != i ==> final(f)@.tabs[j] == old(f)@.tabs[j],
        old(h)@.tabs[i as int].signals is Some ==> (final(h)@.tabs[i as int].signals->0).url == (
        old(h)@.tabs[i as int].signals->0).url,
        old(g)@.tabs[i as int].signals is Some ==> (final(g)@.tabs[i as int].signals->0).title == (
        old(g)@.tabs[i as int].signals->0).title,
{
}

/// With the other engine, once the engine has run each tab is what was observed of its page.
pub proof fn servo_tabs_become_what_was_observed(
    h: &mut ServoHost,
    history: &mut History,
    now: u64,
    r: (bool, bool),
    i: int,
)
    requires
        old(h).active < old(h).tabs@.len(),
        old(h).opened == 0,
        old(h).dirty,
        0 <= i < old(h).tabs@.len(),
        old(h)@.tabs[i].signals is Some,
        call_ensures(ServoHost::pump, (h, history, now), r),
    ensures
        ({
            let s = old(h)@.tabs[i].signals->0;
            let t = final(h)@.tabs[i];
            &&& t.title == s.title
            &&& t.url == s.url
            &&& s.loading is Some ==> t.loading == s.loading->0
            &&& s.loading is None ==> t.loading == old(h)@.tabs[i].loading
            &&& final(h)@.active == old(h)@.active
            &&& !final(h)@.dirty
        }),
{
    assert(old(h)@.adopted_all(0) == old(h)@);
}

/// With the other engine, a page that has loaded is recorded with its address and its title.
pub proof fn servo_records_loads(
    h: &mut ServoHost,
    history: &mut History,
    now: u64,
    r: (bool, bool),
    title: Seq<char>,
    u: UrlView,
)
    requires
        old(h).active == 0,
        old(h).tabs@.len() == 1,
        old(h).opened == 0,
        old(h).dirty,
        old(h).history_enabled,
        old(h)@.tabs[0].loading,
        old(h)@.tabs[0].signals is Some,
        (old(h)@.tabs[0].signals->0).loading == Some(false),
        (old(h)@.tabs[0].signals->0).title == Some(title),
        (old(h)@.tabs[0].signals->0).url == Some(u),
        one_line(u.text),
        one_line(title),
        !"cce:"@.is_prefix_of(u.text),
        u.text != "about:blank"@,
        old(history)@.entries.len() == 0 || old(history)@.entries.last().url != u.text,
        call_ensures(ServoHost::pump, (h, history, now), r),
    ensures
        final(history)@.entries == old(history)@.entries.push(
            (EntryView { ts: now, url: u.text, title }),
        ),
{
    assert(old(h)@.adopted_all(0) == old(h)@);
    reveal_with_fuel(crate::webview::visits, 2);
    crate::outcomes::listings::visits_are_added_last(old(history)@, u.text, title, now);
}

/// Tabs are opened, closed and shown by the host as is said of them.
pub proof fn tabs_are_run(
    h: &mut WebKitHost,
    g: &mut WebKitHost,
    f: &mut WebKitHost,
    url: Url,
    i: usize,
    left: bool,
)
    requires
        call_ensures(WebKitHost::open_tab, (h, url), ()),
        call_ensures(WebKitHost::close_tab, (g, i), left),
        call_ensures(WebKitHost::activate, (f, i), ()),
    ensures
        final(h)@ == old(h)@.opened(url@),
        final(g)@ == old(g)@.closed(i as int),
        left <==> i >= old(g).tabs@.len() || old(g).tabs@.len() > 1,
        final(f)@ == old(f)@.activated(i as int),
        i < old(f).tabs@.len() ==> final(f)@.active == i,
{
}

/// The page that is shown becomes a favorite under its title, or is taken out.
pub proof fn the_favorite_is_switched(h: WebKitHost, v: &mut Favorites, now: u64)
    requires
        h.active < h.tabs@.len(),
        h@.tabs[h.active as int].url is Some,
        h@.tabs[h.active as int].title is Some,
        one_line((h@.tabs[h.active as int].url->0).text),
        one_line(h@.tabs[h.active as int].title->0),
        crate::outcomes::addresses::tight(h@.tabs[h.active as int].title->0),
        call_ensures(WebKitHost::toggle_favorite, (&h, v, now), ()),
    ensures
        ({
            let url = (h@.tabs[h.active as int].url->0).text;
            let title = h@.tabs[h.active as int].title->0;
            let own = "cce:"@.is_prefix_of(url) || url == "about:blank"@;
            &&& !own && !has_entry(old(v)@.entries, url) ==> final(v)@.entries == old(v)@.entries.push(
                (EntryView { ts: now, url, title }),
            )
            &&& has_entry(old(v)@.entries, url) ==> !has_entry(final(v)@.entries, url)
        }),
{
    let url = (h@.tabs[h.active as int].url->0).text;
    let title = h@.tabs[h.active as int].title->0;
    crate::outcomes::stores::titles_are_labels(url, title);
    crate::store::sanitized_is_one_line(url);
    crate::store::sanitized_is_one_line(title);
    crate::store::lemma_entries_but(old(v)@.entries, url);
}

/// With the other engine, closing a tab takes that tab and no other; where it was not the one that is shown, the same
/// page stays on screen, and where it was, the tab after it is shown, or the one before where it was the last.
#[verifier::rlimit(40)]
pub proof fn servo_closes_one_tab(h: &mut ServoHost, i: usize, left: bool, j: int)
    requires
        old(h).active < old(h).tabs@.len(),
        i < old(h).tabs@.len(),
        1 < old(h).tabs@.len() <= usize::MAX,
        call_ensures(ServoHost::close_tab, (h, i), left),
    ensures
        ({
            let before = old(h)@;
            let after = final(h)@;
            let n = before.tabs.len();
            &&& left
            &&& after.tabs.len() == n - 1
            &&& 0 <= j < n - 1 ==> after.tabs[j] == before.tabs[if j < i {
                j
            } else {
                j + 1
            }]
            &&& i != before.active ==> after.tabs[after.active as int]
                == before.tabs[before.active as int]
            &&& i == before.active && i < n - 1 ==> after.active == i
            &&& i == before.active && i == n - 1 ==> after.active == i - 1
        }),
{
}

/// With the other engine, a tab that is picked is shown, and one that is shown already stays; a page that a page opened
/// becomes a tab, which is shown.
#[verifier::rlimit(40)]
pub proof fn servo_shows_tabs(h: &mut ServoHost, g: &mut ServoHost, i: usize)
    requires
        old(h).active < old(h).tabs@.len(),
        i < old(h).tabs@.len(),
        i != old(h).active,
        call_ensures(ServoHost::activate, (h, i), ()),
        old(g).active < old(g).tabs@.len(),
        old(g).tabs@.len() < usize::MAX,
        old(g).opened == 1,
        call_ensures(ServoHost::adopt_opened, (g,), ()),
    ensures
        final(h)@.active == i,
        final(h)@.tabs == old(h)@.tabs,
        final(h)@.outbox == old(h)@.outbox.push(ActionView::Hide(old(h).active)).push(
            ActionView::Show(i),
        ),
        final(g)@.tabs.len() == old(g)@.tabs.len() + 1,
        final(g)@.tabs.drop_last() == old(g)@.tabs,
        final(g)@.active == old(g)@.tabs.len(),
        final(g)@.opened == 0,
{
    let a = old(g)@;
    reveal_with_fuel(crate::webview::HostView::adopted_all, 3);
    assert(final(g)@.tabs.drop_last() =~= a.tabs);
}

/// With the other engine, what is known of the tab that is shown is what that tab holds, and whether it is starred is
/// whether its address is in the list.
pub proof fn servo_shows_what_it_holds(
    h: ServoHost,
    b: Bookmarks,
    title: Option<String>,
    url: Option<Url>,
    loading: bool,
    starred: bool,
)
    requires
        h.active < h.tabs@.len(),
        call_ensures(ServoHost::title, (&h,), title),
        call_ensures(ServoHost::url, (&h,), url),
        call_ensures(ServoHost::loading, (&h,), loading),
        call_ensures(ServoHost::active_bookmarked, (&h, &b), starred),
    ensures
        ({
            let t = h.tabs@[h.active as int];
            &&& title is Some <==> t.title is Some
            &&& title is Some ==> (title->0)@ == (t.title->0)@
            &&& url is Some <==> t.url is Some
            &&& url is Some ==> (url->0)@ == (t.url->0)@
            &&& loading == t.loading
            &&& starred <==> t.url is Some && has_entry(b@.entries, (t.url->0)@.text)
        }),
{
    assert(h@.tabs[h.active as int] == h.tabs@[h.active as int]@);
}

/// With the other engine, the star of the page that is shown adds that page under its title, or takes it away; a frame
/// becomes the picture of the tab that is shown; and what the settings say of visits is kept.
pub proof fn servo_keeps_stars_and_frames(
    h: ServoHost,
    b: &mut Bookmarks,
    g: &mut ServoHost,
    f: &mut ServoHost,
    image: (u32, u32, u32),
    gone: Option<u32>,
    on: bool,
    now: u64,
)
    requires
        h.active < h.tabs@.len(),
        h@.tabs[h.active as int].url is Some,
        h@.tabs[h.active as int].title is Some,
        one_line((h@.tabs[h.active as int].url->0).text),
        one_line(h@.tabs[h.active as int].title->0),
        call_ensures(ServoHost::toggle_bookmark, (&h, b, now), ()),
        old(g).active < old(g).tabs@.len(),
        call_ensures(ServoHost::accept_frame, (g, image), gone),
        call_ensures(ServoHost::set_history_enabled, (f, on), ()),
    ensures
        ({
            let url = (h@.tabs[h.active as int].url->0).text;
            let title = h@.tabs[h.active as int].title->0;
            let own = "cce:"@.is_prefix_of(url) || url == "about:blank"@;
            &&& !own && !has_entry(old(b)@.entries, url) ==> final(b)@.entries == old(b)@.entries.push(
                (EntryView { ts: now, url, title }),
            )
            &&& !own && has_entry(old(b)@.entries, url) ==> final(b)@.entries.len()
                == old(b)@.entries.len() - 1
        }),
        final(g)@.tabs[old(g).active as int].image == Some(image),
        old(g)@.tabs[old(g).active as int].image is Some ==> gone == Some(
            (old(g)@.tabs[old(g).active as int].image->0).0,
        ),
        old(g)@.tabs[old(g).active as int].image is None ==> gone is None,
        final(f)@.history_enabled == on,
        final(f)@.tabs == old(f)@.tabs,
{
    crate::outcomes::listings::the_star_adds_and_removes(
        old(b)@,
        (h@.tabs[h.active as int].url->0).text,
        h@.tabs[h.active as int].title->0,
        now,
    );
}

} // verus!
