//! What stands for a value says of it what it holds, each thing in its place.

use vstd::prelude::*;

use crate::accounts::{account_views, Account, Accounts, Request};
use crate::action::{Action, ActionView};
use crate::browser::state::BrowserApp;
use crate::downloads::{Download, Downloads, State, StateView};
use crate::lineedit::LineEdit;
use crate::menus::{AcMenu, BmMenu, CtxAction, CtxActionView, CtxItem, CtxMenu};
use crate::message::{EditingCommand, Message, MessageView};
use crate::modal::{Field, Modal};
use crate::pages::{Bookmarks, Favorite, Favorites, History};
use crate::protocol::CceProtocol;
use crate::settings::Settings;
use crate::store::Entry;
use crate::wpe::formwatch::{FormEvent, FormEventView, Report};
use crate::wpe::host::{ContextMenuInfo, PendingAuth, PendingDialog, Tab, WebKitHost};

verus! {

/// What is to be done to a tab is for that tab.
pub proof fn actions_name_their_tab(i: usize, s: String, t: String, b: bool, c: EditingCommand)
    ensures
        Action::Build(s)@ == ActionView::Build(s@),
        Action::Discard(i)@ == ActionView::Discard(i),
        Action::Hide(i)@ == ActionView::Hide(i),
        Action::Show(i)@ == ActionView::Show(i),
        Action::Load(i, s)@ == ActionView::Load(i, s@),
        Action::Reload(i)@ == ActionView::Reload(i),
        Action::Back(i)@ == ActionView::Back(i),
        Action::Forward(i)@ == ActionView::Forward(i),
        Action::SyncClipboard@ == ActionView::SyncClipboard,
        Action::Edit(i, c)@ == ActionView::Edit(i, c),
        Action::InvertPages(b)@ == ActionView::InvertPages(b),
        Action::PreferDark(b)@ == ActionView::PreferDark(b),
        Action::WatchForms(b)@ == ActionView::WatchForms(b),
        Action::PromptText(Some(s))@ == ActionView::PromptText(Some(s@)),
        Action::PromptText(None)@ == ActionView::PromptText(None),
        Action::Confirm(b)@ == ActionView::Confirm(b),
        Action::CloseDialog@ == ActionView::CloseDialog,
        Action::Authenticate(s, t)@ == ActionView::Authenticate(s@, t@),
        Action::CancelAuthentication@ == ActionView::CancelAuthentication,
        Action::RunScript(i, s)@ == ActionView::RunScript(i, s@),
        Action::Download(s)@ == ActionView::Download(s@),
        Action::ForwardKey(i)@ == ActionView::ForwardKey(i),
        Action::ForwardPointer(i)@ == ActionView::ForwardPointer(i),
        Action::CopyText(s)@ == ActionView::CopyText(s@),
        Action::OpenOutside(s, Some(t))@ == ActionView::OpenOutside(s@, Some(t@)),
        Action::OpenOutside(s, None)@ == ActionView::OpenOutside(s@, None),
        Action::Ask(Request::Load)@ == ActionView::LoadAccounts,
        Action::Ask(Request::Fetch(s))@ == ActionView::FetchSecret(s@),
        Action::SaveSession(s)@ == ActionView::SaveSession(s@),
        Action::RaiseWindow@ == ActionView::RaiseWindow,
{
}

/// What an item of the right-click menu does is for what it names.
pub proof fn items_name_their_target(s: String, i: CtxItem, m: CtxMenu, k: int)
    ensures
        CtxAction::Back@ == CtxActionView::Back,
        CtxAction::Forward@ == CtxActionView::Forward,
        CtxAction::Reload@ == CtxActionView::Reload,
        CtxAction::CopySelection@ == CtxActionView::CopySelection,
        CtxAction::Paste@ == CtxActionView::Paste,
        CtxAction::OpenInTab(s)@ == CtxActionView::OpenInTab(s@),
        CtxAction::CopyText(s)@ == CtxActionView::CopyText(s@),
        CtxAction::Download(s)@ == CtxActionView::Download(s@),
        CtxAction::OpenExternal@ == CtxActionView::OpenExternal,
        CtxAction::ToggleFavorite@ == CtxActionView::ToggleFavorite,
        i@.label == i.label@,
        i@.action == i.action@,
        i@.enabled == i.enabled,
        m@.len() == m.items@.len(),
        0 <= k < m.items@.len() ==> m@[k] == m.items@[k]@,
{
}

/// Messages say what they carry.
pub proof fn messages_say_what_they_carry(
    all: Vec<Account>,
    s: String,
    secret: crate::accounts::Secret,
)
    ensures
        Message::Accounts(Ok(all))@ == MessageView::Accounts(Ok(account_views(all@))),
        Message::Accounts(Err(s))@ == MessageView::Accounts(Err(s@)),
        Message::Credential(s, secret)@ == MessageView::Credential(s@, secret@),
        Message::Spin@ == MessageView::Spin,
        Message::Quit@ == MessageView::Quit,
        Message::OpenExternal(Some(s))@ == MessageView::OpenExternal(Some(s@)),
        Message::OpenExternal(None)@ == MessageView::OpenExternal(None),
{
}

/// Accounts keep their handle, title, username and address apart.
pub proof fn accounts_are_what_they_say(a: Account, all: Accounts, k: int)
    ensures
        a@.path == a.path@,
        a@.label == a.label@,
        a@.username == a.username@,
        a@.url == a.url@,
        all@.loading == all.loading,
        all@.loaded == all.loaded,
        all@.all.len() == all.all@.len(),
        0 <= k < all.all@.len() ==> all@.all[k] == all.all@[k]@,
{
}

/// Entries keep their time, address and title apart, and a list keeps its order.
pub proof fn entries_are_what_they_say(
    e: Entry,
    f: Favorite,
    h: History,
    b: Bookmarks,
    v: Favorites,
    k: int,
)
    ensures
        e@.ts == e.ts,
        e@.url == e.url@,
        e@.title == e.title@,
        f@.url == f.url@,
        f@.label == f.label@,
        h@.entries.len() == h.log.entries@.len(),
        0 <= k < h.log.entries@.len() ==> h@.entries[k] == h.log.entries@[k]@,
        b@.entries.len() == b.log.entries@.len(),
        0 <= k < b.log.entries@.len() ==> b@.entries[k] == b.log.entries@[k]@,
        v@.entries.len() == v.log.entries@.len(),
        0 <= k < v.log.entries@.len() ==> v@.entries[k] == v.log.entries@[k]@,
        h@.change.replace == h.log.change.replace && h@.change.text == h.log.change.text@,
        b@.change.replace == b.log.change.replace && b@.change.text == b.log.change.text@,
        v@.change.replace == v.log.change.replace && v@.change.text == v.log.change.text@,
{
}

/// Downloads keep their names, their numbers and how they stand apart.
pub proof fn downloads_are_what_they_say(d: Download, l: Downloads, s: String, k: int)
    ensures
        d@.id == d.id,
        d@.ts == d.ts,
        d@.url == d.url@,
        d@.filename == d.filename@,
        d@.path == d.path@,
        d@.received == d.received,
        d@.total == d.total,
        d@.state == d.state@,
        State::Active@ == StateView::Active,
        State::Done@ == StateView::Done,
        State::Failed(s)@ == StateView::Failed(s@),
        l@.next_id == l.next_id,
        l@.items.len() == l.items@.len(),
        0 <= k < l.items@.len() ==> l@.items[k] == l.items@[k]@,
{
}

/// Each store is behind its own pages.
pub proof fn stores_are_apart(p: CceProtocol)
    ensures
        p@.history == p.history@,
        p@.bookmarks == p.bookmarks@,
        p@.favorites == p.favorites@,
        p@.downloads == p.downloads@,
        p@.clear_cookies == p.clear_cookies,
{
}

/// Settings are what is set.
pub proof fn settings_are_what_is_set(s: Settings)
    ensures
        s@.homepage == s.homepage@,
        s@.search_prefix == s.search_prefix@,
        s.download_dir is Some ==> s@.download_dir == Some((s.download_dir->0)@),
        s.download_dir is None ==> s@.download_dir is None,
        s@.history == s.history,
        s@.bar_position == s.bar_position,
        s@.color_scheme == s.color_scheme,
        s.external_browser is Some ==> s@.external_browser == Some((s.external_browser->0)@),
        s.external_browser is None ==> s@.external_browser is None,
{
}

/// What a page asks for is what it asked for.
pub proof fn requests_are_what_was_asked(d: PendingDialog, c: PendingAuth, m: ContextMenuInfo)
    ensures
        d@.message == d.message@,
        d.prompt_default is Some ==> d@.prompt_default == Some((d.prompt_default->0)@),
        d.prompt_default is None ==> d@.prompt_default is None,
        d@.has_cancel == d.has_cancel,
        c@.host == c.host@,
        c@.realm == c.realm@,
        c@.retry == c.retry,
        m.link is Some ==> m@.link == Some((m.link->0)@),
        m.link is None ==> m@.link is None,
        m.image_uri is Some ==> m@.image_uri == Some((m.image_uri->0)@),
        m.image_uri is None ==> m@.image_uri is None,
        m@.is_selection == m.is_selection,
        m@.is_editable == m.is_editable,
        m@.can_go_back == m.can_go_back,
        m@.can_go_forward == m.can_go_forward,
{
}

/// Tabs are what they hold, and the host holds them in their order.
pub proof fn tabs_are_what_they_hold(t: Tab, h: WebKitHost, k: int)
    ensures
        t.title is Some ==> t@.title == Some((t.title->0)@),
        t.title is None ==> t@.title is None,
        t.url is Some ==> t@.url == Some((t.url->0)@),
        t.url is None ==> t@.url is None,
        t@.loading == t.loading,
        t@.image == t.image,
        t@.signals.loading == t.signals.loading,
        t@.signals.dirty == t.signals.dirty,
        t.signals.title is Some ==> t@.signals.title == Some((t.signals.title->0)@),
        t.signals.url is Some ==> t@.signals.url == Some((t.signals.url->0)@),
        h@.tabs.len() == h.tabs@.len(),
        0 <= k < h.tabs@.len() ==> h@.tabs[k] == h.tabs@[k]@,
        h@.active == h.active,
        h@.history_enabled == h.history_enabled,
        h@.force_dark == h.force_dark,
        h@.download_started == h.download_started,
        h@.new_frame == h.new_frame,
        h@.outbox.len() == h.outbox@.len(),
        0 <= k < h.outbox@.len() ==> h@.outbox[k] == h.outbox@[k]@,
        h@.form_events.len() == h.form_events@.len(),
        0 <= k < h.form_events@.len() ==> h@.form_events[k] == h.form_events@[k]@,
        h.dialog is Some ==> h@.dialog == Some((h.dialog->0)@),
        h.dialog is None ==> h@.dialog is None,
        h.auth is Some ==> h@.auth == Some((h.auth->0)@),
        h.auth is None ==> h@.auth is None,
        h.context_menu is Some ==> h@.context_menu == Some((h.context_menu->0)@),
        h.context_menu is None ==> h@.context_menu is None,
{
}

/// Reports are what was reported.
pub proof fn reports_are_what_was_reported(e: FormEvent, r: Report)
    ensures
        e is Blur ==> e@ == FormEventView::Blur,
        e is Field ==> e@ == (FormEventView::Field {
            origin: (e->origin)@,
            password: e->password,
            rect: e->rect,
            value: (e->value)@,
            moved: e->moved,
        }),
        r.t is Some ==> r@.t == Some((r.t->0)@),
        r.kind is Some ==> r@.kind == Some((r.kind->0)@),
        r.origin is Some ==> r@.origin == Some((r.origin->0)@),
        r.value is Some ==> r@.value == Some((r.value->0)@),
        r.rect is Some ==> r@.rect == Some((r.rect->0)@),
{
}

/// Prompts, fields and lists are what they hold.
pub proof fn prompts_are_what_they_hold(f: Field, m: Modal, a: AcMenu, b: BmMenu, l: LineEdit, k: int)
    ensures
        f@.label == f.label@,
        f@.edit == f.edit@,
        m@.title == m.title@,
        m@.message == m.message@,
        m@.focused == m.focused,
        m@.has_cancel == m.has_cancel,
        m@.kind == m.kind,
        m@.fields.len() == m.fields@.len(),
        0 <= k < m.fields@.len() ==> m@.fields[k] == m.fields@[k]@,
        a@.host == a.host@,
        a@.selected == a.selected,
        a@.scroll == a.scroll,
        a@.anchor == a.anchor,
        a@.insecure == a.insecure,
        a@.hover == a.hover,
        a@.all == account_views(a.all@),
        a@.shown == account_views(a.shown@),
        b@.scroll == b.scroll,
        b@.hover == b.hover,
        b@.items.len() == b.items@.len(),
        0 <= k < b.items@.len() ==> b@.items[k] == b.items@[k]@,
        l@.text == l.text@,
        l@.masked == l.masked,
{
}

/// The browser is what it holds.
pub proof fn the_browser_is_what_it_holds(a: BrowserApp)
    ensures
        a@.host == a.host@,
        a@.settings == a.settings@,
        a@.accounts_on == a.accounts_on,
        a@.url == a.url@,
        a@.url_focused == a.url_focused,
        a@.chrome_open == a.chrome_open,
        a@.dot_hover == a.dot_hover,
        a@.fav_hover == a.fav_hover,
        a@.loading == a.loading,
        a.title is Some ==> a@.title == Some((a.title->0)@),
        a.title is None ==> a@.title is None,
        a.modal is Some ==> a@.modal == Some((a.modal->0)@),
        a.modal is None ==> a@.modal is None,
        a.ctx_menu is Some ==> a@.ctx_menu == Some((a.ctx_menu->0)@),
        a.ctx_menu is None ==> a@.ctx_menu is None,
        a.bm_menu is Some ==> a@.bm_menu == Some((a.bm_menu->0)@),
        a.bm_menu is None ==> a@.bm_menu is None,
        a.ac_menu is Some ==> a@.ac_menu == Some((a.ac_menu->0)@),
        a.ac_menu is None ==> a@.ac_menu is None,
        a@.pages == a.pages@,
        a@.accounts == a.accounts@,
        a@.rebuild == a.rebuild,
        a@.exit == a.exit,
        a.session.last is Some ==> a@.last == Some((a.session.last->0)@),
        a.session.last is None ==> a@.last is None,
{
}

} // verus!
