//! What the browser holds, and what every part of it shares.

use vstd::prelude::*;

use crate::accounts::{Accounts, AccountsView};
use crate::action::{Action, ActionView};
use crate::lineedit::{LineEdit, LineView};
use crate::menus::{AcMenu, AcView, BmMenu, BmView, CtxItemView, CtxMenu};
use crate::modal::{Modal, ModalView};
use crate::pages::{favorite_views, strip, Favorite, FavoriteView};
use crate::protocol::{CceProtocol, ProtocolView};
use crate::session::{session_text, tab_views, Session};
use crate::settings::{Settings, SettingsView};
use crate::text::same;
use crate::weburl::{view_opt, Url, UrlView};
use crate::wpe::host::{nonblank, HostView, TabView, WebKitHost};

verus! {

/// The browser.
pub struct BrowserApp {
    pub host: WebKitHost,
    pub settings: Settings,
    /// Whether accounts are offered at login fields.
    pub accounts_on: bool,
    /// The address bar. It mirrors the page's address unless it is focused.
    pub url: LineEdit,
    pub url_focused: bool,
    /// The utility bar is out.
    pub chrome_open: bool,
    /// The pointer is on the corner control.
    pub dot_hover: bool,
    /// The pill under the pointer.
    pub fav_hover: Option<usize>,
    pub loading: bool,
    pub title: Option<String>,
    pub modal: Option<Modal>,
    pub ctx_menu: Option<CtxMenu>,
    pub session: Session,
    /// The stores behind the internal pages.
    pub pages: CceProtocol,
    /// The favorites strip as last read from its store.
    pub favs: Vec<Favorite>,
    pub bm_menu: Option<BmMenu>,
    pub accounts: Accounts,
    pub ac_menu: Option<AcMenu>,
    /// The address that was shown when the page's state was last taken over.
    pub nav_url: Option<String>,
    /// The window has to be drawn again.
    pub rebuild: bool,
    /// The browser is to end.
    pub exit: bool,
}

/// What the browser holds.
pub struct AppView {
    pub host: HostView,
    pub settings: SettingsView,
    pub accounts_on: bool,
    pub url: LineView,
    pub url_focused: bool,
    pub chrome_open: bool,
    pub dot_hover: bool,
    pub fav_hover: Option<usize>,
    pub loading: bool,
    pub title: Option<Seq<char>>,
    pub modal: Option<ModalView>,
    pub ctx_menu: Option<Seq<CtxItemView>>,
    /// The session text that was last written.
    pub last: Option<Seq<char>>,
    pub pages: ProtocolView,
    pub favs: Seq<FavoriteView>,
    pub bm_menu: Option<BmView>,
    pub accounts: AccountsView,
    pub ac_menu: Option<AcView>,
    pub nav_url: Option<Seq<char>>,
    pub rebuild: bool,
    pub exit: bool,
}

/// What an optional prompt holds.
pub open spec fn modal_opt(m: Option<Modal>) -> Option<ModalView> {
    match m {
        Some(m) => Some(m@),
        None => None,
    }
}

/// What an optional menu at the pointer holds.
pub open spec fn ctx_opt(m: Option<CtxMenu>) -> Option<Seq<CtxItemView>> {
    match m {
        Some(m) => Some(m@),
        None => None,
    }
}

/// What an optional bookmarks menu holds.
pub open spec fn bm_opt(m: Option<BmMenu>) -> Option<BmView> {
    match m {
        Some(m) => Some(m@),
        None => None,
    }
}

/// What an optional account list holds.
pub open spec fn ac_opt(m: Option<AcMenu>) -> Option<AcView> {
    match m {
        Some(m) => Some(m@),
        None => None,
    }
}

impl View for BrowserApp {
    type V = AppView;

    open spec fn view(&self) -> AppView {
        AppView {
            host: self.host@,
            settings: self.settings@,
            accounts_on: self.accounts_on,
            url: self.url@,
            url_focused: self.url_focused,
            chrome_open: self.chrome_open,
            dot_hover: self.dot_hover,
            fav_hover: self.fav_hover,
            loading: self.loading,
            title: view_opt(self.title),
            modal: modal_opt(self.modal),
            ctx_menu: ctx_opt(self.ctx_menu),
            last: view_opt(self.session.last),
            pages: self.pages@,
            favs: favorite_views(self.favs@),
            bm_menu: bm_opt(self.bm_menu),
            accounts: self.accounts@,
            ac_menu: ac_opt(self.ac_menu),
            nav_url: view_opt(self.nav_url),
            rebuild: self.rebuild,
            exit: self.exit,
        }
    }
}

/// The address bar with a text in it and the caret at the end.
pub open spec fn line_of(text: Seq<char>) -> LineView {
    LineView { text, caret: text.len() as int, selection: None, masked: false }
}

/// What the address bar shows for an address: nothing for a blank page.
pub open spec fn bar_text(u: UrlView) -> Seq<char> {
    if u.text == "about:blank"@ {
        Seq::empty()
    } else {
        u.text
    }
}

/// The tabs of a strip that are worth saving, with the shown one marked, from the first up to `n`:
/// those on a page that is not blank.
pub open spec fn saved_tabs(tabs: Seq<TabView>, active: int, n: nat) -> Seq<(Seq<char>, bool)>
    decreases n,
{
    if n == 0 {
        Seq::empty()
    } else {
        let before = saved_tabs(tabs, active, (n - 1) as nat);
        match tabs[n - 1].url {
            Some(u) => if u.text != "about:blank"@ {
                before.push((u.text, n - 1 == active))
            } else {
                before
            },
            None => before,
        }
    }
}

impl AppView {
    /// The browser with another host.
    pub open spec fn with_host(self, host: HostView) -> AppView {
        AppView { host, ..self }
    }

    /// The browser with one more thing to be done.
    pub open spec fn told(self, a: ActionView) -> AppView {
        self.with_host(self.host.told(a))
    }

    /// The browser with the window to be drawn again.
    pub open spec fn redrawn(self) -> AppView {
        AppView { rebuild: true, ..self }
    }

    /// The strip read again from its store.
    #[verifier::opaque]
    pub open spec fn favorites_refreshed(self) -> AppView {
        let favs = strip(self.pages.favorites.entries);
        if favs == self.favs {
            self
        } else {
            AppView { favs, fav_hover: None, ..self }
        }
    }

    /// The page's state taken over into the chrome. A focused address bar keeps its text.
    #[verifier::opaque]
    pub open spec fn page_synced(self) -> AppView {
        let a = self.favorites_refreshed();
        AppView {
            loading: a.host.tab().loading,
            title: nonblank(a.host.tab().title),
            url: if a.url_focused {
                a.url
            } else {
                match a.host.url() {
                    Some(u) => line_of(bar_text(u)),
                    None => a.url,
                }
            },
            ..a
        }
    }

    /// The text that the open tabs are saved as.
    pub open spec fn session_now(self) -> Seq<char> {
        session_text(saved_tabs(self.host.tabs, self.host.active as int, self.host.tabs.len()))
    }

    /// The session to be saved, where it changed.
    #[verifier::opaque]
    pub open spec fn persisted(self) -> AppView {
        if self.last == Some(self.session_now()) {
            self
        } else {
            self.told(ActionView::SaveSession(self.session_now()))
        }
    }

    /// The address bar without focus, and nothing selected in it.
    pub open spec fn url_left(self) -> AppView {
        AppView {
            url_focused: false,
            url: LineView { selection: None, ..self.url },
            ..self
        }
    }

    /// The utility bar folded away, and with it its menu and the focus of its field.
    #[verifier::opaque]
    pub open spec fn chrome_closed(self) -> AppView {
        let a = AppView { chrome_open: false, bm_menu: None, ..self };
        if a.url_focused {
            a.url_left().page_synced()
        } else {
            a
        }
    }

    /// What holds after a tab was opened or closed or shown: the address bar has no focus, and the
    /// chrome and the session follow.
    #[verifier::opaque]
    pub open spec fn tabs_changed(self) -> AppView {
        AppView { url_focused: false, ..self }.page_synced().persisted()
    }

    /// A tab opened on an address.
    #[verifier::opaque]
    pub open spec fn tab_opened(self, url: UrlView) -> AppView {
        self.with_host(self.host.opened(url)).tabs_changed()
    }

    /// The host of the page that is shown.
    pub open spec fn page_host(self) -> Option<Seq<char>> {
        match self.host.url() {
            Some(u) => u.host,
            None => None,
        }
    }

    /// Whether the page that is shown can be saved at all.
    pub open spec fn saveable(self) -> bool {
        self.host.url() matches Some(u) && u.scheme != "cce"@ && u.scheme != "about"@
    }
}

impl BrowserApp {
    /// A tab is shown; the address bar, the prompt and the account list are well formed.
    pub open spec fn wf(self) -> bool {
        &&& self.host@.wf()
        &&& self.url.wf()
        &&& self.modal matches Some(m) ==> m.wf()
        &&& self.ac_menu matches Some(m) ==> m@.wf()
    }

    /// Adds one more thing to be done.
    pub fn tell(&mut self, a: Action)
        requires
            old(self).wf(),
        ensures
            final(self)@ == old(self)@.told(a@),
            final(self).wf(),
    {
        self.host.tell(a);
    }

    /// Reads the strip again from its store.
    pub fn refresh_favorites(&mut self)
        requires
            old(self).wf(),
        ensures
            final(self)@ == old(self)@.favorites_refreshed(),
            final(self).wf(),
    {
        proof {
            reveal(AppView::favorites_refreshed);
        }
        let favs = self.pages.favorites.snapshot();
        if !same_favorites(&favs, &self.favs) {
            self.favs = favs;
            self.fav_hover = None;
        }
    }

    /// Takes the page's state over into the chrome.
    #[verifier::rlimit(40)]
    pub fn sync_page_state(&mut self)
        requires
            old(self).wf(),
        ensures
            final(self)@ == old(self)@.page_synced(),
            final(self).wf(),
    {
        proof {
            reveal(AppView::page_synced);
        }
        self.refresh_favorites();
        self.loading = self.host.loading();
        self.title = match self.host.title() {
            Some(t) => if t.as_str().is_empty() {
                None
            } else {
                Some(t)
            },
            None => None,
        };
        if !self.url_focused {
            if let Some(u) = self.host.url() {
                let text = if same(u.as_str(), "about:blank") {
                    String::new()
                } else {
                    u.as_str().to_owned()
                };
                self.url = LineEdit::with_text(text);
            }
        }
    }

    /// Has the session saved, where it changed.
    #[verifier::rlimit(40)]
    pub fn persist_session(&mut self)
        ensures
            final(self)@ == old(self)@.persisted(),
            old(self).wf() ==> final(self).wf(),
    {
        proof {
            reveal(AppView::persisted);
        }
        let ghost tabs = self@.host.tabs;
        let active = self.host.active_index();
        let n = self.host.tab_count();
        let mut saved: Vec<(String, bool)> = Vec::new();
        let mut i: usize = 0;
        assert(tab_views(saved@) =~= saved_tabs(tabs, active as int, 0));
        while i < n
            invariant
                i <= n,
                n == self@.host.tabs.len(),
                tabs == self@.host.tabs,
                *self == *old(self),
                tab_views(saved@) == saved_tabs(tabs, active as int, i as nat),
            decreases n - i,
        {
            let ghost before = tab_views(saved@);
            if let Some(t) = self.host.tab(i) {
                if let Some(u) = &t.url {
                    if !same(u.as_str(), "about:blank") {
                        let one = (u.as_str().to_owned(), i == active);
                        saved.push(one);
                        assert(tab_views(saved@) =~= before.push((one.0@, one.1)));
                    }
                }
            }
            i += 1;
        }
        if let Some(text) = self.session.save(&saved) {
            self.host.tell(Action::SaveSession(text));
        }
    }

    /// Takes the focus off the address bar.
    pub fn leave_url(&mut self)
        requires
            old(self).wf(),
        ensures
            final(self)@ == old(self)@.url_left(),
            final(self).wf(),
    {
        self.url_focused = false;
        self.url.selection = None;
    }

    /// Brings the utility bar out.
    pub fn open_chrome(&mut self)
        requires
            old(self).wf(),
        ensures
            final(self)@ == (AppView { chrome_open: true, ..old(self)@ }),
            final(self).wf(),
    {
        self.chrome_open = true;
    }

    /// Folds the utility bar away. A field that is not on screen must not keep the keys.
    #[verifier::rlimit(40)]
    pub fn close_chrome(&mut self)
        requires
            old(self).wf(),
        ensures
            final(self)@ == old(self)@.chrome_closed(),
            final(self).wf(),
    {
        proof {
            reveal(AppView::chrome_closed);
        }
        self.chrome_open = false;
        self.bm_menu = None;
        if self.url_focused {
            self.leave_url();
            self.sync_page_state();
        }
    }

    /// Has the chrome and the session follow a change of the tabs.
    #[verifier::rlimit(40)]
    pub fn follow_tabs(&mut self)
        requires
            old(self).wf(),
        ensures
            final(self)@ == old(self)@.tabs_changed(),
            final(self).wf(),
    {
        proof {
            reveal(AppView::tabs_changed);
        }
        self.url_focused = false;
        self.sync_page_state();
        self.persist_session();
    }

    /// Opens a tab on an address.
    #[verifier::rlimit(40)]
    pub fn open_tab(&mut self, url: Url)
        requires
            old(self).wf(),
        ensures
            final(self)@ == old(self)@.tab_opened(url@),
            final(self).wf(),
    {
        proof {
            reveal(AppView::tab_opened);
        }
        self.host.open_tab(url);
        self.follow_tabs();
    }

    /// The host of the page that is shown.
    pub fn page_host(&self) -> (r: Option<String>)
        requires
            self.wf(),
        ensures
            view_opt(r) == self@.page_host(),
    {
        match self.host.url() {
            Some(u) => match u.host_str() {
                Some(h) => Some(h.to_owned()),
                None => None,
            },
            None => None,
        }
    }

    /// Whether the page that is shown can be saved at all: an internal or blank page cannot.
    pub fn saveable(&self) -> (r: bool)
        requires
            self.wf(),
        ensures
            r == self@.saveable(),
    {
        match self.host.url() {
            Some(u) => !same(u.scheme(), "cce") && !same(u.scheme(), "about"),
            None => false,
        }
    }
}

/// Whether two strips say the same.
fn same_favorites(a: &Vec<Favorite>, b: &Vec<Favorite>) -> (r: bool)
    ensures
        r == (favorite_views(a@) == favorite_views(b@)),
{
    if a.len() != b.len() {
        assert(favorite_views(a@).len() != favorite_views(b@).len());
        return false;
    }
    let mut i: usize = 0;
    while i < a.len()
        invariant
            i <= a.len(),
            a.len() == b.len(),
            forall|j: int| 0 <= j < i ==> (#[trigger] a@[j])@ == b@[j]@,
        decreases a.len() - i,
    {
        if !same(a[i].url.as_str(), b[i].url.as_str()) || !same(
            a[i].label.as_str(),
            b[i].label.as_str(),
        ) {
            assert(favorite_views(a@)[i as int] != favorite_views(b@)[i as int]);
            return false;
        }
        i += 1;
    }
    assert(favorite_views(a@) =~= favorite_views(b@));
    true
}

} // verus!
