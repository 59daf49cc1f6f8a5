//! The tabs, as the chrome sees them, and what a page is waiting for.
//!
//! The page views themselves belong to the engine: what is to happen to them is put in the outbox,
//! and what they report is put in the tabs.

use vstd::prelude::*;

use crate::action::{action_views, Action, ActionView};
use crate::message::EditingCommand;
use crate::pages::{
    bookmark_toggled, favorite_toggled, label_of, recorded, Bookmarks, Favorites, History, LogView,
};
use crate::store::has_entry;
use crate::weburl::{url_opt, url_parse, view_opt, Url, UrlView};
use crate::wpe::formwatch::{
    fill_js, json_literal, text_or_empty, FormEvent, FormEventView, FILL_CLOSE, FILL_MIDDLE, FILL_OPEN,
    RESCAN_JS,
};

verus! {

/// What a page view reported since the tabs were last brought up to date.
#[derive(Debug)]
pub struct TabSignals {
    pub title: Option<String>,
    pub url: Option<Url>,
    pub loading: bool,
    /// Set by any report, cleared when the tab is brought up to date.
    pub dirty: bool,
}

/// One tab: the page's state, and the last frame that was drawn of it (image, width, height).
#[derive(Debug)]
pub struct Tab {
    pub title: Option<String>,
    pub url: Option<Url>,
    pub loading: bool,
    pub image: Option<(u32, u32, u32)>,
    pub signals: TabSignals,
}

/// A page's alert, question or prompt, waiting on the chrome.
#[derive(Clone, Debug)]
pub struct PendingDialog {
    pub message: String,
    /// For a prompt its default text; nothing otherwise.
    pub prompt_default: Option<String>,
    /// A question offers a choice; an alert only acknowledges.
    pub has_cancel: bool,
}

/// An authentication challenge, waiting on the chrome.
#[derive(Clone, Debug)]
pub struct PendingAuth {
    pub host: String,
    pub realm: String,
    /// Set when the previous credentials were rejected.
    pub retry: bool,
}

/// What was under the pointer when a menu was asked for.
#[derive(Clone, Debug)]
pub struct ContextMenuInfo {
    /// The address of a link, where there is one.
    pub link: Option<String>,
    pub image_uri: Option<String>,
    pub is_selection: bool,
    pub is_editable: bool,
    pub can_go_back: bool,
    pub can_go_forward: bool,
}

/// The tabs and what goes with them.
pub struct WebKitHost {
    pub tabs: Vec<Tab>,
    /// The tab that is shown.
    pub active: usize,
    pub history_enabled: bool,
    pub force_dark: bool,
    /// A navigation became a download.
    pub download_started: bool,
    pub dialog: Option<PendingDialog>,
    pub auth: Option<PendingAuth>,
    pub context_menu: Option<ContextMenuInfo>,
    /// What the watcher reported, the oldest first.
    pub form_events: Vec<FormEvent>,
    /// A frame came that has not been answered for.
    pub new_frame: bool,
    /// The pixels of the last frame, with its size.
    pub last_frame: Option<(Vec<u8>, u32, u32)>,
    /// What is to be done, in order.
    pub outbox: Vec<Action>,
}

// ---------------------------------------------------------------------------------------------
// Views
// ---------------------------------------------------------------------------------------------

/// What a page view reported.
#[verifier::ext_equal]
pub struct SignalsView {
    pub title: Option<Seq<char>>,
    pub url: Option<UrlView>,
    pub loading: bool,
    pub dirty: bool,
}

/// What a tab is.
#[verifier::ext_equal]
pub struct TabView {
    pub title: Option<Seq<char>>,
    pub url: Option<UrlView>,
    pub loading: bool,
    pub image: Option<(u32, u32, u32)>,
    pub signals: SignalsView,
}

/// What a dialog says.
#[verifier::ext_equal]
pub struct DialogView {
    pub message: Seq<char>,
    pub prompt_default: Option<Seq<char>>,
    pub has_cancel: bool,
}

/// What a challenge says.
#[verifier::ext_equal]
pub struct AuthView {
    pub host: Seq<char>,
    pub realm: Seq<char>,
    pub retry: bool,
}

/// What was under the pointer.
#[verifier::ext_equal]
pub struct ContextView {
    pub link: Option<Seq<char>>,
    pub image_uri: Option<Seq<char>>,
    pub is_selection: bool,
    pub is_editable: bool,
    pub can_go_back: bool,
    pub can_go_forward: bool,
}

/// What the host holds.
#[verifier::ext_equal]
pub struct HostView {
    pub tabs: Seq<TabView>,
    pub active: usize,
    pub history_enabled: bool,
    pub force_dark: bool,
    pub download_started: bool,
    pub dialog: Option<DialogView>,
    pub auth: Option<AuthView>,
    pub context_menu: Option<ContextView>,
    pub form_events: Seq<FormEventView>,
    pub new_frame: bool,
    pub last_frame: Option<(Seq<u8>, u32, u32)>,
    pub outbox: Seq<ActionView>,
}

impl View for TabSignals {
    type V = SignalsView;

    open spec fn view(&self) -> SignalsView {
        SignalsView {
            title: view_opt(self.title),
            url: url_opt(self.url),
            loading: self.loading,
            dirty: self.dirty,
        }
    }
}

impl View for Tab {
    type V = TabView;

    open spec fn view(&self) -> TabView {
        TabView {
            title: view_opt(self.title),
            url: url_opt(self.url),
            loading: self.loading,
            image: self.image,
            signals: self.signals@,
        }
    }
}

impl View for PendingDialog {
    type V = DialogView;

    open spec fn view(&self) -> DialogView {
        DialogView {
            message: self.message@,
            prompt_default: view_opt(self.prompt_default),
            has_cancel: self.has_cancel,
        }
    }
}

impl View for PendingAuth {
    type V = AuthView;

    open spec fn view(&self) -> AuthView {
        AuthView { host: self.host@, realm: self.realm@, retry: self.retry }
    }
}

impl View for ContextMenuInfo {
    type V = ContextView;

    open spec fn view(&self) -> ContextView {
        ContextView {
            link: view_opt(self.link),
            image_uri: view_opt(self.image_uri),
            is_selection: self.is_selection,
            is_editable: self.is_editable,
            can_go_back: self.can_go_back,
            can_go_forward: self.can_go_forward,
        }
    }
}

/// What each tab is.
pub open spec fn tab_views(v: Seq<Tab>) -> Seq<TabView> {
    v.map_values(|t: Tab| t@)
}

/// What each report says.
pub open spec fn event_views(v: Seq<FormEvent>) -> Seq<FormEventView> {
    v.map_values(|e: FormEvent| e@)
}

/// What an optional dialog says.
pub open spec fn dialog_opt(d: Option<PendingDialog>) -> Option<DialogView> {
    match d {
        Some(d) => Some(d@),
        None => None,
    }
}

/// What an optional challenge says.
pub open spec fn auth_opt(a: Option<PendingAuth>) -> Option<AuthView> {
    match a {
        Some(a) => Some(a@),
        None => None,
    }
}

/// What an optional menu request says.
pub open spec fn context_opt(c: Option<ContextMenuInfo>) -> Option<ContextView> {
    match c {
        Some(c) => Some(c@),
        None => None,
    }
}

/// The pixels and the size of an optional frame.
pub open spec fn frame_opt(f: Option<(Vec<u8>, u32, u32)>) -> Option<(Seq<u8>, u32, u32)> {
    match f {
        Some((pixels, width, height)) => Some((pixels@, width, height)),
        None => None,
    }
}

impl View for WebKitHost {
    type V = HostView;

    open spec fn view(&self) -> HostView {
        HostView {
            tabs: tab_views(self.tabs@),
            active: self.active,
            history_enabled: self.history_enabled,
            force_dark: self.force_dark,
            download_started: self.download_started,
            dialog: dialog_opt(self.dialog),
            auth: auth_opt(self.auth),
            context_menu: context_opt(self.context_menu),
            form_events: event_views(self.form_events@),
            new_frame: self.new_frame,
            last_frame: frame_opt(self.last_frame),
            outbox: action_views(self.outbox@),
        }
    }
}

/// A tab that was just opened on an address.
pub open spec fn fresh_tab(url: UrlView) -> TabView {
    TabView {
        title: None,
        url: Some(url),
        loading: true,
        image: None,
        signals: SignalsView { title: None, url: Some(url), loading: true, dirty: false },
    }
}

/// A tab brought up to date with what its page view reported.
pub open spec fn synced_tab(t: TabView) -> TabView {
    if t.signals.dirty {
        TabView {
            title: t.signals.title,
            url: match t.signals.url {
                Some(u) => Some(u),
                None => t.url,
            },
            loading: t.signals.loading,
            image: t.image,
            signals: SignalsView { dirty: false, ..t.signals },
        }
    } else {
        t
    }
}

/// Whether a tab's load has just completed: it was loading, and is reported as loading no more.
pub open spec fn completed(t: TabView) -> bool {
    t.loading && t.signals.dirty && !t.signals.loading
}

/// The history after the first `n` tabs are brought up to date: every load that completed on a known
/// address is recorded, in the order of the strip.
pub open spec fn visits(tabs: Seq<TabView>, n: nat, h: LogView, enabled: bool, now: u64) -> LogView
    decreases n,
{
    if n == 0 {
        h
    } else {
        let before = visits(tabs, (n - 1) as nat, h, enabled, now);
        let t = tabs[n - 1];
        let after = synced_tab(t);
        if completed(t) && enabled && after.url is Some {
            recorded(before, (after.url->0).text, text_or_empty(after.title), now)
        } else {
            before
        }
    }
}

/// An optional text that says something.
pub open spec fn nonblank(t: Option<Seq<char>>) -> Option<Seq<char>> {
    match t {
        Some(t) if t.len() > 0 => Some(t),
        _ => None,
    }
}

impl HostView {
    /// The shown tab is one of the tabs.
    pub open spec fn wf(self) -> bool {
        self.active < self.tabs.len()
    }

    /// The host with one more thing to be done.
    pub open spec fn told(self, a: ActionView) -> HostView {
        HostView { outbox: self.outbox.push(a), ..self }
    }

    /// The tab that is shown.
    pub open spec fn tab(self) -> TabView {
        self.tabs[self.active as int]
    }

    /// The address of the tab that is shown.
    pub open spec fn url(self) -> Option<UrlView> {
        self.tab().url
    }

    /// The host with another tab shown. A tab that is not there, or is shown already, changes
    /// nothing.
    pub open spec fn activated(self, i: int) -> HostView {
        if i >= self.tabs.len() || i == self.active {
            self
        } else {
            let hidden = if self.active < self.tabs.len() {
                self.told(ActionView::Hide(self.active))
            } else {
                self
            };
            HostView { active: i as usize, ..hidden }.told(ActionView::Show(i as usize))
        }
    }

    /// The host with a new tab on an address, shown.
    pub open spec fn opened(self, url: UrlView) -> HostView {
        let built = self.told(ActionView::Build(url.text));
        HostView { tabs: self.tabs.push(fresh_tab(url)), ..built }.activated(
            self.tabs.len() as int,
        )
    }

    /// The tab to show after one is closed: the neighbour of the one that was shown, or the one
    /// that was shown.
    pub open spec fn next_after(self, i: int) -> int {
        if i == self.active {
            if i < self.tabs.len() - 1 {
                i
            } else {
                self.tabs.len() - 2
            }
        } else if self.active > i {
            self.active - 1
        } else {
            self.active as int
        }
    }

    /// The host without a tab.
    pub open spec fn closed(self, i: int) -> HostView {
        if i >= self.tabs.len() {
            self
        } else {
            let gone = HostView { tabs: self.tabs.remove(i), ..self }.told(
                ActionView::Discard(i as usize),
            );
            if self.tabs.len() == 1 {
                gone
            } else {
                HostView { active: usize::MAX, ..gone }.activated(self.next_after(i))
            }
        }
    }

    /// Every tab brought up to date with what its page view reported.
    pub open spec fn synced(self) -> HostView {
        HostView { tabs: self.tabs.map_values(|t: TabView| synced_tab(t)), ..self }
    }

    /// Whether any page view reported something.
    pub open spec fn any_dirty(self) -> bool {
        exists|i: int| 0 <= i < self.tabs.len() && (#[trigger] self.tabs[i]).signals.dirty
    }

    /// The host with a page view's report noted.
    pub open spec fn noted(
        self,
        i: int,
        title: Option<Seq<char>>,
        url: Option<UrlView>,
        loading: bool,
    ) -> HostView {
        let t = self.tabs[i];
        HostView {
            tabs: self.tabs.update(
                i,
                TabView {
                    signals: SignalsView {
                        title: nonblank(title),
                        url: match url {
                            Some(u) => Some(u),
                            None => t.signals.url,
                        },
                        loading,
                        dirty: true,
                    },
                    ..t
                },
            ),
            ..self
        }
    }

    /// Every page reloaded, from the first tab up to `n`.
    pub open spec fn reloading(self, n: nat) -> HostView
        decreases n,
    {
        if n == 0 {
            self
        } else {
            self.reloading((n - 1) as nat).told(ActionView::Reload((n - 1) as usize))
        }
    }

    /// The inverting stylesheet installed or removed, and every page reloaded, where that is a
    /// change.
    pub open spec fn forced_dark(self, on: bool) -> HostView {
        if on == self.force_dark {
            self
        } else {
            HostView { force_dark: on, ..self }.told(ActionView::InvertPages(on)).reloading(
                self.tabs.len(),
            )
        }
    }

    /// The page's dialog answered: a prompt with its text or that it was cancelled, a question with
    /// the choice, and an alert with nothing; then the page goes on.
    pub open spec fn answered(self, ok: bool, text: Option<Seq<char>>) -> HostView {
        match self.dialog {
            None => self,
            Some(d) => {
                let free = HostView { dialog: None, ..self };
                let replied = if d.prompt_default is Some {
                    free.told(
                        ActionView::PromptText(
                            if ok {
                                Some(
                                    match text {
                                        Some(t) => t,
                                        None => Seq::empty(),
                                    },
                                )
                            } else {
                                None
                            },
                        ),
                    )
                } else if d.has_cancel {
                    free.told(ActionView::Confirm(ok))
                } else {
                    free
                };
                replied.told(ActionView::CloseDialog)
            },
        }
    }

    /// The challenge answered with credentials, or cancelled.
    pub open spec fn authenticated(self, credentials: Option<(Seq<char>, Seq<char>)>) -> HostView {
        match self.auth {
            None => self,
            Some(_) => HostView { auth: None, ..self }.told(
                match credentials {
                    Some((user, password)) => ActionView::Authenticate(user, password),
                    None => ActionView::CancelAuthentication,
                },
            ),
        }
    }

    /// The page told to copy, cut or paste; the clipboard is handed over before a paste.
    pub open spec fn editing(self, c: EditingCommand) -> HostView {
        let ready = if c == EditingCommand::Paste {
            self.told(ActionView::SyncClipboard)
        } else {
            self
        };
        ready.told(ActionView::Edit(self.active, c))
    }

    /// A credential put into the login form of the page.
    pub open spec fn filled(self, username: Seq<char>, password: Seq<char>) -> HostView {
        self.told(
            ActionView::RunScript(
                self.active,
                FILL_OPEN@ + json_literal(username) + FILL_MIDDLE@ + json_literal(password)
                    + FILL_CLOSE@,
            ),
        )
    }

    /// Whether the page that is shown is bookmarked, or a favorite.
    pub open spec fn listed(self, log: LogView) -> bool {
        self.url() matches Some(u) && has_entry(log.entries, u.text)
    }

    /// The title of the tab that is shown, or nothing.
    pub open spec fn title_text(self) -> Seq<char> {
        match self.tab().title {
            Some(t) => t,
            None => Seq::empty(),
        }
    }
}

// ---------------------------------------------------------------------------------------------
// Operations
// ---------------------------------------------------------------------------------------------

impl WebKitHost {
    /// A host with its first tab on an address.
    pub fn new(url: Url) -> (r: WebKitHost)
        ensures
            r@ == blank_host().opened(url@),
            r@.wf(),
    {
        let mut host = WebKitHost {
            tabs: Vec::new(),
            // No tab is shown, so that showing the first one does the work.
            active: usize::MAX,
            history_enabled: true,
            force_dark: false,
            download_started: false,
            dialog: None,
            auth: None,
            context_menu: None,
            form_events: Vec::new(),
            new_frame: false,
            last_frame: None,
            outbox: Vec::new(),
        };
        assert(host@ =~= blank_host());
        host.open_tab(url);
        host
    }

    /// Adds one more thing to be done.
    pub fn tell(&mut self, a: Action)
        ensures
            final(self)@ == old(self)@.told(a@),
    {
        let ghost before = self@.outbox;
        self.outbox.push(a);
        assert(self@.outbox =~= before.push(a@));
    }

    /// Opens a tab and shows it.
    pub fn open_tab(&mut self, url: Url)
        requires
            old(self)@.wf() || old(self)@.tabs.len() == 0,
            old(self)@.tabs.len() == 0 ==> old(self)@.active != 0,
        ensures
            final(self)@ == old(self)@.opened(url@),
            final(self)@.wf(),
    {
        let ghost before = self@;
        self.tell(Action::Build(url.as_str().to_owned()));
        let ghost u = url@;
        let signals = TabSignals { title: None, url: Some(url.copy()), loading: true, dirty: false };
        let tab = Tab { title: None, url: Some(url), loading: true, image: None, signals };
        assert(tab@ == fresh_tab(u));
        self.tabs.push(tab);
        assert(self@.tabs =~= before.tabs.push(fresh_tab(u)));
        let last = self.tabs.len() - 1;
        self.activate(last);
    }

    /// Closes a tab. Gives false where that was the last one; it is gone either way.
    pub fn close_tab(&mut self, index: usize) -> (r: bool)
        requires
            old(self)@.wf(),
        ensures
            final(self)@ == old(self)@.closed(index as int),
            r == (index >= old(self)@.tabs.len() || old(self)@.tabs.len() > 1),
            r ==> final(self)@.wf(),
    {
        if index >= self.tabs.len() {
            return true;
        }
        let ghost before = self@;
        let was_active = index == self.active;
        let old_active = self.active;
        let _gone = self.tabs.remove(index);
        assert(self@.tabs =~= before.tabs.remove(index as int));
        self.tell(Action::Discard(index));
        if self.tabs.len() == 0 {
            return false;
        }
        let next: usize = if was_active {
            if index < self.tabs.len() - 1 {
                index
            } else {
                self.tabs.len() - 1
            }
        } else if old_active > index {
            old_active - 1
        } else {
            old_active
        };
        assert(next == before.next_after(index as int));
        // Nothing is shown, so that showing the next one does the work.
        self.active = usize::MAX;
        self.activate(next);
        true
    }

    /// Shows a tab.
    pub fn activate(&mut self, index: usize)
        ensures
            final(self)@ == old(self)@.activated(index as int),
            index < old(self)@.tabs.len() ==> final(self)@.active == index,
    {
        if index >= self.tabs.len() || index == self.active {
            return;
        }
        if self.active < self.tabs.len() {
            let old_tab = self.active;
            self.tell(Action::Hide(old_tab));
        }
        self.active = index;
        self.tell(Action::Show(index));
    }

    pub fn tab_count(&self) -> (r: usize)
        ensures
            r == self@.tabs.len(),
    {
        self.tabs.len()
    }

    pub fn active_index(&self) -> (r: usize)
        ensures
            r == self@.active,
    {
        self.active
    }

    pub fn tab(&self, index: usize) -> (r: Option<&Tab>)
        ensures
            (match r {
                Some(t) => index < self@.tabs.len() && t@ == self@.tabs[index as int],
                None => index >= self@.tabs.len(),
            }),
    {
        if index < self.tabs.len() {
            Some(&self.tabs[index])
        } else {
            None
        }
    }

    /// Notes what a page view reports: its title, its address as text, and whether it is loading.
    pub fn notify(&mut self, index: usize, title: Option<String>, uri: Option<String>, loading: bool)
        requires
            index < old(self)@.tabs.len(),
        ensures
            final(self)@ == old(self)@.noted(
                index as int,
                view_opt(title),
                match nonblank(view_opt(uri)) {
                    Some(u) => url_parse(u),
                    None => None,
                },
                loading,
            ),
    {
        let url = match uri {
            Some(u) => if u.as_str().is_empty() {
                None
            } else {
                Url::parse(u.as_str())
            },
            None => None,
        };
        self.notify_parsed(index, title, url, loading);
    }

    /// Notes what a page view reports, with its address parsed.
    pub fn notify_parsed(
        &mut self,
        index: usize,
        title: Option<String>,
        url: Option<Url>,
        loading: bool,
    )
        requires
            index < old(self)@.tabs.len(),
        ensures
            final(self)@ == old(self)@.noted(
                index as int,
                view_opt(title),
                url_opt(url),
                loading,
            ),
    {
        let ghost before = self@;
        let title = match title {
            Some(t) => if t.as_str().is_empty() {
                None
            } else {
                Some(t)
            },
            None => None,
        };
        let t = &self.tabs[index];
        let url = match url {
            Some(u) => Some(u),
            None => copy_url(&t.signals.url),
        };
        let signals = TabSignals { title, url, loading, dirty: true };
        let tab = Tab {
            title: copy_text(&t.title),
            url: copy_url(&t.url),
            loading: t.loading,
            image: t.image,
            signals,
        };
        assert(before.tabs[index as int] == t@);
        self.tabs.set(index, tab);
        assert(self@.tabs =~= before.tabs.update(index as int, tab@));
    }

    /// Brings every tab up to date, and says whether anything was reported.
    pub fn sync_page_state(&mut self) -> (r: bool)
        ensures
            final(self)@ == old(self)@.synced(),
            r == old(self)@.any_dirty(),
    {
        let ghost before = self@;
        let mut changed = false;
        let mut i: usize = 0;
        while i < self.tabs.len()
            invariant
                i <= self.tabs.len(),
                self@ == (HostView { tabs: self@.tabs, ..before }),
                self@.tabs.len() == before.tabs.len(),
                forall|j: int| 0 <= j < i ==> #[trigger] self@.tabs[j] == synced_tab(before.tabs[j]),
                forall|j: int| i <= j < before.tabs.len() ==> #[trigger] self@.tabs[j] == before.tabs[j],
                changed == exists|j: int| 0 <= j < i && (#[trigger] before.tabs[j]).signals.dirty,
            decreases self.tabs.len() - i,
        {
            let ghost was = self@.tabs;
            let t = &self.tabs[i];
            assert(was[i as int] == t@);
            if t.signals.dirty {
                let url = match &t.signals.url {
                    Some(u) => Some(u.copy()),
                    None => copy_url(&t.url),
                };
                let signals = TabSignals {
                    title: copy_text(&t.signals.title),
                    url: copy_url(&t.signals.url),
                    loading: t.signals.loading,
                    dirty: false,
                };
                let tab = Tab {
                    title: copy_text(&t.signals.title),
                    url,
                    loading: t.signals.loading,
                    image: t.image,
                    signals,
                };
                assert(tab@ == synced_tab(was[i as int]));
                assert(before.tabs[i as int].signals.dirty);
                self.tabs.set(i, tab);
                assert(self@.tabs =~= was.update(i as int, tab@));
                changed = true;
            }
            i += 1;
        }
        assert(self@.tabs =~= before.synced().tabs);
        changed
    }

    /// Takes up a frame: its pixels and size, and the image that it was made into. Gives the image
    /// that is no longer needed.
    pub fn accept_frame(&mut self, pixels: Vec<u8>, image: (u32, u32, u32)) -> (r: Option<u32>)
        requires
            old(self)@.wf(),
        ensures
            r == (match old(self)@.tab().image {
                Some((id, _, _)) => Some(id),
                None => None,
            }),
            final(self)@ == (HostView {
                tabs: old(self)@.tabs.update(
                    old(self)@.active as int,
                    TabView { image: Some(image), ..old(self)@.tab() },
                ),
                new_frame: true,
                last_frame: Some((pixels@, image.1, image.2)),
                ..old(self)@
            }),
    {
        let ghost before = self@;
        let i = self.active;
        self.last_frame = Some((pixels, image.1, image.2));
        self.new_frame = true;
        let t = &self.tabs[i];
        let old_image = match t.image {
            Some((id, _, _)) => Some(id),
            None => None,
        };
        let signals = TabSignals {
            title: copy_text(&t.signals.title),
            url: copy_url(&t.signals.url),
            loading: t.signals.loading,
            dirty: t.signals.dirty,
        };
        let tab = Tab {
            title: copy_text(&t.title),
            url: copy_url(&t.url),
            loading: t.loading,
            image: Some(image),
            signals,
        };
        assert(before.tabs[i as int] == t@);
        self.tabs.set(i, tab);
        assert(self@.tabs =~= before.tabs.update(i as int, tab@));
        old_image
    }

    /// Records the loads that have just completed, before the tabs are brought up to date.
    fn record_visits(&self, history: &mut History, now: u64)
        ensures
            final(history)@ == visits(
                self@.tabs,
                self@.tabs.len(),
                old(history)@,
                self@.history_enabled,
                now,
            ),
    {
        let mut i: usize = 0;
        while i < self.tabs.len()
            invariant
                i <= self.tabs.len(),
                history@ == visits(
                    self@.tabs,
                    i as nat,
                    old(history)@,
                    self@.history_enabled,
                    now,
                ),
            decreases self.tabs.len() - i,
        {
            let t = &self.tabs[i];
            assert(self@.tabs[i as int] == t@);
            if t.loading && t.signals.dirty && !t.signals.loading && self.history_enabled {
                let url = match &t.signals.url {
                    Some(u) => Some(u.copy()),
                    None => copy_url(&t.url),
                };
                let title = or_empty(copy_text(&t.signals.title));
                if let Some(u) = url {
                    history.record(u.as_str(), title.as_str(), now);
                }
            }
            i += 1;
        }
    }

    /// Brings the tabs up to date after the engine has run, and records the visits that completed.
    /// Gives whether a frame came, and whether anything changed.
    pub fn pump(&mut self, history: &mut History, now: u64) -> (r: (bool, bool))
        ensures
            final(self)@ == (HostView { new_frame: false, ..old(self)@.synced() }),
            r.0 == old(self)@.new_frame,
            r.1 == (old(self)@.new_frame || old(self)@.any_dirty()),
            final(history)@ == visits(
                old(self)@.tabs,
                old(self)@.tabs.len(),
                old(history)@,
                old(self)@.history_enabled,
                now,
            ),
    {
        self.record_visits(history, now);
        let dirty = self.sync_page_state();
        if self.new_frame {
            self.new_frame = false;
            (true, true)
        } else {
            (false, dirty)
        }
    }

    /// The top-left pixel of the last frame.
    pub fn sample_pixel(&self) -> (r: Option<(u8, u8, u8)>)
        requires
            self@.last_frame matches Some((px, _, _)) ==> px.len() >= 3,
        ensures
            r == (match self@.last_frame {
                Some((px, _, _)) => Some((px[0], px[1], px[2])),
                None => None,
            }),
    {
        match &self.last_frame {
            Some((px, _, _)) => Some((px[0], px[1], px[2])),
            None => None,
        }
    }

    pub fn image(&self) -> (r: Option<(u32, u32, u32)>)
        requires
            self@.wf(),
        ensures
            r == self@.tab().image,
    {
        self.tabs[self.active].image
    }

    pub fn title(&self) -> (r: Option<String>)
        requires
            self@.wf(),
        ensures
            view_opt(r) == self@.tab().title,
    {
        copy_text(&self.tabs[self.active].title)
    }

    pub fn url(&self) -> (r: Option<Url>)
        requires
            self@.wf(),
        ensures
            url_opt(r) == self@.url(),
    {
        copy_url(&self.tabs[self.active].url)
    }

    pub fn loading(&self) -> (r: bool)
        requires
            self@.wf(),
        ensures
            r == self@.tab().loading,
    {
        self.tabs[self.active].loading
    }

    /// Loads an address in the tab that is shown.
    pub fn load(&mut self, url: &Url)
        ensures
            final(self)@ == old(self)@.told(ActionView::Load(old(self)@.active, url@.text)),
    {
        let i = self.active;
        self.tell(Action::Load(i, url.as_str().to_owned()));
    }

    pub fn reload(&mut self)
        ensures
            final(self)@ == old(self)@.told(ActionView::Reload(old(self)@.active)),
    {
        let i = self.active;
        self.tell(Action::Reload(i));
    }

    pub fn back(&mut self)
        ensures
            final(self)@ == old(self)@.told(ActionView::Back(old(self)@.active)),
    {
        let i = self.active;
        self.tell(Action::Back(i));
    }

    pub fn forward(&mut self)
        ensures
            final(self)@ == old(self)@.told(ActionView::Forward(old(self)@.active)),
    {
        let i = self.active;
        self.tell(Action::Forward(i));
    }

    pub fn set_history_enabled(&mut self, on: bool)
        ensures
            final(self)@ == (HostView { history_enabled: on, ..old(self)@ }),
    {
        self.history_enabled = on;
    }

    /// Installs or removes the inverting stylesheet.
    pub fn set_force_dark(&mut self, on: bool)
        ensures
            final(self)@ == old(self)@.forced_dark(on),
            final(self)@.tabs == old(self)@.tabs,
            final(self)@.active == old(self)@.active,
    {
        if on == self.force_dark {
            return;
        }
        self.force_dark = on;
        self.tell(Action::InvertPages(on));
        let ghost before = self@;
        let n = self.tabs.len();
        let mut i: usize = 0;
        while i < n
            invariant
                i <= n,
                self@ == before.reloading(i as nat),
                self@.tabs == before.tabs,
                self@.active == before.active,
            decreases n - i,
        {
            self.tell(Action::Reload(i));
            i += 1;
        }
    }

    /// What pages are told to prefer.
    pub fn set_color_scheme_dark(&mut self, dark: bool)
        ensures
            final(self)@ == old(self)@.told(ActionView::PreferDark(dark)),
    {
        self.tell(Action::PreferDark(dark));
    }

    /// Starts or stops watching pages for login fields.
    pub fn set_accounts_enabled(&mut self, on: bool)
        ensures
            final(self)@ == old(self)@.told(ActionView::WatchForms(on)),
    {
        self.tell(Action::WatchForms(on));
    }

    /// Whether a navigation became a download since this was last asked.
    pub fn take_download_started(&mut self) -> (r: bool)
        ensures
            r == old(self)@.download_started,
            final(self)@ == (HostView { download_started: false, ..old(self)@ }),
    {
        let started = self.download_started;
        self.download_started = false;
        started
    }

    /// The menu that was asked for since this was last asked.
    pub fn take_context_menu(&mut self) -> (r: Option<ContextMenuInfo>)
        ensures
            context_opt(r) == old(self)@.context_menu,
            final(self)@ == (HostView { context_menu: None, ..old(self)@ }),
    {
        let mut out: Option<ContextMenuInfo> = None;
        core::mem::swap(&mut self.context_menu, &mut out);
        out
    }

    /// The oldest report of the watcher that has not been taken.
    pub fn take_form_event(&mut self) -> (r: Option<FormEvent>)
        ensures
            (match r {
                Some(e) => {
                    &&& old(self)@.form_events.len() > 0
                    &&& e@ == old(self)@.form_events[0]
                    &&& final(self)@ == (HostView {
                        form_events: old(self)@.form_events.drop_first(),
                        ..old(self)@
                    })
                },
                None => old(self)@.form_events.len() == 0 && final(self)@ == old(self)@,
            }),
    {
        if self.form_events.len() == 0 {
            return None;
        }
        let ghost before = self@.form_events;
        let e = self.form_events.remove(0);
        assert(e@ == before[0]);
        assert(self@.form_events =~= before.drop_first());
        Some(e)
    }

    /// Forgets what the watcher reported.
    pub fn clear_form_events(&mut self)
        ensures
            final(self)@ == (HostView { form_events: Seq::empty(), ..old(self)@ }),
    {
        self.form_events = Vec::new();
        assert(self@.form_events =~= Seq::empty());
    }

    /// Asks the watcher to report the field that is focused.
    pub fn request_form_state(&mut self)
        ensures
            final(self)@ == old(self)@.told(
                ActionView::RunScript(old(self)@.active, RESCAN_JS@),
            ),
    {
        let i = self.active;
        self.tell(Action::RunScript(i, RESCAN_JS.to_owned()));
    }

    /// Puts a credential into the login form of the page.
    pub fn fill_credentials(&mut self, username: &str, password: &str)
        ensures
            final(self)@ == old(self)@.filled(username@, password@),
    {
        let i = self.active;
        let script = fill_js(username, password);
        self.tell(Action::RunScript(i, script));
    }

    /// Whether the page that is shown is bookmarked.
    pub fn active_bookmarked(&self, bookmarks: &Bookmarks) -> (r: bool)
        requires
            self@.wf(),
        ensures
            r == self@.listed(bookmarks@),
    {
        match &self.tabs[self.active].url {
            Some(u) => bookmarks.contains(u.as_str()),
            None => false,
        }
    }

    /// Adds or removes the bookmark of the page that is shown.
    pub fn toggle_bookmark(&self, bookmarks: &mut Bookmarks, now: u64)
        requires
            self@.wf(),
        ensures
            final(bookmarks)@ == (match self@.url() {
                Some(u) => bookmark_toggled(old(bookmarks)@, u.text, self@.title_text(), now),
                None => old(bookmarks)@,
            }),
    {
        let t = &self.tabs[self.active];
        if let Some(u) = &t.url {
            match &t.title {
                Some(title) => {
                    let _now = bookmarks.toggle(u.as_str(), title.as_str(), now);
                },
                None => {
                    let title = String::new();
                    let _now = bookmarks.toggle(u.as_str(), title.as_str(), now);
                },
            }
        }
    }

    /// Whether the page that is shown is a favorite.
    pub fn active_favorited(&self, favorites: &Favorites) -> (r: bool)
        requires
            self@.wf(),
        ensures
            r == self@.listed(favorites@),
    {
        match &self.tabs[self.active].url {
            Some(u) => favorites.contains(u.as_str()),
            None => false,
        }
    }

    /// Adds the page that is shown to the favorites, or removes it.
    pub fn toggle_favorite(&self, favorites: &mut Favorites, now: u64)
        requires
            self@.wf(),
        ensures
            final(favorites)@ == (match self@.url() {
                Some(u) => favorite_toggled(
                    old(favorites)@,
                    u.text,
                    label_of(u.text, self@.title_text()),
                    now,
                ),
                None => old(favorites)@,
            }),
    {
        let t = &self.tabs[self.active];
        if let Some(u) = &t.url {
            match &t.title {
                Some(title) => {
                    let _now = favorites.toggle(u.as_str(), title.as_str(), now);
                },
                None => {
                    let title = String::new();
                    let _now = favorites.toggle(u.as_str(), title.as_str(), now);
                },
            }
        }
    }

    /// Has the page copy, cut or paste.
    pub fn editing_action_cmd(&mut self, command: EditingCommand)
        ensures
            final(self)@ == old(self)@.editing(command),
    {
        let i = self.active;
        if command == EditingCommand::Paste {
            self.tell(Action::SyncClipboard);
        }
        self.tell(Action::Edit(i, command));
    }

    /// The dialog that a page is blocked on.
    pub fn pending_dialog(&self) -> (r: Option<PendingDialog>)
        ensures
            dialog_opt(r) == self@.dialog,
    {
        match &self.dialog {
            Some(d) => Some(
                PendingDialog {
                    message: d.message.clone(),
                    prompt_default: copy_text(&d.prompt_default),
                    has_cancel: d.has_cancel,
                },
            ),
            None => None,
        }
    }

    /// The challenge that a page is blocked on.
    pub fn pending_auth(&self) -> (r: Option<PendingAuth>)
        ensures
            auth_opt(r) == self@.auth,
    {
        match &self.auth {
            Some(a) => Some(
                PendingAuth { host: a.host.clone(), realm: a.realm.clone(), retry: a.retry },
            ),
            None => None,
        }
    }

    /// Answers the page. `text` is a prompt's reply.
    pub fn respond_dialog(&mut self, ok: bool, text: Option<String>)
        ensures
            final(self)@ == old(self)@.answered(ok, view_opt(text)),
    {
        let mut pending: Option<PendingDialog> = None;
        core::mem::swap(&mut self.dialog, &mut pending);
        if let Some(d) = pending {
            if d.prompt_default.is_some() {
                // A cancelled prompt is not an empty reply: a page tells the two apart.
                let reply = if ok {
                    match text {
                        Some(t) => Some(t),
                        None => Some(String::new()),
                    }
                } else {
                    None
                };
                self.tell(Action::PromptText(reply));
            } else if d.has_cancel {
                self.tell(Action::Confirm(ok));
            }
            self.tell(Action::CloseDialog);
        }
    }

    /// Answers a challenge, or cancels it.
    pub fn respond_auth(&mut self, credentials: Option<(String, String)>)
        ensures
            final(self)@ == old(self)@.authenticated(
                match credentials {
                    Some((user, password)) => Some((user@, password@)),
                    None => None,
                },
            ),
    {
        let mut pending: Option<PendingAuth> = None;
        core::mem::swap(&mut self.auth, &mut pending);
        if pending.is_some() {
            match credentials {
                Some((user, password)) => self.tell(Action::Authenticate(user, password)),
                None => self.tell(Action::CancelAuthentication),
            }
        }
    }
}

/// The dialogs that a page can put up.
#[derive(Clone, Copy, Debug, PartialEq, Eq, Structural)]
pub enum DialogKind {
    Alert,
    Confirm,
    Prompt,
    BeforeUnload,
}

/// A dialog as it waits: a prompt has a text to start from, and everything but an alert can be
/// cancelled.
pub open spec fn dialog_of(
    kind: DialogKind,
    message: Option<Seq<char>>,
    default: Option<Seq<char>>,
) -> DialogView {
    DialogView {
        message: text_or_empty(message),
        prompt_default: if kind == DialogKind::Prompt {
            Some(text_or_empty(default))
        } else {
            None
        },
        has_cancel: kind != DialogKind::Alert,
    }
}

fn or_empty(t: Option<String>) -> (r: String)
    ensures
        r@ == text_or_empty(view_opt(t)),
{
    match t {
        Some(t) => t,
        None => String::new(),
    }
}

impl WebKitHost {
    /// Holds a dialog that a page put up, until it is answered.
    pub fn hold_dialog(&mut self, kind: DialogKind, message: Option<String>, default: Option<String>)
        ensures
            final(self)@ == (HostView {
                dialog: Some(dialog_of(kind, view_opt(message), view_opt(default))),
                ..old(self)@
            }),
    {
        let prompt_default = if kind == DialogKind::Prompt {
            Some(or_empty(default))
        } else {
            None
        };
        self.dialog = Some(
            PendingDialog {
                message: or_empty(message),
                prompt_default,
                has_cancel: kind != DialogKind::Alert,
            },
        );
    }

    /// Holds a challenge, until it is answered.
    pub fn hold_challenge(&mut self, host: Option<String>, realm: Option<String>, retry: bool)
        ensures
            final(self)@ == (HostView {
                auth: Some(
                    AuthView {
                        host: text_or_empty(view_opt(host)),
                        realm: text_or_empty(view_opt(realm)),
                        retry,
                    },
                ),
                ..old(self)@
            }),
    {
        self.auth = Some(PendingAuth { host: or_empty(host), realm: or_empty(realm), retry });
    }
}

/// The milliseconds until the engine is looked after again: what it asks for, within bounds, or a
/// standard time where it asks for none.
pub open spec fn wake_after(timeout: Option<u64>) -> u64 {
    match timeout {
        Some(t) => if t < 4 {
            4
        } else if t > 250 {
            250
        } else {
            t
        },
        None => 100,
    }
}

/// See [`wake_after`].
pub fn next_wake(timeout: Option<u64>) -> (r: u64)
    ensures
        r == wake_after(timeout),
        4 <= r <= 250,
{
    match timeout {
        Some(t) => if t < 4 {
            4
        } else if t > 250 {
            250
        } else {
            t
        },
        None => 100,
    }
}

/// A host before its first tab.
pub open spec fn blank_host() -> HostView {
    HostView {
        tabs: Seq::empty(),
        active: usize::MAX,
        history_enabled: true,
        force_dark: false,
        download_started: false,
        dialog: None,
        auth: None,
        context_menu: None,
        form_events: Seq::empty(),
        new_frame: false,
        last_frame: None,
        outbox: Seq::empty(),
    }
}

/// A second copy of an optional text.
pub fn copy_text(t: &Option<String>) -> (r: Option<String>)
    ensures
        view_opt(r) == view_opt(*t),
{
    match t {
        Some(t) => Some(t.clone()),
        None => None,
    }
}

/// A second copy of an optional address.
pub fn copy_url(u: &Option<Url>) -> (r: Option<Url>)
    ensures
        url_opt(r) == url_opt(*u),
{
    match u {
        Some(u) => Some(u.copy()),
        None => None,
    }
}

// ---------------------------------------------------------------------------------------------
// What holds of every strip of tabs
// ---------------------------------------------------------------------------------------------

/// Closing a tab takes that one off the strip and leaves the others in order. The tab that was shown
/// stays shown, unless it is the one that closed: then its neighbour is.
pub proof fn closing_keeps_the_rest(h: HostView, i: int)
    requires
        h.wf(),
        0 <= i < h.tabs.len(),
        h.tabs.len() <= usize::MAX,
    ensures
        h.closed(i).tabs == h.tabs.remove(i),
        h.tabs.len() > 1 ==> h.closed(i).wf(),
        h.tabs.len() > 1 && i != h.active ==> h.closed(i).tab() == h.tab(),
        h.tabs.len() > 1 && i == h.active && i < h.tabs.len() - 1 ==> h.closed(i).tab()
            == h.tabs[i + 1],
        h.tabs.len() > 1 && i == h.active && i == h.tabs.len() - 1 ==> h.closed(i).tab()
            == h.tabs[i - 1],
{
}

/// A tab that is opened comes last and is shown, and every other tab stays as it was.
pub proof fn opening_comes_last(h: HostView, url: UrlView)
    requires
        h.wf(),
        h.tabs.len() < usize::MAX,
    ensures
        h.opened(url).wf(),
        h.opened(url).tab() == fresh_tab(url),
        h.opened(url).tabs == h.tabs.push(fresh_tab(url)),
{
}

/// A tab that is opened and closed again leaves the strip as it was, with its last tab shown.
pub proof fn open_then_close(h: HostView, url: UrlView)
    requires
        h.wf(),
        h.tabs.len() < usize::MAX,
    ensures
        h.opened(url).closed(h.tabs.len() as int).tabs == h.tabs,
        h.opened(url).closed(h.tabs.len() as int).active == h.tabs.len() - 1,
{
    opening_comes_last(h, url);
    let o = h.opened(url);
    closing_keeps_the_rest(o, h.tabs.len() as int);
    assert(o.tabs.remove(h.tabs.len() as int) =~= h.tabs);
}

/// With recording off, and for tabs whose load has not just completed, the history stays as it was.
pub proof fn only_completed_loads_are_recorded(
    tabs: Seq<TabView>,
    n: nat,
    h: LogView,
    enabled: bool,
    now: u64,
)
    requires
        n <= tabs.len(),
        !enabled || forall|i: int| 0 <= i < n ==> !completed(#[trigger] tabs[i]),
    ensures
        visits(tabs, n, h, enabled, now) == h,
    decreases n,
{
    if n > 0 {
        only_completed_loads_are_recorded(tabs, (n - 1) as nat, h, enabled, now);
        if enabled {
            assert(!completed(tabs[n - 1]));
        }
    }
}

/// A load that completed is not recorded again: once the tabs are up to date, none has just
/// completed.
pub proof fn visits_are_recorded_once(a: HostView, h: LogView, now: u64)
    ensures
        visits(a.synced().tabs, a.tabs.len(), h, a.history_enabled, now) == h,
{
    let after = a.synced().tabs;
    assert forall|i: int| 0 <= i < after.len() implies !completed(#[trigger] after[i]) by {
        assert(after[i] == synced_tab(a.tabs[i]));
    }
    only_completed_loads_are_recorded(after, after.len(), h, a.history_enabled, now);
}

/// A page that waits for an answer gets exactly one: the dialog is gone once it was answered, and
/// answering again does nothing.
pub proof fn dialogs_are_answered_once(
    h: HostView,
    ok: bool,
    text: Option<Seq<char>>,
    again: bool,
    other: Option<Seq<char>>,
)
    ensures
        h.answered(ok, text).dialog is None,
        h.answered(ok, text).answered(again, other) == h.answered(ok, text),
        h.dialog is Some ==> h.answered(ok, text).outbox.last() == ActionView::CloseDialog,
{
}

} // verus!
