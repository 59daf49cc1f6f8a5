//! The tabs over an engine that reports through a delegate, and that has no downloads of its own:
//! navigations to files become downloads, and a completed load is what the history records.

use vstd::prelude::*;

use crate::action::{action_views, Action, ActionView};
use crate::downloads::{downloads, is_download_url};
use crate::pages::{bookmark_toggled, recorded, Bookmarks, History, LogView};
use crate::store::has_entry;
use crate::weburl::{url_opt, view_opt, Url, UrlView};
use crate::wpe::host::{copy_text, copy_url};

verus! {

/// What the delegate observed of one page view.
#[derive(Debug)]
pub struct TabSignals {
    pub frame_ready: bool,
    pub title: Option<String>,
    pub url: Option<Url>,
    /// Nothing until a load status is reported: nothing is not the same as finished.
    pub loading: Option<bool>,
}

/// One tab: the page's state, and the last frame that was drawn of it (image, width, height).
#[derive(Debug)]
pub struct Tab {
    pub title: Option<String>,
    pub url: Option<Url>,
    pub loading: bool,
    pub image: Option<(u32, u32, u32)>,
    /// What was observed of the page view, where anything was.
    pub signals: Option<TabSignals>,
}

/// The tabs and what goes with them.
pub struct ServoHost {
    pub tabs: Vec<Tab>,
    pub active: usize,
    /// Whether visits are recorded.
    pub history_enabled: bool,
    /// Anything was observed since the tabs were last brought up to date.
    pub dirty: bool,
    /// How many page views pages have opened that are not tabs yet.
    pub opened: usize,
    pub download_started: bool,
    /// What is to be done, in order.
    pub outbox: Vec<Action>,
}

/// What was observed.
#[verifier::ext_equal]
pub struct SignalsView {
    pub frame_ready: bool,
    pub title: Option<Seq<char>>,
    pub url: Option<UrlView>,
    pub loading: Option<bool>,
}

/// What a tab is.
#[verifier::ext_equal]
pub struct TabView {
    pub title: Option<Seq<char>>,
    pub url: Option<UrlView>,
    pub loading: bool,
    pub image: Option<(u32, u32, u32)>,
    pub signals: Option<SignalsView>,
}

/// What the host holds.
#[verifier::ext_equal]
pub struct HostView {
    pub tabs: Seq<TabView>,
    pub active: usize,
    pub history_enabled: bool,
    pub dirty: bool,
    pub opened: usize,
    pub download_started: bool,
    pub outbox: Seq<ActionView>,
}

impl View for TabSignals {
    type V = SignalsView;

    open spec fn view(&self) -> SignalsView {
        SignalsView {
            frame_ready: self.frame_ready,
            title: view_opt(self.title),
            url: url_opt(self.url),
            loading: self.loading,
        }
    }
}

/// What was observed, where anything was.
pub open spec fn signals_opt(s: Option<TabSignals>) -> Option<SignalsView> {
    match s {
        Some(s) => Some(s@),
        None => None,
    }
}

impl View for Tab {
    type V = TabView;

    open spec fn view(&self) -> TabView {
        TabView {
            title: view_opt(self.title),
            url: url_opt(self.url),
            loading: self.loading,
            image: self.image,
            signals: signals_opt(self.signals),
        }
    }
}

/// What each tab is.
pub open spec fn tab_views(v: Seq<Tab>) -> Seq<TabView> {
    v.map_values(|t: Tab| t@)
}

impl View for ServoHost {
    type V = HostView;

    open spec fn view(&self) -> HostView {
        HostView {
            tabs: tab_views(self.tabs@),
            active: self.active,
            history_enabled: self.history_enabled,
            dirty: self.dirty,
            opened: self.opened,
            download_started: self.download_started,
            outbox: action_views(self.outbox@),
        }
    }
}

/// A tab of which nothing is known yet.
pub open spec fn fresh_tab() -> TabView {
    TabView { title: None, url: None, loading: true, image: None, signals: None }
}

/// A tab brought up to date with what was observed of its page view.
pub open spec fn synced_tab(t: TabView) -> TabView {
    match t.signals {
        None => t,
        Some(s) => TabView {
            title: s.title,
            url: s.url,
            loading: match s.loading {
                Some(l) => l,
                None => t.loading,
            },
            image: t.image,
            signals: Some(SignalsView { frame_ready: false, loading: None, ..s }),
        },
    }
}

/// Whether a tab's load has just completed.
pub open spec fn completed(t: TabView) -> bool {
    t.loading && (t.signals matches Some(s) && s.loading == Some(false))
}

/// The history after the first `n` tabs are brought up to date: every load that completed on a known
/// address is recorded, in the order of the strip.
pub open spec fn visits(tabs: Seq<TabView>, n: nat, h: LogView, enabled: bool, now: u64) -> LogView
    decreases n,
{
    if n == 0 {
        h
    } else {
        let before = visits(tabs, (n - 1) as nat, h, enabled, now);
        let t = tabs[n - 1];
        if completed(t) && enabled && t.signals->0.url is Some {
            recorded(
                before,
                (t.signals->0.url->0).text,
                match t.signals->0.title {
                    Some(title) => title,
                    None => Seq::empty(),
                },
                now,
            )
        } else {
            before
        }
    }
}

/// What was observed of a page view of which nothing was.
pub open spec fn unseen() -> SignalsView {
    SignalsView { frame_ready: false, title: None, url: None, loading: None }
}

impl HostView {
    /// What has been observed of a tab's page view so far.
    pub open spec fn seen(self, i: int) -> SignalsView {
        match self.tabs[i].signals {
            Some(s) => s,
            None => unseen(),
        }
    }

    /// The host with this as what has been observed of a tab's page view.
    pub open spec fn saw(self, i: int, s: SignalsView) -> HostView {
        HostView {
            tabs: self.tabs.update(i, TabView { signals: Some(s), ..self.tabs[i] }),
            dirty: true,
            ..self
        }
    }

    /// The page views that pages have opened made into tabs.
    pub open spec fn joined(self) -> HostView {
        HostView { opened: 0, ..self.adopted_all(self.opened as nat) }
    }

    /// The host with a frame put in place of the last one of the tab that is shown.
    pub open spec fn painted(self, image: (u32, u32, u32)) -> HostView {
        let i = self.active as int;
        HostView {
            tabs: self.tabs.update(i, TabView { image: Some(image), ..self.tabs[i] }),
            ..self
        }
    }

    /// The shown tab is one of the tabs.
    pub open spec fn wf(self) -> bool {
        self.active < self.tabs.len()
    }

    /// The host with one more thing to be done.
    pub open spec fn told(self, a: ActionView) -> HostView {
        HostView { outbox: self.outbox.push(a), ..self }
    }

    /// The host with another tab shown.
    pub open spec fn activated(self, i: int) -> HostView {
        if i >= self.tabs.len() || i == self.active {
            self
        } else {
            let hidden = if self.active < self.tabs.len() {
                self.told(ActionView::Hide(self.active))
            } else {
                self
            };
            HostView { active: i as usize, ..hidden }.told(ActionView::Show(i as usize))
        }
    }

    /// The host with one more tab, shown.
    pub open spec fn adopted(self) -> HostView {
        HostView { tabs: self.tabs.push(fresh_tab()), ..self }.activated(self.tabs.len() as int)
    }

    /// A file to be downloaded instead of loaded.
    pub open spec fn diverted(self, url: UrlView) -> HostView {
        HostView { download_started: true, dirty: true, ..self }.told(
            ActionView::Download(url.text),
        )
    }

    /// The host with a new tab on an address, shown. A file is downloaded, and the tab is blank: the
    /// engine asks about no address that it is handed, and has no way to show a file.
    pub open spec fn opened_on(self, url: UrlView) -> HostView {
        if downloads(url) {
            self.diverted(url).told(ActionView::Build("about:blank"@)).adopted()
        } else {
            self.told(ActionView::Build(url.text)).adopted()
        }
    }

    /// An address loaded in the tab that is shown, or a file downloaded.
    pub open spec fn loaded(self, url: UrlView) -> HostView {
        if downloads(url) {
            self.diverted(url)
        } else {
            self.told(ActionView::Load(self.active, url.text))
        }
    }

    /// The page views that pages have opened made into tabs; the newest is shown.
    pub open spec fn adopted_all(self, n: nat) -> HostView
        decreases n,
    {
        if n == 0 {
            self
        } else {
            self.adopted_all((n - 1) as nat).adopted()
        }
    }

    /// The tab to show after one is closed.
    pub open spec fn next_after(self, i: int) -> int {
        if i == self.active {
            if i < self.tabs.len() - 1 {
                i
            } else {
                self.tabs.len() - 2
            }
        } else if self.active > i {
            self.active - 1
        } else {
            self.active as int
        }
    }

    /// The host without a tab.
    pub open spec fn closed(self, i: int) -> HostView {
        if i >= self.tabs.len() {
            self
        } else {
            let gone = HostView { tabs: self.tabs.remove(i), ..self }.told(
                ActionView::Discard(i as usize),
            );
            if self.tabs.len() == 1 {
                gone
            } else {
                HostView { active: usize::MAX, ..gone }.activated(self.next_after(i))
            }
        }
    }

    /// Whether the page that is shown has a new frame.
    pub open spec fn active_frame(self) -> bool {
        self.active < self.tabs.len() && (self.tabs[self.active as int].signals matches Some(s)
            && s.frame_ready)
    }

    /// The host brought up to date after the engine has run.
    pub open spec fn pumped(self) -> HostView {
        let a = self.joined();
        if a.dirty {
            HostView {
                dirty: false,
                tabs: a.tabs.map_values(|t: TabView| synced_tab(t)),
                ..a
            }
        } else {
            a
        }
    }
}

impl ServoHost {
    /// A host with its first tab on an address.
    pub fn new(url: &Url) -> (r: ServoHost)
        ensures
            r@ == blank_host().opened_on(url@),
            r@.wf(),
    {
        let mut host = ServoHost {
            tabs: Vec::new(),
            active: usize::MAX,
            history_enabled: true,
            dirty: false,
            opened: 0,
            download_started: false,
            outbox: Vec::new(),
        };
        assert(host@ =~= blank_host());
        host.open_tab(url);
        host
    }

    /// Adds one more thing to be done.
    pub fn tell(&mut self, a: Action)
        ensures
            final(self)@ == old(self)@.told(a@),
    {
        let ghost before = self@.outbox;
        self.outbox.push(a);
        assert(self@.outbox =~= before.push(a@));
    }

    /// Makes a page view into a tab, and shows it.
    fn adopt(&mut self)
        requires
            old(self)@.wf() || (old(self)@.tabs.len() == 0 && old(self)@.active != 0),
        ensures
            final(self)@ == old(self)@.adopted(),
            final(self)@.wf(),
    {
        let ghost before = self@;
        let tab = Tab { title: None, url: None, loading: true, image: None, signals: None };
        self.tabs.push(tab);
        assert(self@.tabs =~= before.tabs.push(fresh_tab()));
        let last = self.tabs.len() - 1;
        self.activate(last);
    }

    /// Opens a tab and shows it.
    pub fn open_tab(&mut self, url: &Url)
        requires
            old(self)@.wf() || (old(self)@.tabs.len() == 0 && old(self)@.active != 0),
        ensures
            final(self)@ == old(self)@.opened_on(url@),
            final(self)@.wf(),
    {
        if self.take_as_download(url) {
            self.tell(Action::Build("about:blank".to_owned()));
        } else {
            self.tell(Action::Build(url.as_str().to_owned()));
        }
        self.adopt();
    }

    /// Has a file downloaded. Gives whether the address is one.
    pub fn take_as_download(&mut self, url: &Url) -> (r: bool)
        ensures
            r == downloads(url@),
            final(self)@ == (if r {
                old(self)@.diverted(url@)
            } else {
                old(self)@
            }),
    {
        if is_download_url(url) {
            self.download_started = true;
            self.dirty = true;
            self.tell(Action::Download(url.as_str().to_owned()));
            true
        } else {
            false
        }
    }

    /// Closes a tab. Gives false where that was the last one; it is gone either way.
    pub fn close_tab(&mut self, index: usize) -> (r: bool)
        requires
            old(self)@.wf(),
        ensures
            final(self)@ == old(self)@.closed(index as int),
            r == (index >= old(self)@.tabs.len() || old(self)@.tabs.len() > 1),
            r ==> final(self)@.wf(),
    {
        if index >= self.tabs.len() {
            return true;
        }
        let ghost before = self@;
        let was_active = index == self.active;
        let old_active = self.active;
        let _gone = self.tabs.remove(index);
        assert(self@.tabs =~= before.tabs.remove(index as int));
        self.tell(Action::Discard(index));
        if self.tabs.len() == 0 {
            return false;
        }
        // Closing the shown tab moves to its neighbour; closing another keeps the shown one, whose
        // place may have shifted down.
        let next: usize = if was_active {
            if index < self.tabs.len() - 1 {
                index
            } else {
                self.tabs.len() - 1
            }
        } else if old_active > index {
            old_active - 1
        } else {
            old_active
        };
        assert(next == before.next_after(index as int));
        self.active = usize::MAX;
        self.activate(next);
        true
    }

    /// Shows a tab.
    pub fn activate(&mut self, index: usize)
        ensures
            final(self)@ == old(self)@.activated(index as int),
            index < old(self)@.tabs.len() ==> final(self)@.active == index,
    {
        if index >= self.tabs.len() || index == self.active {
            return;
        }
        if self.active < self.tabs.len() {
            let old_tab = self.active;
            self.tell(Action::Hide(old_tab));
        }
        self.active = index;
        self.tell(Action::Show(index));
    }

    pub fn tab_count(&self) -> (r: usize)
        ensures
            r == self@.tabs.len(),
    {
        self.tabs.len()
    }

    pub fn active_index(&self) -> (r: usize)
        ensures
            r == self@.active,
    {
        self.active
    }

    pub fn tab(&self, index: usize) -> (r: Option<&Tab>)
        ensures
            (match r {
                Some(t) => index < self@.tabs.len() && t@ == self@.tabs[index as int],
                None => index >= self@.tabs.len(),
            }),
    {
        if index < self.tabs.len() {
            Some(&self.tabs[index])
        } else {
            None
        }
    }

    pub fn set_history_enabled(&mut self, on: bool)
        ensures
            final(self)@ == (HostView { history_enabled: on, ..old(self)@ }),
    {
        self.history_enabled = on;
    }

    /// What has been observed of a tab's page view so far.
    fn seen(&self, index: usize) -> (r: TabSignals)
        requires
            index < self@.tabs.len(),
        ensures
            r@ == self@.seen(index as int),
    {
        let t = &self.tabs[index];
        assert(self@.tabs[index as int] == t@);
        match &t.signals {
            Some(s) => TabSignals {
                frame_ready: s.frame_ready,
                title: copy_text(&s.title),
                url: copy_url(&s.url),
                loading: s.loading,
            },
            None => TabSignals { frame_ready: false, title: None, url: None, loading: None },
        }
    }

    /// Notes that a tab's page view has a new frame.
    pub fn notify_new_frame_ready(&mut self, index: usize)
        requires
            index < old(self)@.tabs.len(),
        ensures
            final(self)@ == old(self)@.saw(
                index as int,
                SignalsView { frame_ready: true, ..old(self)@.seen(index as int) },
            ),
    {
        let mut s = self.seen(index);
        s.frame_ready = true;
        self.observe(index, s);
    }

    /// Notes the title of a tab's page.
    pub fn notify_page_title_changed(&mut self, index: usize, title: Option<String>)
        requires
            index < old(self)@.tabs.len(),
        ensures
            final(self)@ == old(self)@.saw(
                index as int,
                SignalsView { title: view_opt(title), ..old(self)@.seen(index as int) },
            ),
    {
        let mut s = self.seen(index);
        s.title = title;
        self.observe(index, s);
    }

    /// Notes the address that a tab's page view has come to.
    pub fn notify_url_changed(&mut self, index: usize, url: Url)
        requires
            index < old(self)@.tabs.len(),
        ensures
            final(self)@ == old(self)@.saw(
                index as int,
                SignalsView { url: Some(url@), ..old(self)@.seen(index as int) },
            ),
    {
        let mut s = self.seen(index);
        s.url = Some(url);
        self.observe(index, s);
    }

    /// Notes how a tab's load stands: complete, or not yet.
    pub fn notify_load_status_changed(&mut self, index: usize, complete: bool)
        requires
            index < old(self)@.tabs.len(),
        ensures
            final(self)@ == old(self)@.saw(
                index as int,
                SignalsView { loading: Some(!complete), ..old(self)@.seen(index as int) },
            ),
    {
        let mut s = self.seen(index);
        s.loading = Some(!complete);
        self.observe(index, s);
    }

    /// Notes that a page has opened a page view.
    pub fn request_create_new(&mut self)
        requires
            old(self)@.opened < usize::MAX,
        ensures
            final(self)@ == (HostView { opened: (old(self)@.opened + 1) as usize, dirty: true, ..old(self)@ }),
    {
        self.opened = self.opened + 1;
        self.dirty = true;
    }

    /// Takes up a frame of the page that is shown. Gives the image that is no longer needed.
    pub fn accept_frame(&mut self, image: (u32, u32, u32)) -> (r: Option<u32>)
        requires
            old(self)@.wf(),
        ensures
            final(self)@ == old(self)@.painted(image),
            r == (match old(self)@.tabs[old(self)@.active as int].image {
                Some((id, _, _)) => Some(id),
                None => None,
            }),
    {
        let ghost before = self@;
        let i = self.active;
        let t = &self.tabs[i];
        assert(before.tabs[i as int] == t@);
        let old_image = match t.image {
            Some((id, _, _)) => Some(id),
            None => None,
        };
        let signals = match &t.signals {
            Some(_) => Some(self.seen(i)),
            None => None,
        };
        let tab = Tab {
            title: copy_text(&t.title),
            url: copy_url(&t.url),
            loading: t.loading,
            image: Some(image),
            signals,
        };
        self.tabs.set(i, tab);
        assert(self@.tabs =~= before.tabs.update(i as int, tab@));
        old_image
    }

    /// Notes what has been observed of a tab's page view.
    fn observe(&mut self, index: usize, signals: TabSignals)
        requires
            index < old(self)@.tabs.len(),
        ensures
            final(self)@ == old(self)@.saw(index as int, signals@),
    {
        let ghost before = self@;
        let t = &self.tabs[index];
        assert(before.tabs[index as int] == t@);
        let tab = Tab {
            title: copy_text(&t.title),
            url: copy_url(&t.url),
            loading: t.loading,
            image: t.image,
            signals: Some(signals),
        };
        self.tabs.set(index, tab);
        self.dirty = true;
        assert(self@.tabs =~= before.tabs.update(index as int, tab@));
    }

    /// Decides on a navigation: one to a file is denied and is to be downloaded.
    pub fn request_navigation(&mut self, url: &Url) -> (allowed: bool)
        ensures
            allowed == !downloads(url@),
            final(self)@ == (if allowed {
                old(self)@
            } else {
                old(self)@.diverted(url@)
            }),
    {
        !self.take_as_download(url)
    }

    /// Makes the page views that pages have opened into tabs. The newest is shown.
    pub fn adopt_opened(&mut self)
        requires
            old(self)@.wf(),
        ensures
            final(self)@ == old(self)@.joined(),
            final(self)@.wf(),
            final(self)@.dirty == old(self)@.dirty,
            final(self)@.history_enabled == old(self)@.history_enabled,
    {
        let ghost before = self@;
        let n = self.opened;
        let mut k: usize = 0;
        while k < n
            invariant
                k <= n,
                n == before.opened,
                self@.wf(),
                self@ == before.adopted_all(k as nat),
                self@.dirty == before.dirty,
                self@.history_enabled == before.history_enabled,
            decreases n - k,
        {
            self.adopt();
            k += 1;
        }
        self.opened = 0;
    }

    /// Brings the tabs up to date after the engine has run, and records the visits that completed.
    /// Gives whether the page that is shown has a new frame, and whether anything changed.
    pub fn pump(&mut self, history: &mut History, now: u64) -> (r: (bool, bool))
        requires
            old(self)@.wf(),
        ensures
            final(self)@ == old(self)@.pumped(),
            final(self)@.wf(),
            r.1 == old(self)@.dirty,
            ({
                let a = old(self)@.joined();
                &&& r.0 == (old(self)@.dirty && a.active_frame())
                &&& final(history)@ == (if old(self)@.dirty {
                    visits(
                        a.tabs,
                        a.tabs.len(),
                        old(history)@,
                        old(self)@.history_enabled,
                        now,
                    )
                } else {
                    old(history)@
                })
            }),
    {
        let ghost before = self@;
        self.adopt_opened();
        let ghost a = self@;
        let dirty = self.dirty;
        if !dirty {
            return (false, false);
        }
        self.dirty = false;
        let mut active_frame = false;
        let mut i: usize = 0;
        while i < self.tabs.len()
            invariant
                i <= self.tabs.len(),
                a.wf(),
                a.dirty,
                before.dirty,
                a.history_enabled == before.history_enabled,
                self@ == (HostView { tabs: self@.tabs, dirty: false, ..a }),
                self@.tabs.len() == a.tabs.len(),
                forall|j: int| 0 <= j < i ==> #[trigger] self@.tabs[j] == synced_tab(a.tabs[j]),
                forall|j: int| i <= j < a.tabs.len() ==> #[trigger] self@.tabs[j] == a.tabs[j],
                history@ == visits(a.tabs, i as nat, old(history)@, a.history_enabled, now),
                active_frame == (a.active < i && a.active_frame()),
            decreases self.tabs.len() - i,
        {
            let ghost was = self@.tabs;
            let t = &self.tabs[i];
            assert(was[i as int] == t@);
            if let Some(s) = &t.signals {
                let loading = match s.loading {
                    Some(l) => l,
                    None => t.loading,
                };
                let tab = Tab {
                    title: copy_text(&s.title),
                    url: copy_url(&s.url),
                    loading,
                    image: t.image,
                    signals: Some(
                        TabSignals {
                            frame_ready: false,
                            title: copy_text(&s.title),
                            url: copy_url(&s.url),
                            loading: None,
                        },
                    ),
                };
                let finished = match s.loading {
                    Some(l) => t.loading && !l,
                    None => false,
                };
                if finished && self.history_enabled {
                    if let Some(u) = &s.url {
                        match &s.title {
                            Some(title) => history.record(u.as_str(), title.as_str(), now),
                            None => {
                                let title = String::new();
                                history.record(u.as_str(), title.as_str(), now);
                            },
                        }
                    }
                }
                if s.frame_ready && i == self.active {
                    active_frame = true;
                }
                assert(tab@ == synced_tab(was[i as int]));
                self.tabs.set(i, tab);
                assert(self@.tabs =~= was.update(i as int, tab@));
            }
            i += 1;
        }
        assert(self@.tabs =~= before.pumped().tabs);
        (active_frame, true)
    }

    pub fn image(&self) -> (r: Option<(u32, u32, u32)>)
        requires
            self@.wf(),
        ensures
            r == self@.tabs[self@.active as int].image,
    {
        self.tabs[self.active].image
    }

    pub fn title(&self) -> (r: Option<String>)
        requires
            self@.wf(),
        ensures
            view_opt(r) == self@.tabs[self@.active as int].title,
    {
        copy_text(&self.tabs[self.active].title)
    }

    pub fn url(&self) -> (r: Option<Url>)
        requires
            self@.wf(),
        ensures
            url_opt(r) == self@.tabs[self@.active as int].url,
    {
        copy_url(&self.tabs[self.active].url)
    }

    pub fn loading(&self) -> (r: bool)
        requires
            self@.wf(),
        ensures
            r == self@.tabs[self@.active as int].loading,
    {
        self.tabs[self.active].loading
    }

    /// Whether a navigation became a download since this was last asked.
    pub fn take_download_started(&mut self) -> (r: bool)
        ensures
            r == old(self)@.download_started,
            final(self)@ == (HostView { download_started: false, ..old(self)@ }),
    {
        let started = self.download_started;
        self.download_started = false;
        started
    }

    /// Whether the page that is shown is bookmarked.
    pub fn active_bookmarked(&self, bookmarks: &Bookmarks) -> (r: bool)
        requires
            self@.wf(),
        ensures
            r == (self@.tabs[self@.active as int].url matches Some(u) && has_entry(
                bookmarks@.entries,
                u.text,
            )),
    {
        match &self.tabs[self.active].url {
            Some(u) => bookmarks.contains(u.as_str()),
            None => false,
        }
    }

    /// Adds or removes the bookmark of the page that is shown.
    pub fn toggle_bookmark(&self, bookmarks: &mut Bookmarks, now: u64)
        requires
            self@.wf(),
        ensures
            ({
                let t = self@.tabs[self@.active as int];
                final(bookmarks)@ == (match t.url {
                    Some(u) => bookmark_toggled(
                        old(bookmarks)@,
                        u.text,
                        match t.title {
                            Some(title) => title,
                            None => Seq::empty(),
                        },
                        now,
                    ),
                    None => old(bookmarks)@,
                })
            }),
    {
        let t = &self.tabs[self.active];
        if let Some(u) = &t.url {
            match &t.title {
                Some(title) => {
                    let _now = bookmarks.toggle(u.as_str(), title.as_str(), now);
                },
                None => {
                    let title = String::new();
                    let _now = bookmarks.toggle(u.as_str(), title.as_str(), now);
                },
            }
        }
    }

    /// Loads an address in the tab that is shown.
    pub fn load(&mut self, url: &Url)
        ensures
            final(self)@ == old(self)@.loaded(url@),
    {
        if !self.take_as_download(url) {
            let i = self.active;
            self.tell(Action::Load(i, url.as_str().to_owned()));
        }
    }

    pub fn reload(&mut self)
        ensures
            final(self)@ == old(self)@.told(ActionView::Reload(old(self)@.active)),
    {
        let i = self.active;
        self.tell(Action::Reload(i));
    }

    /// Goes back, where the page view says that it can.
    pub fn back(&mut self, can_go_back: bool)
        ensures
            final(self)@ == (if can_go_back {
                old(self)@.told(ActionView::Back(old(self)@.active))
            } else {
                old(self)@
            }),
    {
        if can_go_back {
            let i = self.active;
            self.tell(Action::Back(i));
        }
    }

    /// Goes forward, where the page view says that it can.
    pub fn forward(&mut self, can_go_forward: bool)
        ensures
            final(self)@ == (if can_go_forward {
                old(self)@.told(ActionView::Forward(old(self)@.active))
            } else {
                old(self)@
            }),
    {
        if can_go_forward {
            let i = self.active;
            self.tell(Action::Forward(i));
        }
    }
}

/// A host before its first tab.
pub open spec fn blank_host() -> HostView {
    HostView {
        tabs: Seq::empty(),
        active: usize::MAX,
        history_enabled: true,
        dirty: false,
        opened: 0,
        download_started: false,
        outbox: Seq::empty(),
    }
}

/// A report of one thing keeps what was reported before of the others.
pub proof fn reports_keep_the_rest(h: HostView, i: int, title: Option<Seq<char>>, url: UrlView)
    requires
        0 <= i < h.tabs.len(),
    ensures
        ({
            let named = h.saw(i, SignalsView { title, ..h.seen(i) });
            let both = named.saw(i, SignalsView { url: Some(url), ..named.seen(i) });
            let framed = both.saw(i, SignalsView { frame_ready: true, ..both.seen(i) });
            &&& synced_tab(framed.tabs[i]).title == title
            &&& synced_tab(framed.tabs[i]).url == Some(url)
            &&& forall|j: int|
                0 <= j < h.tabs.len() && j != i ==> #[trigger] framed.tabs[j] == h.tabs[j]
        }),
{
}

/// With recording off, and for tabs whose load has not just completed, the history stays as it was.
pub proof fn only_completed_loads_are_recorded(
    tabs: Seq<TabView>,
    n: nat,
    h: LogView,
    enabled: bool,
    now: u64,
)
    requires
        n <= tabs.len(),
        !enabled || forall|i: int| 0 <= i < n ==> !completed(#[trigger] tabs[i]),
    ensures
        visits(tabs, n, h, enabled, now) == h,
    decreases n,
{
    if n > 0 {
        only_completed_loads_are_recorded(tabs, (n - 1) as nat, h, enabled, now);
        if enabled {
            assert(!completed(tabs[n - 1]));
        }
    }
}

/// A load that completed is not recorded again: once the tabs are up to date, none has just
/// completed.
pub proof fn visits_are_recorded_once(tabs: Seq<TabView>, h: LogView, enabled: bool, now: u64)
    ensures
        ({
            let after = tabs.map_values(|t: TabView| synced_tab(t));
            visits(after, after.len(), h, enabled, now) == h
        }),
{
    let after = tabs.map_values(|t: TabView| synced_tab(t));
    assert forall|i: int| 0 <= i < after.len() implies !completed(#[trigger] after[i]) by {
        assert(after[i] == synced_tab(tabs[i]));
    }
    only_completed_loads_are_recorded(after, after.len(), h, enabled, now);
}

/// No file is handed to the engine, whoever asked for it: it is downloaded instead.
pub proof fn files_never_reach_the_engine(h: HostView, url: UrlView)
    requires
        downloads(url),
        h.wf(),
    ensures
        h.loaded(url).outbox == h.outbox.push(ActionView::Download(url.text)),
        h.opened_on(url).outbox.contains(ActionView::Download(url.text)),
        forall|i: int|
            h.outbox.len() <= i < h.opened_on(url).outbox.len() ==> {
                &&& (#[trigger] h.opened_on(url).outbox[i]) != ActionView::Build(url.text) || url.text
                    == "about:blank"@
                &&& !(h.opened_on(url).outbox[i] is Load)
            },
        h.opened_on(url).download_started,
{
    let n = h.outbox.len() as int;
    assert(h.opened_on(url).outbox[n] == ActionView::Download(url.text));
}

} // verus!
