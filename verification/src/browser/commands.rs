//! What the chrome's commands do: to the tabs, the address bar, the stores and the settings.

use vstd::prelude::*;

use crate::action::{Action, ActionView};
use crate::address::{input_url, parse_url_input};
use crate::browser::state::{AppView, BrowserApp};
use crate::downloads::{set_download_dir, DownloadDir};
use crate::input::{Clipboard, KeyEvent};
use crate::lineedit::{EditOutcome, LineEdit};
use crate::message::{message_opt, Message, MessageView};
use crate::modal::empty_line;
use crate::pages::{bookmark_toggled, favorite_toggled, label_of};
use crate::protocol::ProtocolView;
use crate::settings::{ColorScheme, Settings, SettingsView};
use crate::text::starts_with;
use crate::weburl::{url_opt, url_parse, view_opt, Url, UrlView};
use crate::wpe::host::{copy_text, HostView, TabView, WebKitHost};

verus! {

/// Whether a tab is on a page, or below it.
pub open spec fn on_page(t: TabView, page: Seq<char>) -> bool {
    t.url matches Some(u) && page.is_prefix_of(u.text)
}

/// The first tab, from `i` on, that is on a page, or the number of tabs.
pub open spec fn tab_on(tabs: Seq<TabView>, page: Seq<char>, i: int) -> int
    decreases tabs.len() - i,
{
    if i >= tabs.len() || on_page(tabs[i], page) {
        i
    } else {
        tab_on(tabs, page, i + 1)
    }
}

/// The host with what the settings say of recording visits and of colors.
pub open spec fn scheme_applied(h: HostView, s: SettingsView) -> HostView {
    HostView { history_enabled: s.history, ..h }.told(
        ActionView::PreferDark(s.color_scheme == ColorScheme::Dark),
    ).forced_dark(s.color_scheme == ColorScheme::ForceDark)
}

impl AppView {
    /// An address loaded in the tab that is shown.
    pub open spec fn loaded(self, url: UrlView) -> AppView {
        AppView {
            loading: true,
            ..self.told(ActionView::Load(self.host.active, url.text))
        }
    }

    /// What the address bar means loaded, and the bar folded away; nothing where it means nothing.
    #[verifier::opaque]
    pub open spec fn navigated(self, meant: Option<UrlView>) -> AppView {
        match meant {
            Some(u) => AppView {
                loading: true,
                chrome_open: false,
                ..self.told(ActionView::Load(self.host.active, u.text)).url_left()
            },
            None => self,
        }
    }

    /// What the address bar means.
    pub open spec fn meant(self) -> Option<UrlView> {
        input_url(self.url.text, self.settings.search_prefix)
    }

    /// A blank tab opened, with the address bar on screen and focused for typing.
    #[verifier::opaque]
    pub open spec fn blank_opened(self, blank: UrlView) -> AppView {
        AppView {
            url: empty_line(false),
            url_focused: true,
            chrome_open: true,
            ..self.with_host(self.host.opened(blank))
        }.page_synced().persisted()
    }

    /// A tab closed. Where it was the last one, the empty set is saved and the browser is to end.
    #[verifier::opaque]
    pub open spec fn tab_closed(self, i: int) -> (AppView, Option<MessageView>) {
        let a = self.with_host(self.host.closed(i));
        if i < self.host.tabs.len() && self.host.tabs.len() == 1 {
            (a.persisted(), Some(MessageView::Quit))
        } else {
            (a.tabs_changed(), None)
        }
    }

    /// Another tab shown. It has its own login fields, and may have none.
    #[verifier::opaque]
    pub open spec fn tab_switched(self, i: int) -> AppView {
        AppView {
            ac_menu: None,
            ..self.with_host(
                HostView { form_events: Seq::empty(), ..self.host }.activated(i),
            )
        }.tabs_changed()
    }

    /// An internal page shown: a tab already on it, reloaded, or a new one. `parsed` is its address.
    #[verifier::opaque]
    pub open spec fn internal_opened(self, page: Seq<char>, parsed: Option<UrlView>) -> AppView {
        match parsed {
            None => self,
            Some(u) => {
                let i = tab_on(self.host.tabs, page, 0);
                if i < self.host.tabs.len() {
                    let a = self.tab_switched(i);
                    a.told(ActionView::Reload(a.host.active))
                } else {
                    self.tab_opened(u)
                }
            },
        }
    }

    /// The page that is shown added to the favorites, or removed.
    #[verifier::opaque]
    pub open spec fn favorite_switched(self, now: u64) -> AppView {
        let favorites = match self.host.url() {
            Some(u) => favorite_toggled(
                self.pages.favorites,
                u.text,
                label_of(u.text, self.host.title_text()),
                now,
            ),
            None => self.pages.favorites,
        };
        AppView { pages: ProtocolView { favorites, ..self.pages }, ..self }.favorites_refreshed()
    }

    /// The bookmark of the page that is shown added or removed.
    #[verifier::opaque]
    pub open spec fn bookmark_switched(self, now: u64) -> AppView {
        let bookmarks = match self.host.url() {
            Some(u) => bookmark_toggled(
                self.pages.bookmarks,
                u.text,
                self.host.title_text(),
                now,
            ),
            None => self.pages.bookmarks,
        };
        AppView { pages: ProtocolView { bookmarks, ..self.pages }, ..self }
    }

    /// The page that is shown, or else what the address bar means, handed to another browser.
    #[verifier::opaque]
    pub open spec fn opened_outside(self) -> AppView {
        let target = match self.host.url() {
            Some(u) => Some(u),
            None => self.meant(),
        };
        match target {
            Some(u) => self.told(
                ActionView::OpenOutside(u.text, self.settings.external_browser),
            ),
            None => self,
        }
    }

    /// Other settings taken up, where they say something else.
    #[verifier::opaque]
    pub open spec fn settings_taken(self, new: SettingsView, accounts_on: bool) -> AppView {
        if self.says(new, accounts_on) {
            self
        } else {
            let a = self.accounts_switched(accounts_on);
            AppView { settings: new, ..a.with_host(scheme_applied(a.host, new)) }
        }
    }

    /// Accounts offered or not. Where that changes, pages are watched or not, and an account list goes.
    #[verifier::opaque]
    pub open spec fn accounts_switched(self, on: bool) -> AppView {
        if on == self.accounts_on {
            self
        } else {
            AppView {
                accounts_on: on,
                ac_menu: if on {
                    self.ac_menu
                } else {
                    None
                },
                ..self.told(ActionView::WatchForms(on))
            }
        }
    }

    /// A keystroke in the address bar: Enter navigates, and Escape returns the focus to the page.
    #[verifier::opaque]
    pub open spec fn url_edited(self, event: KeyEvent, offer: Option<Seq<char>>) -> AppView {
        let (a, outcome) = self.line_edited(event, offer);
        a.edit_finished(outcome)
    }

    /// A keystroke in the address bar's text, and what was copied put on the clipboard.
    #[verifier::opaque]
    pub open spec fn line_edited(self, event: KeyEvent, offer: Option<Seq<char>>) -> (
        AppView,
        EditOutcome,
    ) {
        let (line, outcome, copied) = self.url.step(event, offer);
        (AppView { url: line, ..self }.copied_out(copied), outcome)
    }

    /// What was copied put on the clipboard.
    pub open spec fn copied_out(self, copied: Option<Seq<char>>) -> AppView {
        match copied {
            Some(t) => self.told(ActionView::CopyText(t)),
            None => self,
        }
    }

    /// What a keystroke in the address bar meant, beyond editing.
    #[verifier::opaque]
    pub open spec fn edit_finished(self, outcome: EditOutcome) -> AppView {
        match outcome {
            EditOutcome::Submit => self.navigated(self.meant()),
            EditOutcome::Cancel => self.url_left().page_synced(),
            _ => self,
        }
    }
}

impl BrowserApp {
    /// Loads what the address bar means.
    pub fn navigate(&mut self)
        requires
            old(self).wf(),
        ensures
            final(self)@ == old(self)@.navigated(old(self)@.meant()),
            final(self).wf(),
    {
        let meant = parse_url_input(
            self.url.text.as_str(),
            self.settings.search_prefix.as_str(),
        );
        self.go(meant);
    }

    /// Loads what the address bar was found to mean.
    #[verifier::rlimit(40)]
    pub fn go(&mut self, meant: Option<Url>)
        requires
            old(self).wf(),
        ensures
            final(self)@ == old(self)@.navigated(url_opt(meant)),
            final(self).wf(),
    {
        proof {
            reveal(AppView::navigated);
        }
        if let Some(u) = meant {
            self.host.load(&u);
            self.leave_url();
            self.loading = true;
            // Submitting is a pick: the bar folds away to show the page.
            self.chrome_open = false;
        }
    }

    /// Opens a blank tab with the address bar focused.
    pub fn new_tab(&mut self)
        requires
            old(self).wf(),
        ensures
            final(self)@ == (match url_parse("about:blank"@) {
                Some(u) => old(self)@.blank_opened(u),
                None => old(self)@,
            }),
            final(self).wf(),
    {
        if let Some(u) = Url::parse("about:blank") {
            self.open_blank(u);
        }
    }

    /// Opens a tab on a blank page with the address bar focused.
    #[verifier::rlimit(40)]
    pub fn open_blank(&mut self, blank: Url)
        requires
            old(self).wf(),
        ensures
            final(self)@ == old(self)@.blank_opened(blank@),
            final(self).wf(),
    {
        proof {
            reveal(AppView::blank_opened);
        }
        self.host.open_tab(blank);
        self.url = LineEdit::new();
        self.url_focused = true;
        self.open_chrome();
        self.sync_page_state();
        self.persist_session();
    }

    /// Closes a tab; where it was the last one, the browser is to end.
    #[verifier::rlimit(40)]
    pub fn close_tab(&mut self, index: usize) -> (r: Option<Message>)
        requires
            old(self).wf(),
        ensures
            (final(self)@, message_opt(r)) == old(self)@.tab_closed(index as int),
            r is None ==> final(self).wf(),
    {
        proof {
            reveal(AppView::tab_closed);
        }
        if !self.host.close_tab(index) {
            self.persist_session();
            return Some(Message::Quit);
        }
        self.follow_tabs();
        None
    }

    /// Shows another tab.
    #[verifier::rlimit(40)]
    pub fn switch_tab(&mut self, index: usize)
        requires
            old(self).wf(),
        ensures
            final(self)@ == old(self)@.tab_switched(index as int),
            final(self).wf(),
    {
        proof {
            reveal(AppView::tab_switched);
        }
        self.ac_menu = None;
        self.host.clear_form_events();
        self.host.activate(index);
        self.follow_tabs();
    }

    /// Shows an internal page.
    pub fn open_internal_page(&mut self, page: &str)
        requires
            old(self).wf(),
        ensures
            final(self)@ == old(self)@.internal_opened(page@, url_parse(page@)),
            final(self).wf(),
    {
        let parsed = Url::parse(page);
        self.show_page(page, parsed);
    }

    /// Shows an internal page, with its address parsed.
    #[verifier::rlimit(40)]
    pub fn show_page(&mut self, page: &str, parsed: Option<Url>)
        requires
            old(self).wf(),
        ensures
            final(self)@ == old(self)@.internal_opened(page@, url_opt(parsed)),
            final(self).wf(),
    {
        proof {
            reveal(AppView::internal_opened);
        }
        let url = match parsed {
            Some(u) => u,
            None => return,
        };
        let i = self.tab_on_page(page);
        if i < self.host.tab_count() {
            self.switch_tab(i);
            self.host.reload();
        } else {
            self.open_tab(url);
        }
    }

    /// The first tab on a page, or the number of tabs.
    fn tab_on_page(&self, page: &str) -> (r: usize)
        ensures
            r == tab_on(self@.host.tabs, page@, 0),
    {
        let ghost tabs = self@.host.tabs;
        let n = self.host.tab_count();
        let mut i: usize = 0;
        while i < n
            invariant
                i <= n,
                n == tabs.len(),
                tabs == self@.host.tabs,
                tab_on(tabs, page@, 0) == tab_on(tabs, page@, i as int),
            decreases n - i,
        {
            let here = match self.host.tab(i) {
                Some(t) => match &t.url {
                    Some(u) => starts_with(u.as_str(), page),
                    None => false,
                },
                None => false,
            };
            assert(here == on_page(tabs[i as int], page@));
            if here {
                return i;
            }
            i += 1;
        }
        i
    }

    /// Adds the page that is shown to the favorites, or removes it.
    #[verifier::rlimit(40)]
    pub fn toggle_favorite(&mut self, now: u64)
        requires
            old(self).wf(),
        ensures
            final(self)@ == old(self)@.favorite_switched(now),
            final(self).wf(),
    {
        proof {
            reveal(AppView::favorite_switched);
        }
        self.host.toggle_favorite(&mut self.pages.favorites, now);
        self.refresh_favorites();
    }

    /// Adds or removes the bookmark of the page that is shown.
    #[verifier::rlimit(40)]
    pub fn toggle_bookmark(&mut self, now: u64)
        requires
            old(self).wf(),
        ensures
            final(self)@ == old(self)@.bookmark_switched(now),
            final(self).wf(),
    {
        proof {
            reveal(AppView::bookmark_switched);
        }
        self.host.toggle_bookmark(&mut self.pages.bookmarks, now);
    }

    /// Hands the page that is shown to another browser.
    #[verifier::rlimit(40)]
    pub fn open_external(&mut self)
        requires
            old(self).wf(),
        ensures
            final(self)@ == old(self)@.opened_outside(),
            final(self).wf(),
    {
        proof {
            reveal(AppView::opened_outside);
        }
        let target = match self.host.url() {
            Some(u) => Some(u),
            None => parse_url_input(
                self.url.text.as_str(),
                self.settings.search_prefix.as_str(),
            ),
        };
        if let Some(u) = target {
            let command = copy_text(&self.settings.external_browser);
            self.tell(Action::OpenOutside(u.as_str().to_owned(), command));
        }
    }

    /// Takes up settings that were read again. Gives whether anything changed.
    pub fn reload_settings(
        &mut self,
        new: Settings,
        accounts_on: bool,
        place: &mut DownloadDir,
    ) -> (r: bool)
        requires
            old(self).wf(),
        ensures
            final(self)@ == old(self)@.settings_taken(new@, accounts_on),
            r == !old(self)@.says(new@, accounts_on),
            view_opt(final(place).chosen) == (if r {
                new@.download_dir
            } else {
                view_opt(old(place).chosen)
            }),
            final(self).wf(),
    {
        proof {
            reveal(AppView::settings_taken);
        }
        if new.says_same(&self.settings) && accounts_on == self.accounts_on {
            return false;
        }
        set_download_dir(place, copy_text(&new.download_dir));
        self.set_accounts(accounts_on);
        self.take_settings(new);
        true
    }

    /// Has the host follow the settings, and keeps them.
    #[verifier::rlimit(40)]
    fn take_settings(&mut self, new: Settings)
        requires
            old(self).wf(),
        ensures
            final(self)@ == (AppView {
                settings: new@,
                ..old(self)@.with_host(scheme_applied(old(self)@.host, new@))
            }),
            final(self).wf(),
    {
        apply_scheme(&mut self.host, &new);
        self.settings = new;
    }

    /// Offers accounts at login fields, or not.
    #[verifier::rlimit(40)]
    fn set_accounts(&mut self, on: bool)
        requires
            old(self).wf(),
        ensures
            final(self)@ == old(self)@.accounts_switched(on),
            final(self).wf(),
    {
        proof {
            reveal(AppView::accounts_switched);
        }
        if on != self.accounts_on {
            self.host.set_accounts_enabled(on);
            self.accounts_on = on;
            if !on {
                self.ac_menu = None;
            }
        }
    }

    /// Applies a keystroke to the address bar.
    pub fn edit_url(&mut self, event: &KeyEvent, offered: Option<String>)
        requires
            old(self).wf(),
        ensures
            final(self)@ == old(self)@.url_edited(*event, view_opt(offered)),
            final(self).wf(),
    {
        proof {
            reveal(AppView::url_edited);
        }
        let outcome = self.edit_line(event, offered);
        self.finish_edit(outcome);
    }

    /// Applies a keystroke to the address bar's text.
    #[verifier::rlimit(40)]
    fn edit_line(&mut self, event: &KeyEvent, offered: Option<String>) -> (r: EditOutcome)
        requires
            old(self).wf(),
        ensures
            (final(self)@, r) == old(self)@.line_edited(*event, view_opt(offered)),
            final(self).wf(),
    {
        let ghost before = self@;
        let mut clipboard = Clipboard::offering(offered);
        let outcome = self.url.handle_key(event, &mut clipboard);
        let ghost s = before.url.step(*event, view_opt(offered));
        proof {
            reveal(AppView::line_edited);
            assert(self@ == AppView { url: s.0, ..before });
            assert(outcome == s.1);
            assert(clipboard.copy() == s.2);
        }
        self.copy_out(clipboard.copied);
        outcome
    }

    /// Puts what was copied on the clipboard.
    pub fn copy_out(&mut self, copied: Option<String>)
        requires
            old(self).wf(),
        ensures
            final(self)@ == old(self)@.copied_out(view_opt(copied)),
            final(self).wf(),
    {
        if let Some(t) = copied {
            self.tell(Action::CopyText(t));
        }
    }

    /// Does what a keystroke in the address bar meant, beyond editing.
    #[verifier::rlimit(40)]
    fn finish_edit(&mut self, outcome: EditOutcome)
        requires
            old(self).wf(),
        ensures
            final(self)@ == old(self)@.edit_finished(outcome),
            final(self).wf(),
    {
        proof {
            reveal(AppView::edit_finished);
        }
        match outcome {
            EditOutcome::Submit => self.navigate(),
            EditOutcome::Cancel => {
                self.leave_url();
                self.sync_page_state();
            },
            _ => {},
        }
    }
}

/// See [`scheme_applied`].
pub fn apply_scheme(host: &mut WebKitHost, settings: &Settings)
    ensures
        final(host)@ == scheme_applied(old(host)@, settings@),
        final(host)@.tabs == old(host)@.tabs,
        final(host)@.active == old(host)@.active,
{
    host.set_history_enabled(settings.history);
    host.set_color_scheme_dark(settings.color_scheme.is_dark());
    host.set_force_dark(settings.color_scheme.forces_dark());
}

} // verus!
