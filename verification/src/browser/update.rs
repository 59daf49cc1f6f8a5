//! What reaches the browser from outside its window: the engine's news, the keyring's answers, and
//! later launches.

use vstd::prelude::*;

use crate::accounts::{account_views, Account, AccountView, AccountsView};
use crate::action::{Action, ActionView};
use crate::address::{argument_url, parse_startup_arg};
use crate::browser::state::{AppView, BrowserApp};
use crate::downloads::DownloadDir;
use crate::message::{Message, MessageView};
use crate::paths::str_opt;
use crate::protocol::ProtocolView;
use crate::settings::{Settings, SettingsView};
use crate::text::same;
use crate::weburl::{url_opt, view_opt, Url, UrlView};
use crate::wpe::formwatch::RESCAN_JS;
use crate::wpe::host::{completed, only_completed_loads_are_recorded, visits, HostView};

verus! {

impl AppView {
    /// The tabs brought up to date after the engine has run, and the visits that completed recorded.
    #[verifier::opaque]
    pub open spec fn pumped(self, now: u64) -> AppView {
        let history = visits(
            self.host.tabs,
            self.host.tabs.len(),
            self.pages.history,
            self.host.history_enabled,
            now,
        );
        AppView {
            pages: ProtocolView { history, ..self.pages },
            ..self.with_host(HostView { new_frame: false, ..self.host.synced() })
        }
    }

    /// Whether the engine had any news.
    pub open spec fn has_news(self) -> bool {
        self.host.new_frame || self.host.any_dirty()
    }

    /// What a page is blocked on put on screen.
    #[verifier::opaque]
    pub open spec fn prompted(self) -> AppView {
        let (a, shown) = self.modal_synced();
        if shown {
            a.redrawn()
        } else {
            a
        }
    }

    /// The right-click menu opened, where one was asked for.
    #[verifier::opaque]
    pub open spec fn menu_asked(self) -> AppView {
        let a = self.with_host(HostView { context_menu: None, ..self.host });
        match self.host.context_menu {
            Some(info) => a.ctx_opened(info).redrawn(),
            None => a,
        }
    }

    /// The downloads shown, where one started.
    #[verifier::opaque]
    pub open spec fn download_noted(self) -> AppView {
        let a = self.with_host(HostView { download_started: false, ..self.host });
        if self.host.download_started {
            a.page_opened("cce://downloads"@)
        } else {
            a
        }
    }

    /// The text of the address that is shown.
    pub open spec fn address(self) -> Option<Seq<char>> {
        match self.host.url() {
            Some(u) => Some(u.text),
            None => None,
        }
    }

    /// The address noted. Another one retires whatever login field was focused.
    #[verifier::opaque]
    pub open spec fn navigation_noted(self) -> AppView {
        if self.address() == self.nav_url {
            self
        } else {
            AppView { nav_url: self.address(), ac_menu: None, ..self }
        }
    }

    /// The chrome and the session brought up to date with the page.
    #[verifier::opaque]
    pub open spec fn news_taken(self) -> AppView {
        self.navigation_noted().page_synced().persisted()
    }

    /// The oldest report of the watcher taken.
    #[verifier::opaque]
    pub open spec fn report_taken(self) -> AppView {
        let rest = HostView { form_events: self.host.form_events.drop_first(), ..self.host };
        let (a, draw) = self.with_host(rest).form_seen(self.host.form_events[0]);
        if draw {
            a.redrawn()
        } else {
            a
        }
    }

    /// The `n` oldest reports of the watcher taken, in order.
    pub open spec fn reports_taken(self, n: nat) -> AppView
        decreases n,
    {
        if n == 0 {
            self
        } else {
            self.report_taken().reports_taken((n - 1) as nat)
        }
    }

    /// The engine's news taken: what blocks a page, a menu that was asked for, a download that
    /// started, the page's state, and then what the watcher reported, so that a field reported with
    /// the page's own arrival is not thrown away with the page before.
    #[verifier::opaque]
    pub open spec fn spun(self, now: u64) -> AppView {
        let asked = self.pumped(now).prompted().menu_asked().download_noted();
        let synced = if self.has_news() {
            asked.news_taken()
        } else {
            asked
        };
        let done = synced.reports_taken(synced.host.form_events.len());
        if self.has_news() {
            done.redrawn()
        } else {
            done
        }
    }

    /// The keyring's index taken. The watcher is asked again, for a field may have been waiting.
    #[verifier::opaque]
    pub open spec fn index_taken(self, result: Result<Seq<AccountView>, Seq<char>>) -> AppView {
        let a = AppView {
            accounts: match result {
                Ok(all) => AccountsView { all, loading: false, loaded: true, error: None },
                Err(e) => AccountsView {
                    all: Seq::empty(),
                    loading: false,
                    loaded: true,
                    error: Some(e),
                },
            },
            ..self
        };
        a.told(ActionView::RunScript(a.host.active, RESCAN_JS@)).redrawn()
    }

    /// A later launch answered: its address in a new tab, or a blank one, and the window brought to
    /// the user. An argument that means nothing opens nothing.
    #[verifier::opaque]
    pub open spec fn launch_answered(self, arg: Option<Option<UrlView>>) -> AppView {
        let a = match arg {
            Some(Some(u)) => self.tab_opened(u),
            Some(None) => self,
            None => self.new_opened(),
        };
        a.told(ActionView::RaiseWindow).redrawn()
    }

    /// What a message does. `existing` is the path of the file that a launch names, where it exists.
    #[verifier::opaque]
    pub open spec fn updated(
        self,
        msg: MessageView,
        existing: Option<Seq<char>>,
        now: u64,
    ) -> AppView {
        match msg {
            MessageView::Spin => self.spun(now),
            MessageView::Accounts(result) => self.index_taken(result),
            MessageView::Credential(path, secret) => self.account_filled(path, secret).redrawn(),
            MessageView::Quit => AppView { exit: true, ..self },
            MessageView::OpenExternal(arg) => self.launch_answered(
                match arg {
                    Some(arg) => Some(argument_url(arg, existing, self.settings.search_prefix)),
                    None => None,
                },
            ),
        }
    }
}

impl BrowserApp {
    /// Brings the tabs up to date, and records visits. Gives whether the engine had any news.
    #[verifier::rlimit(40)]
    fn pump(&mut self, now: u64) -> (r: bool)
        requires
            old(self).wf(),
        ensures
            final(self)@ == old(self)@.pumped(now),
            r == old(self)@.has_news(),
            final(self).wf(),
    {
        proof {
            reveal(AppView::pumped);
        }
        let (_frame, news) = self.host.pump(&mut self.pages.history, now);
        news
    }

    /// Puts what a page is blocked on on screen.
    fn show_prompt(&mut self)
        requires
            old(self).wf(),
        ensures
            final(self)@ == old(self)@.prompted(),
            final(self).wf(),
    {
        proof {
            reveal(AppView::prompted);
        }
        if self.sync_modal() {
            self.rebuild = true;
        }
    }

    /// Opens the right-click menu, where one was asked for.
    #[verifier::rlimit(40)]
    fn show_menu(&mut self)
        requires
            old(self).wf(),
        ensures
            final(self)@ == old(self)@.menu_asked(),
            final(self).wf(),
    {
        proof {
            reveal(AppView::menu_asked);
        }
        if let Some(info) = self.host.take_context_menu() {
            self.open_ctx_menu(&info);
            self.rebuild = true;
        }
    }

    /// Shows the downloads, where one started.
    #[verifier::rlimit(40)]
    fn show_download(&mut self)
        requires
            old(self).wf(),
        ensures
            final(self)@ == old(self)@.download_noted(),
            final(self).wf(),
    {
        proof {
            reveal(AppView::download_noted);
        }
        if self.host.take_download_started() {
            self.open_page("cce://downloads");
        }
    }

    /// Notes the address that is shown.
    fn note_navigation(&mut self)
        requires
            old(self).wf(),
        ensures
            final(self)@ == old(self)@.navigation_noted(),
            final(self).wf(),
    {
        proof {
            reveal(AppView::navigation_noted);
        }
        let now = match self.host.url() {
            Some(u) => Some(u.as_str().to_owned()),
            None => None,
        };
        if !same_address(&now, &self.nav_url) {
            self.nav_url = now;
            self.ac_menu = None;
        }
    }

    /// Brings the chrome and the session up to date with the page.
    #[verifier::rlimit(40)]
    fn take_news(&mut self)
        requires
            old(self).wf(),
        ensures
            final(self)@ == old(self)@.news_taken(),
            final(self).wf(),
    {
        proof {
            reveal(AppView::news_taken);
        }
        self.note_navigation();
        self.sync_page_state();
        self.persist_session();
    }

    /// Takes the oldest report of the watcher.
    #[verifier::rlimit(40)]
    fn take_report(&mut self)
        requires
            old(self).wf(),
            old(self)@.host.form_events.len() > 0,
        ensures
            final(self)@ == old(self)@.report_taken(),
            final(self).wf(),
    {
        proof {
            reveal(AppView::report_taken);
        }
        if let Some(event) = self.host.take_form_event() {
            if self.on_form_event(event) {
                self.rebuild = true;
            }
        }
    }

    /// Takes every report of the watcher.
    #[verifier::rlimit(40)]
    fn take_reports(&mut self)
        requires
            old(self).wf(),
        ensures
            final(self)@ == old(self)@.reports_taken(old(self)@.host.form_events.len()),
            final(self).wf(),
    {
        let ghost n = self@.host.form_events.len();
        let ghost goal = self@.reports_taken(n);
        while self.host.form_events.len() > 0
            invariant
                self.wf(),
                n == self@.host.form_events.len(),
                goal == self@.reports_taken(n),
            decreases n,
        {
            proof {
                lemma_report_leaves(self@);
            }
            self.take_report();
            proof {
                n = (n - 1) as nat;
            }
        }
    }

    /// Takes the engine's news.
    #[verifier::rlimit(40)]
    pub fn spin(&mut self, now: u64)
        requires
            old(self).wf(),
        ensures
            final(self)@ == old(self)@.spun(now),
            final(self).wf(),
    {
        proof {
            reveal(AppView::spun);
        }
        let news = self.pump(now);
        self.show_prompt();
        self.show_menu();
        self.show_download();
        if news {
            self.take_news();
        }
        self.take_reports();
        if news {
            self.rebuild = true;
        }
    }

    /// Takes the keyring's index.
    #[verifier::rlimit(40)]
    fn take_index(&mut self, result: Result<Vec<Account>, String>)
        requires
            old(self).wf(),
        ensures
            final(self)@ == old(self)@.index_taken(
                match result {
                    Ok(all) => Ok(account_views(all@)),
                    Err(e) => Err(e@),
                },
            ),
            final(self).wf(),
    {
        proof {
            reveal(AppView::index_taken);
        }
        self.accounts.loaded(result);
        self.host.request_form_state();
        self.rebuild = true;
    }

    /// Answers a later launch, with what its argument means.
    #[verifier::rlimit(40)]
    pub fn answer_launch(&mut self, arg: Option<Option<Url>>)
        requires
            old(self).wf(),
        ensures
            final(self)@ == old(self)@.launch_answered(
                match arg {
                    Some(u) => Some(url_opt(u)),
                    None => None,
                },
            ),
            final(self).wf(),
    {
        proof {
            reveal(AppView::launch_answered);
        }
        match arg {
            Some(Some(u)) => self.open_tab(u),
            Some(None) => {},
            None => self.open_new(),
        }
        self.tell(Action::RaiseWindow);
        self.rebuild = true;
    }

    /// Takes a message. `existing` is the path of the file that a launch names, where it exists.
    #[verifier::rlimit(40)]
    pub fn update(&mut self, msg: Message, existing: Option<&str>, now: u64)
        requires
            old(self).wf(),
        ensures
            final(self)@ == old(self)@.updated(msg@, str_opt(existing), now),
            final(self).wf(),
    {
        proof {
            reveal(AppView::updated);
        }
        match msg {
            Message::Spin => self.spin(now),
            Message::Accounts(result) => self.take_index(result),
            Message::Credential(path, secret) => {
                self.fill_account(path.as_str(), &secret);
                self.rebuild = true;
            },
            Message::Quit => {
                self.exit = true;
            },
            Message::OpenExternal(arg) => {
                let meant = match arg {
                    Some(arg) => Some(
                        parse_startup_arg(
                            arg.as_str(),
                            existing,
                            self.settings.search_prefix.as_str(),
                        ),
                    ),
                    None => None,
                };
                self.answer_launch(meant);
            },
        }
    }

    /// Handles the window's gaining or losing the focus: gaining it takes up the settings, which
    /// were read again.
    #[verifier::rlimit(40)]
    pub fn handle_focus_change(
        &mut self,
        focused: bool,
        new: Settings,
        accounts_on: bool,
        place: &mut DownloadDir,
    )
        requires
            old(self).wf(),
        ensures
            final(self)@ == old(self)@.focus_changed(focused, new@, accounts_on),
            view_opt(final(place).chosen) == (if focused && !old(self)@.says(new@, accounts_on) {
                new@.download_dir
            } else {
                view_opt(old(place).chosen)
            }),
            final(self).wf(),
    {
        proof {
            reveal(AppView::focus_changed);
            reveal(AppView::settings_taken);
        }
        if focused {
            if self.reload_settings(new, accounts_on, place) {
                self.rebuild = true;
            }
        }
    }
}

impl AppView {
    /// Whether these are the settings that the browser has.
    pub open spec fn says(self, new: SettingsView, accounts_on: bool) -> bool {
        new.says(self.settings) && accounts_on == self.accounts_on
    }

    /// The window's focus gained or lost.
    #[verifier::opaque]
    pub open spec fn focus_changed(self, focused: bool, new: SettingsView, accounts_on: bool) -> AppView {
        if focused && !self.says(new, accounts_on) {
            self.settings_taken(new, accounts_on).redrawn()
        } else {
            self
        }
    }
}

fn same_address(a: &Option<String>, b: &Option<String>) -> (r: bool)
    ensures
        r == (view_opt(*a) == view_opt(*b)),
{
    match (a, b) {
        (None, None) => true,
        (Some(a), Some(b)) => same(a.as_str(), b.as_str()),
        _ => false,
    }
}

proof fn lemma_report_leaves(a: AppView)
    requires
        a.host.form_events.len() > 0,
    ensures
        a.report_taken().host.form_events == a.host.form_events.drop_first(),
{
    reveal(AppView::report_taken);
    reveal(AppView::form_seen);
    reveal(AppView::field_reported);
    reveal(AppView::accounts_wanted);
}

// ---------------------------------------------------------------------------------------------
// Laws
// ---------------------------------------------------------------------------------------------

/// Where the engine has nothing to tell, nothing changes, and nothing is drawn.
pub proof fn quiet_engine_changes_nothing(a: AppView, now: u64)
    requires
        !a.has_news(),
        a.modal is Some || (a.host.dialog is None && a.host.auth is None),
        a.host.context_menu is None,
        !a.host.download_started,
        a.host.form_events.len() == 0,
    ensures
        a.spun(now) == a,
{
    reveal(AppView::spun);
    reveal(AppView::pumped);
    reveal(AppView::prompted);
    reveal(AppView::modal_synced);
    reveal(AppView::menu_asked);
    reveal(AppView::download_noted);
    assert(a.host.synced().tabs =~= a.host.tabs);
    assert forall|i: int| 0 <= i < a.host.tabs.len() implies !completed(#[trigger] a.host.tabs[i]) by {
        assert(!a.host.tabs[i].signals.dirty);
    }
    only_completed_loads_are_recorded(
        a.host.tabs,
        a.host.tabs.len(),
        a.pages.history,
        a.host.history_enabled,
        now,
    );
    assert(a.pumped(now) == a);
    assert(a.prompted() == a);
    assert(a.menu_asked() == a);
    assert(a.download_noted() == a);
}

/// With recording switched off, the engine's news leave the history as it was.
pub proof fn recording_off_records_nothing(a: AppView, now: u64)
    requires
        !a.host.history_enabled,
    ensures
        a.pumped(now).pages == a.pages,
{
    reveal(AppView::pumped);
    only_completed_loads_are_recorded(
        a.host.tabs,
        a.host.tabs.len(),
        a.pages.history,
        a.host.history_enabled,
        now,
    );
}

/// Another address closes the account list; news of the page that is already there leaves it open.
pub proof fn only_navigation_closes_the_list(a: AppView)
    ensures
        a.address() != a.nav_url ==> a.news_taken().ac_menu is None,
        a.address() == a.nav_url ==> a.news_taken().ac_menu == a.ac_menu,
        a.news_taken().nav_url == a.address(),
{
    reveal(AppView::news_taken);
    reveal(AppView::navigation_noted);
    reveal(AppView::page_synced);
    reveal(AppView::favorites_refreshed);
    reveal(AppView::persisted);
}

/// Whatever a later launch asked for, the last thing to be done is to bring the window to the user.
pub proof fn launches_raise_the_window(a: AppView, arg: Option<Option<UrlView>>)
    ensures
        a.launch_answered(arg).host.outbox.len() > 0,
        a.launch_answered(arg).host.outbox.last() == ActionView::RaiseWindow,
        a.launch_answered(arg).rebuild,
{
    reveal(AppView::launch_answered);
}

/// A prompt that is on screen is not replaced by what another page asks.
pub proof fn prompts_wait_their_turn(a: AppView)
    requires
        a.modal is Some,
    ensures
        a.modal_synced() == (a, false),
{
    reveal(AppView::modal_synced);
}

/// Settings that say nothing new change nothing, and nothing is drawn.
pub proof fn same_settings_change_nothing(a: AppView, new: SettingsView, focused: bool)
    requires
        new.says(a.settings),
    ensures
        a.focus_changed(focused, new, a.accounts_on) == a,
        a.settings_taken(new, a.accounts_on) == a,
{
    reveal(AppView::focus_changed);
    reveal(AppView::settings_taken);
}

} // verus!
