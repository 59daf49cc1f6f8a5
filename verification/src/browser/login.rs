//! Login fields: when accounts are offered, which, and where a password may go.

use vstd::prelude::*;

use crate::accounts::{account_views, offered, Account, AccountView, AccountsView, Secret};
use crate::action::{Action, ActionView};
use crate::address::{insecure, insecure_origin};
use crate::browser::state::{AppView, BrowserApp};
use crate::menus::{surviving, AcMenu, AcView};
use crate::text::same;
use crate::weburl::{url_opt, url_parse, view_opt, Url, UrlView};
use crate::wpe::formwatch::{FormEvent, FormEventView, Place};

verus! {

/// Whether the frame at an address is the page of a host.
pub open spec fn from_host(parsed: Option<UrlView>, host: Seq<char>) -> bool {
    parsed matches Some(u) && u.host == Some(host)
}

/// The first of the accounts with a handle, or their number.
pub open spec fn with_handle(accounts: Seq<AccountView>, path: Seq<char>, i: int) -> int
    decreases accounts.len() - i,
{
    if i >= accounts.len() || accounts[i].path == path {
        i
    } else {
        with_handle(accounts, path, i + 1)
    }
}

impl AppView {
    /// The index asked for, where it is neither here nor on its way.
    #[verifier::opaque]
    pub open spec fn accounts_wanted(self) -> AppView {
        if self.accounts.loaded || self.accounts.loading {
            self
        } else {
            AppView {
                accounts: AccountsView { loading: true, ..self.accounts },
                ..self.told(ActionView::LoadAccounts)
            }
        }
    }

    /// The account list for a login field of a host: the open one moved, or a new one, narrowed to
    /// what the field holds. An empty list is no list.
    #[verifier::opaque]
    pub open spec fn account_list(
        self,
        host: Seq<char>,
        origin: Seq<char>,
        rect: Place,
        typed: Seq<char>,
        moved: bool,
    ) -> Option<AcView> {
        let all = offered(self.accounts.all, host);
        let warn = insecure(origin, host);
        let fresh = AcView {
            all,
            shown: Seq::empty(),
            selected: 0,
            scroll: 0,
            anchor: rect,
            host,
            insecure: warn,
            hover: None,
        };
        let base = match self.ac_menu {
            Some(m) => if moved {
                AcView { all, anchor: rect, host, insecure: warn, ..m }
            } else {
                fresh
            },
            None => fresh,
        };
        let list = base.refiltered(typed);
        if list.shown.len() == 0 {
            None
        } else {
            Some(list)
        }
    }

    /// A login field reported by a frame whose address is `parsed`. Only a frame of the page's own
    /// host is offered anything. Gives whether to draw again.
    #[verifier::opaque]
    pub open spec fn field_reported(
        self,
        parsed: Option<UrlView>,
        origin: Seq<char>,
        rect: Place,
        typed: Seq<char>,
        moved: bool,
    ) -> (AppView, bool) {
        match self.page_host() {
            Some(host) => if from_host(parsed, host) {
                let a = self.accounts_wanted();
                (AppView { ac_menu: a.account_list(host, origin, rect, typed, moved), ..a }, true)
            } else {
                (AppView { ac_menu: None, ..self }, false)
            },
            None => (AppView { ac_menu: None, ..self }, false),
        }
    }

    /// A report of the watcher taken. A password field narrows the list by nothing. Gives whether
    /// to draw again.
    #[verifier::opaque]
    pub open spec fn form_seen(self, event: FormEventView) -> (AppView, bool) {
        if !self.accounts_on {
            (self, false)
        } else {
            match event {
                FormEventView::Blur => (AppView { ac_menu: None, ..self }, self.ac_menu is Some),
                FormEventView::Field { origin, password, rect, value, moved } => {
                    self.field_reported(
                        url_parse(origin),
                        origin,
                        rect,
                        if password {
                            Seq::empty()
                        } else {
                            value
                        },
                        moved,
                    )
                },
            }
        }
    }

    /// The username that a password belongs to: the one of the account with that handle, where it is
    /// in the open list and the page is still of the host that the list was opened for.
    pub open spec fn owner(self, path: Seq<char>) -> Option<Seq<char>> {
        match self.ac_menu {
            Some(m) => {
                let i = with_handle(m.shown, path, 0);
                if self.page_host() == Some(m.host) && i < m.shown.len() {
                    Some(m.shown[i].username)
                } else {
                    None
                }
            },
            None => None,
        }
    }

    /// A password that arrived put into the page, or dropped, and the list closed.
    #[verifier::opaque]
    pub open spec fn account_filled(self, path: Seq<char>, secret: Seq<char>) -> AppView {
        let a = match self.owner(path) {
            Some(username) => self.with_host(self.host.filled(username, secret)),
            None => self,
        };
        AppView { ac_menu: None, ..a }
    }

    /// The password of a row asked for.
    #[verifier::opaque]
    pub open spec fn account_picked(self, i: int) -> AppView {
        match self.ac_menu {
            Some(m) => if 0 <= i < m.shown.len() {
                self.told(ActionView::FetchSecret(m.shown[i].path))
            } else {
                self
            },
            None => self,
        }
    }
}

impl BrowserApp {
    /// Asks for the index, where it is neither here nor on its way.
    #[verifier::rlimit(40)]
    fn want_accounts(&mut self)
        requires
            old(self).wf(),
        ensures
            final(self)@ == old(self)@.accounts_wanted(),
            final(self).wf(),
    {
        proof {
            reveal(AppView::accounts_wanted);
        }
        if let Some(request) = self.accounts.ensure_loaded() {
            self.tell(Action::Ask(request));
        }
    }

    /// Opens, moves or refills the account list.
    #[verifier::rlimit(40)]
    fn list_accounts(
        &mut self,
        host: String,
        origin: &str,
        rect: Place,
        typed: &str,
        moved: bool,
    )
        requires
            old(self).wf(),
        ensures
            final(self)@ == (AppView {
                ac_menu: old(self)@.account_list(host@, origin@, rect, typed@, moved),
                ..old(self)@
            }),
            final(self).wf(),
    {
        proof {
            reveal(AppView::account_list);
        }
        let all = self.accounts.matching(host.as_str());
        let warn = insecure_origin(origin, host.as_str());
        let mut open: Option<AcMenu> = None;
        core::mem::swap(&mut self.ac_menu, &mut open);
        let mut menu = new_list(all, rect, host, warn);
        if moved {
            if let Some(was) = open {
                menu = AcMenu {
                    shown: was.shown,
                    selected: was.selected,
                    scroll: was.scroll,
                    hover: was.hover,
                    ..menu
                };
            }
        }
        menu.refilter(typed);
        if menu.shown.len() > 0 {
            self.ac_menu = Some(menu);
        }
    }

    /// Takes a login field that a frame reported, with the frame's address parsed. Gives whether to
    /// draw again.
    #[verifier::rlimit(40)]
    pub fn on_field(
        &mut self,
        parsed: Option<Url>,
        origin: &str,
        rect: Place,
        typed: &str,
        moved: bool,
    ) -> (r: bool)
        requires
            old(self).wf(),
        ensures
            (final(self)@, r) == old(self)@.field_reported(
                url_opt(parsed),
                origin@,
                rect,
                typed@,
                moved,
            ),
            final(self).wf(),
    {
        proof {
            reveal(AppView::field_reported);
        }
        let host = match self.page_host() {
            Some(h) => h,
            None => {
                self.ac_menu = None;
                return false;
            },
        };
        let own = match &parsed {
            Some(u) => match u.host_str() {
                Some(h) => same(h, host.as_str()),
                None => false,
            },
            None => false,
        };
        if !own {
            self.ac_menu = None;
            return false;
        }
        // The index is read the first time a login field appears, never at launch.
        self.want_accounts();
        self.list_accounts(host, origin, rect, typed, moved);
        true
    }

    /// Takes a report of the watcher. Gives whether to draw again.
    #[verifier::rlimit(40)]
    pub fn on_form_event(&mut self, event: FormEvent) -> (r: bool)
        requires
            old(self).wf(),
        ensures
            (final(self)@, r) == old(self)@.form_seen(event@),
            final(self).wf(),
    {
        proof {
            reveal(AppView::form_seen);
        }
        if !self.accounts_on {
            return false;
        }
        match event {
            FormEvent::Blur => {
                let was = self.ac_menu.is_some();
                self.ac_menu = None;
                was
            },
            FormEvent::Field { origin, password, rect, value, moved } => {
                let parsed = Url::parse(origin.as_str());
                let typed = if password {
                    String::new()
                } else {
                    value
                };
                self.on_field(parsed, origin.as_str(), rect, typed.as_str(), moved)
            },
        }
    }

    /// See [`AppView::owner`].
    fn secret_owner(&self, path: &str) -> (r: Option<String>)
        requires
            self.wf(),
        ensures
            view_opt(r) == self@.owner(path@),
    {
        let host = match self.page_host() {
            Some(h) => h,
            None => return None,
        };
        match &self.ac_menu {
            Some(m) => {
                if !same(m.host.as_str(), host.as_str()) {
                    return None;
                }
                let i = handle_index(&m.shown, path);
                if i < m.shown.len() {
                    assert(m@.shown[i as int] == m.shown@[i as int]@);
                    Some(m.shown[i].username.clone())
                } else {
                    None
                }
            },
            None => None,
        }
    }

    /// Hands a password that arrived to the page, and closes the list. The keyring answers in its
    /// own time: where the list or the page is another by then, the password goes nowhere.
    #[verifier::rlimit(40)]
    pub fn fill_account(&mut self, path: &str, secret: &Secret)
        requires
            old(self).wf(),
        ensures
            final(self)@ == old(self)@.account_filled(path@, secret@),
            final(self).wf(),
    {
        proof {
            reveal(AppView::account_filled);
        }
        if let Some(username) = self.secret_owner(path) {
            self.host.fill_credentials(username.as_str(), secret.expose());
        }
        self.ac_menu = None;
    }

    /// Asks for the password behind a row.
    #[verifier::rlimit(40)]
    pub fn pick_account(&mut self, index: usize)
        requires
            old(self).wf(),
        ensures
            final(self)@ == old(self)@.account_picked(index as int),
            final(self).wf(),
    {
        proof {
            reveal(AppView::account_picked);
        }
        let request = match &self.ac_menu {
            Some(m) => if index < m.shown.len() {
                assert(m@.shown[index as int] == m.shown@[index as int]@);
                Some(self.accounts.fetch(m.shown[index].path.as_str()))
            } else {
                None
            },
            None => None,
        };
        if let Some(request) = request {
            self.tell(Action::Ask(request));
        }
    }
}

/// A list on these accounts that shows none yet.
fn new_list(all: Vec<Account>, anchor: Place, host: String, warn: bool) -> (r: AcMenu)
    ensures
        r@ == (AcView {
            all: account_views(all@),
            shown: Seq::empty(),
            selected: 0,
            scroll: 0,
            anchor,
            host: host@,
            insecure: warn,
            hover: None,
        }),
{
    let r = AcMenu {
        all,
        shown: Vec::new(),
        selected: 0,
        scroll: 0,
        anchor,
        host,
        insecure: warn,
        hover: None,
    };
    assert(r@.shown =~= Seq::empty());
    r
}

/// See [`with_handle`].
#[verifier::rlimit(40)]
fn handle_index(accounts: &Vec<Account>, path: &str) -> (r: usize)
    ensures
        r == with_handle(account_views(accounts@), path@, 0),
        r <= accounts.len(),
{
    let ghost views = account_views(accounts@);
    let mut i: usize = 0;
    while i < accounts.len()
        invariant
            i <= accounts.len(),
            views == account_views(accounts@),
            with_handle(views, path@, 0) == with_handle(views, path@, i as int),
        decreases accounts.len() - i,
    {
        assert(views[i as int] == accounts@[i as int]@);
        if same(accounts[i].path.as_str(), path) {
            return i;
        }
        i += 1;
    }
    i
}

// ---------------------------------------------------------------------------------------------
// Laws
// ---------------------------------------------------------------------------------------------

/// Nothing is offered to a frame that is not of the page's own host: the list closes, and the
/// keyring is not asked.
pub proof fn foreign_frames_get_nothing(
    a: AppView,
    parsed: Option<UrlView>,
    origin: Seq<char>,
    rect: Place,
    typed: Seq<char>,
    moved: bool,
)
    requires
        !(a.page_host() matches Some(h) && from_host(parsed, h)),
    ensures
        a.field_reported(parsed, origin, rect, typed, moved) == (
            AppView { ac_menu: None, ..a },
            false,
        ),
{
    reveal(AppView::field_reported);
}

/// With accounts switched off, no report of the watcher has any effect.
pub proof fn off_is_off(a: AppView, event: FormEventView)
    requires
        !a.accounts_on,
    ensures
        a.form_seen(event) == (a, false),
{
    reveal(AppView::form_seen);
}

/// An open list was made for the host of the page, offers only accounts that suit that host, and is
/// never empty.
pub proof fn lists_suit_their_page(
    a: AppView,
    parsed: Option<UrlView>,
    origin: Seq<char>,
    rect: Place,
    typed: Seq<char>,
    moved: bool,
)
    ensures
        a.field_reported(parsed, origin, rect, typed, moved).0.ac_menu matches Some(m) ==> {
            &&& a.page_host() == Some(m.host)
            &&& m.shown.len() > 0
            &&& forall|i: int|
                0 <= i < m.shown.len() ==> (#[trigger] m.shown[i]).suits(m.host)
                    && a.accounts.all.contains(m.shown[i])
        },
{
    reveal(AppView::field_reported);
    reveal(AppView::accounts_wanted);
    reveal(AppView::account_list);
    let r = a.field_reported(parsed, origin, rect, typed, moved).0;
    if let Some(m) = r.ac_menu {
        let suited = crate::accounts::suited(a.accounts.all, m.host);
        let all = offered(a.accounts.all, m.host);
        assert(m.all == all);
        assert(m.shown == surviving(all, typed));
        crate::accounts::in_order_is_sorted(suited);
        assert forall|i: int| 0 <= i < m.shown.len() implies (#[trigger] m.shown[i]).suits(m.host)
            && a.accounts.all.contains(m.shown[i]) by {
            let x = m.shown[i];
            let needle = crate::text::lowercase(crate::text::trimmed(typed));
            assert(m.shown.contains(x));
            all.lemma_filter_contains_rev(|a: AccountView| crate::menus::survives(a, needle), x);
            crate::accounts::sorting_keeps_accounts(all, suited, x);
            assert(suited.contains(x));
            a.accounts.all.lemma_filter_contains_rev(|a: AccountView| a.suits(m.host), x);
            a.accounts.all.lemma_filter_pred(
                |a: AccountView| a.suits(m.host),
                suited.index_of(x),
            );
        }
    }
}

/// A password reaches a page only where a list is open that was made for the host of that page and
/// shows the account that the password belongs to. Otherwise nothing is run in any page.
pub proof fn passwords_go_where_they_were_asked(a: AppView, path: Seq<char>, secret: Seq<char>)
    ensures
        a.account_filled(path, secret).ac_menu is None,
        a.owner(path) is None ==> a.account_filled(path, secret).host == a.host,
        a.owner(path) is Some ==> {
            &&& a.ac_menu is Some
            &&& a.page_host() == Some(a.ac_menu->0.host)
            &&& exists|i: int|
                0 <= i < a.ac_menu->0.shown.len() && (#[trigger] a.ac_menu->0.shown[i]).path
                    == path && a.owner(path) == Some(a.ac_menu->0.shown[i].username)
        },
{
    reveal(AppView::account_filled);
    if let Some(m) = a.ac_menu {
        lemma_with_handle(m.shown, path, 0);
    }
}

proof fn lemma_with_handle(accounts: Seq<AccountView>, path: Seq<char>, i: int)
    requires
        0 <= i <= accounts.len(),
    ensures
        i <= with_handle(accounts, path, i) <= accounts.len(),
        with_handle(accounts, path, i) < accounts.len() ==> accounts[with_handle(
            accounts,
            path,
            i,
        )].path == path,
    decreases accounts.len() - i,
{
    if i < accounts.len() && accounts[i].path != path {
        lemma_with_handle(accounts, path, i + 1);
    }
}

/// A password that arrives twice is used once: the first answer closes the list.
pub proof fn passwords_are_used_once(a: AppView, path: Seq<char>, secret: Seq<char>)
    ensures
        a.account_filled(path, secret).account_filled(path, secret).host == a.account_filled(
            path,
            secret,
        ).host,
{
    reveal(AppView::account_filled);
}

/// The keyring is asked for its index at most once: while it is here or on its way, a field asks
/// for nothing.
pub proof fn index_is_asked_for_once(a: AppView)
    ensures
        a.accounts_wanted().accounts_wanted() == a.accounts_wanted(),
{
    reveal(AppView::accounts_wanted);
}

} // verus!
