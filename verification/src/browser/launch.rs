//! How the browser starts: on the tabs of the previous run, or on a page.

use vstd::prelude::*;

use crate::accounts::{Accounts, AccountsView};
use crate::action::ActionView;
use crate::address::{argument_url, input_url, parse_startup_arg, parse_url_input};
use crate::browser::commands::{apply_scheme, scheme_applied};
use crate::browser::state::{bar_text, line_of, AppView, BrowserApp};
use crate::lineedit::LineEdit;
use crate::pages::strip;
use crate::paths::str_opt;
use crate::protocol::{CceProtocol, ProtocolView};
use crate::session::{active_tab, line_tabs, tab_urls, url_views, Session};
use crate::settings::{Settings, SettingsView, DEFAULT_HOMEPAGE};
use crate::split::lines;
use crate::text::same;
use crate::weburl::{url_opt, url_parse, view_opt, Url, UrlView};
use crate::wpe::host::{blank_host, HostView, WebKitHost};

verus! {

/// A host with the first `n` of these addresses opened, one tab each.
pub open spec fn all_opened(urls: Seq<UrlView>, n: nat) -> HostView
    decreases n,
{
    if n == 0 {
        blank_host()
    } else {
        all_opened(urls, (n - 1) as nat).opened(urls[n - 1])
    }
}

/// The host of a new launch: the saved tabs in order with the saved one shown, and an argument on
/// top of them; or, where nothing was saved, one tab on `start`.
#[verifier::opaque]
pub open spec fn launch_host(
    saved: Seq<UrlView>,
    active: int,
    arg: Option<UrlView>,
    start: UrlView,
) -> HostView {
    if saved.len() == 0 {
        blank_host().opened(start)
    } else {
        let h = all_opened(saved, saved.len()).activated(
            if active < saved.len() {
                active
            } else {
                saved.len() - 1
            },
        );
        match arg {
            Some(u) => h.opened(u),
            None => h,
        }
    }
}

/// Where a launch without saved tabs starts: the argument, else the homepage, else the standard one.
pub open spec fn start_page(
    arg: Option<UrlView>,
    homepage: Option<UrlView>,
    standard: Option<UrlView>,
) -> Option<UrlView> {
    if arg is Some {
        arg
    } else if homepage is Some {
        homepage
    } else {
        standard
    }
}

/// The browser of a new launch on a host.
#[verifier::opaque]
pub open spec fn launched(
    host: HostView,
    settings: SettingsView,
    accounts_on: bool,
    last: Option<Seq<char>>,
    pages: ProtocolView,
) -> AppView {
    AppView {
        host: scheme_applied(host, settings).told(ActionView::WatchForms(accounts_on)),
        settings,
        accounts_on,
        url: line_of(
            match host.url() {
                Some(u) => bar_text(u),
                None => Seq::empty(),
            },
        ),
        url_focused: false,
        chrome_open: false,
        dot_hover: false,
        fav_hover: None,
        loading: true,
        title: None,
        modal: None,
        ctx_menu: None,
        last,
        pages,
        favs: strip(pages.favorites.entries),
        bm_menu: None,
        accounts: AccountsView { all: Seq::empty(), loading: false, loaded: false, error: None },
        ac_menu: None,
        nav_url: None,
        rebuild: false,
        exit: false,
    }
}

/// Opens the saved tabs and shows the saved one.
#[verifier::rlimit(40)]
fn restore(saved: &Vec<Url>, active: usize) -> (r: WebKitHost)
    requires
        saved.len() > 0,
    ensures
        r@ == all_opened(url_views(saved@), saved@.len()).activated(
            if active < saved.len() {
                active as int
            } else {
                saved.len() - 1
            },
        ),
        r@.wf(),
{
    let ghost urls = url_views(saved@);
    assert(urls[0] == saved@[0]@);
    assert(all_opened(urls, 0) == blank_host());
    assert(all_opened(urls, 1) == blank_host().opened(urls[0]));
    let mut host = WebKitHost::new(saved[0].copy());
    let mut i: usize = 1;
    while i < saved.len()
        invariant
            1 <= i <= saved.len(),
            urls == url_views(saved@),
            host@ == all_opened(urls, i as nat),
            host@.wf(),
        decreases saved.len() - i,
    {
        assert(urls[i as int] == saved@[i as int]@);
        host.open_tab(saved[i].copy());
        i += 1;
    }
    let last = saved.len() - 1;
    proof {
        lemma_all_opened(urls, saved@.len());
    }
    if active < last {
        host.activate(active);
    } else {
        host.activate(last);
    }
    host
}

proof fn lemma_all_opened(urls: Seq<UrlView>, n: nat)
    ensures
        all_opened(urls, n).tabs.len() == n,
    decreases n,
{
    if n > 0 {
        lemma_all_opened(urls, (n - 1) as nat);
    }
}

/// See [`launch_host`].
#[verifier::rlimit(40)]
fn open_host(saved: &Vec<Url>, active: usize, arg: Option<Url>, start: Url) -> (r: WebKitHost)
    ensures
        r@ == launch_host(url_views(saved@), active as int, url_opt(arg), start@),
        r@.wf(),
{
    proof {
        reveal(launch_host);
    }
    if saved.len() == 0 {
        return WebKitHost::new(start);
    }
    let mut host = restore(saved, active);
    if let Some(u) = arg {
        host.open_tab(u);
    }
    host
}

impl BrowserApp {
    /// A browser on a host, with nothing open on top of it.
    fn on_host(
        host: WebKitHost,
        settings: Settings,
        accounts_on: bool,
        session: Session,
        pages: CceProtocol,
    ) -> (r: BrowserApp)
        requires
            host@.wf(),
        ensures
            r@ == launched(host@, settings@, accounts_on, view_opt(session.last), pages@),
            r.wf(),
    {
        proof {
            reveal(launched);
        }
        let text = match host.url() {
            Some(u) => if same(u.as_str(), "about:blank") {
                String::new()
            } else {
                u.as_str().to_owned()
            },
            None => String::new(),
        };
        let mut host = host;
        apply_scheme(&mut host, &settings);
        host.set_accounts_enabled(accounts_on);
        let favs = pages.favorites.snapshot();
        BrowserApp {
            host,
            settings,
            accounts_on,
            url: LineEdit::with_text(text),
            url_focused: false,
            chrome_open: false,
            dot_hover: false,
            fav_hover: None,
            loading: true,
            title: None,
            modal: None,
            ctx_menu: None,
            session,
            pages,
            favs,
            bm_menu: None,
            accounts: Accounts::new(),
            ac_menu: None,
            nav_url: None,
            rebuild: false,
            exit: false,
        }
    }

    /// Starts the browser on the tabs of the previous run, or where there are none on `start`. Gives
    /// nothing where there are neither tabs nor a page to start on.
    #[verifier::rlimit(40)]
    pub fn start(
        settings: Settings,
        accounts_on: bool,
        session: Session,
        saved: &Vec<Url>,
        active: usize,
        arg: Option<Url>,
        start: Option<Url>,
        pages: CceProtocol,
    ) -> (r: Option<BrowserApp>)
        ensures
            r is None <==> saved@.len() == 0 && start is None,
            r matches Some(app) ==> app.wf(),
            r is Some ==> r->0@ == launched(
                launch_host(
                    url_views(saved@),
                    active as int,
                    url_opt(arg),
                    match start {
                        Some(u) => u@,
                        None => saved@[0]@,
                    },
                ),
                settings@,
                accounts_on,
                view_opt(session.last),
                pages@,
            ),
    {
        let first = match start {
            Some(u) => u,
            None => if saved.len() > 0 {
                saved[0].copy()
            } else {
                return None;
            },
        };
        let host = open_host(saved, active, arg, first);
        Some(BrowserApp::on_host(host, settings, accounts_on, session, pages))
    }

    /// Starts the browser. `text` is what the session file holds, and `existing` is the path of the
    /// file that the argument names, where it exists. The argument is an extra tab on top of saved
    /// ones, and else the page to start on. Gives nothing where nothing was saved and not even the
    /// standard homepage has an address.
    #[verifier::rlimit(40)]
    pub fn new(
        settings: Settings,
        accounts_on: bool,
        text: &str,
        arg: Option<&str>,
        existing: Option<&str>,
        pages: CceProtocol,
    ) -> (r: Option<BrowserApp>)
        ensures
            ({
                let saved = tab_urls(line_tabs(lines(text@)));
                let extra = match arg {
                    Some(a) => argument_url(a@, str_opt(existing), settings@.search_prefix),
                    None => None,
                };
                let start = start_page(
                    extra,
                    input_url(settings@.homepage, settings@.search_prefix),
                    url_parse(DEFAULT_HOMEPAGE@),
                );
                &&& r is None <==> saved.len() == 0 && start is None
                &&& r is Some ==> r->0@ == launched(
                    launch_host(
                        saved,
                        active_tab(line_tabs(lines(text@))),
                        extra,
                        match start {
                            Some(u) => u,
                            None => saved[0],
                        },
                    ),
                    settings@,
                    accounts_on,
                    Some(text@),
                    pages@,
                )
            }),
            r matches Some(app) ==> app.wf(),
    {
        let mut session = Session::new();
        let (saved, active) = session.load(text);
        let prefix = settings.search_prefix.as_str();
        let extra = match arg {
            Some(a) => parse_startup_arg(a, existing, prefix),
            None => None,
        };
        let start = match &extra {
            Some(u) => Some(u.copy()),
            None => match parse_url_input(settings.homepage.as_str(), prefix) {
                Some(u) => Some(u),
                None => Url::parse(DEFAULT_HOMEPAGE),
            },
        };
        proof {
            if saved@.len() > 0 {
                assert(url_views(saved@)[0] == saved@[0]@);
            }
        }
        BrowserApp::start(settings, accounts_on, session, &saved, active, extra, start, pages)
    }
}

// ---------------------------------------------------------------------------------------------
// Laws
// ---------------------------------------------------------------------------------------------

/// Every saved tab comes back, in order, and an argument comes after them and is shown; without one
/// the saved tab is shown.
pub proof fn launches_restore_tabs(
    saved: Seq<UrlView>,
    active: int,
    arg: Option<UrlView>,
    start: UrlView,
)
    requires
        saved.len() > 0,
        0 <= active < saved.len(),
        saved.len() < usize::MAX,
    ensures
        ({
            let h = launch_host(saved, active, arg, start);
            &&& h.wf()
            &&& forall|i: int| 0 <= i < saved.len() ==> (#[trigger] h.tabs[i]).url == Some(saved[i])
            &&& arg is None ==> h.tabs.len() == saved.len() && h.url() == Some(saved[active])
            &&& arg matches Some(u) ==> h.tabs.len() == saved.len() + 1 && h.url() == Some(u)
        }),
{
    reveal(launch_host);
    lemma_restored(saved, saved.len());
}

proof fn lemma_restored(saved: Seq<UrlView>, n: nat)
    requires
        n <= saved.len(),
    ensures
        all_opened(saved, n).tabs.len() == n,
        forall|i: int|
            0 <= i < n ==> (#[trigger] all_opened(saved, n).tabs[i]).url == Some(saved[i]),
    decreases n,
{
    if n > 0 {
        lemma_restored(saved, (n - 1) as nat);
    }
}

/// Where nothing was saved there is one tab, on the page to start on.
pub proof fn fresh_launches_have_one_tab(active: int, arg: Option<UrlView>, start: UrlView)
    ensures
        launch_host(Seq::empty(), active, arg, start).tabs.len() == 1,
        launch_host(Seq::empty(), active, arg, start).url() == Some(start),
{
    reveal(launch_host);
}

} // verus!
