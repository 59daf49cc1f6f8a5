//! What opening, closing and showing tabs comes to, and what is saved of them.

use vstd::prelude::*;

use crate::action::ActionView;
use crate::browser::commands::{on_page, tab_on};
use crate::browser::state::{saved_tabs, AppView};
use crate::message::MessageView;
use crate::modal::empty_line;
use crate::session::{active_tab, line_tab, session_text, tab_urls};
use crate::split::lemma_cut;
use crate::text::{index_of, lemma_index_of};
use crate::weburl::{url_parse, UrlView};
use crate::wpe::host::{HostView, TabView};

verus! {

/// Whether something was done and nothing else happened.
pub open spec fn did(a: AppView, what: Seq<ActionView>, b: AppView) -> bool {
    b == AppView { host: HostView { outbox: a.host.outbox + what, ..a.host }, ..a }
}

/// Whether what is to be done is what was to be done before, and then something, and then at most that
/// the session is saved.
pub open spec fn then_saved(
    before: Seq<ActionView>,
    what: Seq<ActionView>,
    after: Seq<ActionView>,
) -> bool {
    ||| after == before + what
    ||| exists|t: Seq<char>| after == #[trigger] (before + what).push(ActionView::SaveSession(t))
}

/// Whether the browser has a new last tab on an address, which is shown and loading, and the tabs that
/// were there stay.
pub open spec fn shows_new_tab(a: AppView, b: AppView, u: UrlView) -> bool {
    let n = a.host.tabs.len();
    &&& b.host.tabs.len() == n + 1
    &&& b.host.tabs.take(n as int) == a.host.tabs
    &&& b.host.tabs[n as int].url == Some(u)
    &&& b.host.tabs[n as int].loading
    &&& b.host.active == n
    &&& then_saved(
        a.host.outbox,
        seq![
            ActionView::Build(u.text),
            ActionView::Hide(a.host.active),
            ActionView::Show(n as usize),
        ],
        b.host.outbox,
    )
}

pub(crate) proof fn lemma_told(a: AppView, x: ActionView)
    ensures
        did(a, seq![x], a.told(x)),
{
    assert(a.host.outbox.push(x) =~= a.host.outbox + seq![x]);
}

pub(crate) proof fn lemma_told_both(a: AppView, x: ActionView, y: ActionView)
    ensures
        did(a, seq![x, y], a.told(x).told(y)),
{
    assert(a.host.outbox.push(x).push(y) =~= a.host.outbox + seq![x, y]);
}

pub(crate) proof fn lemma_new_tab(a: AppView, u: UrlView)
    requires
        a.host.wf(),
        a.host.tabs.len() < usize::MAX,
    ensures
        shows_new_tab(a, a.with_host(a.host.opened(u)), u),
        a.host.opened(u).outbox == a.host.outbox + seq![
            ActionView::Build(u.text),
            ActionView::Hide(a.host.active),
            ActionView::Show(a.host.tabs.len() as usize),
        ],
{
    let b = a.with_host(a.host.opened(u));
    let n = a.host.tabs.len();
    assert(b.host.tabs.take(n as int) =~= a.host.tabs);
    assert(b.host.outbox =~= a.host.outbox + seq![
        ActionView::Build(u.text),
        ActionView::Hide(a.host.active),
        ActionView::Show(n as usize),
    ]);
}

pub(crate) proof fn lemma_settled(b: AppView)
    ensures
        ({
            let c = b.page_synced().persisted();
            &&& c.host.tabs == b.host.tabs
            &&& c.host.active == b.host.active
            &&& c.host.outbox == b.host.outbox || exists|t: Seq<char>|
                c.host.outbox == #[trigger] b.host.outbox.push(ActionView::SaveSession(t))
        }),
{
    reveal(AppView::page_synced);
    reveal(AppView::persisted);
    reveal(AppView::favorites_refreshed);
    let s = b.page_synced();
    assert(s.host == b.host);
    let c = s.persisted();
    if s.last != Some(s.session_now()) {
        assert(c.host.outbox == b.host.outbox.push(ActionView::SaveSession(s.session_now())));
    }
}

// ---------------------------------------------------------------------------------------------
// Tabs
// ---------------------------------------------------------------------------------------------

/// Whether the chrome shows what the tab that is shown is: whether it loads, its title, and, unless it is
/// being typed into, its address in the bar, where a blank page has none.
pub open spec fn in_step(a: AppView) -> bool {
    let t = a.host.tabs[a.host.active as int];
    &&& a.loading == t.loading
    &&& a.title is Some ==> t.title == a.title && (a.title->0).len() > 0
    &&& a.title is None ==> t.title is None || (t.title->0).len() == 0
    &&& !a.url_focused && t.url is Some ==> a.url.text == (if (t.url->0).text == "about:blank"@ {
        Seq::empty()
    } else {
        (t.url->0).text
    })
}

/// The chrome follows the page, and the tabs and what is to be done stay as they are.
pub proof fn the_chrome_follows_the_page(a: AppView)
    ensures
        in_step(a.page_synced()),
        ({
            let b = a.page_synced();
            b == (AppView {
                loading: b.loading,
                title: b.title,
                url: b.url,
                favs: b.favs,
                fav_hover: b.fav_hover,
                ..a
            })
        }),
        a.url_focused ==> a.page_synced().url == a.url,
{
    reveal(AppView::page_synced);
    reveal(AppView::favorites_refreshed);
}

#[verifier::rlimit(40)]
pub(crate) proof fn lemma_changed(b: AppView)
    ensures
        ({
            let c = b.tabs_changed();
            &&& in_step(c)
            &&& !c.url_focused
            &&& c.pages == b.pages
            &&& c.host.tabs == b.host.tabs
            &&& c.host.active == b.host.active
            &&& c.ac_menu == b.ac_menu
            &&& c.chrome_open == b.chrome_open
            &&& c.host.form_events == b.host.form_events
            &&& c.host.outbox == b.host.outbox || exists|t: Seq<char>|
                c.host.outbox == #[trigger] b.host.outbox.push(ActionView::SaveSession(t))
        }),
{
    reveal(AppView::tabs_changed);
    reveal(AppView::page_synced);
    reveal(AppView::persisted);
    reveal(AppView::favorites_refreshed);
    let s = AppView { url_focused: false, ..b };
    the_chrome_follows_the_page(s);
    lemma_settled(s);
    let p = s.page_synced();
    assert(in_step(p.persisted()));
}

/// A tab that is opened comes last, is shown, and loads its address; the chrome shows it.
#[verifier::rlimit(40)]
pub proof fn tabs_open_last(a: AppView, u: UrlView)
    requires
        a.host.wf(),
        a.host.tabs.len() < usize::MAX,
    ensures
        shows_new_tab(a, a.tab_opened(u), u),
        in_step(a.tab_opened(u)),
        !a.tab_opened(u).url_focused,
        a.tab_opened(u).pages == a.pages,
{
    reveal(AppView::tab_opened);
    lemma_new_tab(a, u);
    lemma_changed(a.with_host(a.host.opened(u)));
}

/// A new tab is a blank one at the end; it is shown, and the address bar is out, empty and ready for
/// typing.
#[verifier::rlimit(40)]
pub proof fn new_tabs_are_for_typing(a: AppView, blank: UrlView)
    requires
        a.host.wf(),
        a.host.tabs.len() < usize::MAX,
        url_parse("about:blank"@) == Some(blank),
    ensures
        shows_new_tab(a, a.new_opened(), blank),
        a.new_opened().url_focused,
        a.new_opened().chrome_open,
        a.new_opened().url.text.len() == 0,
{
    reveal(AppView::new_opened);
    reveal(AppView::blank_opened);
    lemma_new_tab(a, blank);
    let b = AppView {
        url: empty_line(false),
        url_focused: true,
        chrome_open: true,
        ..a.with_host(a.host.opened(blank))
    };
    the_chrome_follows_the_page(b);
    lemma_settled(b);
    reveal(AppView::page_synced);
    reveal(AppView::persisted);
    reveal(AppView::favorites_refreshed);
}

/// Whether another tab is shown in place of the one that was, and all of them stay.
pub open spec fn shows_tab(a: AppView, b: AppView, i: int) -> bool {
    &&& b.host.tabs == a.host.tabs
    &&& b.host.active == i
    &&& i != a.host.active ==> then_saved(
        a.host.outbox,
        seq![ActionView::Hide(a.host.active), ActionView::Show(i as usize)],
        b.host.outbox,
    )
    &&& i == a.host.active ==> then_saved(a.host.outbox, Seq::empty(), b.host.outbox)
}

/// Going to a tab shows that tab, and takes away what belonged to the other: its account list and what its
/// fields reported.
#[verifier::rlimit(40)]
pub proof fn switching_shows_the_tab(a: AppView, i: int)
    requires
        a.host.wf(),
        0 <= i < a.host.tabs.len(),
        a.host.tabs.len() <= usize::MAX,
    ensures
        shows_tab(a, a.tab_switched(i), i),
        in_step(a.tab_switched(i)),
        a.tab_switched(i).ac_menu is None,
        a.tab_switched(i).host.form_events.len() == 0,
        a.tab_switched(i).pages == a.pages,
{
    reveal(AppView::tab_switched);
    let h = HostView { form_events: Seq::empty(), ..a.host };
    let b = AppView { ac_menu: None, ..a.with_host(h.activated(i)) };
    lemma_changed(b);
    if i != a.host.active {
        assert(b.host.outbox =~= a.host.outbox + seq![
            ActionView::Hide(a.host.active),
            ActionView::Show(i as usize),
        ]);
    } else {
        assert(b.host.outbox =~= a.host.outbox + Seq::empty());
    }
}

/// Closing a tab takes that tab and no other. Where it was not the one that is shown, the same page stays
/// on screen; where it was, the tab after it is shown, or the one before where it was the last.
#[verifier::rlimit(40)]
pub proof fn closing_takes_one_tab(a: AppView, i: int)
    requires
        a.host.wf(),
        0 <= i < a.host.tabs.len(),
        1 < a.host.tabs.len() <= usize::MAX,
    ensures
        ({
            let (b, message) = a.tab_closed(i);
            let n = a.host.tabs.len();
            &&& message is None
            &&& b.host.tabs.len() == n - 1
            &&& forall|j: int|
                0 <= j < n - 1 ==> #[trigger] b.host.tabs[j] == a.host.tabs[if j < i {
                    j
                } else {
                    j + 1
                }]
            &&& i != a.host.active ==> b.host.tabs[b.host.active as int]
                == a.host.tabs[a.host.active as int] && b.host.active == (if i < a.host.active {
                a.host.active - 1
            } else {
                a.host.active as int
            })
            &&& i == a.host.active && i < n - 1 ==> b.host.active == i
            &&& i == a.host.active && i == n - 1 ==> b.host.active == i - 1
            &&& in_step(b)
            &&& then_saved(
                a.host.outbox,
                seq![ActionView::Discard(i as usize), ActionView::Show(b.host.active)],
                b.host.outbox,
            )
        }),
{
    reveal(AppView::tab_closed);
    let b = a.with_host(a.host.closed(i));
    lemma_changed(b);
    assert(b.host.outbox =~= a.host.outbox + seq![
        ActionView::Discard(i as usize),
        ActionView::Show(b.host.active),
    ]);
}

/// Closing the only tab takes it, and asks the browser to end, which it does.
pub proof fn the_last_tab_ends_the_browser(a: AppView, existing: Option<Seq<char>>, now: u64)
    requires
        a.host.tabs.len() == 1,
    ensures
        a.tab_closed(0).0.host.tabs.len() == 0,
        a.tab_closed(0).1 == Some(MessageView::Quit),
        a.updated(MessageView::Quit, existing, now) == (AppView { exit: true, ..a }),
{
    reveal(AppView::tab_closed);
    reveal(AppView::persisted);
    reveal(AppView::updated);
}

/// A page of the browser's own opens in a new tab where no tab is on it, and where one is, the first such
/// tab is shown and loaded again.
#[verifier::rlimit(40)]
pub proof fn own_pages_open_once(a: AppView, page: Seq<char>, u: UrlView, k: int)
    requires
        a.host.wf(),
        a.host.tabs.len() < usize::MAX,
        url_parse(page) == Some(u),
    ensures
        (forall|j: int|
            0 <= j < a.host.tabs.len() ==> !((#[trigger] a.host.tabs[j]).url is Some
                && page.is_prefix_of((a.host.tabs[j].url->0).text))) ==> shows_new_tab(
            a,
            a.page_opened(page),
            u,
        ) && in_step(a.page_opened(page)),
        0 <= k < a.host.tabs.len() && a.host.tabs[k].url is Some && page.is_prefix_of(
            (a.host.tabs[k].url->0).text,
        ) && (forall|j: int|
            0 <= j < k ==> !((#[trigger] a.host.tabs[j]).url is Some && page.is_prefix_of(
                (a.host.tabs[j].url->0).text,
            ))) ==> a.page_opened(page).host.active == k && a.page_opened(page).host.tabs == a.host.tabs
            && a.page_opened(page).host.outbox.last() == ActionView::Reload(k as usize),
{
    reveal(AppView::page_opened);
    reveal(AppView::internal_opened);
    lemma_tab_on(a.host.tabs, page, 0);
    let i = tab_on(a.host.tabs, page, 0);
    if i < a.host.tabs.len() {
        switching_shows_the_tab(a, i);
    } else {
        tabs_open_last(a, u);
    }
}

proof fn lemma_tab_on(tabs: Seq<TabView>, page: Seq<char>, i: int)
    requires
        0 <= i <= tabs.len(),
    ensures
        i <= tab_on(tabs, page, i) <= tabs.len(),
        tab_on(tabs, page, i) < tabs.len() ==> on_page(tabs[tab_on(tabs, page, i)], page),
        forall|j: int| i <= j < tab_on(tabs, page, i) ==> !on_page(#[trigger] tabs[j], page),
    decreases tabs.len() - i,
{
    if i < tabs.len() && !on_page(tabs[i], page) {
        lemma_tab_on(tabs, page, i + 1);
    }
}

// ---------------------------------------------------------------------------------------------
// The session
// ---------------------------------------------------------------------------------------------

/// A tab is saved as a line: a one for the tab that is shown and a zero for another, a tab character, and
/// its address. The lines stand in the order of the strip.
pub proof fn sessions_are_lines(tabs: Seq<(Seq<char>, bool)>)
    requires
        tabs.len() > 0,
    ensures
        tabs[0].1 ==> session_text(tabs) == "1\t"@ + tabs[0].0 + "\n"@ + session_text(
            tabs.drop_first(),
        ),
        !tabs[0].1 ==> session_text(tabs) == "0\t"@ + tabs[0].0 + "\n"@ + session_text(
            tabs.drop_first(),
        ),
        session_text(Seq::empty()) == Seq::<char>::empty(),
{
    reveal_strlit("1\t");
    reveal_strlit("0\t");
    reveal_strlit("\n");
    assert("1\t"@ =~= seq!['1', '\t']);
    assert("0\t"@ =~= seq!['0', '\t']);
    assert("\n"@ =~= seq!['\n']);
    assert(session_text(Seq::empty()) =~= Seq::<char>::empty());
}

/// A line with a one is the tab that was shown, and one with a zero is not; its address is what follows.
pub proof fn lines_are_tabs(url: Seq<char>)
    ensures
        line_tab("1\t"@ + url) == Some((true, url_parse(url))),
        line_tab("0\t"@ + url) == Some((false, url_parse(url))),
        !url.contains('\t') ==> line_tab(url) is None,
{
    reveal_strlit("1\t");
    reveal_strlit("0\t");
    assert("1\t"@ + url =~= seq!['1'] + seq!['\t'] + url);
    assert("0\t"@ + url =~= seq!['0'] + seq!['\t'] + url);
    lemma_cut(seq!['1'], '\t', url);
    lemma_cut(seq!['0'], '\t', url);
    assert(seq!['0'][0] != seq!['1'][0]);
    lemma_index_of(url, '\t');
    if index_of(url, '\t') < url.len() {
        assert(url.contains(url[index_of(url, '\t')]));
    }
}

/// The tabs that are restored are those whose addresses parse, in order, and the one that is shown is the
/// one that was marked.
pub proof fn marked_tabs_are_shown(
    before: Seq<(bool, Option<UrlView>)>,
    u: UrlView,
    after: Seq<(bool, Option<UrlView>)>,
)
    requires
        forall|j: int| 0 <= j < after.len() ==> !(#[trigger] after[j]).0,
    ensures
        ({
            let found = before + seq![(true, Some(u))] + after;
            &&& 0 <= active_tab(found) < tab_urls(found).len()
            &&& tab_urls(found)[active_tab(found)] == u
            &&& tab_urls(found) == tab_urls(before).push(u) + tab_urls(after)
        }),
    decreases after.len(),
{
    let found = before + seq![(true, Some(u))] + after;
    if after.len() == 0 {
        assert(found.drop_last() =~= before);
        assert(tab_urls(found) =~= tab_urls(before).push(u) + tab_urls(after));
    } else {
        assert(found.drop_last() =~= before + seq![(true, Some(u))] + after.drop_last());
        assert(found.last() == after.last());
        marked_tabs_are_shown(before, u, after.drop_last());
        assert(tab_urls(found) =~= tab_urls(before).push(u) + tab_urls(after));
    }
}

/// Every tab on a page that is not blank is saved, in order, with the one that is shown marked, and no
/// other.
pub proof fn open_pages_are_saved(tabs: Seq<TabView>, active: int, n: nat)
    requires
        n < tabs.len(),
    ensures
        tabs[n as int].url is Some && (tabs[n as int].url->0).text != "about:blank"@ ==> saved_tabs(
            tabs,
            active,
            n + 1,
        ) == saved_tabs(tabs, active, n).push(((tabs[n as int].url->0).text, n == active)),
        tabs[n as int].url is None || (tabs[n as int].url->0).text == "about:blank"@ ==> saved_tabs(
            tabs,
            active,
            n + 1,
        ) == saved_tabs(tabs, active, n),
        saved_tabs(tabs, active, 0).len() == 0,
{
}

/// What is saved is what the tabs are, unless that was saved last.
pub proof fn changes_are_saved(a: AppView)
    ensures
        ({
            let now = session_text(
                saved_tabs(a.host.tabs, a.host.active as int, a.host.tabs.len()),
            );
            &&& a.last == Some(now) ==> a.persisted() == a
            &&& a.last != Some(now) ==> did(a, seq![ActionView::SaveSession(now)], a.persisted())
        }),
{
    reveal(AppView::persisted);
    lemma_told(a, ActionView::SaveSession(a.session_now()));
}

/// A tab is shown where the one that is shown is among the tabs.
pub proof fn a_tab_is_shown(h: HostView)
    ensures
        h.wf() <==> h.active < h.tabs.len(),
{
}

} // verus!
