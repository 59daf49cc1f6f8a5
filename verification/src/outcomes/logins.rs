//! What is offered at a login field, what is fetched for a choice, and what is put into the page.

use vstd::prelude::*;
use vstd::utf8::{is_ascii_chars, is_ascii_chars_encode_utf8};

use crate::accounts::{
    account_of, in_order_is_sorted, normalized, offered, rank_le, site_name, sorting_keeps_accounts,
    suited, AccountView,
};
use crate::action::ActionView;
use crate::browser::login::with_handle;
use crate::browser::state::AppView;
use crate::menus::{account_rows, surviving, AcView};
use crate::message::MessageView;
use crate::outcomes::addresses::blank;
use crate::outcomes::lists::{
    all_that_passes_is_kept, narrowing_keeps_what_passes, parts_are_what_was_joined,
};
use crate::outcomes::tabs::{did, lemma_told};
use crate::split::{nonempty, parts};
use crate::text::{has_sub, lowercase, trimmed};
use crate::weburl::{first_value, url_parse, UrlView};
use crate::wpe::formwatch::{
    event_of, json_literal, FormEventView, Place, ReportView, FILL_CLOSE, FILL_MIDDLE, FILL_OPEN,
    RESCAN_JS,
};

verus! {

// ---------------------------------------------------------------------------------------------
// Filling
// ---------------------------------------------------------------------------------------------

/// The script that puts a username and a password into the login form of a page.
pub open spec fn fills(user: Seq<char>, pass: Seq<char>) -> Seq<char> {
    FILL_OPEN@ + json_literal(user) + FILL_MIDDLE@ + json_literal(pass) + FILL_CLOSE@
}

/// In that script the first literal is bound to `user` and the second to `pass`.
pub proof fn literals_have_their_names()
    ensures
        "const user = "@.is_suffix_of(FILL_OPEN@),
        "const pass = "@.is_suffix_of(FILL_MIDDLE@),
        FILL_MIDDLE@[0] == ';' && FILL_MIDDLE@[1] == '\n',
        FILL_CLOSE@[0] == ';' && FILL_CLOSE@[1] == '\n',
{
    reveal_strlit(r#"
(() => {
  const s = window.__cceAccounts || {};
  // Suppress the watcher for the duration: dispatching `input` is the whole
  // point of filling, and it must not come back as typing. Synchronous, so
  // the flag is down again before anything else runs.
  s.filling = true;
  const set = (el, v) => {
    if (!el) return false;
    const d = Object.getOwnPropertyDescriptor(Object.getPrototypeOf(el), 'value');
    if (d && d.set) { d.set.call(el, v); } else { el.value = v; }
    el.dispatchEvent(new Event('input', { bubbles: true }));
    el.dispatchEvent(new Event('change', { bubbles: true }));
    return true;
  };
  const user = "#);
    reveal_strlit(r#";
  const pass = "#);
    reveal_strlit(r#";
  const filledUser = user.length ? set(s.user, user) : false;
  const filledPass = set(s.pass, pass);
  if (filledUser && !filledPass && s.user) { s.user.focus(); }
  s.filling = false;
})();
"#);
    reveal_strlit("const user = ");
    reveal_strlit("const pass = ");
}

proof fn lemma_first_with(accounts: Seq<AccountView>, path: Seq<char>, i: int, k: int)
    requires
        0 <= i <= k < accounts.len(),
        accounts[k].path == path,
        forall|j: int| i <= j < k ==> (#[trigger] accounts[j]).path != path,
    ensures
        with_handle(accounts, path, i) == k,
    decreases k - i,
{
    if i < k {
        assert(accounts[i].path != path);
        lemma_first_with(accounts, path, i + 1, k);
    }
}

/// A password that arrives for an account in the open list, while the page is still on the host that
/// the list is for, is put into the page that is shown together with that account's username, each in
/// its place; and the list goes.
pub proof fn passwords_are_filled_in(a: AppView, path: Seq<char>, secret: Seq<char>, k: int)
    requires
        a.ac_menu is Some,
        a.host.tabs[a.host.active as int].url is Some,
        (a.host.tabs[a.host.active as int].url->0).host == Some((a.ac_menu->0).host),
        0 <= k < (a.ac_menu->0).shown.len(),
        (a.ac_menu->0).shown[k].path == path,
        forall|j: int| 0 <= j < k ==> (#[trigger] (a.ac_menu->0).shown[j]).path != path,
    ensures
        did(
            (AppView { ac_menu: None, ..a }),
            seq![
                ActionView::RunScript(
                    a.host.active,
                    fills((a.ac_menu->0).shown[k].username, secret),
                ),
            ],
            a.account_filled(path, secret),
        ),
{
    reveal(AppView::account_filled);
    let m = a.ac_menu->0;
    lemma_first_with(m.shown, path, 0, k);
    lemma_told(
        AppView { ac_menu: None, ..a },
        ActionView::RunScript(a.host.active, fills(m.shown[k].username, secret)),
    );
}

/// A password that arrives for anything else, or on another host, or with no list open, goes nowhere.
pub proof fn other_passwords_are_dropped(a: AppView, path: Seq<char>, secret: Seq<char>)
    requires
        a.ac_menu is None || a.host.tabs[a.host.active as int].url is None || (
        a.host.tabs[a.host.active as int].url->0).host != Some((a.ac_menu->0).host) || (forall|j: int|
            0 <= j < (a.ac_menu->0).shown.len() ==> (#[trigger] (a.ac_menu->0).shown[j]).path != path),
    ensures
        a.account_filled(path, secret) == (AppView { ac_menu: None, ..a }),
{
    reveal(AppView::account_filled);
    if a.ac_menu is Some {
        lemma_within((a.ac_menu->0).shown, path, 0);
    }
}

proof fn lemma_within(accounts: Seq<AccountView>, path: Seq<char>, i: int)
    requires
        0 <= i <= accounts.len(),
    ensures
        i <= with_handle(accounts, path, i) <= accounts.len(),
        with_handle(accounts, path, i) < accounts.len() ==> accounts[with_handle(
            accounts,
            path,
            i,
        )].path == path,
    decreases accounts.len() - i,
{
    if i < accounts.len() && accounts[i].path != path {
        lemma_within(accounts, path, i + 1);
    }
}

/// The message that brings a password is the one that fills it in.
pub proof fn credentials_arrive(
    a: AppView,
    path: Seq<char>,
    secret: Seq<char>,
    existing: Option<Seq<char>>,
    now: u64,
)
    ensures
        a.updated(MessageView::Credential(path, secret), existing, now) == (AppView {
            rebuild: true,
            ..a.account_filled(path, secret)
        }),
{
    reveal(AppView::updated);
}

/// Choosing a row asks the keyring for the password of the account in that row, by its handle, and does
/// nothing else; a row that is not there asks for nothing.
pub proof fn rows_fetch_their_own_password(a: AppView, k: int)
    requires
        a.ac_menu is Some,
    ensures
        0 <= k < (a.ac_menu->0).shown.len() ==> did(
            a,
            seq![ActionView::FetchSecret((a.ac_menu->0).shown[k].path)],
            a.account_picked(k),
        ),
        !(0 <= k < (a.ac_menu->0).shown.len()) ==> a.account_picked(k) == a,
{
    reveal(AppView::account_picked);
    lemma_told(a, ActionView::FetchSecret((a.ac_menu->0).shown[k].path));
}

// ---------------------------------------------------------------------------------------------
// Offering
// ---------------------------------------------------------------------------------------------

/// A report says what the page's script put in it: a field that took the focus, moved or was typed into,
/// with where it is and what it holds, or that the focus left. What is in a password field is never
/// taken.
pub proof fn reports_are_taken_as_said(p: ReportView, x: u64, y: u64, w: u64, h: u64)
    requires
        p.rect == Some(seq![Some(x), Some(y), Some(w), Some(h)]),
        p.origin is Some,
        p.value is Some,
    ensures
        p.t == Some("blur"@) ==> event_of(p) == Some(FormEventView::Blur),
        p.t == Some("focus"@) || p.t == Some("input"@) || p.t == Some("move"@) ==> event_of(p) == Some(
            (FormEventView::Field {
                origin: p.origin->0,
                password: p.kind == Some("pass"@),
                rect: Place { x, y, width: w, height: h },
                value: if p.kind == Some("pass"@) {
                    Seq::empty()
                } else {
                    p.value->0
                },
                moved: p.t != Some("focus"@),
            }),
        ),
        p.t != Some("blur"@) && p.t != Some("focus"@) && p.t != Some("input"@) && p.t != Some("move"@)
            ==> event_of(p) is None,
{
    reveal_strlit("blur");
    reveal_strlit("focus");
    reveal_strlit("input");
    reveal_strlit("move");
    assert("blur"@.len() == 4 && "blur"@[0] == 'b');
    assert("move"@.len() == 4 && "move"@[0] == 'm');
    assert("focus"@.len() == 5 && "focus"@[0] == 'f');
    assert("input"@.len() == 5 && "input"@[0] == 'i');
}

/// The account list goes when the focus leaves the field, and nothing else happens.
pub proof fn leaving_a_field_closes_the_list(a: AppView)
    requires
        a.accounts_on,
    ensures
        a.form_seen(FormEventView::Blur).0 == (AppView { ac_menu: None, ..a }),
        a.form_seen(FormEventView::Blur).1 <==> a.ac_menu is Some,
{
    reveal(AppView::form_seen);
}

proof fn lemma_filtered(all: Seq<AccountView>, typed: Seq<char>, x: AccountView)
    ensures
        surviving(all, typed).contains(x) <==> all.contains(x) && crate::menus::survives(
            x,
            lowercase(trimmed(typed)),
        ),
{
    let f = |a: AccountView| crate::menus::survives(a, lowercase(trimmed(typed)));
    narrowing_keeps_what_passes(all, f, x);
}

/// What is typed into a username field keeps the accounts whose username or title holds it, whatever the
/// case; nothing typed keeps them all.
pub proof fn typing_narrows_the_list(m: AcView, typed: Seq<char>, x: AccountView)
    ensures
        ({
            let needle = lowercase(trimmed(typed));
            m.refiltered(typed).shown.contains(x) <==> m.all.contains(x) && (needle.len() == 0
                || has_sub(lowercase(x.username), needle) || has_sub(lowercase(x.label), needle))
        }),
        m.refiltered(typed).all == m.all,
        m.refiltered(typed).host == m.host,
        m.refiltered(typed).anchor == m.anchor,
{
    lemma_filtered(m.all, typed, x);
}

/// A login field of the page's own host opens a list of accounts for that host, at the field, for what is
/// in the field: a password field narrows it by nothing.
#[verifier::rlimit(40)]
pub proof fn fields_open_the_list(
    a: AppView,
    u: UrlView,
    origin: Seq<char>,
    password: bool,
    rect: Place,
    value: Seq<char>,
    x: AccountView,
)
    requires
        a.accounts_on,
        a.accounts.loaded,
        a.host.tabs[a.host.active as int].url is Some,
        (a.host.tabs[a.host.active as int].url->0).host is Some,
        url_parse(origin) == Some(u),
        u.host == (a.host.tabs[a.host.active as int].url->0).host,
    ensures
        ({
            let b = a.form_seen(
                FormEventView::Field { origin, password, rect, value, moved: false },
            ).0;
            let needle = lowercase(
                trimmed(
                    if password {
                        Seq::empty()
                    } else {
                        value
                    },
                ),
            );
            let wanted = offered(a.accounts.all, u.host->0).contains(x) && (needle.len() == 0 || has_sub(lowercase(x.username), needle) || has_sub(
                lowercase(x.label),
                needle,
            ));
            &&& wanted ==> b.ac_menu is Some
            &&& b.ac_menu is Some ==> ((b.ac_menu->0).shown.contains(x) <==> wanted)
            &&& b.ac_menu is Some ==> (b.ac_menu->0).anchor == rect && (b.ac_menu->0).host
                == u.host->0 && (b.ac_menu->0).selected == 0
            &&& b.ac_menu is Some ==> (b.ac_menu->0).insecure == crate::address::insecure(
                origin,
                u.host->0,
            )
            &&& b == (AppView { ac_menu: b.ac_menu, ..a })
        }),
{
    reveal(AppView::form_seen);
    reveal(AppView::field_reported);
    reveal(AppView::accounts_wanted);
    reveal(AppView::account_list);
    let typed = if password { Seq::empty() } else { value };
    let all = offered(a.accounts.all, u.host->0);
    lemma_filtered(all, typed, x);
    let shown = surviving(all, typed);
    if shown.contains(x) {
        assert(shown.len() > 0);
    }
}

// ---------------------------------------------------------------------------------------------
// Which accounts suit a page
// ---------------------------------------------------------------------------------------------

/// A host without the `www.` that it may start with.
pub open spec fn bare(host: Seq<char>, b: Seq<char>) -> bool {
    host == "www."@ + b || (host == b && !"www."@.is_prefix_of(host))
}

/// An account is offered on the host that it was saved for and on hosts below that, wherever it was
/// saved for one, and otherwise on the site whose name is its title; and nowhere else. `page` is the
/// page's host in small letters without a leading `www.`, and `entry` the account's.
#[verifier::rlimit(40)]
pub proof fn accounts_are_offered_where_they_belong(
    all: Seq<AccountView>,
    x: AccountView,
    host: Seq<char>,
    page: Seq<char>,
    u: UrlView,
    entry: Seq<char>,
)
    requires
        all.contains(x),
        bare(lowercase(trimmed(host)), page),
        page.len() > 0,
        entry.len() > 0,
        url_parse(trimmed(x.url)) == Some(u),
        !blank(x.url),
        u.host is Some,
        bare(lowercase(trimmed(u.host->0)), entry),
    ensures
        offered(all, host).contains(x) <==> (page == entry || (entry.contains('.') && exists|
            sub: Seq<char>,
        |
            page == #[trigger] (sub + "."@ + entry))),
{
    reveal_strlit("www.");
    reveal_strlit(".");
    lemma_offered(all, host, x);
    lemma_bare(host, page);
    lemma_bare(u.host->0, entry);
    crate::outcomes::listings::lemma_blank_is_trimmed_away(x.url);
    assert(x.host() == Some(entry));
    if ("."@ + entry).is_suffix_of(page) {
        let tail = "."@ + entry;
        let n = page.len() - tail.len();
        let sub = page.take(n);
        assert(page.subrange(n, page.len() as int) == tail);
        assert(page =~= sub + page.subrange(n, page.len() as int));
        assert(sub + tail =~= sub + "."@ + entry);
    }
    if exists|sub: Seq<char>| page == #[trigger] (sub + "."@ + entry) {
        let sub = choose|sub: Seq<char>| page == #[trigger] (sub + "."@ + entry);
        assert(page.skip(sub.len() as int) =~= "."@ + entry);
        assert(("."@ + entry).is_suffix_of(page));
    }
}

proof fn lemma_offered(all: Seq<AccountView>, host: Seq<char>, x: AccountView)
    ensures
        offered(all, host).contains(x) <==> all.contains(x) && x.suits(host),
{
    narrowing_keeps_what_passes(all, |a: AccountView| a.suits(host), x);
    in_order_is_sorted(suited(all, host));
    sorting_keeps_accounts(offered(all, host), suited(all, host), x);
}

proof fn lemma_bare(host: Seq<char>, b: Seq<char>)
    requires
        bare(lowercase(trimmed(host)), b),
    ensures
        normalized(host) == b,
{
    reveal_strlit("www.");
    let h = lowercase(trimmed(host));
    if h == "www."@ + b {
        assert("www."@.is_prefix_of(h));
        assert(h.skip(4) =~= b);
    }
}

/// An account that was saved without an address is offered where its title is the name of the site: the
/// part before the last dot, for a host of two parts.
#[verifier::rlimit(40)]
pub proof fn titles_name_their_site(
    all: Seq<AccountView>,
    x: AccountView,
    host: Seq<char>,
    name: Seq<char>,
    tld: Seq<char>,
)
    requires
        all.contains(x),
        blank(x.url),
        name.len() > 0,
        tld.len() > 0,
        !name.contains('.'),
        !tld.contains('.'),
        bare(lowercase(trimmed(host)), name + seq!['.'] + tld),
    ensures
        offered(all, host).contains(x) <==> lowercase(trimmed(x.label)) == name,
{
    lemma_offered(all, host, x);
    let page = name + seq!['.'] + tld;
    lemma_bare(host, page);
    crate::outcomes::listings::lemma_blank_is_trimmed_away(x.url);
    parts_are_what_was_joined(name, '.', tld);
    parts_are_what_was_joined(tld, '.', Seq::empty());
    let p = parts(page, '.');
    assert(p =~= seq![name, tld]);
    reveal_with_fuel(Seq::filter, 3);
    assert(p.drop_last() =~= seq![name]);
    assert(p.drop_last().drop_last() =~= Seq::empty());
    assert(p.filter(nonempty()) =~= seq![name, tld]);
    assert(site_name(page) == Some(name));
}

/// Accounts that were saved for a host come before those that were not; what is asked for is kept.
pub proof fn saved_hosts_come_first(all: Seq<AccountView>, host: Seq<char>, i: int, j: int)
    requires
        0 <= i < j < offered(all, host).len(),
    ensures
        offered(all, host)[j].host() is Some ==> offered(all, host)[i].host() is Some,
        all.contains(offered(all, host)[i]),
{
    in_order_is_sorted(suited(all, host));
    let r = offered(all, host);
    assert(rank_le(r[i].rank(), r[j].rank()));
    assert(r.contains(r[i]));
    lemma_offered(all, host, r[i]);
}

/// A keyring entry becomes an account under its own handle and title, with the username and the address
/// that its attributes give.
pub proof fn entries_become_accounts(
    path: Seq<char>,
    label: Seq<char>,
    attrs: Seq<(Seq<char>, Seq<char>)>,
    user: Seq<char>,
    url: Seq<char>,
)
    requires
        !blank(user),
        !blank(url),
    ensures
        first_value(attrs, "UserName"@) == Some(user) && first_value(attrs, "URL"@) == Some(url)
            ==> account_of(path, label, attrs) == Some((AccountView { path, label, username: user, url })),
        first_value(attrs, "UserName"@) is None && first_value(attrs, "URL"@) is None && first_value(
            attrs,
            "username"@,
        ) == Some(user) && first_value(attrs, "url"@) == Some(url) ==> account_of(path, label, attrs)
            == Some((AccountView { path, label, username: user, url })),
        first_value(attrs, "UserName"@) is None && first_value(attrs, "URL"@) is None && first_value(
            attrs,
            "username"@,
        ) is None && first_value(attrs, "url"@) is None && first_value(attrs, "user"@) == Some(user)
            && first_value(attrs, "uri"@) == Some(url) ==> account_of(path, label, attrs) == Some(
            (AccountView { path, label, username: user, url }),
        ),
        attrs.len() == 0 ==> account_of(path, label, attrs) is None,
{
    crate::outcomes::listings::lemma_blank_is_trimmed_away(user);
    crate::outcomes::listings::lemma_blank_is_trimmed_away(url);
}

// ---------------------------------------------------------------------------------------------
// The list on screen
// ---------------------------------------------------------------------------------------------

/// A row shows the username, or the title where there is none, and below it the title.
pub proof fn rows_show_who_they_are(x: AccountView)
    ensures
        x.username.len() > 0 ==> account_rows(x).0 == x.username,
        x.username.len() == 0 ==> account_rows(x).0 == x.label,
        x.label.len() > 0 ==> x.label.is_prefix_of(account_rows(x).1),
        x.label.len() == 0 && x.host() is Some && !has_sub(lowercase(x.label), x.host()->0)
            ==> account_rows(x).1 == x.host()->0,
        x.label.len() > 0 && x.host() is Some && !has_sub(lowercase(x.label), x.host()->0) ==> (
        x.host()->0).is_suffix_of(account_rows(x).1),
{
    if x.host() is Some && !has_sub(lowercase(x.label), x.host()->0) && x.label.len() > 0 {
        let h = x.host()->0;
        let r = account_rows(x).1;
        assert(r == x.label + " \u{2014} "@ + h);
        assert(r.take(x.label.len() as int) =~= x.label);
        assert(r.skip(r.len() - h.len()) =~= h);
    }
}

/// One step down selects the next row and one step up the row before, around the ends; the accounts stay.
pub proof fn steps_go_to_the_neighbour(m: AcView)
    requires
        0 <= m.selected < m.shown.len(),
    ensures
        m.stepped(1).selected == (if m.selected + 1 < m.shown.len() {
            m.selected + 1
        } else {
            0
        }),
        m.stepped(-1).selected == (if m.selected > 0 {
            m.selected - 1
        } else {
            m.shown.len() - 1
        }),
        m.stepped(1).shown == m.shown,
        m.stepped(-1).shown == m.shown,
        m.stepped(1).host == m.host,
{
    let n = m.shown.len() as int;
    if m.selected + 1 == n {
        assert((m.selected + 1) % n == 0) by (nonlinear_arith)
            requires
                m.selected + 1 == n,
                n > 0,
        ;
    } else {
        vstd::arithmetic::div_mod::lemma_small_mod((m.selected + 1) as nat, n as nat);
    }
    if m.selected == 0 {
        vstd::arithmetic::div_mod::lemma_mod_add_multiples_vanish(-1, n);
        vstd::arithmetic::div_mod::lemma_small_mod((n - 1) as nat, n as nat);
    } else {
        vstd::arithmetic::div_mod::lemma_small_mod((m.selected - 1) as nat, n as nat);
    }
}

// ---------------------------------------------------------------------------------------------
// The index
// ---------------------------------------------------------------------------------------------

/// The index is asked for by the first login field of the page's own host, once.
pub proof fn the_first_field_asks_for_the_index(a: AppView)
    ensures
        !a.accounts.loaded && !a.accounts.loading ==> a.accounts_wanted().host.outbox
            == a.host.outbox.push(ActionView::LoadAccounts) && a.accounts_wanted().accounts.loading,
        a.accounts.loaded || a.accounts.loading ==> a.accounts_wanted() == a,
{
    reveal(AppView::accounts_wanted);
}

/// What the keyring answers is what is known from then on, and the page is asked for its field again.
pub proof fn the_index_is_kept(
    a: AppView,
    all: Seq<AccountView>,
    why: Seq<char>,
    existing: Option<Seq<char>>,
    now: u64,
)
    ensures
        ({
            let b = a.updated(MessageView::Accounts(Ok(all)), existing, now);
            let c = a.updated(MessageView::Accounts(Err(why)), existing, now);
            &&& b.accounts.all == all && b.accounts.loaded && !b.accounts.loading
                && b.accounts.error is None
            &&& c.accounts.all.len() == 0 && c.accounts.loaded && !c.accounts.loading
                && c.accounts.error == Some(why)
            &&& b.host.outbox == a.host.outbox.push(
                ActionView::RunScript(a.host.active, RESCAN_JS@),
            )
            &&& c.host.outbox == b.host.outbox
            &&& b.rebuild && c.rebuild
        }),
{
    reveal(AppView::updated);
    reveal(AppView::index_taken);
}

/// The rest of that script puts what is bound to `user` into the username's field and what is bound to `pass` into the
/// password's.
#[verifier::rlimit(40)]
pub proof fn bindings_go_to_their_fields()
    ensures
        has_sub(FILL_CLOSE@, "set(s.user, user)"@),
        has_sub(FILL_CLOSE@, "set(s.pass, pass)"@),
{
    reveal_strlit(r#";
  const filledUser = user.length ? set(s.user, user) : false;
  const filledPass = set(s.pass, pass);
  if (filledUser && !filledPass && s.user) { s.user.focus(); }
  s.filling = false;
})();
"#);
    reveal_strlit("set(s.user, user)");
    reveal_strlit("set(s.pass, pass)");
    let f = FILL_CLOSE@;
    assert(f.subrange(37, 54) =~= "set(s.user, user)"@);
    assert(crate::text::sub_at(f, "set(s.user, user)"@, 37));
    assert(f.subrange(85, 102) =~= "set(s.pass, pass)"@);
    assert(crate::text::sub_at(f, "set(s.pass, pass)"@, 85));
}

/// Accounts of one kind, saved for a host or not, are offered by their titles in small letters, in the order of the
/// alphabet.
pub proof fn titles_are_in_order(
    all: Seq<AccountView>,
    host: Seq<char>,
    i: int,
    j: int,
    p: Seq<char>,
    c: char,
    d: char,
    s: Seq<char>,
    t: Seq<char>,
)
    requires
        0 <= i < j < offered(all, host).len(),
        offered(all, host)[i].host() is Some <==> offered(all, host)[j].host() is Some,
        lowercase(offered(all, host)[i].label) == p + seq![c] + s,
        lowercase(offered(all, host)[j].label) == p + seq![d] + t,
    ensures
        c as int <= d as int,
{
    in_order_is_sorted(suited(all, host));
    let r = offered(all, host);
    assert(rank_le(r[i].rank(), r[j].rank()));
    lemma_text_le(p, c, d, s, t);
}

proof fn lemma_text_le(p: Seq<char>, c: char, d: char, s: Seq<char>, t: Seq<char>)
    requires
        crate::order::text_le(p + seq![c] + s, p + seq![d] + t),
    ensures
        c as int <= d as int,
    decreases p.len(),
{
    let x = p + seq![c] + s;
    let y = p + seq![d] + t;
    if p.len() > 0 {
        assert(x[0] == p[0] && y[0] == p[0]);
        assert(x.drop_first() =~= p.drop_first() + seq![c] + s);
        assert(y.drop_first() =~= p.drop_first() + seq![d] + t);
        lemma_text_le(p.drop_first(), c, d, s, t);
    } else {
        assert(x[0] == c && y[0] == d);
    }
}

/// A site with more parts goes by the part before the last, and by the one before that where the last is a country's
/// two letters and the one before it a short one.
#[verifier::rlimit(40)]
pub proof fn sites_go_by_their_name(a: Seq<char>, b: Seq<char>, c: Seq<char>)
    requires
        a.len() > 0,
        b.len() > 0,
        c.len() > 0,
        !a.contains('.'),
        !b.contains('.'),
        !c.contains('.'),
        is_ascii_chars(b),
        is_ascii_chars(c),
    ensures
        site_name(a + seq!['.'] + b + seq!['.'] + c) == (if c.len() == 2 && b.len() <= 3 {
            Some(a)
        } else {
            Some(b)
        }),
        site_name(a) is None,
{
    let host = a + seq!['.'] + b + seq!['.'] + c;
    lemma_three_parts(a, b, c);
    lemma_bytes_of_plain(b);
    lemma_bytes_of_plain(c);
    let p = parts(host, '.');
    all_that_passes_is_kept(p, nonempty());
    parts_are_what_was_joined(a, '.', Seq::empty());
    all_that_passes_is_kept(seq![a], nonempty());
    assert(p[0] == a && p[1] == b && p[2] == c);
    assert(site_name(host) == Some(p[crate::accounts::label_index(p)]));
}

proof fn lemma_bytes_of_plain(s: Seq<char>)
    requires
        is_ascii_chars(s),
    ensures
        vstd::utf8::encode_utf8(s).len() == s.len(),
{
    is_ascii_chars_encode_utf8(s);
}

proof fn lemma_three_parts(a: Seq<char>, b: Seq<char>, c: Seq<char>)
    requires
        !a.contains('.'),
        !b.contains('.'),
        !c.contains('.'),
    ensures
        parts(a + seq!['.'] + b + seq!['.'] + c, '.') == seq![a, b, c],
{
    let rest = b + seq!['.'] + c;
    assert(a + seq!['.'] + b + seq!['.'] + c =~= a + seq!['.'] + rest);
    parts_are_what_was_joined(a, '.', rest);
    parts_are_what_was_joined(b, '.', c);
    parts_are_what_was_joined(c, '.', Seq::empty());
    assert(seq![a] + (seq![b] + seq![c]) =~= seq![a, b, c]);
}

/// A field that is reported again while its list is open keeps the list, moved to where the field is now and narrowed to
/// what it holds now.
#[verifier::rlimit(40)]
pub proof fn moved_fields_keep_the_list(
    a: AppView,
    u: UrlView,
    origin: Seq<char>,
    rect: Place,
    value: Seq<char>,
    x: AccountView,
)
    requires
        a.accounts_on,
        a.accounts.loaded,
        a.ac_menu is Some,
        a.host.tabs[a.host.active as int].url is Some,
        (a.host.tabs[a.host.active as int].url->0).host is Some,
        url_parse(origin) == Some(u),
        u.host == (a.host.tabs[a.host.active as int].url->0).host,
    ensures
        ({
            let b = a.form_seen(
                FormEventView::Field { origin, password: false, rect, value, moved: true },
            ).0;
            let needle = lowercase(trimmed(value));
            let wanted = offered(a.accounts.all, u.host->0).contains(x) && (needle.len() == 0 || has_sub(
                lowercase(x.username),
                needle,
            ) || has_sub(lowercase(x.label), needle));
            &&& wanted ==> b.ac_menu is Some && (b.ac_menu->0).shown.contains(x)
            &&& b.ac_menu is Some ==> (b.ac_menu->0).anchor == rect && (b.ac_menu->0).host == u.host->0
            &&& b.ac_menu is Some && (a.ac_menu->0).selected < (b.ac_menu->0).shown.len() ==> (
            b.ac_menu->0).selected == (a.ac_menu->0).selected
        }),
{
    reveal(AppView::form_seen);
    reveal(AppView::field_reported);
    reveal(AppView::accounts_wanted);
    reveal(AppView::account_list);
    let all = offered(a.accounts.all, u.host->0);
    lemma_filtered(all, value, x);
    let shown = surviving(all, value);
    if shown.contains(x) {
        assert(shown.len() > 0);
    }
}

/// A field of a page of another host is offered nothing, and what was open goes.
pub proof fn other_hosts_are_offered_nothing(
    a: AppView,
    u: UrlView,
    origin: Seq<char>,
    password: bool,
    rect: Place,
    value: Seq<char>,
    moved: bool,
)
    requires
        a.accounts_on,
        a.host.tabs[a.host.active as int].url is Some,
        url_parse(origin) == Some(u),
        u.host is None || u.host != (a.host.tabs[a.host.active as int].url->0).host,
    ensures
        a.form_seen(FormEventView::Field { origin, password, rect, value, moved }).0 == (AppView {
            ac_menu: None,
            ..a
        }),
{
    reveal(AppView::form_seen);
    reveal(AppView::field_reported);
}

} // verus!
