//! Accounts from the keyring: the login suggestions that the address of a page earns.
//!
//! Listing reads titles, usernames and addresses only. A password is fetched one at a time, at the
//! moment of a pick, and travels as a [`Secret`], which hands its contents over only to a caller
//! that asks for them by name.

use vstd::prelude::*;
use vstd::utf8::*;

use crate::order::{comes_first, lemma_le_total, lemma_le_transitive, text_le};
use crate::split::{nonempty, parts, split_nonempty, views};
use crate::text::{
    after_prefix, byte_len, contains_char, ends_with, lowercase, same, strip_prefix, to_lower, trim,
    trimmed,
};
use crate::weburl::{url_opt, url_parse, view_opt, Url, UrlView};

verus! {

/// A password on its way from the keyring to one page field.
pub struct Secret {
    text: String,
}

impl View for Secret {
    type V = Seq<char>;

    closed spec fn view(&self) -> Seq<char> {
        self.text@
    }
}

impl Secret {
    /// Wraps a password.
    pub fn new(text: String) -> (r: Secret)
        ensures
            r@ == text@,
    {
        Secret { text }
    }

    /// The password itself.
    pub fn expose(&self) -> (r: &str)
        ensures
            r@ == self@,
    {
        self.text.as_str()
    }

    /// What a log may print of it: nothing of the password.
    pub fn debug_text(&self) -> (r: String)
        ensures
            r@ == "Secret(\u{2026})"@,
    {
        "Secret(\u{2026})".to_owned()
    }

    /// A second copy.
    pub fn copy(&self) -> (r: Secret)
        ensures
            r@ == self@,
    {
        Secret { text: self.text.clone() }
    }
}

/// One keyring entry as the chrome lists it, never its secret.
#[derive(Clone, Debug)]
pub struct Account {
    /// The handle that the secret is fetched by when this account is picked.
    pub path: String,
    /// The entry's title.
    pub label: String,
    pub username: String,
    /// The address as stored, empty when the entry has none.
    pub url: String,
}

/// What an entry says.
#[verifier::ext_equal]
pub struct AccountView {
    pub path: Seq<char>,
    pub label: Seq<char>,
    pub username: Seq<char>,
    pub url: Seq<char>,
}

impl View for Account {
    type V = AccountView;

    open spec fn view(&self) -> AccountView {
        AccountView {
            path: self.path@,
            label: self.label@,
            username: self.username@,
            url: self.url@,
        }
    }
}

/// What each account of a list says.
pub open spec fn account_views(v: Seq<Account>) -> Seq<AccountView> {
    v.map_values(|a: Account| a@)
}

// ---------------------------------------------------------------------------------------------
// Hosts
// ---------------------------------------------------------------------------------------------

/// A host in lowercase, and without the `www.` that no one means.
pub open spec fn normalized(host: Seq<char>) -> Seq<char> {
    let h = lowercase(trimmed(host));
    match after_prefix(h, "www."@) {
        Some(rest) => rest,
        None => h,
    }
}

/// See [`normalized`].
pub fn normalize_host(host: &str) -> (r: String)
    ensures
        r@ == normalized(host@),
{
    let t = trim(host);
    let h = to_lower(t.as_str());
    match strip_prefix(h.as_str(), "www.") {
        Some(rest) => rest,
        None => h,
    }
}

/// The host of an address, normalized, where that leaves anything.
pub open spec fn host_from(parsed: Option<UrlView>) -> Option<Seq<char>> {
    match parsed {
        Some(u) => match u.host {
            Some(h) => if normalized(h).len() > 0 {
                Some(normalized(h))
            } else {
                None
            },
            None => None,
        },
        None => None,
    }
}

/// See [`host_from`].
pub fn host_in(parsed: &Option<Url>) -> (r: Option<String>)
    ensures
        view_opt(r) == host_from(url_opt(*parsed)),
{
    match parsed {
        Some(u) => match u.host_str() {
            Some(h) => {
                let host = normalize_host(h);
                if host.as_str().is_empty() {
                    None
                } else {
                    Some(host)
                }
            },
            None => None,
        },
        None => None,
    }
}

/// The host inside a stored address: an address as written, or a bare host with the scheme that
/// the address bar would guess.
pub open spec fn entry_host_of(url: Seq<char>) -> Option<Seq<char>> {
    let s = trimmed(url);
    if s.len() == 0 {
        None
    } else if url_parse(s) is Some {
        host_from(url_parse(s))
    } else {
        host_from(url_parse("https://"@ + s))
    }
}

/// See [`entry_host_of`].
pub fn entry_host(url: &str) -> (r: Option<String>)
    ensures
        view_opt(r) == entry_host_of(url@),
{
    let s = trim(url);
    if s.as_str().is_empty() {
        return None;
    }
    let parsed = Url::parse(s.as_str());
    if parsed.is_some() {
        return host_in(&parsed);
    }
    let mut guess = "https://".to_owned();
    guess.append(s.as_str());
    let parsed = Url::parse(guess.as_str());
    host_in(&parsed)
}

/// Which of the named parts of a host, counted from the first, is the name that the site goes by:
/// the last but one, and one further left under a country code with a short label before it.
pub open spec fn label_index(parts: Seq<Seq<char>>) -> int {
    let n = parts.len() as int;
    if n >= 3 && encode_utf8(parts[n - 1]).len() == 2 && encode_utf8(parts[n - 2]).len() <= 3 {
        n - 3
    } else {
        n - 2
    }
}

/// The name that a site goes by: `github` out of `github.com`, `bbc` out of `bbc.co.uk`. A host of
/// fewer than two parts has none.
pub open spec fn site_name(host: Seq<char>) -> Option<Seq<char>> {
    let parts = parts(host, '.').filter(nonempty());
    if parts.len() < 2 {
        None
    } else {
        Some(parts[label_index(parts)])
    }
}

/// See [`site_name`].
pub fn registrable_label(host: &str) -> (r: Option<String>)
    ensures
        view_opt(r) == site_name(host@),
{
    let parts = split_nonempty(host, '.');
    let n = parts.len();
    if n < 2 {
        return None;
    }
    let ghost all = views(parts@);
    assert(all[n - 1] == parts@[n - 1]@ && all[n - 2] == parts@[n - 2]@);
    let idx: usize = if n >= 3 && byte_len(parts[n - 1].as_str()) == 2 && byte_len(
        parts[n - 2].as_str(),
    ) <= 3 {
        n - 3
    } else {
        n - 2
    };
    assert(all[idx as int] == parts@[idx as int]@);
    Some(parts[idx].clone())
}

/// Whether an entry for `entry` covers a page at `page`: the same host, or a subdomain.
pub open spec fn covers(entry: Seq<char>, page: Seq<char>) -> bool {
    page == entry || (entry.contains('.') && ("."@ + entry).is_suffix_of(page))
}

impl AccountView {
    /// The host that this entry claims.
    pub open spec fn host(self) -> Option<Seq<char>> {
        entry_host_of(self.url)
    }

    /// Whether this entry is worth offering on a host, with the host that the entry claims: on that
    /// host and its subdomains, or, for an entry that claims none, where its title is the name that
    /// the site goes by.
    pub open spec fn fits(self, claimed: Option<Seq<char>>, host: Seq<char>) -> bool {
        let page = normalized(host);
        if page.len() == 0 {
            false
        } else {
            match claimed {
                Some(entry) => covers(entry, page),
                None => {
                    let title = lowercase(trimmed(self.label));
                    title.len() > 0 && site_name(page) == Some(title)
                },
            }
        }
    }

    /// Whether this entry is worth offering on a host.
    pub open spec fn suits(self, host: Seq<char>) -> bool {
        self.fits(self.host(), host)
    }

    /// The place of this entry among others: those that claim a host first, then by title.
    pub open spec fn rank(self) -> (bool, Seq<char>) {
        (self.host() is None, lowercase(self.label))
    }
}

impl Account {
    /// The host that this entry claims, if any.
    pub fn host(&self) -> (r: Option<String>)
        ensures
            view_opt(r) == self@.host(),
    {
        entry_host(self.url.as_str())
    }

    /// Whether this entry is worth offering on `host`, with the host that it claims.
    pub fn matches_with(&self, claimed: &Option<String>, host: &str) -> (r: bool)
        ensures
            r == self@.fits(view_opt(*claimed), host@),
    {
        let page = normalize_host(host);
        if page.as_str().is_empty() {
            return false;
        }
        match claimed {
            Some(entry) => {
                if same(page.as_str(), entry.as_str()) {
                    return true;
                }
                let mut suffix = ".".to_owned();
                suffix.append(entry.as_str());
                contains_char(entry.as_str(), '.') && ends_with(page.as_str(), suffix.as_str())
            },
            None => {
                let t = trim(self.label.as_str());
                let title = to_lower(t.as_str());
                if title.as_str().is_empty() {
                    return false;
                }
                match registrable_label(page.as_str()) {
                    Some(name) => same(name.as_str(), title.as_str()),
                    None => false,
                }
            },
        }
    }

    /// Whether this entry is worth offering on `host`.
    pub fn matches(&self, host: &str) -> (r: bool)
        ensures
            r == self@.suits(host@),
    {
        let claimed = self.host();
        self.matches_with(&claimed, host)
    }

    /// A second copy.
    pub fn copy(&self) -> (r: Account)
        ensures
            r@ == self@,
    {
        Account {
            path: self.path.clone(),
            label: self.label.clone(),
            username: self.username.clone(),
            url: self.url.clone(),
        }
    }
}

/// An entry for a domain is offered on the domain itself and below it, wherever both are read as
/// they stand, and an entry for a subdomain is not offered above it.
pub proof fn parents_cover_children(entry: Seq<char>, sub: Seq<char>)
    requires
        entry.contains('.'),
    ensures
        covers(entry, entry),
        covers(entry, sub + "."@ + entry),
        !covers(sub + "."@ + entry, entry),
{
    reveal_strlit(".");
    let child = sub + "."@ + entry;
    assert(child.skip(sub.len() as int) =~= "."@ + entry);
    assert(("."@ + entry).is_suffix_of(child));
    assert(child.len() > entry.len());
    if covers(child, entry) {
        assert(("."@ + child).len() > entry.len());
    }
}

/// A host that only ends in the same letters is not covered: a dot must stand before them.
pub proof fn lookalikes_are_not_covered(entry: Seq<char>, c: char, before: Seq<char>)
    requires
        c != '.',
    ensures
        !covers(entry, before + seq![c] + entry),
{
    reveal_strlit(".");
    let page = before + seq![c] + entry;
    assert(page.len() > entry.len());
    if ("."@ + entry).is_suffix_of(page) {
        let tail = page.skip(page.len() - ("."@ + entry).len());
        assert(tail[0] == c);
        assert(("."@ + entry)[0] == '.');
    }
}

// ---------------------------------------------------------------------------------------------
// The index
// ---------------------------------------------------------------------------------------------

/// What the keyring is asked to do.
#[derive(Clone, Debug)]
pub enum Request {
    /// Read every account it holds (titles and attributes only).
    Load,
    /// Fetch one entry's password, by its handle.
    Fetch(String),
}

/// The account index. Nothing asks the keyring until a login field does.
#[derive(Debug, Default)]
pub struct Accounts {
    /// Every account that the last load returned.
    pub all: Vec<Account>,
    /// A load has been asked for and not yet answered.
    pub loading: bool,
    /// A load has come back, so an empty keyring is not read again on every focus.
    pub loaded: bool,
    /// Why the last load failed.
    pub error: Option<String>,
}

/// What is known of the keyring.
#[verifier::ext_equal]
pub struct AccountsView {
    pub all: Seq<AccountView>,
    pub loading: bool,
    pub loaded: bool,
    pub error: Option<Seq<char>>,
}

impl View for Accounts {
    type V = AccountsView;

    open spec fn view(&self) -> AccountsView {
        AccountsView {
            all: account_views(self.all@),
            loading: self.loading,
            loaded: self.loaded,
            error: view_opt(self.error),
        }
    }
}

/// Whether a rank comes before another or is the same.
pub open spec fn rank_le(a: (bool, Seq<char>), b: (bool, Seq<char>)) -> bool {
    if a.0 != b.0 {
        !a.0
    } else {
        text_le(a.1, b.1)
    }
}

/// Whether a list is in the order of its ranks.
pub open spec fn ranked(s: Seq<AccountView>) -> bool {
    forall|i: int, j: int|
        0 <= i < j < s.len() ==> rank_le((#[trigger] s[i]).rank(), (#[trigger] s[j]).rank())
}

/// The accounts of one rank, in order.
pub open spec fn of_rank(s: Seq<AccountView>, rank: (bool, Seq<char>)) -> Seq<AccountView> {
    s.filter(|a: AccountView| a.rank() == rank)
}

/// Whether `r` is `s` put in the order of its ranks, with those of one rank in the order that they
/// had.
pub open spec fn sorted_from(r: Seq<AccountView>, s: Seq<AccountView>) -> bool {
    &&& ranked(r)
    &&& forall|rank: (bool, Seq<char>)| #[trigger] of_rank(r, rank) == of_rank(s, rank)
}

/// Where an account belongs in a list that is in order: after the last that it does not precede.
pub open spec fn rank_place(s: Seq<AccountView>, x: AccountView) -> int
    decreases s.len(),
{
    if s.len() == 0 || rank_le(s.last().rank(), x.rank()) {
        s.len() as int
    } else {
        rank_place(s.drop_last(), x)
    }
}

/// A list put in the order of its ranks.
pub open spec fn in_order(s: Seq<AccountView>) -> Seq<AccountView>
    decreases s.len(),
{
    if s.len() == 0 {
        Seq::empty()
    } else {
        let before = in_order(s.drop_last());
        before.insert(rank_place(before, s.last()), s.last())
    }
}

/// The accounts that are offered on a host, best first.
pub open spec fn offered(all: Seq<AccountView>, host: Seq<char>) -> Seq<AccountView> {
    in_order(suited(all, host))
}

/// The accounts worth offering on a host, in the order of the keyring.
pub open spec fn suited(all: Seq<AccountView>, host: Seq<char>) -> Seq<AccountView> {
    all.filter(|a: AccountView| a.suits(host))
}

/// Putting accounts in order neither adds nor loses one.
pub proof fn sorting_keeps_accounts(r: Seq<AccountView>, s: Seq<AccountView>, a: AccountView)
    requires
        sorted_from(r, s),
    ensures
        r.contains(a) <==> s.contains(a),
{
    let f = |x: AccountView| x.rank() == a.rank();
    assert(of_rank(r, a.rank()) == of_rank(s, a.rank()));
    if r.contains(a) {
        let i = choose|i: int| 0 <= i < r.len() && r[i] == a;
        r.lemma_filter_contains(f, i);
        s.lemma_filter_contains_rev(f, a);
    }
    if s.contains(a) {
        let i = choose|i: int| 0 <= i < s.len() && s[i] == a;
        s.lemma_filter_contains(f, i);
        r.lemma_filter_contains_rev(f, a);
    }
}

proof fn lemma_rank_le(a: (bool, Seq<char>), b: (bool, Seq<char>), c: (bool, Seq<char>))
    ensures
        rank_le(a, b) || rank_le(b, a),
        rank_le(a, b) && rank_le(b, c) ==> rank_le(a, c),
{
    lemma_le_total(a.1, b.1);
    if rank_le(a, b) && rank_le(b, c) && a.0 == b.0 && b.0 == c.0 {
        lemma_le_transitive(a.1, b.1, c.1);
    }
}

/// An account put before the first that it precedes, and after all others, keeps a list in order.
proof fn lemma_insert_ranked(s: Seq<AccountView>, p: int, x: AccountView)
    requires
        ranked(s),
        0 <= p <= s.len(),
        forall|i: int| 0 <= i < p ==> rank_le((#[trigger] s[i]).rank(), x.rank()),
        p < s.len() ==> !rank_le(s[p].rank(), x.rank()),
    ensures
        ranked(s.insert(p, x)),
        forall|rank: (bool, Seq<char>)| #[trigger]
            of_rank(s.insert(p, x), rank) == (if x.rank() == rank {
                of_rank(s, rank).push(x)
            } else {
                of_rank(s, rank)
            }),
{
    let t = s.insert(p, x);
    assert forall|j: int| p <= j < s.len() implies rank_le(x.rank(), (#[trigger] s[j]).rank())
        && !rank_le(s[j].rank(), x.rank()) by {
        lemma_rank_le(x.rank(), s[p].rank(), s[j].rank());
        if j > p {
            assert(rank_le(s[p].rank(), s[j].rank()));
        }
        lemma_rank_le(s[p].rank(), s[j].rank(), x.rank());
    }
    assert forall|i: int, j: int| 0 <= i < j < t.len() implies rank_le(
        (#[trigger] t[i]).rank(),
        (#[trigger] t[j]).rank(),
    ) by {
        if i < p && j < p {
            assert(t[i] == s[i] && t[j] == s[j]);
        } else if i < p && j == p {
            assert(t[i] == s[i]);
        } else if i < p {
            assert(t[i] == s[i] && t[j] == s[j - 1]);
        } else if i == p {
            assert(t[j] == s[j - 1]);
        } else {
            assert(t[i] == s[i - 1] && t[j] == s[j - 1]);
        }
    }
    assert forall|rank: (bool, Seq<char>)| #[trigger] of_rank(t, rank) == (if x.rank() == rank {
        of_rank(s, rank).push(x)
    } else {
        of_rank(s, rank)
    }) by {
        let f = |a: AccountView| a.rank() == rank;
        let head = s.take(p);
        let tail = s.skip(p);
        assert(t =~= head.push(x) + tail);
        assert(s =~= head + tail);
        Seq::filter_distributes_over_add(head.push(x), tail, f);
        Seq::filter_distributes_over_add(head, tail, f);
        head.lemma_filter_push(x, f);
        if x.rank() == rank {
            assert(tail.filter(f) =~= Seq::empty()) by {
                if tail.filter(f).len() > 0 {
                    let y = tail.filter(f)[0];
                    tail.lemma_filter_pred(f, 0);
                    assert(tail.filter(f).contains(y));
                    tail.lemma_filter_contains_rev(f, y);
                    let j = choose|j: int| 0 <= j < tail.len() && tail[j] == y;
                    assert(s[p + j] == y);
                    assert(!rank_le(y.rank(), x.rank()));
                    lemma_rank_le(y.rank(), y.rank(), y.rank());
                    assert(f(y));
                }
            }
            assert(of_rank(t, rank) =~= of_rank(s, rank).push(x));
        }
    }
}

proof fn lemma_rank_place(s: Seq<AccountView>, x: AccountView)
    requires
        ranked(s),
    ensures
        0 <= rank_place(s, x) <= s.len(),
        forall|i: int|
            0 <= i < rank_place(s, x) ==> rank_le((#[trigger] s[i]).rank(), x.rank()),
        rank_place(s, x) < s.len() ==> !rank_le(s[rank_place(s, x)].rank(), x.rank()),
    decreases s.len(),
{
    if s.len() > 0 {
        if rank_le(s.last().rank(), x.rank()) {
            assert forall|i: int| 0 <= i < s.len() implies rank_le(
                (#[trigger] s[i]).rank(),
                x.rank(),
            ) by {
                if i < s.len() - 1 {
                    assert(rank_le(s[i].rank(), s[s.len() - 1].rank()));
                    lemma_rank_le(s[i].rank(), s.last().rank(), x.rank());
                }
            }
        } else {
            let t = s.drop_last();
            assert(ranked(t)) by {
                assert forall|i: int, j: int| 0 <= i < j < t.len() implies rank_le(
                    (#[trigger] t[i]).rank(),
                    (#[trigger] t[j]).rank(),
                ) by {
                    assert(rank_le(s[i].rank(), s[j].rank()));
                }
            }
            lemma_rank_place(t, x);
            assert forall|i: int| 0 <= i < rank_place(s, x) implies rank_le(
                (#[trigger] s[i]).rank(),
                x.rank(),
            ) by {
                assert(t[i] == s[i]);
            }
        }
    }
}

/// A list put in order holds what it held, in the order of the ranks, and keeps the order of those
/// of one rank.
pub proof fn in_order_is_sorted(s: Seq<AccountView>)
    ensures
        sorted_from(in_order(s), s),
    decreases s.len(),
{
    if s.len() > 0 {
        let t = s.drop_last();
        let x = s.last();
        in_order_is_sorted(t);
        let before = in_order(t);
        lemma_rank_place(before, x);
        lemma_insert_ranked(before, rank_place(before, x), x);
        assert(s =~= t.push(x));
        assert forall|rank: (bool, Seq<char>)| #[trigger]
            of_rank(in_order(s), rank) == of_rank(s, rank) by {
            t.lemma_filter_push(x, |a: AccountView| a.rank() == rank);
            assert(of_rank(before, rank) == of_rank(t, rank));
        }
    } else {
        assert(in_order(s) =~= s);
    }
}

/// Puts an account where its rank belongs.
fn insert_ranked(out: &mut Vec<Account>, x: Account)
    requires
        ranked(account_views(old(out)@)),
    ensures
        account_views(final(out)@) == account_views(old(out)@).insert(
            rank_place(account_views(old(out)@), x@),
            x@,
        ),
{
    let ghost s = account_views(out@);
    let mut p: usize = out.len();
    assert(s.take(p as int) =~= s);
    while p > 0 && !goes_before_or_with(&out[p - 1], &x)
        invariant
            p <= out.len(),
            s == account_views(out@),
            rank_place(s, x@) == rank_place(s.take(p as int), x@),
        decreases p,
    {
        assert(s[p - 1] == out@[p - 1]@);
        assert(s.take(p as int).drop_last() =~= s.take(p - 1));
        p -= 1;
    }
    proof {
        if p > 0 {
            assert(s[p - 1] == out@[p - 1]@);
            assert(s.take(p as int).last() == s[p - 1]);
        }
    }
    out.insert(p, x);
    assert(account_views(out@) =~= s.insert(p as int, x@));
}

fn goes_before_or_with(a: &Account, b: &Account) -> (r: bool)
    ensures
        r == rank_le(a@.rank(), b@.rank()),
{
    let bare_a = a.host().is_none();
    let bare_b = b.host().is_none();
    if bare_a != bare_b {
        return !bare_a;
    }
    let x = to_lower(a.label.as_str());
    let y = to_lower(b.label.as_str());
    comes_first(x.as_str(), y.as_str())
}

impl Accounts {
    /// An index that has not been read.
    pub fn new() -> (r: Accounts)
        ensures
            r@ == (AccountsView { all: Seq::empty(), loading: false, loaded: false, error: None }),
    {
        let r = Accounts { all: Vec::new(), loading: false, loaded: false, error: None };
        assert(r@.all =~= Seq::empty());
        r
    }

    /// Asks for the index if it is neither here nor on its way.
    pub fn ensure_loaded(&mut self) -> (r: Option<Request>)
        ensures
            old(self).loaded || old(self).loading ==> r is None && *final(self) == *old(self),
            !(old(self).loaded || old(self).loading) ==> r == Some(Request::Load) && final(self)@ == (
            AccountsView { loading: true, ..old(self)@ }),
    {
        if self.loaded || self.loading {
            return None;
        }
        self.loading = true;
        Some(Request::Load)
    }

    /// Takes the keyring's answer.
    pub fn loaded(&mut self, result: Result<Vec<Account>, String>)
        ensures
            final(self)@ == (match result {
                Ok(all) => AccountsView {
                    all: account_views(all@),
                    loading: false,
                    loaded: true,
                    error: None,
                },
                Err(e) => AccountsView {
                    all: Seq::empty(),
                    loading: false,
                    loaded: true,
                    error: Some(e@),
                },
            }),
    {
        self.loading = false;
        self.loaded = true;
        match result {
            Ok(all) => {
                self.all = all;
                self.error = None;
            },
            Err(e) => {
                self.all = Vec::new();
                self.error = Some(e);
                assert(self@.all =~= Seq::empty());
            },
        }
    }

    /// Asks for one password.
    pub fn fetch(&self, path: &str) -> (r: Request)
        ensures
            r matches Request::Fetch(p) && p@ == path@,
    {
        Request::Fetch(path.to_owned())
    }

    /// The accounts worth offering on `host`, best first: entries with an address ahead of ones
    /// matched by their title alone, then by title.
    pub fn matching(&self, host: &str) -> (r: Vec<Account>)
        ensures
            account_views(r@) == offered(self@.all, host@),
            sorted_from(account_views(r@), suited(self@.all, host@)),
    {
        let ghost all = self@.all;
        let mut out: Vec<Account> = Vec::new();
        let mut i: usize = 0;
        proof {
            reveal(Seq::filter);
            assert(suited(all.take(0), host@) =~= Seq::empty());
            assert(account_views(out@) =~= in_order(suited(all.take(0), host@)));
        }
        while i < self.all.len()
            invariant
                i <= self.all.len(),
                all == self@.all,
                account_views(out@) == in_order(suited(all.take(i as int), host@)),
            decreases self.all.len() - i,
        {
            let ghost before = suited(all.take(i as int), host@);
            let a = &self.all[i];
            proof {
                assert(all[i as int] == a@);
                assert(all.take(i + 1) =~= all.take(i as int).push(a@));
                all.take(i as int).lemma_filter_push(a@, |a: AccountView| a.suits(host@));
                in_order_is_sorted(before);
            }
            if a.matches(host) {
                let x = a.copy();
                insert_ranked(&mut out, x);
                assert(before.push(x@).drop_last() =~= before);
            }
            i += 1;
        }
        assert(all.take(i as int) =~= all);
        proof {
            in_order_is_sorted(suited(all, host@));
        }
        out
    }

    /// Whether a load is on its way.
    pub fn is_loading(&self) -> (r: bool)
        ensures
            r == self@.loading,
    {
        self.loading
    }
}

// ---------------------------------------------------------------------------------------------
// Entries of the keyring
// ---------------------------------------------------------------------------------------------

/// Whether a collection is left alone: only one that is known to be open is read. Unlocking is not
/// the browser's business.
pub fn skip_collection(locked: Option<bool>) -> (r: bool)
    ensures
        r == (locked != Some(false)),
{
    match locked {
        Some(l) => l,
        None => true,
    }
}

/// An attribute's value, where it is there and not blank.
pub open spec fn attribute(attrs: Seq<(Seq<char>, Seq<char>)>, key: Seq<char>) -> Option<Seq<char>> {
    match crate::weburl::first_value(attrs, key) {
        Some(v) => if trimmed(v).len() > 0 {
            Some(v)
        } else {
            None
        },
        None => None,
    }
}

/// The first of three attributes that says something, or nothing.
pub open spec fn pick_of(
    attrs: Seq<(Seq<char>, Seq<char>)>,
    a: Seq<char>,
    b: Seq<char>,
    c: Seq<char>,
) -> Seq<char> {
    match attribute(attrs, a) {
        Some(v) => v,
        None => match attribute(attrs, b) {
            Some(v) => v,
            None => match attribute(attrs, c) {
                Some(v) => v,
                None => Seq::empty(),
            },
        },
    }
}

/// The account that a keyring entry is, with the attribute names that are in use. An entry with
/// neither a username nor an address is none.
pub open spec fn account_of(
    path: Seq<char>,
    label: Seq<char>,
    attrs: Seq<(Seq<char>, Seq<char>)>,
) -> Option<AccountView> {
    let username = pick_of(attrs, "UserName"@, "username"@, "user"@);
    let url = pick_of(attrs, "URL"@, "url"@, "uri"@);
    if username.len() == 0 && url.len() == 0 {
        None
    } else {
        Some(AccountView { path, label, username, url })
    }
}

fn attribute_in(attrs: &Vec<(String, String)>, key: &str) -> (r: Option<String>)
    ensures
        view_opt(r) == attribute(crate::weburl::pair_views(attrs@), key@),
{
    match crate::weburl::find_param(attrs, key) {
        Some(v) => {
            let t = trim(v.as_str());
            if t.as_str().is_empty() {
                None
            } else {
                Some(v)
            }
        },
        None => None,
    }
}

fn pick(attrs: &Vec<(String, String)>, a: &str, b: &str, c: &str) -> (r: String)
    ensures
        r@ == pick_of(crate::weburl::pair_views(attrs@), a@, b@, c@),
{
    match attribute_in(attrs, a) {
        Some(v) => v,
        None => match attribute_in(attrs, b) {
            Some(v) => v,
            None => match attribute_in(attrs, c) {
                Some(v) => v,
                None => String::new(),
            },
        },
    }
}

/// See [`account_of`].
pub fn account_from(path: String, label: String, attrs: &Vec<(String, String)>) -> (r: Option<
    Account,
>)
    ensures
        (match r {
            Some(a) => account_of(path@, label@, crate::weburl::pair_views(attrs@)) == Some(a@),
            None => account_of(path@, label@, crate::weburl::pair_views(attrs@)) is None,
        }),
{
    let username = pick(attrs, "UserName", "username", "user");
    let url = pick(attrs, "URL", "url", "uri");
    if username.as_str().is_empty() && url.as_str().is_empty() {
        None
    } else {
        Some(Account { path, label, username, url })
    }
}

/// One entry of an open collection, as the keyring tells it.
#[derive(Debug)]
pub struct KeyringItem {
    pub path: String,
    /// The entry's title, where it could be read.
    pub label: Option<String>,
    /// The entry's attributes, where they could be read.
    pub attributes: Option<Vec<(String, String)>>,
}

/// The account that an entry is; one whose attributes cannot be read is none.
pub open spec fn item_account(item: KeyringItem) -> Option<AccountView> {
    match item.attributes {
        Some(attrs) => account_of(
            item.path@,
            match item.label {
                Some(l) => l@,
                None => Seq::empty(),
            },
            crate::weburl::pair_views(attrs@),
        ),
        None => None,
    }
}

/// The accounts among the first `n` of these entries, in order.
pub open spec fn item_accounts(items: Seq<KeyringItem>, n: nat) -> Seq<AccountView>
    decreases n,
{
    if n == 0 {
        Seq::empty()
    } else {
        let before = item_accounts(items, (n - 1) as nat);
        match item_account(items[n - 1]) {
            Some(a) => before.push(a),
            None => before,
        }
    }
}

/// The accounts that the entries of the open collections are.
pub fn read_items(items: &Vec<KeyringItem>) -> (r: Vec<Account>)
    ensures
        account_views(r@) == item_accounts(items@, items@.len()),
{
    let mut out: Vec<Account> = Vec::new();
    let mut i: usize = 0;
    assert(account_views(out@) =~= item_accounts(items@, 0));
    while i < items.len()
        invariant
            i <= items.len(),
            account_views(out@) == item_accounts(items@, i as nat),
        decreases items.len() - i,
    {
        let ghost before = account_views(out@);
        let item = &items[i];
        if let Some(attrs) = &item.attributes {
            let label = match &item.label {
                Some(l) => l.clone(),
                None => String::new(),
            };
            if let Some(a) = account_from(item.path.clone(), label, attrs) {
                out.push(a);
                assert(account_views(out@) =~= before.push(a@));
            }
        }
        i += 1;
    }
    out
}

/// What is answered when the keyring cannot be reached.
pub open spec fn unreachable_text(why: Seq<char>) -> Seq<char> {
    "no secret service: "@ + why
}

/// See [`unreachable_text`].
pub fn keyring_unreachable(why: &str) -> (r: String)
    ensures
        r@ == unreachable_text(why@),
{
    let mut out = "no secret service: ".to_owned();
    out.append(why);
    out
}

/// What is answered when the keyring's collections cannot be listed.
pub open spec fn unlisted_text(why: Seq<char>) -> Seq<char> {
    "listing collections failed: "@ + why
}

/// See [`unlisted_text`].
pub fn keyring_unlisted(why: &str) -> (r: String)
    ensures
        r@ == unlisted_text(why@),
{
    let mut out = "listing collections failed: ".to_owned();
    out.append(why);
    out
}

/// Every entry with a username or an address is an account, and nothing else is: each account comes
/// from an entry, with its handle.
pub proof fn accounts_come_from_entries(items: Seq<KeyringItem>, n: nat, k: int)
    requires
        n <= items.len(),
        0 <= k < item_accounts(items, n).len(),
    ensures
        exists|i: int|
            0 <= i < n && item_account(#[trigger] items[i]) == Some(item_accounts(items, n)[k]),
        item_accounts(items, n)[k].username.len() > 0 || item_accounts(items, n)[k].url.len() > 0,
    decreases n,
{
    let before = item_accounts(items, (n - 1) as nat);
    if k < before.len() {
        accounts_come_from_entries(items, (n - 1) as nat, k);
        let i = choose|i: int|
            0 <= i < n - 1 && item_account(#[trigger] items[i]) == Some(before[k]);
        assert(item_account(items[i]) == Some(item_accounts(items, n)[k]));
    } else {
        assert(item_account(items[n - 1]) == Some(item_accounts(items, n)[k]));
    }
}

} // verus!
