//! The `cce:` scheme: internal pages served straight out of the browser.

use vstd::prelude::*;
use vstd::utf8::*;

use crate::downloads::{downloads_page, Downloads, DownloadsView};
use crate::html::{page, page_text};
use crate::pages::{
    bookmarks_page, favorite_added, favorite_removed, favorite_renamed, favorite_shifted,
    favorites_page, history_page, label_of, title_in, Bookmarks, Favorites, History, LogView,
};
use crate::split::{cut, lemma_cut, split_once};
use crate::store::{entries_but, has_entry, lemma_entries_but, EntryView};
use crate::text::{
    same, strip_end_char, strip_starts, trim_end_char, trim_start_matches,
};
use crate::weburl::{
    find_param, first_value, form_pairs, form_query, form_text, pair_views, parse_query, view_opt,
};

verus! {

/// The stores that the internal pages show and change.
#[derive(Debug)]
pub struct CceProtocol {
    pub history: History,
    pub bookmarks: Bookmarks,
    pub favorites: Favorites,
    pub downloads: Downloads,
    /// Raised by `cce://cookies/clear`; the engine clears its cookies and lowers it.
    pub clear_cookies: bool,
}

/// What the stores hold.
#[verifier::ext_equal]
pub struct ProtocolView {
    pub history: LogView,
    pub bookmarks: LogView,
    pub favorites: LogView,
    pub downloads: DownloadsView,
    pub clear_cookies: bool,
}

impl View for CceProtocol {
    type V = ProtocolView;

    open spec fn view(&self) -> ProtocolView {
        ProtocolView {
            history: self.history@,
            bookmarks: self.bookmarks@,
            favorites: self.favorites@,
            downloads: self.downloads@,
            clear_cookies: self.clear_cookies,
        }
    }
}

/// An address without its scheme, and without the query that it may end in.
pub open spec fn path_of(url: Seq<char>) -> Seq<char> {
    let full = strip_starts(url, "cce://"@);
    match cut(full, '?') {
        Some((path, _)) => path,
        None => full,
    }
}

/// The query of an address, or nothing.
pub open spec fn query_of(url: Seq<char>) -> Seq<char> {
    match cut(strip_starts(url, "cce://"@), '?') {
        Some((_, query)) => query,
        None => ""@,
    }
}

/// The name of the page at a path.
pub open spec fn page_name(path: Seq<char>) -> Seq<char> {
    strip_end_char(path, '/')
}

/// The page that asks before cookies are cleared.
pub open spec fn cookies_page_text() -> Seq<char> {
    page_text("Cookies"@, "Signed-in sessions live here"@, COOKIES_BODY@, ""@)
}

/// The page that says that cookies were cleared.
pub open spec fn cookies_cleared_text() -> Seq<char> {
    page_text("Cookies"@, "Cleared"@, CLEARED_BODY@, ""@)
}

/// What is asked before cookies are cleared.
pub const COOKIES_BODY: &'static str = "<div class=e><span class=w></span><span class=u>Clearing cookies signs you out of          every site and cannot be undone. Bookmarks and history are untouched.</span></div>         <div class=e><span class=w></span>         <a class=rm href=\"cce://cookies/clear\">Clear all cookies</a></div>";

/// What is said once cookies were cleared.
pub const CLEARED_BODY: &'static str = "<div class=e><span class=w></span><span class=u>All cookies were cleared.          Sites you were signed in to will ask you to sign in again.</span></div>";

/// Confirmation page for clearing cookies: a page with a link rather than a chord that acts at
/// once, since an accidental keystroke would sign the user out of everything.
pub fn cookies_page() -> (r: String)
    ensures
        r@ == cookies_page_text(),
{
    page("Cookies", "Signed-in sessions live here", COOKIES_BODY, "")
}

/// The page shown after clearing cookies.
pub fn cookies_cleared_page() -> (r: String)
    ensures
        r@ == cookies_cleared_text(),
{
    page("Cookies", "Cleared", CLEARED_BODY, "")
}

/// The title that a page becomes a favorite with: the one in the query, else the one that it was
/// starred with, else none.
pub open spec fn promoted_title(
    bookmarks: LogView,
    url: Seq<char>,
    pairs: Seq<(Seq<char>, Seq<char>)>,
) -> Seq<char> {
    match first_value(pairs, "title"@) {
        Some(t) => t,
        None => match title_in(bookmarks.entries, url) {
            Some(t) => t,
            None => Seq::empty(),
        },
    }
}

impl ProtocolView {
    /// What the stores become when a page is asked for, and the page, where there is one. `pairs`
    /// is what the query says.
    pub open spec fn routed(self, path: Seq<char>, pairs: Seq<(Seq<char>, Seq<char>)>, now: u64) -> (
        ProtocolView,
        Option<Seq<char>>,
    ) {
        let name = page_name(path);
        let target = first_value(pairs, "url"@);
        if name == "history"@ {
            (self, Some(history_page(self.history.entries)))
        } else if name == "history/clear"@ {
            let history = LogView::rewritten(Seq::empty());
            (ProtocolView { history, ..self }, Some(history_page(Seq::empty())))
        } else if name == "bookmarks"@ {
            (self, Some(bookmarks_page(self.bookmarks.entries, self.favorites.entries)))
        } else if name == "bookmarks/remove"@ {
            let bookmarks = match target {
                Some(u) => LogView::rewritten(entries_but(self.bookmarks.entries, u)),
                None => self.bookmarks,
            };
            (
                ProtocolView { bookmarks, ..self },
                Some(bookmarks_page(bookmarks.entries, self.favorites.entries)),
            )
        } else if name == "favorites"@ {
            (self, Some(favorites_page(self.favorites.entries)))
        } else if name == "favorites/add"@ {
            let favorites = match target {
                Some(u) => favorite_added(
                    self.favorites,
                    u,
                    label_of(u, promoted_title(self.bookmarks, u, pairs)),
                    now,
                ),
                None => self.favorites,
            };
            (ProtocolView { favorites, ..self }, Some(favorites_page(favorites.entries)))
        } else if name == "favorites/remove"@ {
            let favorites = match target {
                Some(u) => favorite_removed(self.favorites, u),
                None => self.favorites,
            };
            (ProtocolView { favorites, ..self }, Some(favorites_page(favorites.entries)))
        } else if name == "favorites/up"@ || name == "favorites/down"@ {
            let delta: int = if name == "favorites/up"@ {
                -1
            } else {
                1
            };
            let favorites = match target {
                Some(u) => favorite_shifted(self.favorites, u, delta),
                None => self.favorites,
            };
            (ProtocolView { favorites, ..self }, Some(favorites_page(favorites.entries)))
        } else if name == "favorites/rename"@ {
            let title = match first_value(pairs, "title"@) {
                Some(t) => t,
                None => Seq::empty(),
            };
            let favorites = match target {
                Some(u) => favorite_renamed(self.favorites, u, label_of(u, title)),
                None => self.favorites,
            };
            (ProtocolView { favorites, ..self }, Some(favorites_page(favorites.entries)))
        } else if name == "downloads"@ {
            (self, Some(downloads_page(self.downloads.items)))
        } else if name == "downloads/clear"@ {
            let downloads = self.downloads.cleared();
            (ProtocolView { downloads, ..self }, Some(downloads_page(downloads.items)))
        } else if name == "cookies"@ {
            (self, Some(cookies_page_text()))
        } else if name == "cookies/clear"@ {
            (ProtocolView { clear_cookies: true, ..self }, Some(cookies_cleared_text()))
        } else {
            (self, None)
        }
    }

    /// Whether a page can be shown: the downloads page reckons the shares of running downloads.
    pub open spec fn showable(self, path: Seq<char>) -> bool {
        page_name(path) == "downloads"@ || page_name(path) == "downloads/clear"@
            ==> self.downloads.countable()
    }
}

impl CceProtocol {
    /// Routes a `cce:` address to its page. `None` means that there is no such page.
    pub fn route(&mut self, url: &str, now: u64) -> (r: Option<String>)
        requires
            old(self)@.showable(path_of(url@)),
        ensures
            (final(self)@, view_opt(r)) == old(self)@.routed(
                path_of(url@),
                form_pairs(query_of(url@)),
                now,
            ),
            forall|pairs: Seq<(Seq<char>, Seq<char>)>|
                query_of(url@) == #[trigger] form_query(pairs) ==> (final(self)@, view_opt(r)) == old(
                    self,
                )@.routed(path_of(url@), pairs, now),
    {
        let full = trim_start_matches(url, "cce://");
        let (path, query) = match split_once(full.as_str(), '?') {
            Some((path, query)) => (path, query),
            None => (full, "".to_owned()),
        };
        let pairs = parse_query(query.as_str());
        self.route_pairs(path.as_str(), &pairs, now)
    }

    /// Routes a path, with the query taken apart.
    pub fn route_pairs(&mut self, path: &str, pairs: &Vec<(String, String)>, now: u64) -> (r: Option<
        String,
    >)
        requires
            old(self)@.showable(path@),
        ensures
            (final(self)@, view_opt(r)) == old(self)@.routed(path@, pair_views(pairs@), now),
    {
        let trimmed_name = trim_end_char(path, '/');
        let name = trimmed_name.as_str();
        let target = find_param(pairs, "url");
        if same(name, "history") {
            Some(self.history.html())
        } else if same(name, "history/clear") {
            self.history.clear();
            Some(self.history.html())
        } else if same(name, "bookmarks") {
            Some(self.bookmarks.html(&self.favorites))
        } else if same(name, "bookmarks/remove") {
            if let Some(u) = target {
                self.bookmarks.remove(u.as_str());
            }
            Some(self.bookmarks.html(&self.favorites))
        } else if same(name, "favorites") {
            Some(self.favorites.html())
        } else if same(name, "favorites/add") {
            // A bookmark promoted without a title in the query keeps the title it was starred with.
            if let Some(u) = target {
                let title = match find_param(pairs, "title") {
                    Some(t) => t,
                    None => match self.bookmarks.title_of(u.as_str()) {
                        Some(t) => t,
                        None => String::new(),
                    },
                };
                self.favorites.add(u.as_str(), title.as_str(), now);
            }
            Some(self.favorites.html())
        } else if same(name, "favorites/remove") {
            if let Some(u) = target {
                self.favorites.remove(u.as_str());
            }
            Some(self.favorites.html())
        } else if same(name, "favorites/up") || same(name, "favorites/down") {
            if let Some(u) = target {
                let delta: isize = if same(name, "favorites/up") {
                    -1
                } else {
                    1
                };
                self.favorites.shift(u.as_str(), delta);
            }
            Some(self.favorites.html())
        } else if same(name, "favorites/rename") {
            if let Some(u) = target {
                let title = match find_param(pairs, "title") {
                    Some(t) => t,
                    None => String::new(),
                };
                self.favorites.rename(u.as_str(), title.as_str());
            }
            Some(self.favorites.html())
        } else if same(name, "downloads") {
            Some(self.downloads.html())
        } else if same(name, "downloads/clear") {
            self.downloads.clear_finished();
            proof {
                lemma_cleared_countable(old(self)@.downloads);
            }
            Some(self.downloads.html())
        } else if same(name, "cookies") {
            Some(cookies_page())
        } else if same(name, "cookies/clear") {
            self.clear_cookies = true;
            Some(cookies_cleared_page())
        } else {
            None
        }
    }
}

proof fn lemma_cleared_countable(list: DownloadsView)
    requires
        list.countable(),
    ensures
        list.cleared().countable(),
{
    let p = |d: crate::downloads::DownloadView| d.state is Active;
    let kept = list.items.filter(p);
    assert forall|i: int| 0 <= i < kept.len() implies (#[trigger] kept[i]).countable() by {
        list.items.lemma_filter_contains_rev(p, kept[i]);
        let j = choose|j: int| 0 <= j < list.items.len() && list.items[j] == kept[i];
        assert(list.items[j].countable());
    }
}

/// A link to `act`, with an address in its query as the pages write it, asks for that page and that
/// address, whatever the address is.
pub proof fn link_carries_its_address(act: Seq<char>, url: Seq<char>)
    requires
        !act.contains('?'),
        act.len() < 6 || act.take(6) != "cce://"@,
    ensures
        path_of("cce://"@ + act + "?url="@ + form_text(url)) == act,
        query_of("cce://"@ + act + "?url="@ + form_text(url)) == form_query(seq![("url"@, url)]),
        first_value(seq![("url"@, url)], "url"@) == Some(url),
{
    reveal_strlit("cce://");
    reveal_strlit("?url=");
    reveal_strlit("url");
    let link = "cce://"@ + act + "?url="@ + form_text(url);
    let query = seq!['u', 'r', 'l', '='] + form_text(url);
    let full = act + seq!['?'] + query;
    assert(link.skip(6) =~= full);
    assert("cce://"@.is_prefix_of(link)) by {
        assert(link.take(6) =~= "cce://"@);
    }
    if "cce://"@.is_prefix_of(full) {
        assert(full.take(6) == "cce://"@);
        if act.len() >= 6 {
            assert(act.take(6) =~= full.take(6));
        } else {
            assert(full[act.len() as int] == '?');
            assert(full.take(6)[act.len() as int] == '?');
        }
    }
    assert(strip_starts(full, "cce://"@) == full);
    assert(link.skip("cce://"@.len() as int) == full);
    assert(strip_starts(link, "cce://"@) == full);
    lemma_cut(act, '?', query);
    lemma_form_text_plain("url"@);
    assert("url"@ =~= seq!['u', 'r', 'l']);
    assert(form_query(seq![("url"@, url)]) =~= query);
}

/// Letters stand for themselves in an encoded form.
proof fn lemma_form_text_plain(s: Seq<char>)
    requires
        s =~= seq!['u', 'r', 'l'],
    ensures
        form_text(s) == s,
{
    is_ascii_chars_encode_utf8(s);
    let b = encode_utf8(s);
    assert(b.len() == 3);
    assert(b[0] == 117 && b[1] == 114 && b[2] == 108);
    reveal_with_fuel(crate::weburl::form_bytes, 4);
    assert(form_text(s) =~= s);
}

/// The page's link to remove a bookmark removes the bookmarks of its address, keeps every other, and
/// touches no other store.
pub proof fn remove_link_removes(p: ProtocolView, url: Seq<char>, now: u64)
    ensures
        ({
            let (after, _) = p.routed("bookmarks/remove"@, seq![("url"@, url)], now);
            &&& !has_entry(after.bookmarks.entries, url)
            &&& forall|e: EntryView|
                #[trigger] after.bookmarks.entries.contains(e) <==> p.bookmarks.entries.contains(e)
                    && e.url != url
            &&& after == ProtocolView { bookmarks: after.bookmarks, ..p }
        }),
{
    reveal_strlit("bookmarks/remove");
    reveal_strlit("bookmarks");
    reveal_strlit("history");
    reveal_strlit("history/clear");
    assert("bookmarks/remove"@.last() == 'e');
    assert(page_name("bookmarks/remove"@) == "bookmarks/remove"@);
    assert(first_value(seq![("url"@, url)], "url"@) == Some(url));
    lemma_entries_but(p.bookmarks.entries, url);
}

/// Nothing but the pages that say so changes a store: an address that names no page, or a page that
/// only shows, leaves all of them as they were.
pub proof fn showing_changes_nothing(
    p: ProtocolView,
    path: Seq<char>,
    pairs: Seq<(Seq<char>, Seq<char>)>,
    now: u64,
)
    requires
        !page_name(path).contains('/'),
    ensures
        p.routed(path, pairs, now).0 == p,
{
    reveal_strlit("history/clear");
    reveal_strlit("bookmarks/remove");
    reveal_strlit("favorites/add");
    reveal_strlit("favorites/remove");
    reveal_strlit("favorites/up");
    reveal_strlit("favorites/down");
    reveal_strlit("favorites/rename");
    reveal_strlit("downloads/clear");
    reveal_strlit("cookies/clear");
    assert("history/clear"@[7] == '/');
    assert("bookmarks/remove"@[9] == '/');
    assert("favorites/add"@[9] == '/');
    assert("favorites/remove"@[9] == '/');
    assert("favorites/up"@[9] == '/');
    assert("favorites/down"@[9] == '/');
    assert("favorites/rename"@[9] == '/');
    assert("downloads/clear"@[9] == '/');
    assert("cookies/clear"@[7] == '/');
}

} // verus!
