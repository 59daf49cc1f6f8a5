//! What the browser's own addresses do to the stores and which page they show, and how the stores are kept.

use vstd::prelude::*;

use crate::downloads::downloads_page;
use crate::numerals::decimal;
use crate::outcomes::addresses::{blank, tight, trimming_takes_white_alone};
use crate::outcomes::listings::lemma_blank_is_trimmed_away;
use crate::pages::{bookmarks_page, favorites_page, history_page, label_from, label_of, strip};
use crate::protocol::{
    cookies_cleared_text, cookies_page_text, page_name, path_of, query_of, ProtocolView,
};
use crate::split::lemma_cut;
use crate::store::{
    entry_line, has_entry, lemma_entries_but, line_entry, sanitized_is_one_line, EntryView,
};
use crate::text::{strip_end_char, strip_starts};
use crate::weburl::{first_value, last_segment_of, one_line, UrlView};

verus! {

// ---------------------------------------------------------------------------------------------
// Which page
// ---------------------------------------------------------------------------------------------

proof fn lemma_names()
    ensures
        "history"@.len() == 7 && "history"@[0] == 'h',
        "history/clear"@.len() == 13 && "history/clear"@[0] == 'h',
        "bookmarks"@.len() == 9 && "bookmarks"@[0] == 'b',
        "bookmarks/remove"@.len() == 16 && "bookmarks/remove"@[0] == 'b',
        "favorites"@.len() == 9 && "favorites"@[0] == 'f',
        "favorites/add"@.len() == 13 && "favorites/add"@[0] == 'f',
        "favorites/remove"@.len() == 16 && "favorites/remove"@[0] == 'f' && "favorites/remove"@[12]
            == 'm',
        "favorites/up"@.len() == 12,
        "favorites/down"@.len() == 14,
        "favorites/rename"@.len() == 16 && "favorites/rename"@[0] == 'f' && "favorites/rename"@[12]
            == 'n',
        "downloads"@.len() == 9 && "downloads"@[0] == 'd',
        "downloads/clear"@.len() == 15,
        "cookies"@.len() == 7 && "cookies"@[0] == 'c',
        "cookies/clear"@.len() == 13 && "cookies/clear"@[0] == 'c',
        "history"@.last() != '/',
        "history/clear"@.last() != '/',
        "bookmarks"@.last() != '/',
        "bookmarks/remove"@.last() != '/',
        "favorites"@.last() != '/',
        "favorites/add"@.last() != '/',
        "favorites/remove"@.last() != '/',
        "favorites/up"@.last() != '/',
        "favorites/down"@.last() != '/',
        "favorites/rename"@.last() != '/',
        "downloads"@.last() != '/',
        "downloads/clear"@.last() != '/',
        "cookies"@.last() != '/',
        "cookies/clear"@.last() != '/',
{
    reveal_strlit("history");
    reveal_strlit("history/clear");
    reveal_strlit("bookmarks");
    reveal_strlit("bookmarks/remove");
    reveal_strlit("favorites");
    reveal_strlit("favorites/add");
    reveal_strlit("favorites/remove");
    reveal_strlit("favorites/up");
    reveal_strlit("favorites/down");
    reveal_strlit("favorites/rename");
    reveal_strlit("downloads");
    reveal_strlit("downloads/clear");
    reveal_strlit("cookies");
    reveal_strlit("cookies/clear");
}

/// Each page shows what its store holds and changes nothing: the visits, the bookmarks, the favorites, the
/// downloads, and the question about cookies. A slash after the name makes no difference.
#[verifier::rlimit(40)]
pub proof fn pages_show_their_store(
    p: ProtocolView,
    pairs: Seq<(Seq<char>, Seq<char>)>,
    now: u64,
    slash: bool,
)
    ensures
        ({
            let end = if slash {
                seq!['/']
            } else {
                Seq::empty()
            };
            &&& p.routed("history"@ + end, pairs, now) == (p, Some(history_page(p.history.entries)))
            &&& p.routed("bookmarks"@ + end, pairs, now) == (
                p,
                Some(bookmarks_page(p.bookmarks.entries, p.favorites.entries)),
            )
            &&& p.routed("favorites"@ + end, pairs, now) == (
                p,
                Some(favorites_page(p.favorites.entries)),
            )
            &&& p.routed("downloads"@ + end, pairs, now) == (
                p,
                Some(downloads_page(p.downloads.items)),
            )
            &&& p.routed("cookies"@ + end, pairs, now) == (p, Some(cookies_page_text()))
        }),
{
    lemma_names();
    lemma_slash("history"@, slash);
    lemma_slash("bookmarks"@, slash);
    lemma_slash("favorites"@, slash);
    lemma_slash("downloads"@, slash);
    lemma_slash("cookies"@, slash);
}

proof fn lemma_slash(name: Seq<char>, slash: bool)
    requires
        name.len() > 0,
        name.last() != '/',
    ensures
        page_name(
            name + (if slash {
                seq!['/']
            } else {
                Seq::empty()
            }),
        ) == name,
        page_name(name) == name,
{
    let s = name + seq!['/'];
    assert(s.drop_last() =~= name);
    assert(name + Seq::<char>::empty() =~= name);
    assert(strip_end_char(s, '/') == strip_end_char(name, '/'));
}

/// Clearing the history leaves no visits, and shows that; nothing else changes.
pub proof fn history_is_cleared(p: ProtocolView, pairs: Seq<(Seq<char>, Seq<char>)>, now: u64)
    ensures
        ({
            let (q, page) = p.routed("history/clear"@, pairs, now);
            &&& q.history.entries.len() == 0
            &&& page == Some(history_page(Seq::empty()))
            &&& q == (ProtocolView { history: q.history, ..p })
        }),
{
    lemma_names();
    lemma_slash("history/clear"@, false);
}

/// Removing a bookmark takes the bookmarks of that address and no others, and shows what is left.
pub proof fn bookmarks_are_removed(
    p: ProtocolView,
    pairs: Seq<(Seq<char>, Seq<char>)>,
    now: u64,
    url: Seq<char>,
    e: EntryView,
)
    requires
        first_value(pairs, "url"@) == Some(url),
    ensures
        ({
            let (q, page) = p.routed("bookmarks/remove"@, pairs, now);
            &&& q.bookmarks.entries.contains(e) <==> p.bookmarks.entries.contains(e) && e.url != url
            &&& page == Some(bookmarks_page(q.bookmarks.entries, p.favorites.entries))
            &&& q == (ProtocolView { bookmarks: q.bookmarks, ..p })
        }),
{
    lemma_names();
    lemma_slash("bookmarks/remove"@, false);
    lemma_entries_but(p.bookmarks.entries, url);
}

/// Removing a favorite takes the favorites of that address and no others, and shows what is left.
pub proof fn favorites_are_removed(
    p: ProtocolView,
    pairs: Seq<(Seq<char>, Seq<char>)>,
    now: u64,
    url: Seq<char>,
    e: EntryView,
)
    requires
        first_value(pairs, "url"@) == Some(url),
    ensures
        ({
            let (q, page) = p.routed("favorites/remove"@, pairs, now);
            &&& q.favorites.entries.contains(e) <==> p.favorites.entries.contains(e) && e.url != url
            &&& page == Some(favorites_page(q.favorites.entries))
            &&& q == (ProtocolView { favorites: q.favorites, ..p })
        }),
{
    lemma_names();
    lemma_slash("favorites/remove"@, false);
    lemma_entries_but(p.favorites.entries, url);
}

/// A page becomes a favorite under the title that comes with it, and goes to the end of the strip.
#[verifier::rlimit(40)]
pub proof fn favorites_are_added(
    p: ProtocolView,
    pairs: Seq<(Seq<char>, Seq<char>)>,
    now: u64,
    url: Seq<char>,
    title: Seq<char>,
)
    requires
        first_value(pairs, "url"@) == Some(url),
        first_value(pairs, "title"@) == Some(title),
        one_line(url),
        one_line(title),
        tight(title),
        !"cce:"@.is_prefix_of(url),
        url != "about:blank"@,
    ensures
        ({
            let (q, page) = p.routed("favorites/add"@, pairs, now);
            &&& !has_entry(p.favorites.entries, url) ==> q.favorites.entries
                == p.favorites.entries.push((EntryView { ts: now, url, title }))
            &&& has_entry(p.favorites.entries, url) ==> q == p
            &&& page == Some(favorites_page(q.favorites.entries))
            &&& q == (ProtocolView { favorites: q.favorites, ..p })
        }),
{
    lemma_names();
    lemma_slash("favorites/add"@, false);
    titles_are_labels(url, title);
    sanitized_is_one_line(url);
    sanitized_is_one_line(title);
}

/// Without a title of its own, a page that was starred becomes a favorite under the title it was starred
/// with.
#[verifier::rlimit(40)]
pub proof fn bookmarks_become_favorites(
    p: ProtocolView,
    pairs: Seq<(Seq<char>, Seq<char>)>,
    now: u64,
    k: int,
)
    requires
        0 <= k < p.bookmarks.entries.len(),
        forall|j: int|
            0 <= j < k ==> (#[trigger] p.bookmarks.entries[j]).url != p.bookmarks.entries[k].url,
        first_value(pairs, "url"@) == Some(p.bookmarks.entries[k].url),
        first_value(pairs, "title"@) is None,
        one_line(p.bookmarks.entries[k].url),
        one_line(p.bookmarks.entries[k].title),
        tight(p.bookmarks.entries[k].title),
        !"cce:"@.is_prefix_of(p.bookmarks.entries[k].url),
        p.bookmarks.entries[k].url != "about:blank"@,
        !has_entry(p.favorites.entries, p.bookmarks.entries[k].url),
    ensures
        p.routed("favorites/add"@, pairs, now).0.favorites.entries == p.favorites.entries.push(
            (EntryView {
                ts: now,
                url: p.bookmarks.entries[k].url,
                title: p.bookmarks.entries[k].title,
            }),
        ),
{
    let url = p.bookmarks.entries[k].url;
    let title = p.bookmarks.entries[k].title;
    lemma_names();
    lemma_slash("favorites/add"@, false);
    lemma_first_entry(p.bookmarks.entries, url, k);
    titles_are_labels(url, title);
    sanitized_is_one_line(url);
    sanitized_is_one_line(title);
}

proof fn lemma_first_entry(es: Seq<EntryView>, url: Seq<char>, k: int)
    requires
        0 <= k < es.len(),
        es[k].url == url,
        forall|j: int| 0 <= j < k ==> (#[trigger] es[j]).url != url,
    ensures
        crate::store::entry_index(es, url) == k,
    decreases es.len(),
{
    if k > 0 {
        let t = es.drop_first();
        assert(es[0].url != url);
        assert(t[k - 1] == es[k]);
        assert forall|j: int| 0 <= j < k - 1 implies (#[trigger] t[j]).url != url by {
            assert(t[j] == es[j + 1]);
        }
        lemma_first_entry(t, url, k - 1);
    }
}

/// Moving a favorite up exchanges it with the one before it, and moving it down with the one after it; at
/// the ends it stays. No other favorite moves.
#[verifier::rlimit(40)]
pub proof fn favorites_are_moved(
    p: ProtocolView,
    pairs: Seq<(Seq<char>, Seq<char>)>,
    now: u64,
    k: int,
    j: int,
)
    requires
        0 <= k < p.favorites.entries.len(),
        forall|j: int|
            0 <= j < k ==> (#[trigger] p.favorites.entries[j]).url != p.favorites.entries[k].url,
        first_value(pairs, "url"@) == Some(p.favorites.entries[k].url),
    ensures
        ({
            let before = p.favorites.entries;
            let up = p.routed("favorites/up"@, pairs, now).0;
            let down = p.routed("favorites/down"@, pairs, now).0;
            let n = before.len();
            &&& up == (ProtocolView { favorites: up.favorites, ..p })
            &&& down == (ProtocolView { favorites: down.favorites, ..p })
            &&& k == 0 ==> up == p
            &&& k == n - 1 ==> down == p
            &&& k > 0 ==> up.favorites.entries.len() == n && up.favorites.entries[k - 1] == before[k]
                && up.favorites.entries[k] == before[k - 1] && (0 <= j < n && j != k && j != k - 1
                ==> up.favorites.entries[j] == before[j])
            &&& k < n - 1 ==> down.favorites.entries.len() == n && down.favorites.entries[k + 1]
                == before[k] && down.favorites.entries[k] == before[k + 1] && (0 <= j < n && j != k && j
                != k + 1 ==> down.favorites.entries[j] == before[j])
        }),
{
    lemma_names();
    lemma_slash("favorites/up"@, false);
    lemma_slash("favorites/down"@, false);
    lemma_first_entry(p.favorites.entries, p.favorites.entries[k].url, k);
}

/// Renaming a favorite gives it the new title, and changes no other; an empty title gives it the label that
/// it has without one.
#[verifier::rlimit(40)]
pub proof fn favorites_are_renamed(
    p: ProtocolView,
    pairs: Seq<(Seq<char>, Seq<char>)>,
    now: u64,
    k: int,
    title: Seq<char>,
)
    requires
        0 <= k < p.favorites.entries.len(),
        forall|j: int|
            0 <= j < k ==> (#[trigger] p.favorites.entries[j]).url != p.favorites.entries[k].url,
        first_value(pairs, "url"@) == Some(p.favorites.entries[k].url),
        first_value(pairs, "title"@) == Some(title),
        one_line(title),
        tight(title),
    ensures
        ({
            let (q, page) = p.routed("favorites/rename"@, pairs, now);
            let e = p.favorites.entries[k];
            &&& q.favorites.entries == p.favorites.entries.update(k, (EntryView { title, ..e }))
            &&& page == Some(favorites_page(q.favorites.entries))
            &&& q == (ProtocolView { favorites: q.favorites, ..p })
        }),
{
    lemma_names();
    lemma_slash("favorites/rename"@, false);
    lemma_first_entry(p.favorites.entries, p.favorites.entries[k].url, k);
    titles_are_labels(p.favorites.entries[k].url, title);
    sanitized_is_one_line(title);
}

/// Clearing the downloads keeps those that run; clearing the cookies asks the engine for it, and says so; and
/// an address that names no page shows none and changes nothing.
pub proof fn the_rest_is_cleared(p: ProtocolView, pairs: Seq<(Seq<char>, Seq<char>)>, now: u64)
    ensures
        ({
            let (q, page) = p.routed("downloads/clear"@, pairs, now);
            &&& q == (ProtocolView { downloads: p.downloads.cleared(), ..p })
            &&& page == Some(downloads_page(p.downloads.cleared().items))
        }),
        p.routed("cookies/clear"@, pairs, now) == (
            (ProtocolView { clear_cookies: true, ..p }),
            Some(cookies_cleared_text()),
        ),
{
    lemma_names();
    lemma_slash("downloads/clear"@, false);
    lemma_slash("cookies/clear"@, false);
}

/// What stands after `cce://` and before a question mark names the page, and what stands after that is what
/// is asked of it.
#[verifier::rlimit(40)]
pub proof fn addresses_name_pages(name: Seq<char>, query: Seq<char>)
    requires
        !name.contains('?'),
        !"cce://"@.is_prefix_of(name),
        !"cce://"@.is_prefix_of(name + seq!['?'] + query),
    ensures
        path_of("cce://"@ + name) == name,
        query_of("cce://"@ + name).len() == 0,
        path_of("cce://"@ + name + seq!['?'] + query) == name,
        query_of("cce://"@ + name + seq!['?'] + query) == query,
{
    reveal_strlit("cce://");
    reveal_strlit("");
    let a = "cce://"@ + name;
    assert(a.skip(6) =~= name);
    assert("cce://"@.is_prefix_of(a));
    let b = "cce://"@ + name + seq!['?'] + query;
    assert(b.skip(6) =~= name + seq!['?'] + query);
    assert("cce://"@.is_prefix_of(b));
    lemma_cut(name, '?', query);
    crate::text::lemma_index_of(name, '?');
    if crate::text::index_of(name, '?') < name.len() {
        assert(name.contains(name[crate::text::index_of(name, '?')]));
    }
    assert(strip_starts(a, "cce://"@) == strip_starts(name, "cce://"@));
    assert(strip_starts(b, "cce://"@) == strip_starts(name + seq!['?'] + query, "cce://"@));
}

// ---------------------------------------------------------------------------------------------
// Labels
// ---------------------------------------------------------------------------------------------

/// What has a title goes by its title.
pub proof fn titles_are_labels(url: Seq<char>, title: Seq<char>)
    requires
        tight(title),
    ensures
        label_of(url, title) == title,
{
    trimming_takes_white_alone(title, Seq::empty(), Seq::empty());
    assert(Seq::<char>::empty() + title + Seq::<char>::empty() =~= title);
}

/// What has no title goes by its host without a leading `www.`, else by the name of its file, else by its
/// address.
pub proof fn hosts_are_labels(url: Seq<char>, title: Seq<char>, u: UrlView, host: Seq<char>)
    requires
        blank(title),
        host.len() > 0,
        !"www."@.is_prefix_of(host),
    ensures
        u.host == Some(host) || u.host == Some("www."@ + host) ==> label_from(url, title, Some(u)) == host,
        u.host is None && last_segment_of(u.path) == Some(host) ==> label_from(url, title, Some(u))
            == host,
        u.host is None && last_segment_of(u.path) is None ==> label_from(url, title, Some(u)) == url,
        label_from(url, title, None) == url,
{
    lemma_blank_is_trimmed_away(title);
    reveal_strlit("www.");
    let h = "www."@ + host;
    assert("www."@.is_prefix_of(h));
    assert(h.skip(4) =~= host);
    assert(strip_starts(h, "www."@) == strip_starts(host, "www."@));
    assert(strip_starts(host, "www."@) == host);
}

/// A file's name is what follows the last slash of its path.
pub proof fn files_are_named_last(dir: Seq<char>, name: Seq<char>)
    requires
        dir.len() > 0 ==> dir[0] == '/',
        !name.contains('/'),
    ensures
        last_segment_of(dir + seq!['/'] + name) == Some(name),
    decreases name.len(),
{
    let p = dir + seq!['/'] + name;
    assert(p[0] == '/');
    if name.len() == 0 {
        assert(p.last() == '/');
    } else {
        let short = name.drop_last();
        assert forall|i: int| 0 <= i < short.len() implies short[i] != '/' by {
            assert(name.contains(name[i]));
        }
        assert(name.contains(name.last()));
        files_are_named_last(dir, short);
        assert(p.drop_last() =~= dir + seq!['/'] + short);
        assert(p.last() == name.last());
        assert(short.push(name.last()) =~= name);
    }
}

/// The strip shows each favorite under its label, in order, and leads to its address.
pub proof fn the_strip_is_the_favorites(es: Seq<EntryView>, i: int)
    requires
        0 <= i < es.len(),
    ensures
        strip(es).len() == es.len(),
        strip(es)[i].url == es[i].url,
        tight(es[i].title) ==> strip(es)[i].label == es[i].title,
{
    if tight(es[i].title) {
        titles_are_labels(es[i].url, es[i].title);
    }
}

// ---------------------------------------------------------------------------------------------
// Files
// ---------------------------------------------------------------------------------------------

/// An entry is kept as one line: its time in seconds, its address and its title, with tab characters
/// between.
pub proof fn entries_are_lines(ts: u64, url: Seq<char>, title: Seq<char>)
    ensures
        entry_line((EntryView { ts, url, title })) == decimal(ts as nat) + "\t"@ + url + "\t"@ + title
            + "\n"@,
{
    reveal_strlit("\t");
    reveal_strlit("\n");
    assert(entry_line(EntryView { ts, url, title }) =~= decimal(ts as nat) + "\t"@ + url + "\t"@ + title
        + "\n"@);
}

/// Such a line is read as that entry, and one without two tab characters, or that does not start with a
/// number, as none.
#[verifier::rlimit(40)]
pub proof fn lines_are_entries(ts: u64, url: Seq<char>, title: Seq<char>)
    requires
        !url.contains('\t'),
    ensures
        line_entry(decimal(ts as nat) + "\t"@ + url + "\t"@ + title) == Some(
            (EntryView { ts, url, title }),
        ),
        line_entry(url) is None,
        line_entry("x\t"@ + url + "\t"@ + title) is None,
{
    reveal_strlit("\t");
    reveal_strlit("x\t");
    let n = decimal(ts as nat);
    crate::numerals::lemma_decimal_reads_back(ts);
    let rest = url + seq!['\t'] + title;
    assert(n + "\t"@ + url + "\t"@ + title =~= n + seq!['\t'] + rest);
    lemma_digits_alone(ts as nat);
    lemma_cut(n, '\t', rest);
    lemma_cut(url, '\t', title);
    crate::text::lemma_index_of(url, '\t');
    if crate::text::index_of(url, '\t') < url.len() {
        assert(url.contains(url[crate::text::index_of(url, '\t')]));
    }
    assert("x\t"@ + url + "\t"@ + title =~= seq!['x'] + seq!['\t'] + rest);
    lemma_cut(seq!['x'], '\t', rest);
    assert(!crate::numerals::is_digit(seq!['x'][0]));
    assert(crate::numerals::unsigned_part(seq!['x']) == seq!['x']);
}

proof fn lemma_digits_alone(n: nat)
    ensures
        !decimal(n).contains('\t'),
        decimal(n).len() > 0,
    decreases n,
{
    if n >= 10 {
        lemma_digits_alone(n / 10);
        let d = decimal(n / 10);
        assert forall|i: int| 0 <= i < decimal(n).len() implies decimal(n)[i] != '\t' by {
            if i < d.len() {
                assert(d.contains(d[i]));
            }
        }
    }
}

/// A parameter is the first of its name.
pub proof fn parameters_are_found_by_name(
    k: Seq<char>,
    v: Seq<char>,
    other: Seq<char>,
    rest: Seq<(Seq<char>, Seq<char>)>,
)
    requires
        k != other,
    ensures
        first_value(seq![(k, v)] + rest, k) == Some(v),
        first_value(seq![(other, v)] + rest, k) == first_value(rest, k),
        first_value(Seq::empty(), k) is None,
{
    let a = seq![(k, v)] + rest;
    let b = seq![(other, v)] + rest;
    assert(a[0] == (k, v));
    assert(b[0] == (other, v));
    assert(b.drop_first() =~= rest);
}

} // verus!
