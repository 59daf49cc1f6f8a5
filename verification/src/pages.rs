//! The internal `cce:` pages and their backing stores.
//!
//! History, bookmarks and favorites are logs of entries, each kept as a text file. The `cce:`
//! protocol serves them back as pages, whose entries are ordinary links, those that change
//! something included.

use vstd::prelude::*;

use crate::html::{escaped, html_escape, page, page_text};
use crate::numerals::{decimal, to_decimal};
use crate::store::{
    all_savable, copy_entry, entries_but, entry_index, entry_line, entry_views, fields_are_savable,
    find_entry, has_entry, lemma_entries_but, lemma_entry_index, read_tsv, remove_entries, sanitize,
    sanitized, savable, tsv_entries, tsv_text, write_line, write_tsv, Change, ChangeView, Entry,
    EntryView,
};
use crate::text::{same, starts_with, strip_starts, trim, trim_start_matches, trimmed};
use crate::weburl::{
    form_text, last_segment_of, url_encode, url_opt, url_parse, view_opt, Url, UrlView,
};

verus! {

/// At most this many entries are shown on the history page.
pub const RENDER_CAP: usize = 500;

/// Whether an address is one of the browser's own, which no store takes up.
pub open spec fn internal(url: Seq<char>) -> bool {
    "cce:"@.is_prefix_of(url) || url == "about:blank"@
}

/// See [`internal`].
pub fn is_internal(url: &str) -> (r: bool)
    ensures
        r == internal(url@),
{
    starts_with(url, "cce:") || same(url, "about:blank")
}

// ---------------------------------------------------------------------------------------------
// Labels
// ---------------------------------------------------------------------------------------------

/// `t` unless it is empty.
pub open spec fn some_text(t: Option<Seq<char>>) -> Option<Seq<char>> {
    match t {
        Some(t) if t.len() > 0 => Some(t),
        _ => None,
    }
}

/// The label of an address: its title, or for an untitled page the host without `www.`, or the last
/// segment of the path, or the address itself. `parsed` is the address taken apart.
pub open spec fn label_from(
    url: Seq<char>,
    title: Seq<char>,
    parsed: Option<UrlView>,
) -> Seq<char> {
    if trimmed(title).len() > 0 {
        trimmed(title)
    } else {
        match parsed {
            None => url,
            Some(u) => {
                let host = some_text(
                    match u.host {
                        Some(h) => Some(strip_starts(h, "www."@)),
                        None => None,
                    },
                );
                let file = some_text(last_segment_of(u.path));
                match host {
                    Some(h) => h,
                    None => match file {
                        Some(f) => f,
                        None => url,
                    },
                }
            },
        }
    }
}

/// The label that an address gets when it becomes a favorite.
pub open spec fn label_of(url: Seq<char>, title: Seq<char>) -> Seq<char> {
    label_from(url, title, url_parse(url))
}

/// See [`label_from`].
pub fn label_with(url: &str, title: &str, parsed: &Option<Url>) -> (r: String)
    ensures
        r@ == label_from(url@, title@, url_opt(*parsed)),
{
    let title = trim(title);
    if !title.as_str().is_empty() {
        return title;
    }
    if let Some(u) = parsed {
        if let Some(h) = u.host_str() {
            let host = trim_start_matches(h, "www.");
            if !host.as_str().is_empty() {
                return host;
            }
        }
        if let Some(file) = u.last_segment() {
            if !file.as_str().is_empty() {
                return file;
            }
        }
    }
    url.to_owned()
}

/// See [`label_of`].
pub fn default_label(url: &str, title: &str) -> (r: String)
    ensures
        r@ == label_of(url@, title@),
{
    let parsed = Url::parse(url);
    label_with(url, title, &parsed)
}

/// What a page shows for an entry: its title, or its address where the title is blank.
pub open spec fn shown_title(e: EntryView) -> Seq<char> {
    if trimmed(e.title).len() == 0 {
        e.url
    } else {
        e.title
    }
}

fn title_shown(e: &Entry) -> (r: String)
    ensures
        r@ == shown_title(e@),
{
    let t = trim(e.title.as_str());
    if t.as_str().is_empty() {
        e.url.clone()
    } else {
        e.title.clone()
    }
}

// ---------------------------------------------------------------------------------------------
// Logs
// ---------------------------------------------------------------------------------------------

/// A list of entries, and what is still to be written to its file.
#[derive(Debug)]
pub struct Log {
    pub entries: Vec<Entry>,
    pub change: Change,
}

/// What a log holds.
#[verifier::ext_equal]
pub struct LogView {
    pub entries: Seq<EntryView>,
    pub change: ChangeView,
}

impl View for Log {
    type V = LogView;

    open spec fn view(&self) -> LogView {
        LogView { entries: entry_views(self.entries@), change: self.change@ }
    }
}

impl LogView {
    /// A log as its file holds it.
    pub open spec fn read(text: Seq<char>) -> LogView {
        LogView { entries: tsv_entries(text), change: ChangeView::nothing() }
    }

    /// The log with these entries, its file to be written anew.
    pub open spec fn rewritten(es: Seq<EntryView>) -> LogView {
        LogView { entries: es, change: ChangeView::rewrite(tsv_text(es)) }
    }

    /// Whether the file, once everything is written, reads as the entries.
    pub open spec fn matches_file(self, file: Seq<char>) -> bool {
        let text = self.change.applied(file);
        &&& tsv_entries(text) == self.entries
        &&& text.len() > 0 ==> text.last() == '\n'
    }
}

impl Log {
    /// Reads a log.
    pub fn read(text: &str) -> (r: Log)
        ensures
            r@ == LogView::read(text@),
    {
        Log { entries: read_tsv(text), change: Change::nothing() }
    }

    /// Has the file written anew.
    fn rewrite(&mut self)
        ensures
            final(self)@ == LogView::rewritten(old(self)@.entries),
    {
        let text = write_tsv(&self.entries);
        self.change = Change::rewrite(text);
    }

    /// Adds an entry at the end.
    fn push(&mut self, e: Entry)
        ensures
            final(self)@ == (LogView { entries: old(self)@.entries.push(e@), ..old(self)@ }),
    {
        let ghost before = self@.entries;
        self.entries.push(e);
        assert(self@.entries =~= before.push(e@));
    }
}

/// A log that was just written anew agrees with its file.
pub proof fn rewritten_matches_file(es: Seq<EntryView>, file: Seq<char>)
    requires
        all_savable(es),
    ensures
        LogView::rewritten(es).matches_file(file),
{
    crate::store::written_reads_back(es);
}

// ---------------------------------------------------------------------------------------------
// History
// ---------------------------------------------------------------------------------------------

/// The pages that were visited, the oldest first.
#[derive(Debug)]
pub struct History {
    pub log: Log,
}

impl View for History {
    type V = LogView;

    open spec fn view(&self) -> LogView {
        self.log@
    }
}

/// The history after a page load: internal pages and an immediate repeat are skipped, any other is
/// added to the end, and its line to the end of the file.
pub open spec fn recorded(h: LogView, url: Seq<char>, title: Seq<char>, now: u64) -> LogView {
    if internal(url) || (h.entries.len() > 0 && h.entries.last().url == url) {
        h
    } else {
        let e = EntryView { ts: now, url: sanitized(url), title: sanitized(title) };
        LogView {
            entries: h.entries.push(e),
            change: h.change.then_append(entry_line(e)),
        }
    }
}

/// An entry's row of the history page.
pub open spec fn history_row(e: EntryView) -> Seq<char> {
    "<div class=e><span class=w data-ts=\""@ + decimal(e.ts as nat) + "\"></span><a href=\""@
        + escaped(e.url) + "\">"@ + escaped(shown_title(e)) + "</a><span class=u>"@ + escaped(e.url)
        + "</span></div>\n"@
}

/// The rows of the last `n` entries, the newest first.
pub open spec fn history_rows(es: Seq<EntryView>, n: nat) -> Seq<char>
    decreases es.len(),
{
    if es.len() == 0 || n == 0 {
        Seq::empty()
    } else {
        history_row(es.last()) + history_rows(es.drop_last(), (n - 1) as nat)
    }
}

/// The history page.
pub open spec fn history_page(es: Seq<EntryView>) -> Seq<char> {
    page_text(
        "History"@,
        decimal(es.len()) + " entries<a href=\"cce://history/clear\">clear</a>"@,
        if es.len() == 0 {
            "<p class=empty>No history yet.</p>"@
        } else {
            history_rows(es, RENDER_CAP as nat)
        },
        ""@,
    )
}

impl History {
    /// Reads the history from the text of its file.
    pub fn load(text: &str) -> (r: History)
        ensures
            r@ == LogView::read(text@),
    {
        History { log: Log::read(text) }
    }

    /// Records a completed page load.
    pub fn record(&mut self, url: &str, title: &str, now: u64)
        ensures
            final(self)@ == recorded(old(self)@, url@, title@, now),
    {
        if is_internal(url) {
            return;
        }
        let n = self.log.entries.len();
        if n > 0 {
            assert(self@.entries.last() == self.log.entries@.last()@);
            if same(self.log.entries[n - 1].url.as_str(), url) {
                return;
            }
        }
        let e = Entry { ts: now, url: sanitize(url), title: sanitize(title) };
        let line = write_line(&e);
        self.log.change.append(line.as_str());
        self.log.push(e);
    }

    /// Forgets everything.
    pub fn clear(&mut self)
        ensures
            final(self)@ == LogView::rewritten(Seq::empty()),
    {
        self.log.entries = Vec::new();
        self.log.change = Change::rewrite(String::new());
        assert(self@.entries =~= Seq::empty());
        assert(self@.change.text =~= tsv_text(Seq::empty()));
    }

    /// The history page.
    pub fn html(&self) -> (r: String)
        ensures
            r@ == history_page(self@.entries),
    {
        let ghost all = self@.entries;
        let mut rows = String::new();
        let n = self.log.entries.len();
        let mut i: usize = n;
        assert(all.take(i as int) =~= all);
        assert(rows@ + history_rows(all, RENDER_CAP as nat) =~= history_rows(
            all,
            RENDER_CAP as nat,
        ));
        while i > 0 && n - i < RENDER_CAP
            invariant
                i <= n,
                n == self.log.entries.len(),
                n - i <= RENDER_CAP,
                all == self@.entries,
                rows@ + history_rows(all.take(i as int), (RENDER_CAP - (n - i)) as nat)
                    == history_rows(all, RENDER_CAP as nat),
            decreases i,
        {
            let ghost before = rows@;
            let ghost left = (RENDER_CAP - (n - i)) as nat;
            i -= 1;
            let e = &self.log.entries[i];
            assert(all[i as int] == e@);
            assert(all.take(i + 1).drop_last() =~= all.take(i as int));
            let row = history_html(e);
            rows.append(row.as_str());
            assert(rows@ + history_rows(all.take(i as int), (left - 1) as nat) =~= before
                + history_rows(all.take(i + 1), left));
        }
        assert(rows@ =~= history_rows(all, RENDER_CAP as nat));
        let mut meta = to_decimal(n as u64);
        meta.append(" entries<a href=\"cce://history/clear\">clear</a>");
        if n == 0 {
            rows = "<p class=empty>No history yet.</p>".to_owned();
        }
        page("History", meta.as_str(), rows.as_str(), "")
    }
}

fn history_html(e: &Entry) -> (r: String)
    ensures
        r@ == history_row(e@),
{
    let mut out = "<div class=e><span class=w data-ts=\"".to_owned();
    let ts = to_decimal(e.ts);
    out.append(ts.as_str());
    out.append("\"></span><a href=\"");
    let url = html_escape(e.url.as_str());
    out.append(url.as_str());
    out.append("\">");
    let shown = title_shown(e);
    let title = html_escape(shown.as_str());
    out.append(title.as_str());
    out.append("</a><span class=u>");
    out.append(url.as_str());
    out.append("</span></div>\n");
    out
}

/// Where the history agrees with its file, it still does after a page load is recorded.
pub proof fn recording_matches_file(
    h: LogView,
    url: Seq<char>,
    title: Seq<char>,
    now: u64,
    file: Seq<char>,
)
    requires
        h.matches_file(file),
    ensures
        recorded(h, url, title, now).matches_file(file),
{
    let e = EntryView { ts: now, url: sanitized(url), title: sanitized(title) };
    let after = recorded(h, url, title, now);
    if after != h {
        fields_are_savable(now, url, title);
        crate::store::appended_line_reads_back(h.change.applied(file), e);
        assert(after.change.applied(file) =~= h.change.applied(file) + entry_line(e));
        assert(entry_line(e).last() == '\n');
    }
}

/// A page that is loaded twice in a row is recorded once.
pub proof fn reload_is_recorded_once(
    h: LogView,
    url: Seq<char>,
    a: Seq<char>,
    b: Seq<char>,
    now: u64,
    later: u64,
)
    requires
        crate::weburl::one_line(url),
    ensures
        recorded(recorded(h, url, a, now), url, b, later) == recorded(h, url, a, now),
{
    crate::store::sanitized_is_one_line(url);
}

// ---------------------------------------------------------------------------------------------
// Bookmarks
// ---------------------------------------------------------------------------------------------

/// The pages that were starred, the oldest first.
#[derive(Debug)]
pub struct Bookmarks {
    pub log: Log,
}

impl View for Bookmarks {
    type V = LogView;

    open spec fn view(&self) -> LogView {
        self.log@
    }
}

/// The bookmarks after the star of a page is pressed: its first bookmark goes, or it gets one.
/// Internal pages get none.
pub open spec fn bookmark_toggled(
    b: LogView,
    url: Seq<char>,
    title: Seq<char>,
    now: u64,
) -> LogView {
    let k = entry_index(b.entries, url);
    if internal(url) {
        b
    } else if k < b.entries.len() {
        LogView::rewritten(b.entries.remove(k))
    } else {
        LogView::rewritten(
            b.entries.push(EntryView { ts: now, url: sanitized(url), title: sanitized(title) }),
        )
    }
}

/// The link at a bookmark that makes it a favorite, or a note that it is one.
pub open spec fn favorite_link(e: EntryView, favorites: Seq<EntryView>) -> Seq<char> {
    if has_entry(favorites, e.url) {
        "<span class=tag>favorite</span>"@
    } else {
        "<a class=rm href=\"cce://favorites/add?url="@ + escaped(form_text(e.url))
            + "\">favorite</a>"@
    }
}

/// An entry's row of the bookmarks page.
pub open spec fn bookmark_row(e: EntryView, favorites: Seq<EntryView>) -> Seq<char> {
    "<div class=e><span class=w data-ts=\""@ + decimal(e.ts as nat) + "\"></span><a href=\""@
        + escaped(e.url) + "\">"@ + escaped(shown_title(e)) + "</a><span class=u>"@ + escaped(e.url)
        + "</span>"@ + favorite_link(e, favorites)
        + "<a class=rm href=\"cce://bookmarks/remove?url="@ + escaped(form_text(e.url))
        + "\">remove</a></div>\n"@
}

/// The rows of the bookmarks page, the newest first.
pub open spec fn bookmark_rows(es: Seq<EntryView>, favorites: Seq<EntryView>) -> Seq<char>
    decreases es.len(),
{
    if es.len() == 0 {
        Seq::empty()
    } else {
        bookmark_row(es.last(), favorites) + bookmark_rows(es.drop_last(), favorites)
    }
}

/// The bookmarks page.
pub open spec fn bookmarks_page(es: Seq<EntryView>, favorites: Seq<EntryView>) -> Seq<char> {
    page_text(
        "Bookmarks"@,
        decimal(es.len()) + " bookmarks<a href=\"cce://favorites\">favorites</a>"@,
        if es.len() == 0 {
            "<p class=empty>No bookmarks yet. Star a page or press Ctrl+D.</p>"@
        } else {
            bookmark_rows(es, favorites)
        },
        ""@,
    )
}

impl Bookmarks {
    /// Reads the bookmarks from the text of their file.
    pub fn load(text: &str) -> (r: Bookmarks)
        ensures
            r@ == LogView::read(text@),
    {
        Bookmarks { log: Log::read(text) }
    }

    /// Whether a page is bookmarked.
    pub fn contains(&self, url: &str) -> (r: bool)
        ensures
            r == has_entry(self@.entries, url@),
    {
        find_entry(&self.log.entries, url) < self.log.entries.len()
    }

    /// Adds or removes a bookmark; gives whether there is one now.
    pub fn toggle(&mut self, url: &str, title: &str, now: u64) -> (r: bool)
        ensures
            final(self)@ == bookmark_toggled(old(self)@, url@, title@, now),
            r == (!internal(url@) && !has_entry(old(self)@.entries, url@)),
    {
        if is_internal(url) {
            return false;
        }
        let ghost before = self@.entries;
        let k = find_entry(&self.log.entries, url);
        let added = if k < self.log.entries.len() {
            let _gone = self.log.entries.remove(k);
            assert(self@.entries =~= before.remove(k as int));
            false
        } else {
            self.log.push(Entry { ts: now, url: sanitize(url), title: sanitize(title) });
            true
        };
        self.log.rewrite();
        added
    }

    /// Removes every bookmark of a page.
    pub fn remove(&mut self, url: &str)
        ensures
            final(self)@ == LogView::rewritten(entries_but(old(self)@.entries, url@)),
    {
        remove_entries(&mut self.log.entries, url);
        self.log.rewrite();
    }

    /// The title that a page was starred with.
    pub fn title_of(&self, url: &str) -> (r: Option<String>)
        ensures
            view_opt(r) == title_in(self@.entries, url@),
    {
        let k = find_entry(&self.log.entries, url);
        if k < self.log.entries.len() {
            assert(self@.entries[k as int] == self.log.entries@[k as int]@);
            Some(self.log.entries[k].title.clone())
        } else {
            None
        }
    }

    /// Every bookmark with its label, the newest first.
    pub fn snapshot(&self) -> (r: Vec<Favorite>)
        ensures
            favorite_views(r@) == strip(self@.entries.reverse()),
    {
        let ghost all = self@.entries;
        let n = self.log.entries.len();
        let mut out: Vec<Favorite> = Vec::new();
        let mut i: usize = n;
        while i > 0
            invariant
                i <= n,
                n == self.log.entries.len(),
                all == self@.entries,
                favorite_views(out@) == strip(all.reverse().take(n - i)),
            decreases i,
        {
            let ghost before = favorite_views(out@);
            i -= 1;
            let e = &self.log.entries[i];
            assert(all[i as int] == e@);
            let f = Favorite {
                url: e.url.clone(),
                label: default_label(e.url.as_str(), e.title.as_str()),
            };
            out.push(f);
            assert(favorite_views(out@) =~= before.push(f@));
            assert(all.reverse()[n - i - 1] == e@);
            assert(strip(all.reverse().take(n - i)) =~= strip(all.reverse().take(n - i - 1)).push(
                f@,
            ));
        }
        assert(all.reverse().take(n as int) =~= all.reverse());
        out
    }

    /// The bookmarks page.
    pub fn html(&self, favorites: &Favorites) -> (r: String)
        ensures
            r@ == bookmarks_page(self@.entries, favorites@.entries),
    {
        let ghost all = self@.entries;
        let ghost favs = favorites@.entries;
        let mut rows = String::new();
        let n = self.log.entries.len();
        let mut i: usize = n;
        assert(all.take(i as int) =~= all);
        assert(rows@ + bookmark_rows(all, favs) =~= bookmark_rows(all, favs));
        while i > 0
            invariant
                i <= n,
                n == self.log.entries.len(),
                all == self@.entries,
                favs == favorites@.entries,
                rows@ + bookmark_rows(all.take(i as int), favs) == bookmark_rows(all, favs),
            decreases i,
        {
            let ghost before = rows@;
            i -= 1;
            let e = &self.log.entries[i];
            assert(all[i as int] == e@);
            assert(all.take(i + 1).drop_last() =~= all.take(i as int));
            let row = bookmark_html(e, favorites);
            rows.append(row.as_str());
            assert(rows@ + bookmark_rows(all.take(i as int), favs) =~= before + bookmark_rows(
                all.take(i + 1),
                favs,
            ));
        }
        assert(rows@ =~= bookmark_rows(all, favs));
        let mut meta = to_decimal(n as u64);
        meta.append(" bookmarks<a href=\"cce://favorites\">favorites</a>");
        if n == 0 {
            rows = "<p class=empty>No bookmarks yet. Star a page or press Ctrl+D.</p>".to_owned();
        }
        page("Bookmarks", meta.as_str(), rows.as_str(), "")
    }
}

/// The title of the first entry for an address.
pub open spec fn title_in(es: Seq<EntryView>, url: Seq<char>) -> Option<Seq<char>> {
    let k = entry_index(es, url);
    if k < es.len() {
        Some(es[k].title)
    } else {
        None
    }
}

fn bookmark_html(e: &Entry, favorites: &Favorites) -> (r: String)
    ensures
        r@ == bookmark_row(e@, favorites@.entries),
{
    let encoded = url_encode(e.url.as_str());
    let enc = html_escape(encoded.as_str());
    let mut out = "<div class=e><span class=w data-ts=\"".to_owned();
    let ts = to_decimal(e.ts);
    out.append(ts.as_str());
    out.append("\"></span><a href=\"");
    let url = html_escape(e.url.as_str());
    out.append(url.as_str());
    out.append("\">");
    let shown = title_shown(e);
    let title = html_escape(shown.as_str());
    out.append(title.as_str());
    out.append("</a><span class=u>");
    out.append(url.as_str());
    out.append("</span>");
    let ghost before = out@;
    // A bookmark that is a favorite says so instead of offering to add it twice.
    if favorites.contains(e.url.as_str()) {
        out.append("<span class=tag>favorite</span>");
    } else {
        out.append("<a class=rm href=\"cce://favorites/add?url=");
        out.append(enc.as_str());
        out.append("\">favorite</a>");
    }
    assert(out@ =~= before + favorite_link(e@, favorites@.entries));
    out.append("<a class=rm href=\"cce://bookmarks/remove?url=");
    out.append(enc.as_str());
    out.append("\">remove</a></div>\n");
    out
}

/// Pressing the star twice leaves the bookmarks as they were, for a page that had none.
pub proof fn star_twice_restores(
    b: LogView,
    url: Seq<char>,
    title: Seq<char>,
    now: u64,
    later: u64,
)
    requires
        crate::weburl::one_line(url),
        !has_entry(b.entries, url),
    ensures
        bookmark_toggled(bookmark_toggled(b, url, title, now), url, title, later).entries
            == b.entries,
{
    crate::store::sanitized_is_one_line(url);
    if !internal(url) {
        lemma_entry_index(b.entries, url);
        let one = bookmark_toggled(b, url, title, now).entries;
        let k = b.entries.len() as int;
        lemma_entry_index(one, url);
        assert(one[k].url == url);
        assert(has_entry(one, url));
        let i = entry_index(one, url);
        if i < k {
            assert(one[i] == b.entries[i]);
            assert(has_entry(b.entries, url));
        }
        assert(one.remove(k) =~= b.entries);
    }
}

// ---------------------------------------------------------------------------------------------
// Favorites
// ---------------------------------------------------------------------------------------------

/// A favorite as the chrome shows it: the pill's label and where it goes.
#[derive(Clone, Debug)]
pub struct Favorite {
    pub url: String,
    pub label: String,
}

/// What a favorite says.
#[verifier::ext_equal]
pub struct FavoriteView {
    pub url: Seq<char>,
    pub label: Seq<char>,
}

impl View for Favorite {
    type V = FavoriteView;

    open spec fn view(&self) -> FavoriteView {
        FavoriteView { url: self.url@, label: self.label@ }
    }
}

/// What each favorite of a list says.
pub open spec fn favorite_views(v: Seq<Favorite>) -> Seq<FavoriteView> {
    v.map_values(|f: Favorite| f@)
}

/// A short, ordered, hand-picked list of places, shown as a row of pills in the utility bar.
#[derive(Debug)]
pub struct Favorites {
    pub log: Log,
}

impl View for Favorites {
    type V = LogView;

    open spec fn view(&self) -> LogView {
        self.log@
    }
}

/// The strip: every entry with its label, in order.
pub open spec fn strip(es: Seq<EntryView>) -> Seq<FavoriteView> {
    es.map_values(|e: EntryView| FavoriteView { url: e.url, label: label_of(e.url, e.title) })
}

/// The favorites after a page is added under a label: at the end of the strip, unless it is there
/// or is an internal page.
pub open spec fn favorite_added(f: LogView, url: Seq<char>, label: Seq<char>, now: u64) -> LogView {
    if internal(url) || has_entry(f.entries, url) {
        f
    } else {
        LogView::rewritten(
            f.entries.push(EntryView { ts: now, url: sanitized(url), title: sanitized(label) }),
        )
    }
}

/// The favorites without a page.
pub open spec fn favorite_removed(f: LogView, url: Seq<char>) -> LogView {
    LogView::rewritten(entries_but(f.entries, url))
}

/// The favorites after a page is added or removed.
pub open spec fn favorite_toggled(f: LogView, url: Seq<char>, label: Seq<char>, now: u64) -> LogView {
    if has_entry(f.entries, url) {
        favorite_removed(f, url)
    } else {
        favorite_added(f, url, label, now)
    }
}

/// The favorites with another label for the first entry of a page.
pub open spec fn favorite_renamed(f: LogView, url: Seq<char>, label: Seq<char>) -> LogView {
    let k = entry_index(f.entries, url);
    if k < f.entries.len() {
        LogView::rewritten(
            f.entries.update(k, EntryView { title: sanitized(label), ..f.entries[k] }),
        )
    } else {
        f
    }
}

/// A list with two of its places exchanged.
pub open spec fn swapped(es: Seq<EntryView>, i: int, j: int) -> Seq<EntryView> {
    es.update(i, es[j]).update(j, es[i])
}

/// The favorites with a page exchanged for the one `delta` places on, where there is one.
pub open spec fn favorite_shifted(f: LogView, url: Seq<char>, delta: int) -> LogView {
    let i = entry_index(f.entries, url);
    let j = i + delta;
    if i < f.entries.len() && 0 <= j < f.entries.len() {
        LogView::rewritten(swapped(f.entries, i, j))
    } else {
        f
    }
}

/// The link that moves a favorite, or a mark in its place at the end of the strip.
pub open spec fn move_link(live: bool, to: Seq<char>, enc: Seq<char>, mark: Seq<char>) -> Seq<char> {
    if live {
        "<a class=rm href=\"cce://favorites/"@ + to + "?url="@ + escaped(enc) + "\">"@ + mark
            + "</a>"@
    } else {
        "<span class=rm>"@ + mark + "</span>"@
    }
}

/// An entry's row of the favorites page.
pub open spec fn favorite_row(e: EntryView, first: bool, last: bool) -> Seq<char> {
    let enc = form_text(e.url);
    let url = escaped(e.url);
    let label = escaped(label_of(e.url, e.title));
    "<div class=e><span class=w>"@ + move_link(!first, "up"@, enc, "&#9650;"@) + " "@ + move_link(
        !last,
        "down"@,
        enc,
        "&#9660;"@,
    ) + "</span><a href=\""@ + url + "\">"@ + label + "</a><span class=u>"@ + url
        + "</span><form action=\"cce://favorites/rename\"><input type=hidden name=url value=\""@
        + url + "\"><input name=title value=\""@ + label
        + "\" size=18><button>rename</button></form><a class=rm href=\"cce://favorites/remove?url="@
        + escaped(enc) + "\">remove</a></div>\n"@
}

/// The rows of the first `n` entries of the favorites page, in order.
pub open spec fn favorite_rows(es: Seq<EntryView>, n: nat) -> Seq<char>
    decreases n,
{
    if n == 0 {
        Seq::empty()
    } else {
        favorite_rows(es, (n - 1) as nat) + favorite_row(
            es[n - 1],
            n == 1,
            n == es.len(),
        )
    }
}

/// The rename form's styling, on top of the shared skeleton.
pub const FAVORITES_CSS: &'static str = "<style>.e .w{min-width:3em}.e form{display:flex;gap:6px;margin:0}.e input{background:#111214;color:#dcdce1;border:1px solid #2c2d31;border-radius:5px;padding:2px 6px;font-size:12px;width:9em}.e button{background:#232427;color:#8a8c92;border:1px solid #2c2d31;border-radius:5px;padding:2px 8px;font-size:12px;cursor:pointer}.e button:hover{color:#dcdce1}.w a{margin-right:4px}</style>";

/// The favorites page.
pub open spec fn favorites_page(es: Seq<EntryView>) -> Seq<char> {
    page_text(
        "Favorites"@,
        decimal(es.len()) + " favorites<a href=\"cce://bookmarks\">bookmarks</a>"@,
        if es.len() == 0 {
            "<p class=empty>No favorites yet. Press Ctrl+Shift+D on a page, pick \"Add to Favorites\" from its right-click menu, or promote a bookmark.</p>"@
        } else {
            favorite_rows(es, es.len())
        },
        FAVORITES_CSS@,
    )
}

impl Favorites {
    /// Reads the favorites from the text of their file.
    pub fn load(text: &str) -> (r: Favorites)
        ensures
            r@ == LogView::read(text@),
    {
        Favorites { log: Log::read(text) }
    }

    /// The strip, in order.
    pub fn snapshot(&self) -> (r: Vec<Favorite>)
        ensures
            favorite_views(r@) == strip(self@.entries),
    {
        let ghost all = self@.entries;
        let mut out: Vec<Favorite> = Vec::new();
        let mut i: usize = 0;
        while i < self.log.entries.len()
            invariant
                i <= self.log.entries.len(),
                all == self@.entries,
                favorite_views(out@) == strip(all.take(i as int)),
            decreases self.log.entries.len() - i,
        {
            let e = &self.log.entries[i];
            assert(all[i as int] == e@);
            let f = Favorite {
                url: e.url.clone(),
                label: default_label(e.url.as_str(), e.title.as_str()),
            };
            let ghost before = favorite_views(out@);
            out.push(f);
            i += 1;
            assert(favorite_views(out@) =~= before.push(f@));
            assert(strip(all.take(i as int)) =~= strip(all.take(i - 1)).push(f@));
        }
        assert(all.take(i as int) =~= all);
        out
    }

    /// Whether a page is a favorite.
    pub fn contains(&self, url: &str) -> (r: bool)
        ensures
            r == has_entry(self@.entries, url@),
    {
        find_entry(&self.log.entries, url) < self.log.entries.len()
    }

    /// Adds a page to the end of the strip under a label.
    pub fn add_labelled(&mut self, url: &str, label: &str, now: u64)
        ensures
            final(self)@ == favorite_added(old(self)@, url@, label@, now),
    {
        if is_internal(url) || self.contains(url) {
            return;
        }
        self.log.push(Entry { ts: now, url: sanitize(url), title: sanitize(label) });
        self.log.rewrite();
    }

    /// Adds a page to the end of the strip, or does nothing if it is there. Internal pages are
    /// refused.
    pub fn add(&mut self, url: &str, title: &str, now: u64)
        ensures
            final(self)@ == favorite_added(old(self)@, url@, label_of(url@, title@), now),
    {
        let label = default_label(url, title);
        self.add_labelled(url, label.as_str(), now);
    }

    /// Adds or removes a page; gives whether it is a favorite now.
    pub fn toggle(&mut self, url: &str, title: &str, now: u64) -> (r: bool)
        ensures
            final(self)@ == favorite_toggled(old(self)@, url@, label_of(url@, title@), now),
            r == has_entry(final(self)@.entries, url@),
    {
        if self.contains(url) {
            self.remove(url);
            proof {
                lemma_entries_but(old(self)@.entries, url@);
            }
            false
        } else {
            self.add(url, title, now);
            self.contains(url)
        }
    }

    /// Removes a page.
    pub fn remove(&mut self, url: &str)
        ensures
            final(self)@ == favorite_removed(old(self)@, url@),
    {
        remove_entries(&mut self.log.entries, url);
        self.log.rewrite();
    }

    /// Gives the page's entry another label.
    pub fn relabel(&mut self, url: &str, label: &str)
        ensures
            final(self)@ == favorite_renamed(old(self)@, url@, label@),
    {
        let ghost before = self@.entries;
        let k = find_entry(&self.log.entries, url);
        if k < self.log.entries.len() {
            let e = &self.log.entries[k];
            assert(before[k as int] == e@);
            let renamed = Entry { ts: e.ts, url: e.url.clone(), title: sanitize(label) };
            self.log.entries.set(k, renamed);
            assert(self@.entries =~= before.update(k as int, renamed@));
            self.log.rewrite();
        }
    }

    /// Gives a page another title.
    pub fn rename(&mut self, url: &str, title: &str)
        ensures
            final(self)@ == favorite_renamed(old(self)@, url@, label_of(url@, title@)),
    {
        let label = default_label(url, title);
        self.relabel(url, label.as_str());
    }

    /// Moves a page toward the front (a negative `delta`) or the back of the strip.
    pub fn shift(&mut self, url: &str, delta: isize)
        ensures
            final(self)@ == favorite_shifted(old(self)@, url@, delta as int),
    {
        let ghost before = self@.entries;
        let i = find_entry(&self.log.entries, url);
        let n = self.log.entries.len();
        if i == n {
            return;
        }
        let j: i128 = i as i128 + delta as i128;
        if j < 0 || j >= n as i128 {
            return;
        }
        let j: usize = j as usize;
        let a = copy_entry(&self.log.entries[i]);
        let b = copy_entry(&self.log.entries[j]);
        assert(before[i as int] == a@ && before[j as int] == b@);
        self.log.entries.set(i, b);
        self.log.entries.set(j, a);
        assert(self@.entries =~= swapped(before, i as int, j as int));
        self.log.rewrite();
    }

    /// The favorites page.
    pub fn html(&self) -> (r: String)
        ensures
            r@ == favorites_page(self@.entries),
    {
        let ghost all = self@.entries;
        let mut rows = String::new();
        let n = self.log.entries.len();
        let mut i: usize = 0;
        while i < n
            invariant
                i <= n,
                n == self.log.entries.len(),
                all == self@.entries,
                rows@ == favorite_rows(all, i as nat),
            decreases n - i,
        {
            let e = &self.log.entries[i];
            assert(all[i as int] == e@);
            let row = favorite_html(e, i == 0, i + 1 == n);
            rows.append(row.as_str());
            i += 1;
        }
        let mut meta = to_decimal(n as u64);
        meta.append(" favorites<a href=\"cce://bookmarks\">bookmarks</a>");
        if n == 0 {
            rows =
            "<p class=empty>No favorites yet. Press Ctrl+Shift+D on a page, pick \"Add to Favorites\" from its right-click menu, or promote a bookmark.</p>".to_owned();
        }
        page("Favorites", meta.as_str(), rows.as_str(), FAVORITES_CSS)
    }
}

fn move_html(live: bool, to: &str, enc: &str, mark: &str) -> (r: String)
    ensures
        r@ == move_link(live, to@, enc@, mark@),
{
    if live {
        let mut out = "<a class=rm href=\"cce://favorites/".to_owned();
        out.append(to);
        out.append("?url=");
        let target = html_escape(enc);
        out.append(target.as_str());
        out.append("\">");
        out.append(mark);
        out.append("</a>");
        out
    } else {
        let mut out = "<span class=rm>".to_owned();
        out.append(mark);
        out.append("</span>");
        out
    }
}

fn favorite_html(e: &Entry, first: bool, last: bool) -> (r: String)
    ensures
        r@ == favorite_row(e@, first, last),
{
    let encoded = url_encode(e.url.as_str());
    let url = html_escape(e.url.as_str());
    let shown = default_label(e.url.as_str(), e.title.as_str());
    let label = html_escape(shown.as_str());
    let mut out = "<div class=e><span class=w>".to_owned();
    let up = move_html(!first, "up", encoded.as_str(), "&#9650;");
    out.append(up.as_str());
    out.append(" ");
    let down = move_html(!last, "down", encoded.as_str(), "&#9660;");
    out.append(down.as_str());
    out.append("</span><a href=\"");
    out.append(url.as_str());
    out.append("\">");
    out.append(label.as_str());
    out.append("</a><span class=u>");
    out.append(url.as_str());
    out.append("</span><form action=\"cce://favorites/rename\"><input type=hidden name=url value=\"");
    out.append(url.as_str());
    out.append("\"><input name=title value=\"");
    out.append(label.as_str());
    out.append("\" size=18><button>rename</button></form><a class=rm href=\"cce://favorites/remove?url=");
    let enc = html_escape(encoded.as_str());
    out.append(enc.as_str());
    out.append("\">remove</a></div>\n");
    out
}

// ---------------------------------------------------------------------------------------------
// What holds of every strip
// ---------------------------------------------------------------------------------------------

/// Whether no two entries are for the same address.
pub open spec fn distinct(es: Seq<EntryView>) -> bool {
    forall|i: int, j: int|
        0 <= i < j < es.len() ==> (#[trigger] es[i]).url != (#[trigger] es[j]).url
}

/// A page that is added stands at the end of the strip, and everything else where it stood; one that
/// is there already, and an internal page, change nothing.
pub proof fn added_comes_last(f: LogView, url: Seq<char>, label: Seq<char>, now: u64)
    requires
        crate::weburl::one_line(url),
    ensures
        internal(url) || has_entry(f.entries, url) ==> favorite_added(f, url, label, now) == f,
        !internal(url) ==> has_entry(favorite_added(f, url, label, now).entries, url),
        !internal(url) && !has_entry(f.entries, url) ==> {
            let after = favorite_added(f, url, label, now).entries;
            after.last().url == url && after.drop_last() == f.entries
        },
{
    crate::store::sanitized_is_one_line(url);
    if !internal(url) && !has_entry(f.entries, url) {
        let after = favorite_added(f, url, label, now).entries;
        assert(after[f.entries.len() as int].url == url);
        assert(after.drop_last() =~= f.entries);
    }
}

/// No operation puts a page on the strip twice.
pub proof fn strip_stays_distinct(
    f: LogView,
    url: Seq<char>,
    label: Seq<char>,
    now: u64,
    delta: int,
)
    requires
        distinct(f.entries),
        crate::weburl::one_line(url),
    ensures
        distinct(favorite_added(f, url, label, now).entries),
        distinct(favorite_removed(f, url).entries),
        distinct(favorite_toggled(f, url, label, now).entries),
        distinct(favorite_renamed(f, url, label).entries),
        distinct(favorite_shifted(f, url, delta).entries),
{
    crate::store::sanitized_is_one_line(url);
    lemma_entry_index(f.entries, url);
    let es = f.entries;
    let added = favorite_added(f, url, label, now).entries;
    assert forall|i: int, j: int| 0 <= i < j < added.len() implies (#[trigger] added[i]).url != (
    #[trigger] added[j]).url by {
        if j < es.len() {
            assert(added[i] == es[i] && added[j] == es[j]);
        } else {
            assert(added[i] == es[i]);
        }
    }
    lemma_filter_distinct(es, url);
    let renamed = favorite_renamed(f, url, label).entries;
    assert forall|i: int, j: int| 0 <= i < j < renamed.len() implies (#[trigger] renamed[i]).url
        != (#[trigger] renamed[j]).url by {
        assert(renamed[i].url == es[i].url && renamed[j].url == es[j].url);
        assert(es[i].url != es[j].url);
    }
    let moved = favorite_shifted(f, url, delta).entries;
    let a = entry_index(es, url);
    let b = a + delta;
    if a < es.len() && 0 <= b < es.len() {
        assert forall|i: int, j: int| 0 <= i < j < moved.len() implies (#[trigger] moved[i]).url != (
        #[trigger] moved[j]).url by {
            let x = if i == a {
                b
            } else if i == b {
                a
            } else {
                i
            };
            let y = if j == a {
                b
            } else if j == b {
                a
            } else {
                j
            };
            assert(moved[i] == es[x] && moved[j] == es[y]);
            assert(x != y);
            if x < y {
                assert(es[x].url != es[y].url);
            } else {
                assert(es[y].url != es[x].url);
            }
        }
    }
}

proof fn lemma_filter_distinct(es: Seq<EntryView>, url: Seq<char>)
    requires
        distinct(es),
    ensures
        distinct(entries_but(es, url)),
    decreases es.len(),
{
    reveal(Seq::filter);
    if es.len() > 0 {
        let rest = es.drop_last();
        assert(distinct(rest)) by {
            assert forall|i: int, j: int| 0 <= i < j < rest.len() implies (#[trigger] rest[i]).url
                != (#[trigger] rest[j]).url by {
                assert(es[i].url != es[j].url);
            }
        }
        lemma_filter_distinct(rest, url);
        lemma_entries_but(rest, url);
        let kept = entries_but(es, url);
        let before = entries_but(rest, url);
        assert forall|i: int, j: int| 0 <= i < j < kept.len() implies (#[trigger] kept[i]).url != (
        #[trigger] kept[j]).url by {
            assert(kept[i] == before[i]);
            if j < before.len() {
                assert(kept[j] == before[j]);
            } else {
                assert(before.contains(before[i]));
                let k = choose|k: int| 0 <= k < rest.len() && rest[k] == before[i];
                assert(es[k].url != es[es.len() - 1].url);
            }
        }
    }
}

/// A page moved one place on and one place back stands where it stood.
pub proof fn shift_there_and_back(f: LogView, url: Seq<char>, delta: int)
    requires
        distinct(f.entries),
        has_entry(f.entries, url),
        0 <= entry_index(f.entries, url) + delta < f.entries.len(),
    ensures
        favorite_shifted(favorite_shifted(f, url, delta), url, -delta).entries == f.entries,
        favorite_shifted(f, url, delta).entries[entry_index(f.entries, url) + delta].url == url,
{
    let es = f.entries;
    lemma_entry_index(es, url);
    let i = entry_index(es, url);
    let j = i + delta;
    let moved = swapped(es, i, j);
    lemma_entry_index(moved, url);
    assert(moved[j] == es[i]);
    assert(has_entry(moved, url));
    let k = entry_index(moved, url);
    if k != j {
        let x = if k == i {
            j
        } else {
            k
        };
        assert(moved[k] == es[x]);
        assert(es[x].url == url && x != i);
        if x < i {
            assert(es[x].url != es[i].url);
        } else {
            assert(es[i].url != es[x].url);
        }
    }
    assert(swapped(moved, j, i) =~= es);
}

/// Moving a page changes the place of one other page at most.
pub proof fn shift_moves_one_place(f: LogView, url: Seq<char>, delta: int, k: int)
    requires
        0 <= k < f.entries.len(),
        k != entry_index(f.entries, url),
        k != entry_index(f.entries, url) + delta,
    ensures
        favorite_shifted(f, url, delta).entries.len() == f.entries.len(),
        favorite_shifted(f, url, delta).entries[k] == f.entries[k],
{
    lemma_entry_index(f.entries, url);
}

/// A page that is no favorite, added and removed again, leaves the strip as it was.
pub proof fn toggle_twice_restores(
    f: LogView,
    url: Seq<char>,
    label: Seq<char>,
    now: u64,
    later: u64,
)
    requires
        crate::weburl::one_line(url),
        !has_entry(f.entries, url),
    ensures
        favorite_toggled(favorite_toggled(f, url, label, now), url, label, later).entries
            == f.entries,
{
    added_comes_last(f, url, label, now);
    if !internal(url) {
        let one = favorite_toggled(f, url, label, now).entries;
        reveal(Seq::filter);
        lemma_entries_but(f.entries, url);
        assert(one.drop_last() =~= f.entries);
    }
}

/// Every operation on bookmarks and favorites leaves a log that agrees with its file, where it
/// agreed before and every entry can be kept.
pub proof fn stores_match_their_files(
    s: LogView,
    url: Seq<char>,
    title: Seq<char>,
    now: u64,
    delta: int,
    file: Seq<char>,
)
    requires
        all_savable(s.entries),
        s.matches_file(file),
    ensures
        bookmark_toggled(s, url, title, now).matches_file(file),
        all_savable(bookmark_toggled(s, url, title, now).entries),
        LogView::rewritten(entries_but(s.entries, url)).matches_file(file),
        all_savable(entries_but(s.entries, url)),
        favorite_added(s, url, title, now).matches_file(file),
        all_savable(favorite_added(s, url, title, now).entries),
        favorite_toggled(s, url, title, now).matches_file(file),
        all_savable(favorite_toggled(s, url, title, now).entries),
        favorite_renamed(s, url, title).matches_file(file),
        all_savable(favorite_renamed(s, url, title).entries),
        favorite_shifted(s, url, delta).matches_file(file),
        all_savable(favorite_shifted(s, url, delta).entries),
{
    let es = s.entries;
    fields_are_savable(now, url, title);
    lemma_entry_index(es, url);
    lemma_entries_but(es, url);
    let e = EntryView { ts: now, url: sanitized(url), title: sanitized(title) };
    assert(all_savable(es.push(e)));
    rewritten_matches_file(es.push(e), file);
    let kept = entries_but(es, url);
    assert forall|i: int| 0 <= i < kept.len() implies savable(#[trigger] kept[i]) by {
        assert(kept.contains(kept[i]));
        let j = choose|j: int| 0 <= j < es.len() && es[j] == kept[i];
        assert(savable(es[j]));
    }
    rewritten_matches_file(kept, file);
    let k = entry_index(es, url);
    if k < es.len() {
        let gone = es.remove(k);
        assert forall|i: int| 0 <= i < gone.len() implies savable(#[trigger] gone[i]) by {
            assert(gone[i] == (if i < k {
                es[i]
            } else {
                es[i + 1]
            }));
            assert(savable(es[i]));
            assert(savable(es[i + 1]));
        }
        rewritten_matches_file(gone, file);
        let renamed = favorite_renamed(s, url, title).entries;
        assert forall|i: int| 0 <= i < renamed.len() implies savable(#[trigger] renamed[i]) by {
            assert(savable(es[i]));
            if i == k {
                assert(renamed[i] == EntryView { title: sanitized(title), ..es[k] });
                assert(e.title == sanitized(title));
            }
        }
        rewritten_matches_file(renamed, file);
        let j = k + delta;
        if 0 <= j < es.len() {
            let moved = swapped(es, k, j);
            assert forall|i: int| 0 <= i < moved.len() implies savable(#[trigger] moved[i]) by {
                assert(savable(es[i]));
                assert(savable(es[j]));
                assert(savable(es[k]));
            }
            rewritten_matches_file(moved, file);
        }
    }
}

} // verus!
