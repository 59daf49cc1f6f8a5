//! What the internal pages show and where their links lead, and what the stores become.

use vstd::prelude::*;

use crate::downloads::{
    any_active, download_rows, downloads_page, id_index, DownloadView, DownloadsView, StateView,
    Update,
};
use crate::html::{escaped, escaped_reads_back, page_text, unescaped};
use crate::html::{
    PAGE_CLOSE, PAGE_HEADING_END, PAGE_META_END, PAGE_OPEN, PAGE_STYLE, PAGE_TITLE_END,
};
use crate::numerals::decimal;
use crate::outcomes::addresses::blank;
use crate::outcomes::lists::narrowing_keeps_what_passes;
use crate::pages::{
    bookmark_row, bookmark_rows, bookmark_toggled, bookmarks_page, favorite_link, favorite_row,
    favorite_rows, favorites_page, history_page, history_row, history_rows, label_of, move_link,
    recorded, strip, LogView, FAVORITES_CSS, RENDER_CAP,
};
use crate::protocol::{cookies_cleared_text, cookies_page_text, CLEARED_BODY, COOKIES_BODY};
use crate::sizes::size_text;
use crate::store::{has_entry, lemma_entry_index, sanitized_is_one_line, EntryView};
use crate::text::{has_sub, sub_at, trim_end, trim_start, trimmed};
use crate::weburl::{form_text, one_line};

verus! {

// ---------------------------------------------------------------------------------------------
// Parts of a page
// ---------------------------------------------------------------------------------------------

/// Whether `x` stands in a text somewhere before `y`.
pub open spec fn above(text: Seq<char>, x: Seq<char>, y: Seq<char>) -> bool {
    exists|a: Seq<char>, b: Seq<char>, c: Seq<char>| text == #[trigger] five(a, x, b, y, c)
}

/// Five texts, one after the other.
pub open spec fn five(
    a: Seq<char>,
    x: Seq<char>,
    b: Seq<char>,
    y: Seq<char>,
    c: Seq<char>,
) -> Seq<char> {
    a + x + b + y + c
}

/// What a link shows and where it leads, in markup.
pub open spec fn link(to: Seq<char>, shown: Seq<char>) -> Seq<char> {
    "<a href=\""@ + escaped(to) + "\">"@ + escaped(shown) + "</a>"@
}

/// A title, or the address where the title is blank.
pub open spec fn titled(title: Seq<char>, url: Seq<char>) -> Seq<char> {
    if blank(title) {
        url
    } else {
        title
    }
}

proof fn lemma_within(a: Seq<char>, x: Seq<char>, b: Seq<char>)
    ensures
        has_sub(a + x + b, x),
{
    let t = a + x + b;
    assert(t.subrange(a.len() as int, (a.len() + x.len()) as int) =~= x);
    assert(sub_at(t, x, a.len() as int));
}

proof fn lemma_within_both(a: Seq<char>, t: Seq<char>, b: Seq<char>, x: Seq<char>)
    requires
        has_sub(t, x),
    ensures
        has_sub(a + t + b, x),
{
    let i = choose|i: int| #[trigger] sub_at(t, x, i);
    let w = a + t + b;
    assert(w.subrange(a.len() + i, a.len() + i + x.len()) =~= t.subrange(i, i + x.len()));
    assert(sub_at(w, x, a.len() + i));
}

proof fn lemma_above_around(a: Seq<char>, t: Seq<char>, b: Seq<char>, x: Seq<char>, y: Seq<char>)
    requires
        above(t, x, y),
    ensures
        above(a + t + b, x, y),
{
    let (p, q, r) = choose|p: Seq<char>, q: Seq<char>, r: Seq<char>|
        t == #[trigger] five(p, x, q, y, r);
    assert(a + t + b =~= five(a + p, x, q, y, r + b));
}

/// Where one thing stands above another, so do the parts of them.
proof fn lemma_above_parts(
    t: Seq<char>,
    x: (Seq<char>, Seq<char>, Seq<char>),
    y: (Seq<char>, Seq<char>, Seq<char>),
)
    requires
        above(t, x.0 + x.1 + x.2, y.0 + y.1 + y.2),
    ensures
        above(t, x.1, y.1),
{
    let xx = x.0 + x.1 + x.2;
    let yy = y.0 + y.1 + y.2;
    let (p, q, r) = choose|p: Seq<char>, q: Seq<char>, r: Seq<char>|
        t == #[trigger] five(p, xx, q, yy, r);
    assert(t =~= five(p + x.0, x.1, x.2 + q + y.0, y.1, y.2 + r));
}

#[verifier::rlimit(40)]
proof fn lemma_in_page(title: Seq<char>, meta: Seq<char>, body: Seq<char>, head: Seq<char>)
    ensures
        forall|x: Seq<char>| has_sub(body, x) ==> #[trigger] has_sub(
            page_text(title, meta, body, head),
            x,
        ),
        forall|x: Seq<char>| has_sub(meta, x) ==> #[trigger] has_sub(
            page_text(title, meta, body, head),
            x,
        ),
        forall|x: Seq<char>| has_sub(head, x) ==> #[trigger] has_sub(
            page_text(title, meta, body, head),
            x,
        ),
        forall|x: Seq<char>, y: Seq<char>| above(body, x, y) ==> #[trigger] above(
            page_text(title, meta, body, head),
            x,
            y,
        ),
        has_sub(page_text(title, meta, body, head), "</title>"@),
{
    let page = page_text(title, meta, body, head);
    let a = PAGE_OPEN@ + title + PAGE_TITLE_END@ + head + PAGE_STYLE@ + title + PAGE_HEADING_END@ + meta
        + PAGE_META_END@;
    assert(page =~= a + body + PAGE_CLOSE@);
    let c = PAGE_OPEN@ + title + PAGE_TITLE_END@ + head + PAGE_STYLE@ + title + PAGE_HEADING_END@;
    assert(page =~= c + meta + (PAGE_META_END@ + body + PAGE_CLOSE@));
    let d = PAGE_OPEN@ + title + PAGE_TITLE_END@;
    let e = PAGE_STYLE@ + title + PAGE_HEADING_END@ + meta + PAGE_META_END@ + body + PAGE_CLOSE@;
    assert(page =~= d + head + e);
    assert(page =~= (PAGE_OPEN@ + title) + PAGE_TITLE_END@ + (head + e));
    lemma_within(PAGE_OPEN@ + title, PAGE_TITLE_END@, head + e);
    assert forall|x: Seq<char>| has_sub(body, x) implies #[trigger] has_sub(page, x) by {
        lemma_within_both(a, body, PAGE_CLOSE@, x);
    }
    assert forall|x: Seq<char>| has_sub(meta, x) implies #[trigger] has_sub(page, x) by {
        lemma_within_both(c, meta, PAGE_META_END@ + body + PAGE_CLOSE@, x);
    }
    assert forall|x: Seq<char>| has_sub(head, x) implies #[trigger] has_sub(page, x) by {
        lemma_within_both(d, head, e, x);
    }
    assert forall|x: Seq<char>, y: Seq<char>| above(body, x, y) implies #[trigger] above(
        page,
        x,
        y,
    ) by {
        lemma_above_around(a, body, PAGE_CLOSE@, x, y);
    }
}

/// A page is called by its title: in the window and as its heading.
pub proof fn pages_are_called_by_their_title(
    title: Seq<char>,
    meta: Seq<char>,
    body: Seq<char>,
    head: Seq<char>,
)
    ensures
        has_sub(page_text(title, meta, body, head), "<title>"@ + title + "</title>"@),
        has_sub(page_text(title, meta, body, head), "<h1>"@ + title + "</h1>"@),
{
    let page = page_text(title, meta, body, head);
    reveal_strlit("<title>");
    reveal_strlit("</title>");
    reveal_strlit("<h1>");
    reveal_strlit("</h1>");
    lemma_page_open();
    lemma_page_style();
    lemma_heading_end();
    let o = PAGE_OPEN@.take(PAGE_OPEN@.len() - 7);
    let rest = head + PAGE_STYLE@ + title + PAGE_HEADING_END@ + meta + PAGE_META_END@ + body
        + PAGE_CLOSE@;
    assert(page =~= o + ("<title>"@ + title + "</title>"@) + rest);
    lemma_within(o, "<title>"@ + title + "</title>"@, rest);
    let st = PAGE_STYLE@.take(PAGE_STYLE@.len() - 4);
    let he = PAGE_HEADING_END@.skip(5);
    let first = PAGE_OPEN@ + title + PAGE_TITLE_END@ + head + st;
    let last = he + meta + PAGE_META_END@ + body + PAGE_CLOSE@;
    assert(page =~= first + ("<h1>"@ + title + "</h1>"@) + last);
    lemma_within(first, "<h1>"@ + title + "</h1>"@, last);
}

proof fn lemma_page_open()
    ensures
        PAGE_OPEN@.len() >= 7,
        PAGE_OPEN@ == PAGE_OPEN@.take(PAGE_OPEN@.len() - 7) + "<title>"@,
        PAGE_TITLE_END@ == "</title>"@,
{
    reveal_strlit("<title>");
    reveal_strlit("<!DOCTYPE html><html><head><meta charset=\"utf-8\"><title>");
    assert(PAGE_OPEN@.skip(PAGE_OPEN@.len() - 7) =~= "<title>"@);
    assert(PAGE_OPEN@ =~= PAGE_OPEN@.take(PAGE_OPEN@.len() - 7) + "<title>"@);
}

proof fn lemma_heading_end()
    ensures
        PAGE_HEADING_END@.len() >= 5,
        PAGE_HEADING_END@ == "</h1>"@ + PAGE_HEADING_END@.skip(5),
{
    reveal_strlit("</h1>");
    reveal_strlit("</h1><div class=meta>");
    assert(PAGE_HEADING_END@ =~= "</h1>"@ + PAGE_HEADING_END@.skip(5));
}

#[verifier::rlimit(50)]
proof fn lemma_page_style()
    ensures
        PAGE_STYLE@.len() >= 4,
        PAGE_STYLE@ == PAGE_STYLE@.take(PAGE_STYLE@.len() - 4) + "<h1>"@,
{
    reveal_strlit("<h1>");
    reveal_strlit("<style>:root{color-scheme:dark}body{background:#1a1b1d;color:#dcdce1;font-family:sans-serif;margin:0;padding:28px 36px}h1{font-size:20px;font-weight:600;margin:0 0 4px}.meta{color:#8a8c92;font-size:13px;margin-bottom:20px}.meta a{color:#7fa3d4;text-decoration:none;margin-left:12px}.e{display:flex;gap:14px;padding:7px 10px;border-radius:8px;align-items:baseline}.e:hover{background:#232427}.w{color:#8a8c92;font-size:12px;min-width:11em}.e a{color:#dcdce1;text-decoration:none;white-space:nowrap;overflow:hidden;text-overflow:ellipsis;max-width:40%}.e a:hover{color:#9fc1ea}.u{color:#6f7177;font-size:12px;white-space:nowrap;overflow:hidden;text-overflow:ellipsis;flex:1}.e a.rm{color:#6f7177;font-size:12px;max-width:none}.e a.rm:hover{color:#d49b9b}.e .tag{color:#7fa3d4;font-size:12px}.empty{color:#8a8c92}</style></head><body><h1>");
    assert(PAGE_STYLE@.skip(PAGE_STYLE@.len() - 4) =~= "<h1>"@);
    assert(PAGE_STYLE@ =~= PAGE_STYLE@.take(PAGE_STYLE@.len() - 4) + "<h1>"@);
}

// ---------------------------------------------------------------------------------------------
// History
// ---------------------------------------------------------------------------------------------

pub(crate) proof fn lemma_blank_is_trimmed_away(s: Seq<char>)
    ensures
        trimmed(s).len() == 0 <==> blank(s),
{
    if blank(s) {
        crate::outcomes::addresses::trimming_takes_white_alone(Seq::empty(), s, Seq::empty());
    } else {
        let k = choose|k: int| 0 <= k < s.len() && !crate::text::is_white(#[trigger] s[k]);
        lemma_start_keeps(s, k);
        let t = trim_start(s);
        let j = choose|j: int| 0 <= j < t.len() && !crate::text::is_white(#[trigger] t[j]);
        lemma_end_keeps(t, j);
    }
}

proof fn lemma_start_keeps(s: Seq<char>, k: int)
    requires
        0 <= k < s.len(),
        !crate::text::is_white(s[k]),
    ensures
        exists|j: int|
            0 <= j < trim_start(s).len() && !crate::text::is_white(#[trigger] trim_start(s)[j]),
    decreases s.len(),
{
    if crate::text::is_white(s[0]) {
        assert(s.drop_first()[k - 1] == s[k]);
        lemma_start_keeps(s.drop_first(), k - 1);
        assert(trim_start(s) == trim_start(s.drop_first()));
    } else {
        assert(trim_start(s) == s);
        assert(!crate::text::is_white(trim_start(s)[k]));
    }
}

proof fn lemma_end_keeps(s: Seq<char>, k: int)
    requires
        0 <= k < s.len(),
        !crate::text::is_white(s[k]),
    ensures
        trim_end(s).len() > 0,
    decreases s.len(),
{
    if crate::text::is_white(s.last()) {
        assert(s.drop_last()[k] == s[k]);
        lemma_end_keeps(s.drop_last(), k);
    }
}

proof fn lemma_history_row_at(es: Seq<EntryView>, n: nat, i: int) -> (r: (Seq<char>, Seq<char>))
    requires
        0 <= i < es.len(),
        es.len() - i <= n,
    ensures
        history_rows(es, n) == r.0 + history_row(es[i]) + r.1,
    decreases es.len(),
{
    let rest = history_rows(es.drop_last(), (n - 1) as nat);
    if i == es.len() - 1 {
        assert(history_rows(es, n) =~= Seq::<char>::empty() + history_row(es[i]) + rest);
        (Seq::empty(), rest)
    } else {
        let (a, b) = lemma_history_row_at(es.drop_last(), (n - 1) as nat, i);
        assert(es.drop_last()[i] == es[i]);
        assert(history_rows(es, n) =~= (history_row(es.last()) + a) + history_row(es[i]) + b);
        (history_row(es.last()) + a, b)
    }
}

#[verifier::rlimit(40)]
proof fn lemma_history_rows_above(es: Seq<EntryView>, n: nat, i: int, j: int)
    requires
        0 <= i < j < es.len(),
        es.len() - i <= n,
    ensures
        above(history_rows(es, n), history_row(es[j]), history_row(es[i])),
    decreases es.len(),
{
    let rest = history_rows(es.drop_last(), (n - 1) as nat);
    if j == es.len() - 1 {
        let (a, b) = lemma_history_row_at(es.drop_last(), (n - 1) as nat, i);
        assert(es.drop_last()[i] == es[i]);
        assert(history_rows(es, n) =~= five(
            Seq::empty(),
            history_row(es[j]),
            a,
            history_row(es[i]),
            b,
        ));
    } else {
        assert(es.drop_last()[i] == es[i] && es.drop_last()[j] == es[j]);
        lemma_history_rows_above(es.drop_last(), (n - 1) as nat, i, j);
        let x = history_row(es[j]);
        let y = history_row(es[i]);
        let (p, q, r) = choose|p: Seq<char>, q: Seq<char>, r: Seq<char>|
            rest == #[trigger] five(p, x, q, y, r);
        assert(history_rows(es, n) =~= five(history_row(es.last()) + p, x, q, y, r));
    }
}

/// A history row around its link.
#[verifier::rlimit(40)]
proof fn lemma_history_row_parts(e: EntryView) -> (r: (Seq<char>, Seq<char>))
    ensures
        history_row(e) == r.0 + link(e.url, titled(e.title, e.url)) + r.1,
        has_sub(history_row(e), "data-ts=\""@ + decimal(e.ts as nat) + "\""@),
        has_sub(history_row(e), "<span class=u>"@ + escaped(e.url) + "</span>"@),
{
    lemma_blank_is_trimmed_away(e.title);
    reveal_strlit("<div class=e><span class=w data-ts=\"");
    reveal_strlit("\"></span><a href=\"");
    reveal_strlit("<a href=\"");
    reveal_strlit("</a><span class=u>");
    reveal_strlit("</a>");
    reveal_strlit("data-ts=\"");
    reveal_strlit("\"");
    let a = "<div class=e><span class=w data-ts=\""@ + decimal(e.ts as nat) + "\"></span>"@;
    reveal_strlit("\"></span>");
    let b = "<span class=u>"@ + escaped(e.url) + "</span></div>\n"@;
    reveal_strlit("<span class=u>");
    assert("\"></span><a href=\""@ =~= "\"></span>"@ + "<a href=\""@);
    assert("</a><span class=u>"@ =~= "</a>"@ + "<span class=u>"@);
    assert(history_row(e) =~= a + link(e.url, titled(e.title, e.url)) + b);
    reveal_strlit("</span></div>\n");
    reveal_strlit("</span>");
    reveal_strlit("</div>\n");
    assert("</span></div>\n"@ =~= "</span>"@ + "</div>\n"@);
    let u = "<span class=u>"@ + escaped(e.url) + "</span>"@;
    let front = a + link(e.url, titled(e.title, e.url));
    assert(b =~= u + "</div>\n"@);
    assert(history_row(e) =~= front + u + "</div>\n"@);
    lemma_within(front, u, "</div>\n"@);
    reveal_strlit("<div class=e><span class=w ");
    assert("<div class=e><span class=w data-ts=\""@ =~= "<div class=e><span class=w "@ + "data-ts=\""@);
    reveal_strlit("></span>");
    assert("\"></span>"@ =~= "\""@ + "></span>"@);
    let stamp = "data-ts=\""@ + decimal(e.ts as nat) + "\""@;
    let tail = "></span>"@ + link(e.url, titled(e.title, e.url)) + b;
    assert(history_row(e) =~= "<div class=e><span class=w "@ + stamp + tail);
    lemma_within("<div class=e><span class=w "@, stamp, tail);
    (a, b)
}

/// Every visit among the last five hundred is on the history page, with its time, as a link to the
/// page that was visited under its title, and the link's address reads back as that page's.
#[verifier::rlimit(40)]
pub proof fn history_links_to_what_was_visited(es: Seq<EntryView>, i: int)
    requires
        0 <= i < es.len(),
        es.len() - i <= 500,
    ensures
        has_sub(history_page(es), link(es[i].url, titled(es[i].title, es[i].url))),
        has_sub(history_page(es), "data-ts=\""@ + decimal(es[i].ts as nat) + "\""@),
        has_sub(history_page(es), "<span class=u>"@ + escaped(es[i].url) + "</span>"@),
        unescaped(escaped(es[i].url)) == es[i].url,
        unescaped(escaped(titled(es[i].title, es[i].url))) == titled(es[i].title, es[i].url),
{
    let (a, b) = lemma_history_row_at(es, RENDER_CAP as nat, i);
    let (c, d) = lemma_history_row_parts(es[i]);
    let x = link(es[i].url, titled(es[i].title, es[i].url));
    lemma_within(c, x, d);
    lemma_within_both(a, history_row(es[i]), b, x);
    lemma_within_both(
        a,
        history_row(es[i]),
        b,
        "data-ts=\""@ + decimal(es[i].ts as nat) + "\""@,
    );
    lemma_within_both(
        a,
        history_row(es[i]),
        b,
        "<span class=u>"@ + escaped(es[i].url) + "</span>"@,
    );
    lemma_in_page(
        "History"@,
        decimal(es.len()) + " entries<a href=\"cce://history/clear\">clear</a>"@,
        history_rows(es, RENDER_CAP as nat),
        ""@,
    );
    escaped_reads_back(es[i].url);
    escaped_reads_back(titled(es[i].title, es[i].url));
}

/// Later visits stand above earlier ones.
pub proof fn history_is_newest_first(es: Seq<EntryView>, i: int, j: int)
    requires
        0 <= i < j < es.len(),
        es.len() - i <= 500,
    ensures
        above(
            history_page(es),
            link(es[j].url, titled(es[j].title, es[j].url)),
            link(es[i].url, titled(es[i].title, es[i].url)),
        ),
{
    lemma_history_rows_above(es, RENDER_CAP as nat, i, j);
    let (a, b) = lemma_history_row_parts(es[j]);
    let (c, d) = lemma_history_row_parts(es[i]);
    lemma_above_parts(
        history_rows(es, RENDER_CAP as nat),
        (a, link(es[j].url, titled(es[j].title, es[j].url)), b),
        (c, link(es[i].url, titled(es[i].title, es[i].url)), d),
    );
    lemma_in_page(
        "History"@,
        decimal(es.len()) + " entries<a href=\"cce://history/clear\">clear</a>"@,
        history_rows(es, RENDER_CAP as nat),
        ""@,
    );
}

/// The history page says how many visits there are, has a link that clears them, and shows no more
/// than five hundred: what is older changes nothing in its rows.
#[verifier::rlimit(40)]
pub proof fn history_says_how_much_there_is(es: Seq<EntryView>)
    ensures
        has_sub(history_page(es), decimal(es.len()) + " entries"@),
        has_sub(history_page(es), "<a href=\"cce://history/clear\">clear</a>"@),
        es.len() > 500 ==> history_rows(es, RENDER_CAP as nat) == history_rows(
            es.skip(es.len() - 500),
            RENDER_CAP as nat,
        ),
        has_sub(history_page(es), "<h1>History</h1>"@),
{
    let meta = decimal(es.len()) + " entries<a href=\"cce://history/clear\">clear</a>"@;
    reveal_strlit(" entries<a href=\"cce://history/clear\">clear</a>");
    reveal_strlit(" entries");
    reveal_strlit("<a href=\"cce://history/clear\">clear</a>");
    let clear = "<a href=\"cce://history/clear\">clear</a>"@;
    assert(meta =~= Seq::<char>::empty() + (decimal(es.len()) + " entries"@) + clear);
    lemma_within(Seq::empty(), decimal(es.len()) + " entries"@, clear);
    assert(meta =~= (decimal(es.len()) + " entries"@) + clear + Seq::<char>::empty());
    lemma_within(decimal(es.len()) + " entries"@, clear, Seq::empty());
    let body = if es.len() == 0 {
        "<p class=empty>No history yet.</p>"@
    } else {
        history_rows(es, RENDER_CAP as nat)
    };
    lemma_in_page("History"@, meta, body, ""@);
    if es.len() > 500 {
        lemma_capped(es, 500);
    }
    pages_are_called_by_their_title("History"@, meta, body, ""@);
    reveal_strlit("<h1>History</h1>");
    reveal_strlit("<h1>");
    reveal_strlit("</h1>");
    reveal_strlit("History");
    assert("<h1>History</h1>"@ =~= "<h1>"@ + "History"@ + "</h1>"@);
}

proof fn lemma_capped(es: Seq<EntryView>, n: nat)
    requires
        n <= es.len(),
    ensures
        history_rows(es, n) == history_rows(es.skip(es.len() - n), n),
    decreases n,
{
    let t = es.skip(es.len() - n);
    if n > 0 {
        assert(t.last() == es.last());
        assert(t.drop_last() =~= es.drop_last().skip(es.drop_last().len() - (n - 1)));
        lemma_capped(es.drop_last(), (n - 1) as nat);
    } else {
        assert(t.len() == 0);
    }
}

/// A visit is added to the end, with its time, its address and its title; one of the browser's own
/// pages is not, and neither is a page that was the last one already.
pub proof fn visits_are_added_last(h: LogView, url: Seq<char>, title: Seq<char>, now: u64)
    requires
        one_line(url),
        one_line(title),
    ensures
        "cce:"@.is_prefix_of(url) || url == "about:blank"@ ==> recorded(h, url, title, now) == h,
        h.entries.len() > 0 && h.entries.last().url == url ==> recorded(h, url, title, now) == h,
        !"cce:"@.is_prefix_of(url) && url != "about:blank"@ && (h.entries.len() == 0
            || h.entries.last().url != url) ==> recorded(h, url, title, now).entries
            == h.entries.push(EntryView { ts: now, url, title }),
{
    sanitized_is_one_line(url);
    sanitized_is_one_line(title);
}

// ---------------------------------------------------------------------------------------------
// Bookmarks
// ---------------------------------------------------------------------------------------------

/// What asks for something to be done to an address, in markup.
pub open spec fn deed(page: Seq<char>, url: Seq<char>, shown: Seq<char>) -> Seq<char> {
    "<a class=rm href=\"cce://"@ + page + "?url="@ + escaped(form_text(url)) + "\">"@ + shown + "</a>"@
}

proof fn lemma_bookmark_row_at(es: Seq<EntryView>, fs: Seq<EntryView>, i: int) -> (r: (
    Seq<char>,
    Seq<char>,
))
    requires
        0 <= i < es.len(),
    ensures
        bookmark_rows(es, fs) == r.0 + bookmark_row(es[i], fs) + r.1,
    decreases es.len(),
{
    let rest = bookmark_rows(es.drop_last(), fs);
    if i == es.len() - 1 {
        assert(bookmark_rows(es, fs) =~= Seq::<char>::empty() + bookmark_row(es[i], fs) + rest);
        (Seq::empty(), rest)
    } else {
        let (a, b) = lemma_bookmark_row_at(es.drop_last(), fs, i);
        assert(es.drop_last()[i] == es[i]);
        assert(bookmark_rows(es, fs) =~= (bookmark_row(es.last(), fs) + a) + bookmark_row(es[i], fs)
            + b);
        (bookmark_row(es.last(), fs) + a, b)
    }
}

#[verifier::rlimit(40)]
proof fn lemma_bookmark_row_parts(e: EntryView, fs: Seq<EntryView>) -> (r: (Seq<char>, Seq<char>))
    ensures
        bookmark_row(e, fs) == r.0 + link(e.url, titled(e.title, e.url)) + r.1,
        has_sub(bookmark_row(e, fs), deed("bookmarks/remove"@, e.url, "remove"@)),
        has_sub(bookmark_row(e, fs), "<span class=u>"@ + escaped(e.url) + "</span>"@),
        !has_entry(fs, e.url) ==> has_sub(
            bookmark_row(e, fs),
            deed("favorites/add"@, e.url, "favorite"@),
        ),
        has_entry(fs, e.url) ==> has_sub(bookmark_row(e, fs), "<span class=tag>favorite</span>"@),
{
    lemma_blank_is_trimmed_away(e.title);
    reveal_strlit("\"></span><a href=\"");
    reveal_strlit("\"></span>");
    reveal_strlit("<a href=\"");
    reveal_strlit("</a><span class=u>");
    reveal_strlit("</a>");
    reveal_strlit("<span class=u>");
    reveal_strlit("<a class=rm href=\"cce://bookmarks/remove?url=");
    reveal_strlit("<a class=rm href=\"cce://favorites/add?url=");
    reveal_strlit("<a class=rm href=\"cce://");
    reveal_strlit("bookmarks/remove");
    reveal_strlit("favorites/add");
    reveal_strlit("?url=");
    reveal_strlit("\">remove</a></div>\n");
    reveal_strlit("\">favorite</a>");
    reveal_strlit("\">");
    reveal_strlit("remove");
    reveal_strlit("favorite");
    reveal_strlit("</div>\n");
    assert("\"></span><a href=\""@ =~= "\"></span>"@ + "<a href=\""@);
    assert("</a><span class=u>"@ =~= "</a>"@ + "<span class=u>"@);
    assert("<a class=rm href=\"cce://bookmarks/remove?url="@ =~= "<a class=rm href=\"cce://"@
        + "bookmarks/remove"@ + "?url="@);
    assert("<a class=rm href=\"cce://favorites/add?url="@ =~= "<a class=rm href=\"cce://"@
        + "favorites/add"@ + "?url="@);
    assert("\">remove</a></div>\n"@ =~= "\">"@ + "remove"@ + "</a>"@ + "</div>\n"@);
    assert("\">favorite</a>"@ =~= "\">"@ + "favorite"@ + "</a>"@);
    let a = "<div class=e><span class=w data-ts=\""@ + decimal(e.ts as nat) + "\"></span>"@;
    let l = link(e.url, titled(e.title, e.url));
    let m = "<span class=u>"@ + escaped(e.url) + "</span>"@;
    let rm = deed("bookmarks/remove"@, e.url, "remove"@);
    let f = favorite_link(e, fs);
    let b = m + f + rm + "</div>\n"@;
    assert(bookmark_row(e, fs) =~= a + l + b);
    assert(bookmark_row(e, fs) =~= (a + l + m + f) + rm + "</div>\n"@);
    lemma_within(a + l + m + f, rm, "</div>\n"@);
    assert(bookmark_row(e, fs) =~= (a + l) + m + (f + rm + "</div>\n"@));
    lemma_within(a + l, m, f + rm + "</div>\n"@);
    assert(bookmark_row(e, fs) =~= (a + l + m) + f + (rm + "</div>\n"@));
    lemma_within(a + l + m, f, rm + "</div>\n"@);
    if !has_entry(fs, e.url) {
        assert(f =~= deed("favorites/add"@, e.url, "favorite"@));
    }
    (a, b)
}

#[verifier::rlimit(50)]
proof fn lemma_bookmark_rows_above(es: Seq<EntryView>, fs: Seq<EntryView>, i: int, j: int)
    requires
        0 <= i < j < es.len(),
    ensures
        above(bookmark_rows(es, fs), bookmark_row(es[j], fs), bookmark_row(es[i], fs)),
    decreases es.len(),
{
    let rest = bookmark_rows(es.drop_last(), fs);
    let x = bookmark_row(es[j], fs);
    let y = bookmark_row(es[i], fs);
    assert(es.drop_last()[i] == es[i]);
    if j == es.len() - 1 {
        let (a, b) = lemma_bookmark_row_at(es.drop_last(), fs, i);
        assert(bookmark_rows(es, fs) =~= five(Seq::empty(), x, a, y, b));
    } else {
        assert(es.drop_last()[j] == es[j]);
        lemma_bookmark_rows_above(es.drop_last(), fs, i, j);
        let (p, q, r) = choose|p: Seq<char>, q: Seq<char>, r: Seq<char>|
            rest == #[trigger] five(p, x, q, y, r);
        assert(bookmark_rows(es, fs) =~= five(bookmark_row(es.last(), fs) + p, x, q, y, r));
    }
}

/// Every bookmark is on its page, as a link to the page that was starred under its title, with a link
/// that removes it, and one that makes it a favorite unless it is one; later ones stand above.
#[verifier::rlimit(40)]
pub proof fn bookmarks_link_to_what_was_starred(
    es: Seq<EntryView>,
    fs: Seq<EntryView>,
    i: int,
    j: int,
)
    requires
        0 <= i < es.len(),
    ensures
        has_sub(bookmarks_page(es, fs), link(es[i].url, titled(es[i].title, es[i].url))),
        unescaped(escaped(es[i].url)) == es[i].url,
        has_sub(bookmarks_page(es, fs), deed("bookmarks/remove"@, es[i].url, "remove"@)),
        has_sub(bookmarks_page(es, fs), "<span class=u>"@ + escaped(es[i].url) + "</span>"@),
        !has_entry(fs, es[i].url) ==> has_sub(
            bookmarks_page(es, fs),
            deed("favorites/add"@, es[i].url, "favorite"@),
        ),
        has_sub(bookmarks_page(es, fs), decimal(es.len()) + " bookmarks"@),
        i < j < es.len() ==> above(
            bookmarks_page(es, fs),
            link(es[j].url, titled(es[j].title, es[j].url)),
            link(es[i].url, titled(es[i].title, es[i].url)),
        ),
{
    let (a, b) = lemma_bookmark_row_at(es, fs, i);
    let (c, d) = lemma_bookmark_row_parts(es[i], fs);
    let row = bookmark_row(es[i], fs);
    let x = link(es[i].url, titled(es[i].title, es[i].url));
    lemma_within(c, x, d);
    lemma_within_both(a, row, b, x);
    lemma_within_both(a, row, b, deed("bookmarks/remove"@, es[i].url, "remove"@));
    lemma_within_both(a, row, b, "<span class=u>"@ + escaped(es[i].url) + "</span>"@);
    if !has_entry(fs, es[i].url) {
        lemma_within_both(a, row, b, deed("favorites/add"@, es[i].url, "favorite"@));
    }
    let meta = decimal(es.len()) + " bookmarks<a href=\"cce://favorites\">favorites</a>"@;
    reveal_strlit(" bookmarks<a href=\"cce://favorites\">favorites</a>");
    reveal_strlit(" bookmarks");
    reveal_strlit("<a href=\"cce://favorites\">favorites</a>");
    let other = "<a href=\"cce://favorites\">favorites</a>"@;
    assert(meta =~= Seq::<char>::empty() + (decimal(es.len()) + " bookmarks"@) + other);
    lemma_within(Seq::empty(), decimal(es.len()) + " bookmarks"@, other);
    lemma_in_page("Bookmarks"@, meta, bookmark_rows(es, fs), ""@);
    escaped_reads_back(es[i].url);
    if i < j < es.len() {
        lemma_bookmark_rows_above(es, fs, i, j);
        let (p, q) = lemma_bookmark_row_parts(es[j], fs);
        lemma_above_parts(
            bookmark_rows(es, fs),
            (p, link(es[j].url, titled(es[j].title, es[j].url)), q),
            (c, x, d),
        );
    }
}

/// The star adds a bookmark at the end where the page has none, and takes one away where it has.
/// Pages of the browser's own get none.
pub proof fn the_star_adds_and_removes(b: LogView, url: Seq<char>, title: Seq<char>, now: u64)
    requires
        one_line(url),
        one_line(title),
    ensures
        "cce:"@.is_prefix_of(url) || url == "about:blank"@ ==> bookmark_toggled(b, url, title, now) == b,
        !"cce:"@.is_prefix_of(url) && url != "about:blank"@ && !has_entry(b.entries, url)
            ==> bookmark_toggled(b, url, title, now).entries == b.entries.push(
            EntryView { ts: now, url, title },
        ),
        !"cce:"@.is_prefix_of(url) && url != "about:blank"@ && has_entry(b.entries, url) ==> exists|
            k: int,
        |
            0 <= k < b.entries.len() && (#[trigger] b.entries[k]).url == url && bookmark_toggled(
                b,
                url,
                title,
                now,
            ).entries == b.entries.remove(k),
{
    sanitized_is_one_line(url);
    sanitized_is_one_line(title);
    lemma_entry_index(b.entries, url);
}

// ---------------------------------------------------------------------------------------------
// Favorites
// ---------------------------------------------------------------------------------------------

proof fn lemma_favorite_row_at(es: Seq<EntryView>, n: nat, i: int) -> (r: (Seq<char>, Seq<char>))
    requires
        0 <= i < n <= es.len(),
    ensures
        favorite_rows(es, n) == r.0 + favorite_row(es[i], i == 0, i == es.len() - 1) + r.1,
    decreases n,
{
    let before = favorite_rows(es, (n - 1) as nat);
    let row = favorite_row(es[n - 1], n == 1, n == es.len());
    if i == n - 1 {
        assert(favorite_rows(es, n) =~= before + row + Seq::<char>::empty());
        (before, Seq::empty())
    } else {
        let (a, b) = lemma_favorite_row_at(es, (n - 1) as nat, i);
        assert(favorite_rows(es, n) =~= a + favorite_row(es[i], i == 0, i == es.len() - 1) + (b + row));
        (a, b + row)
    }
}

#[verifier::rlimit(40)]
proof fn lemma_favorite_rows_above(es: Seq<EntryView>, n: nat, i: int, j: int)
    requires
        0 <= i < j < n <= es.len(),
    ensures
        above(
            favorite_rows(es, n),
            favorite_row(es[i], i == 0, i == es.len() - 1),
            favorite_row(es[j], j == 0, j == es.len() - 1),
        ),
    decreases n,
{
    let before = favorite_rows(es, (n - 1) as nat);
    let last = favorite_row(es[n - 1], n == 1, n == es.len());
    let x = favorite_row(es[i], i == 0, i == es.len() - 1);
    let y = favorite_row(es[j], j == 0, j == es.len() - 1);
    if j == n - 1 {
        let (a, b) = lemma_favorite_row_at(es, (n - 1) as nat, i);
        assert(favorite_rows(es, n) =~= five(a, x, b, y, Seq::empty()));
    } else {
        lemma_favorite_rows_above(es, (n - 1) as nat, i, j);
        let (p, q, r) = choose|p: Seq<char>, q: Seq<char>, r: Seq<char>|
            before == #[trigger] five(p, x, q, y, r);
        assert(favorite_rows(es, n) =~= five(p, x, q, y, r + last));
    }
}

/// The form that gives a favorite another label, in markup.
pub open spec fn rename_form(url: Seq<char>, label: Seq<char>) -> Seq<char> {
    "<form action=\"cce://favorites/rename\"><input type=hidden name=url value=\""@ + escaped(url)
        + "\"><input name=title value=\""@ + escaped(label) + "\" size=18>"@
}

#[verifier::rlimit(40)]
proof fn lemma_favorite_literals()
    ensures
        "</span><a href=\""@ == "</span>"@ + "<a href=\""@,
        "</a><span class=u>"@ == "</a>"@ + "<span class=u>"@,
        "</span><form action=\"cce://favorites/rename\"><input type=hidden name=url value=\""@
            == "</span>"@
            + "<form action=\"cce://favorites/rename\"><input type=hidden name=url value=\""@,
        "\" size=18><button>rename</button></form><a class=rm href=\"cce://favorites/remove?url="@
            == "\" size=18>"@ + "<button>rename</button></form>"@ + "<a class=rm href=\"cce://"@
            + "favorites/remove"@ + "?url="@,
        "\">remove</a></div>\n"@ == "\">"@ + "remove"@ + "</a>"@ + "</div>\n"@,
        "<a class=rm href=\"cce://favorites/"@ + "up"@ == "<a class=rm href=\"cce://"@
            + "favorites/up"@,
        "<a class=rm href=\"cce://favorites/"@ + "down"@ == "<a class=rm href=\"cce://"@
            + "favorites/down"@,
{
    reveal_strlit("</span><a href=\"");
    reveal_strlit("</span>");
    reveal_strlit("<a href=\"");
    reveal_strlit("\">");
    reveal_strlit("</a><span class=u>");
    reveal_strlit("</a>");
    reveal_strlit("<span class=u>");
    reveal_strlit(
        "</span><form action=\"cce://favorites/rename\"><input type=hidden name=url value=\"",
    );
    reveal_strlit("<form action=\"cce://favorites/rename\"><input type=hidden name=url value=\"");
    reveal_strlit(
        "\" size=18><button>rename</button></form><a class=rm href=\"cce://favorites/remove?url=",
    );
    reveal_strlit("\" size=18>");
    reveal_strlit("<button>rename</button></form>");
    reveal_strlit("<a class=rm href=\"cce://favorites/");
    reveal_strlit("<a class=rm href=\"cce://");
    reveal_strlit("favorites/remove");
    reveal_strlit("favorites/up");
    reveal_strlit("favorites/down");
    reveal_strlit("up");
    reveal_strlit("down");
    reveal_strlit("?url=");
    reveal_strlit("\">remove</a></div>\n");
    reveal_strlit("remove");
    reveal_strlit("</div>\n");
    assert("</span><a href=\""@ =~= "</span>"@ + "<a href=\""@);
    assert("</a><span class=u>"@ =~= "</a>"@ + "<span class=u>"@);
    assert("</span><form action=\"cce://favorites/rename\"><input type=hidden name=url value=\""@
        =~= "</span>"@
        + "<form action=\"cce://favorites/rename\"><input type=hidden name=url value=\""@);
    assert("\" size=18><button>rename</button></form><a class=rm href=\"cce://favorites/remove?url="@
        =~= "\" size=18>"@ + "<button>rename</button></form>"@ + "<a class=rm href=\"cce://"@
        + "favorites/remove"@ + "?url="@);
    assert("\">remove</a></div>\n"@ =~= "\">"@ + "remove"@ + "</a>"@ + "</div>\n"@);
    assert("<a class=rm href=\"cce://favorites/"@ + "up"@ =~= "<a class=rm href=\"cce://"@
        + "favorites/up"@);
    assert("<a class=rm href=\"cce://favorites/"@ + "down"@ =~= "<a class=rm href=\"cce://"@
        + "favorites/down"@);
}

proof fn lemma_seven(
    a: Seq<char>,
    b: Seq<char>,
    c: Seq<char>,
    d: Seq<char>,
    e: Seq<char>,
    f: Seq<char>,
    g: Seq<char>,
)
    ensures
        has_sub(a + b + c + d + e + f + g, a),
        has_sub(a + b + c + d + e + f + g, c),
        has_sub(a + b + c + d + e + f + g, d),
        has_sub(a + b + c + d + e + f + g, f),
        a + b + c + d + e + f + g == a + b + (c + d + e + f + g),
{
    let s = a + b + c + d + e + f + g;
    assert(s =~= Seq::<char>::empty() + a + (b + c + d + e + f + g));
    lemma_within(Seq::empty(), a, b + c + d + e + f + g);
    assert(s =~= (a + b) + c + (d + e + f + g));
    lemma_within(a + b, c, d + e + f + g);
    assert(s =~= (a + b + c) + d + (e + f + g));
    lemma_within(a + b + c, d, e + f + g);
    lemma_within(a + b + c + d + e, f, g);
    assert(s =~= a + b + (c + d + e + f + g));
}

proof fn lemma_sub_of_sub(s: Seq<char>, x: Seq<char>, y: Seq<char>)
    requires
        has_sub(s, x),
        has_sub(x, y),
    ensures
        has_sub(s, y),
{
    let i = choose|i: int| sub_at(s, x, i);
    let j = choose|j: int| sub_at(x, y, j);
    assert(s.subrange(i + j, i + j + y.len()) =~= x.subrange(j, j + y.len()));
    assert(sub_at(s, y, i + j));
}

#[verifier::rlimit(40)]
proof fn lemma_favorite_row_parts(e: EntryView, first: bool, last: bool) -> (r: (Seq<char>, Seq<char>))
    ensures
        favorite_row(e, first, last) == r.0 + link(e.url, label_of(e.url, e.title)) + r.1,
        has_sub(favorite_row(e, first, last), deed("favorites/remove"@, e.url, "remove"@)),
        has_sub(favorite_row(e, first, last), rename_form(e.url, label_of(e.url, e.title))),
        has_sub(favorite_row(e, first, last), "<span class=u>"@ + escaped(e.url) + "</span>"@),
        !first ==> has_sub(favorite_row(e, first, last), deed("favorites/up"@, e.url, "&#9650;"@)),
        !last ==> has_sub(favorite_row(e, first, last), deed("favorites/down"@, e.url, "&#9660;"@)),
{
    lemma_favorite_literals();
    let row = favorite_row(e, first, last);
    let enc = form_text(e.url);
    let up = move_link(!first, "up"@, enc, "&#9650;"@);
    let down = move_link(!last, "down"@, enc, "&#9660;"@);
    let l = link(e.url, label_of(e.url, e.title));
    let form = rename_form(e.url, label_of(e.url, e.title));
    let rm = deed("favorites/remove"@, e.url, "remove"@);
    let head = "<div class=e><span class=w>"@;
    let a = head + up + " "@ + down + "</span>"@;
    let u = "<span class=u>"@ + escaped(e.url) + "</span>"@;
    let button = "<button>rename</button></form>"@;
    let end = "</div>\n"@;
    lemma_favorite_row_joined(e, first, last, a, u);
    lemma_seven(a, l, u, form, button, rm, end);
    if !first {
        assert(up == deed("favorites/up"@, e.url, "&#9650;"@));
        lemma_group3(head + up, " "@, down, "</span>"@);
        lemma_within(head, up, " "@ + down + "</span>"@);
        lemma_sub_of_sub(row, a, up);
    }
    if !last {
        assert(down == deed("favorites/down"@, e.url, "&#9660;"@));
        lemma_within(head + up + " "@, down, "</span>"@);
        lemma_sub_of_sub(row, a, down);
    }
    (a, u + form + button + rm + end)
}

#[verifier::rlimit(40)]
proof fn lemma_favorite_row_joined(e: EntryView, first: bool, last: bool, a: Seq<char>, u: Seq<char>)
    requires
        a == "<div class=e><span class=w>"@ + move_link(
            !first,
            "up"@,
            form_text(e.url),
            "&#9650;"@,
        ) + " "@ + move_link(!last, "down"@, form_text(e.url), "&#9660;"@) + "</span>"@,
        u == "<span class=u>"@ + escaped(e.url) + "</span>"@,
        "</span><a href=\""@ == "</span>"@ + "<a href=\""@,
        "</a><span class=u>"@ == "</a>"@ + "<span class=u>"@,
        "</span><form action=\"cce://favorites/rename\"><input type=hidden name=url value=\""@
            == "</span>"@
            + "<form action=\"cce://favorites/rename\"><input type=hidden name=url value=\""@,
        "\" size=18><button>rename</button></form><a class=rm href=\"cce://favorites/remove?url="@
            == "\" size=18>"@ + "<button>rename</button></form>"@ + "<a class=rm href=\"cce://"@
            + "favorites/remove"@ + "?url="@,
        "\">remove</a></div>\n"@ == "\">"@ + "remove"@ + "</a>"@ + "</div>\n"@,
    ensures
        favorite_row(e, first, last) == a + link(e.url, label_of(e.url, e.title)) + u + rename_form(
            e.url,
            label_of(e.url, e.title),
        ) + "<button>rename</button></form>"@ + deed("favorites/remove"@, e.url, "remove"@)
            + "</div>\n"@,
{
    let h = "<div class=e><span class=w>"@;
    let enc = form_text(e.url);
    let url = escaped(e.url);
    let label = escaped(label_of(e.url, e.title));
    let span = "</span>"@;
    let href = "<a href=\""@;
    let q = "\">"@;
    let end_a = "</a>"@;
    let open_u = "<span class=u>"@;
    let f = "<form action=\"cce://favorites/rename\"><input type=hidden name=url value=\""@;
    let value = "\"><input name=title value=\""@;
    let size = "\" size=18>"@;
    let button = "<button>rename</button></form>"@;
    let rm = "<a class=rm href=\"cce://"@;
    let to = "favorites/remove"@;
    let key = "?url="@;
    let end = "</div>\n"@;
    let s = h + move_link(!first, "up"@, enc, "&#9650;"@) + " "@ + move_link(
        !last,
        "down"@,
        enc,
        "&#9660;"@,
    );
    let l = link(e.url, label_of(e.url, e.title));
    let form = rename_form(e.url, label_of(e.url, e.title));
    lemma_group(s, span, href);
    lemma_group5(a, href, url, q, label, end_a);
    lemma_group(a + href + url + q + label, end_a, open_u);
    lemma_group3(a + l, open_u, url, span);
    lemma_group(a + l + open_u + url, span, f);
    let x = a + l + u;
    lemma_group5(x, f, url, value, label, size);
    lemma_group5(x + f + url + value + label, size, button, rm, to, key);
    let y = x + form + button;
    lemma_group4(y + rm + to + key + escaped(enc), q, "remove"@, end_a, end);
    lemma_group5(y, rm, to, key, escaped(enc), q);
    lemma_group(y + (rm + to + key + escaped(enc) + q), "remove"@, end_a);
    lemma_group(y, rm + to + key + escaped(enc) + q, "remove"@ + end_a);
    lemma_group(rm + to + key + escaped(enc) + q, "remove"@, end_a);
}

proof fn lemma_group(x: Seq<char>, a: Seq<char>, b: Seq<char>)
    ensures
        x + a + b == x + (a + b),
{
    assert(x + a + b =~= x + (a + b));
}

proof fn lemma_group3(x: Seq<char>, a: Seq<char>, b: Seq<char>, c: Seq<char>)
    ensures
        x + a + b + c == x + (a + b + c),
{
    lemma_group(x, a, b);
    lemma_group(x, a + b, c);
}

proof fn lemma_group4(x: Seq<char>, a: Seq<char>, b: Seq<char>, c: Seq<char>, d: Seq<char>)
    ensures
        x + a + b + c + d == x + (a + b + c + d),
{
    lemma_group3(x, a, b, c);
    lemma_group(x, a + b + c, d);
}

proof fn lemma_group5(
    x: Seq<char>,
    a: Seq<char>,
    b: Seq<char>,
    c: Seq<char>,
    d: Seq<char>,
    e: Seq<char>,
)
    ensures
        x + a + b + c + d + e == x + (a + b + c + d + e),
{
    lemma_group4(x, a, b, c, d);
    lemma_group(x, a + b + c + d, e);
}

/// Every favorite is on its page, in the order of the strip, as a link to its address under its label, with a
/// form that renames it and a link that removes it, and links that move it up and down where there is a
/// place to move it to.
#[verifier::rlimit(40)]
pub proof fn favorites_link_to_what_was_chosen(es: Seq<EntryView>, i: int, j: int)
    requires
        0 <= i < es.len(),
    ensures
        ({
            let page = favorites_page(es);
            let label = label_of(es[i].url, es[i].title);
            &&& has_sub(page, link(es[i].url, label))
            &&& unescaped(escaped(es[i].url)) == es[i].url
            &&& unescaped(escaped(label)) == label
            &&& has_sub(page, deed("favorites/remove"@, es[i].url, "remove"@))
            &&& has_sub(page, rename_form(es[i].url, label))
            &&& has_sub(page, "<span class=u>"@ + escaped(es[i].url) + "</span>"@)
            &&& i > 0 ==> has_sub(page, deed("favorites/up"@, es[i].url, "&#9650;"@))
            &&& i < es.len() - 1 ==> has_sub(page, deed("favorites/down"@, es[i].url, "&#9660;"@))
            &&& has_sub(page, decimal(es.len()) + " favorites"@)
            &&& i < j < es.len() ==> above(
                page,
                link(es[i].url, label),
                link(es[j].url, label_of(es[j].url, es[j].title)),
            )
        }),
{
    let (a, b) = lemma_favorite_row_at(es, es.len(), i);
    let first = i == 0;
    let last = i == es.len() - 1;
    let (c, d) = lemma_favorite_row_parts(es[i], first, last);
    let row = favorite_row(es[i], first, last);
    let label = label_of(es[i].url, es[i].title);
    let x = link(es[i].url, label);
    lemma_within(c, x, d);
    lemma_within_both(a, row, b, x);
    lemma_within_both(a, row, b, deed("favorites/remove"@, es[i].url, "remove"@));
    lemma_within_both(a, row, b, rename_form(es[i].url, label));
    lemma_within_both(a, row, b, "<span class=u>"@ + escaped(es[i].url) + "</span>"@);
    if !first {
        lemma_within_both(a, row, b, deed("favorites/up"@, es[i].url, "&#9650;"@));
    }
    if !last {
        lemma_within_both(a, row, b, deed("favorites/down"@, es[i].url, "&#9660;"@));
    }
    let meta = decimal(es.len()) + " favorites<a href=\"cce://bookmarks\">bookmarks</a>"@;
    reveal_strlit(" favorites<a href=\"cce://bookmarks\">bookmarks</a>");
    reveal_strlit(" favorites");
    reveal_strlit("<a href=\"cce://bookmarks\">bookmarks</a>");
    let other = "<a href=\"cce://bookmarks\">bookmarks</a>"@;
    assert(meta =~= Seq::<char>::empty() + (decimal(es.len()) + " favorites"@) + other);
    lemma_within(Seq::empty(), decimal(es.len()) + " favorites"@, other);
    lemma_in_page("Favorites"@, meta, favorite_rows(es, es.len()), FAVORITES_CSS@);
    escaped_reads_back(es[i].url);
    escaped_reads_back(label);
    if i < j < es.len() {
        lemma_favorite_rows_above(es, es.len(), i, j);
        let (p, q) = lemma_favorite_row_parts(es[j], j == 0, j == es.len() - 1);
        lemma_above_parts(
            favorite_rows(es, es.len()),
            (c, x, d),
            (p, link(es[j].url, label_of(es[j].url, es[j].title)), q),
        );
    }
}

// ---------------------------------------------------------------------------------------------
// Downloads
// ---------------------------------------------------------------------------------------------

proof fn lemma_download_row_at(items: Seq<DownloadView>, i: int) -> (r: (Seq<char>, Seq<char>))
    requires
        0 <= i < items.len(),
    ensures
        download_rows(items) == r.0 + items[i].row() + r.1,
    decreases items.len(),
{
    let rest = download_rows(items.drop_last());
    if i == items.len() - 1 {
        assert(download_rows(items) =~= Seq::<char>::empty() + items[i].row() + rest);
        (Seq::empty(), rest)
    } else {
        let (a, b) = lemma_download_row_at(items.drop_last(), i);
        assert(items.drop_last()[i] == items[i]);
        assert(download_rows(items) =~= (items.last().row() + a) + items[i].row() + b);
        (items.last().row() + a, b)
    }
}

#[verifier::rlimit(40)]
proof fn lemma_download_rows_above(items: Seq<DownloadView>, i: int, j: int)
    requires
        0 <= i < j < items.len(),
    ensures
        above(download_rows(items), items[j].row(), items[i].row()),
    decreases items.len(),
{
    let rest = download_rows(items.drop_last());
    let x = items[j].row();
    let y = items[i].row();
    assert(items.drop_last()[i] == items[i]);
    if j == items.len() - 1 {
        let (a, b) = lemma_download_row_at(items.drop_last(), i);
        assert(download_rows(items) =~= five(Seq::empty(), x, a, y, b));
    } else {
        assert(items.drop_last()[j] == items[j]);
        lemma_download_rows_above(items.drop_last(), i, j);
        let (p, q, r) = choose|p: Seq<char>, q: Seq<char>, r: Seq<char>|
            rest == #[trigger] five(p, x, q, y, r);
        assert(download_rows(items) =~= five(items.last().row() + p, x, q, y, r));
    }
}

/// The link to a file, in markup.
pub open spec fn file_link(path: Seq<char>, name: Seq<char>) -> Seq<char> {
    "<a href=\"file://"@ + escaped(path) + "\">"@ + escaped(name) + "</a>"@
}

#[verifier::rlimit(40)]
proof fn lemma_download_row_parts(d: DownloadView) -> (r: (Seq<char>, Seq<char>))
    ensures
        d.row() == r.0 + file_link(d.path, d.filename) + r.1,
        has_sub(d.row(), "<span class=u>"@ + escaped(d.url) + "</span>"@),
        has_sub(d.row(), ">"@ + d.progress() + "</span>"@),
{
    reveal_strlit("\"></span><a href=\"file://");
    reveal_strlit("\"></span>");
    reveal_strlit("<a href=\"file://");
    reveal_strlit("\">");
    reveal_strlit("</a><span class=u>");
    reveal_strlit("</a>");
    reveal_strlit("<span class=u>");
    reveal_strlit("</span><span class=w style=\"min-width:0\">");
    reveal_strlit("</span>");
    reveal_strlit("<span class=w style=\"min-width:0\"");
    reveal_strlit(">");
    reveal_strlit("</span></div>\n");
    reveal_strlit("</div>\n");
    assert("\"></span><a href=\"file://"@ =~= "\"></span>"@ + "<a href=\"file://"@);
    assert("</a><span class=u>"@ =~= "</a>"@ + "<span class=u>"@);
    assert("</span><span class=w style=\"min-width:0\">"@ =~= "</span>"@
        + "<span class=w style=\"min-width:0\""@ + ">"@);
    assert("</span></div>\n"@ =~= "</span>"@ + "</div>\n"@);
    let a = "<div class=e><span class=w data-ts=\""@ + decimal(d.ts as nat) + "\"></span>"@;
    let l = file_link(d.path, d.filename);
    let u = "<span class=u>"@ + escaped(d.url) + "</span>"@;
    let s = "<span class=w style=\"min-width:0\""@;
    let p = ">"@ + d.progress() + "</span>"@;
    let end = "</div>\n"@;
    assert(d.row() =~= a + l + (u + s + p + end));
    assert(d.row() =~= (a + l) + u + (s + p + end));
    lemma_within(a + l, u, s + p + end);
    assert(d.row() =~= (a + l + u + s) + p + end);
    lemma_within(a + l + u + s, p, end);
    (a, u + s + p + end)
}

/// Every download is on its page, the newest first, as a link to its file under the file's name, with where
/// it came from and how it stands; the page asks to be read again while any is running.
#[verifier::rlimit(40)]
pub proof fn downloads_link_to_their_file(items: Seq<DownloadView>, i: int, j: int)
    requires
        0 <= i < items.len(),
    ensures
        ({
            let page = downloads_page(items);
            &&& has_sub(page, file_link(items[i].path, items[i].filename))
            &&& unescaped(escaped(items[i].path)) == items[i].path
            &&& has_sub(page, "<span class=u>"@ + escaped(items[i].url) + "</span>"@)
            &&& has_sub(page, ">"@ + items[i].progress() + "</span>"@)
            &&& has_sub(page, decimal(items.len()) + " downloads"@)
            &&& items[i].state is Active ==> has_sub(
                page,
                "<meta http-equiv=\"refresh\" content=\"1\">"@,
            )
            &&& i < j < items.len() ==> above(
                page,
                file_link(items[j].path, items[j].filename),
                file_link(items[i].path, items[i].filename),
            )
        }),
{
    let (a, b) = lemma_download_row_at(items, i);
    let (c, d) = lemma_download_row_parts(items[i]);
    let row = items[i].row();
    let x = file_link(items[i].path, items[i].filename);
    lemma_within(c, x, d);
    lemma_within_both(a, row, b, x);
    lemma_within_both(a, row, b, "<span class=u>"@ + escaped(items[i].url) + "</span>"@);
    lemma_within_both(a, row, b, ">"@ + items[i].progress() + "</span>"@);
    let meta = decimal(items.len())
        + " downloads<a href=\"cce://downloads/clear\">clear finished</a>"@;
    reveal_strlit(" downloads<a href=\"cce://downloads/clear\">clear finished</a>");
    reveal_strlit(" downloads");
    reveal_strlit("<a href=\"cce://downloads/clear\">clear finished</a>");
    let other = "<a href=\"cce://downloads/clear\">clear finished</a>"@;
    assert(meta =~= Seq::<char>::empty() + (decimal(items.len()) + " downloads"@) + other);
    lemma_within(Seq::empty(), decimal(items.len()) + " downloads"@, other);
    let head = if any_active(items) {
        "<meta http-equiv=\"refresh\" content=\"1\">"@
    } else {
        ""@
    };
    lemma_in_page("Downloads"@, meta, download_rows(items), head);
    escaped_reads_back(items[i].path);
    if items[i].state is Active {
        assert(any_active(items));
        assert(head =~= Seq::<char>::empty() + head + Seq::<char>::empty());
        lemma_within(Seq::empty(), head, Seq::empty());
    }
    if i < j < items.len() {
        lemma_download_rows_above(items, i, j);
        let (p, q) = lemma_download_row_parts(items[j]);
        lemma_above_parts(
            download_rows(items),
            (p, file_link(items[j].path, items[j].filename), q),
            (c, x, d),
        );
    }
}

/// A running download says how much has come, of how much and in whole percent where that is known; one that
/// is done its size; and one that failed why.
pub proof fn progress_says_how_it_stands(d: DownloadView)
    ensures
        d.state is Done ==> d.progress() == size_text(d.received as nat),
        d.state is Failed ==> d.progress() == "failed: "@ + escaped(d.state->Failed_0),
        d.state is Active && d.total is None ==> d.progress() == size_text(d.received as nat) + "..."@,
        d.state is Active && d.total is Some && d.total->0 > 0 ==> ({
            let percent = (d.received * 100 / d.total->0 as int) as nat;
            &&& d.progress() == size_text(d.received as nat) + " / "@ + size_text(d.total->0 as nat)
                + " ("@ + decimal(percent) + "%)"@
            &&& percent * d.total->0 <= d.received * 100 < (percent + 1) * d.total->0
        }),
{
    if d.state is Active && d.total is Some && d.total->0 > 0 {
        let t = d.total->0 as int;
        let r = d.received * 100;
        let p = r / t;
        assert(p * t <= r < (p + 1) * t && p >= 0) by (nonlinear_arith)
            requires
                t > 0,
                r >= 0,
                p == r / t,
        ;
    }
}

/// A download that starts comes last, is running, has nothing yet, and has a handle of its own.
pub proof fn downloads_start_last(
    l: DownloadsView,
    url: Seq<char>,
    name: Seq<char>,
    path: Seq<char>,
    total: Option<u64>,
    now: u64,
)
    requires
        l.wf(),
    ensures
        ({
            let m = l.started(url, name, path, total, now);
            let d = m.items.last();
            &&& m.items.drop_last() == l.items
            &&& d.url == url && d.filename == name && d.path == path && d.total == total && d.ts == now
            &&& d.received == 0 && d.state is Active
            &&& forall|i: int| 0 <= i < l.items.len() ==> (#[trigger] l.items[i]).id != d.id
        }),
{
    let m = l.started(url, name, path, total, now);
    assert(m.items.drop_last() =~= l.items);
}

/// What becomes of a download is noted of that download and of no other.
pub proof fn reports_reach_their_download(l: DownloadsView, i: int, n: u64, why: Update)
    requires
        l.wf(),
        0 <= i < l.items.len(),
    ensures
        ({
            let id = l.items[i].id;
            let d = l.items[i];
            &&& l.updated(id, Update::Received(n)).items == l.items.update(
                i,
                (DownloadView { received: n, ..d }),
            )
            &&& l.updated(id, Update::Total(Some(n))).items == l.items.update(
                i,
                (DownloadView { total: Some(n), ..d }),
            )
            &&& l.updated(id, Update::Done).items == l.items.update(
                i,
                (DownloadView { state: StateView::Done, ..d }),
            )
            &&& why is Failed ==> l.updated(id, why).items == l.items.update(
                i,
                (DownloadView { state: StateView::Failed((why->Failed_0)@), ..d }),
            )
        }),
{
    lemma_id_is(l.items, l.items[i].id, i);
}

proof fn lemma_id_is(items: Seq<DownloadView>, id: u64, i: int)
    requires
        0 <= i < items.len(),
        items[i].id == id,
        forall|j: int| 0 <= j < i ==> (#[trigger] items[j]).id != id,
    ensures
        id_index(items, id) == i,
    decreases items.len(),
{
    if i > 0 {
        let t = items.drop_first();
        assert(items[0].id != id);
        assert(t[i - 1] == items[i]);
        assert forall|j: int| 0 <= j < i - 1 implies (#[trigger] t[j]).id != id by {
            assert(t[j] == items[j + 1]);
        }
        lemma_id_is(t, id, i - 1);
    }
}

/// Clearing keeps the downloads that are running and no others.
pub proof fn clearing_keeps_what_runs(l: DownloadsView, d: DownloadView)
    ensures
        l.cleared().items.contains(d) <==> l.items.contains(d) && d.state is Active,
{
    narrowing_keeps_what_passes(l.items, |d: DownloadView| d.state is Active, d);
}

// ---------------------------------------------------------------------------------------------
// The other pages
// ---------------------------------------------------------------------------------------------

/// The page about cookies has a link that clears them, and says what that does.
#[verifier::rlimit(40)]
pub proof fn the_cookies_page_asks_first()
    ensures
        has_sub(cookies_page_text(), "<a class=rm href=\"cce://cookies/clear\">Clear all cookies</a>"@),
        has_sub(cookies_page_text(), "<h1>"@ + "Cookies"@ + "</h1>"@),
        has_sub(cookies_cleared_text(), "<h1>"@ + "Cookies"@ + "</h1>"@),
        has_sub(cookies_cleared_text(), "Cleared"@),
{
    lemma_cookies_link();
    lemma_in_page("Cookies"@, "Signed-in sessions live here"@, COOKIES_BODY@, ""@);
    pages_are_called_by_their_title(
        "Cookies"@,
        "Signed-in sessions live here"@,
        COOKIES_BODY@,
        ""@,
    );
    lemma_in_page("Cookies"@, "Cleared"@, CLEARED_BODY@, ""@);
    pages_are_called_by_their_title("Cookies"@, "Cleared"@, CLEARED_BODY@, ""@);
    let m = "Cleared"@;
    assert(m =~= Seq::<char>::empty() + m + Seq::<char>::empty());
    lemma_within(Seq::empty(), m, Seq::empty());
}

#[verifier::rlimit(40)]
proof fn lemma_cookies_link()
    ensures
        has_sub(COOKIES_BODY@, "<a class=rm href=\"cce://cookies/clear\">Clear all cookies</a>"@),
{
    reveal_strlit("<div class=e><span class=w></span><span class=u>Clearing cookies signs you out of          every site and cannot be undone. Bookmarks and history are untouched.</span></div>         <div class=e><span class=w></span>         <a class=rm href=\"cce://cookies/clear\">Clear all cookies</a></div>");
    reveal_strlit("<a class=rm href=\"cce://cookies/clear\">Clear all cookies</a>");
    let b = COOKIES_BODY@;
    let l = "<a class=rm href=\"cce://cookies/clear\">Clear all cookies</a>"@;
    assert(b.subrange(225, (225 + l.len()) as int) =~= l);
    assert(sub_at(b, l, 225));
}

/// A page with nothing to list says so.
pub proof fn empty_pages_say_so()
    ensures
        has_sub(history_page(Seq::empty()), "No history yet."@),
        has_sub(bookmarks_page(Seq::empty(), Seq::empty()), "No bookmarks yet."@),
        has_sub(favorites_page(Seq::empty()), "No favorites yet."@),
        has_sub(downloads_page(Seq::empty()), "No downloads yet."@),
{
    lemma_empty_texts();
    lemma_in_page(
        "History"@,
        decimal(0) + " entries<a href=\"cce://history/clear\">clear</a>"@,
        "<p class=empty>No history yet.</p>"@,
        ""@,
    );
    lemma_in_page(
        "Bookmarks"@,
        decimal(0) + " bookmarks<a href=\"cce://favorites\">favorites</a>"@,
        "<p class=empty>No bookmarks yet. Star a page or press Ctrl+D.</p>"@,
        ""@,
    );
    lemma_in_page(
        "Favorites"@,
        decimal(0) + " favorites<a href=\"cce://bookmarks\">bookmarks</a>"@,
        "<p class=empty>No favorites yet. Press Ctrl+Shift+D on a page, pick \"Add to Favorites\" from its right-click menu, or promote a bookmark.</p>"@,
        FAVORITES_CSS@,
    );
    lemma_in_page(
        "Downloads"@,
        decimal(0) + " downloads<a href=\"cce://downloads/clear\">clear finished</a>"@,
        "<p class=empty>No downloads yet. Links to archives and binaries download here.</p>"@,
        ""@,
    );
    assert(!any_active(Seq::empty()));
}

#[verifier::rlimit(40)]
proof fn lemma_empty_texts()
    ensures
        has_sub("<p class=empty>No history yet.</p>"@, "No history yet."@),
        has_sub(
            "<p class=empty>No bookmarks yet. Star a page or press Ctrl+D.</p>"@,
            "No bookmarks yet."@,
        ),
        has_sub(
            "<p class=empty>No favorites yet. Press Ctrl+Shift+D on a page, pick \"Add to Favorites\" from its right-click menu, or promote a bookmark.</p>"@,
            "No favorites yet."@,
        ),
        has_sub(
            "<p class=empty>No downloads yet. Links to archives and binaries download here.</p>"@,
            "No downloads yet."@,
        ),
{
    reveal_strlit("<p class=empty>No history yet.</p>");
    reveal_strlit("No history yet.");
    reveal_strlit("<p class=empty>No bookmarks yet. Star a page or press Ctrl+D.</p>");
    reveal_strlit("No bookmarks yet.");
    reveal_strlit("<p class=empty>No favorites yet. Press Ctrl+Shift+D on a page, pick \"Add to Favorites\" from its right-click menu, or promote a bookmark.</p>");
    reveal_strlit("No favorites yet.");
    reveal_strlit("<p class=empty>No downloads yet. Links to archives and binaries download here.</p>");
    reveal_strlit("No downloads yet.");
    let a = "<p class=empty>No history yet.</p>"@;
    assert(a.subrange(15, 30) =~= "No history yet."@);
    assert(sub_at(a, "No history yet."@, 15));
    let b = "<p class=empty>No bookmarks yet. Star a page or press Ctrl+D.</p>"@;
    assert(b.subrange(15, 32) =~= "No bookmarks yet."@);
    assert(sub_at(b, "No bookmarks yet."@, 15));
    let c = "<p class=empty>No favorites yet. Press Ctrl+Shift+D on a page, pick \"Add to Favorites\" from its right-click menu, or promote a bookmark.</p>"@;
    assert(c.subrange(15, 32) =~= "No favorites yet."@);
    assert(sub_at(c, "No favorites yet."@, 15));
    let d = "<p class=empty>No downloads yet. Links to archives and binaries download here.</p>"@;
    assert(d.subrange(15, 32) =~= "No downloads yet."@);
    assert(sub_at(d, "No downloads yet."@, 15));
}

} // verus!
