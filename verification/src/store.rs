//! The logs behind the internal pages: entries, the text they are kept as, and what is still to be
//! written to the file.

use vstd::prelude::*;

use crate::numerals::{
    decimal, is_digit, lemma_decimal_reads_back, parse_u64, parsed_u64, to_decimal,
};
use crate::split::{cut, lemma_cut, lemma_first_line, lines, lines_of, split_once, views};
use crate::text::{chars_of, index_of, lemma_index_of, lemma_index_of_is, same};

verus! {

/// One line of a log.
#[derive(Clone, Debug)]
pub struct Entry {
    pub ts: u64,
    pub url: String,
    pub title: String,
}

/// What an entry says.
#[verifier::ext_equal]
pub struct EntryView {
    pub ts: u64,
    pub url: Seq<char>,
    pub title: Seq<char>,
}

impl View for Entry {
    type V = EntryView;

    open spec fn view(&self) -> EntryView {
        EntryView { ts: self.ts, url: self.url@, title: self.title@ }
    }
}

/// What a list of entries says.
pub open spec fn entry_views(v: Seq<Entry>) -> Seq<EntryView> {
    v.map_values(|e: Entry| e@)
}

// ---------------------------------------------------------------------------------------------
// Fields
// ---------------------------------------------------------------------------------------------

/// A character as it may stand in a field of a log: tabs and line breaks become spaces.
pub open spec fn field_char(c: char) -> char {
    if c == '\t' || c == '\n' || c == '\r' {
        ' '
    } else {
        c
    }
}

/// A text as it may stand in a field of a log.
pub open spec fn sanitized(s: Seq<char>) -> Seq<char> {
    s.map_values(|c: char| field_char(c))
}

/// See [`sanitized`].
pub fn sanitize(s: &str) -> (r: String)
    ensures
        r@ == sanitized(s@),
{
    let v = chars_of(s);
    let mut out = String::new();
    let mut i: usize = 0;
    while i < v.len()
        invariant
            i <= v.len(),
            v@ == s@,
            out@ == sanitized(s@.take(i as int)),
        decreases v.len() - i,
    {
        let c = v[i];
        if c == '\t' || c == '\n' || c == '\r' {
            out.push(' ');
        } else {
            out.push(c);
        }
        i += 1;
        assert(out@ =~= sanitized(s@.take(i as int)));
    }
    assert(s@.take(i as int) =~= s@);
    out
}

/// A field has no tab and no line break, and a text without them is a field as it stands.
pub proof fn sanitized_is_one_line(s: Seq<char>)
    ensures
        crate::weburl::one_line(sanitized(s)),
        sanitized(s).len() == s.len(),
        crate::weburl::one_line(s) ==> sanitized(s) == s,
{
    assert forall|c: char| sanitized(s).contains(c) implies c != '\t' && c != '\n' && c
        != '\r' by {
        let i = choose|i: int| 0 <= i < sanitized(s).len() && sanitized(s)[i] == c;
        assert(sanitized(s)[i] == field_char(s[i]));
    }
    if crate::weburl::one_line(s) {
        assert forall|i: int| 0 <= i < s.len() implies sanitized(s)[i] == s[i] by {
            assert(s.contains(s[i]));
        }
        assert(sanitized(s) =~= s);
    }
}

// ---------------------------------------------------------------------------------------------
// The text of a log
// ---------------------------------------------------------------------------------------------

/// The line that an entry is kept as: its fields with tabs between them.
pub open spec fn entry_line(e: EntryView) -> Seq<char> {
    decimal(e.ts as nat) + seq!['\t'] + (e.url + seq!['\t'] + e.title) + seq!['\n']
}

/// The text that a list of entries is kept as.
pub open spec fn tsv_text(es: Seq<EntryView>) -> Seq<char>
    decreases es.len(),
{
    if es.len() == 0 {
        Seq::empty()
    } else {
        tsv_text(es.drop_last()) + entry_line(es.last())
    }
}

/// The entry that a line holds: a number, an address and a title, with tabs between them. Any
/// other line holds none.
pub open spec fn line_entry(line: Seq<char>) -> Option<EntryView> {
    match cut(line, '\t') {
        None => None,
        Some((ts, rest)) => match cut(rest, '\t') {
            None => None,
            Some((url, title)) => match parsed_u64(ts) {
                None => None,
                Some(ts) => Some(EntryView { ts, url, title }),
            },
        },
    }
}

/// The entries that a list of lines holds, in order.
pub open spec fn lines_entries(ls: Seq<Seq<char>>) -> Seq<EntryView>
    decreases ls.len(),
{
    if ls.len() == 0 {
        Seq::empty()
    } else {
        let before = lines_entries(ls.drop_last());
        match line_entry(ls.last()) {
            Some(e) => before.push(e),
            None => before,
        }
    }
}

/// The entries that a text holds.
pub open spec fn tsv_entries(text: Seq<char>) -> Seq<EntryView> {
    lines_entries(lines(text))
}

/// See [`line_entry`].
pub fn read_line(line: &str) -> (r: Option<Entry>)
    ensures
        (match r {
            Some(e) => line_entry(line@) == Some(e@),
            None => line_entry(line@) is None,
        }),
{
    match split_once(line, '\t') {
        None => None,
        Some((ts, rest)) => match split_once(rest.as_str(), '\t') {
            None => None,
            Some((url, title)) => match parse_u64(ts.as_str()) {
                None => None,
                Some(ts) => Some(Entry { ts, url, title }),
            },
        },
    }
}

/// Reads the entries that a text holds.
pub fn read_tsv(text: &str) -> (r: Vec<Entry>)
    ensures
        entry_views(r@) == tsv_entries(text@),
{
    let ls = lines_of(text);
    let ghost all = lines(text@);
    let mut out: Vec<Entry> = Vec::new();
    let mut i: usize = 0;
    while i < ls.len()
        invariant
            i <= ls.len(),
            all == views(ls@),
            entry_views(out@) == lines_entries(all.take(i as int)),
        decreases ls.len() - i,
    {
        let ghost before = entry_views(out@);
        assert(all.take(i + 1).drop_last() =~= all.take(i as int));
        assert(all[i as int] == ls@[i as int]@);
        if let Some(e) = read_line(ls[i].as_str()) {
            out.push(e);
            assert(entry_views(out@) =~= before.push(e@));
        }
        i += 1;
    }
    assert(all.take(i as int) =~= all);
    out
}

/// The line that an entry is kept as.
pub fn write_line(e: &Entry) -> (r: String)
    ensures
        r@ == entry_line(e@),
{
    let mut out = to_decimal(e.ts);
    out.push('\t');
    out.append(e.url.as_str());
    out.push('\t');
    out.append(e.title.as_str());
    out.push('\n');
    assert(out@ =~= entry_line(e@));
    out
}

/// The text that a list of entries is kept as.
pub fn write_tsv(entries: &Vec<Entry>) -> (r: String)
    ensures
        r@ == tsv_text(entry_views(entries@)),
{
    let ghost all = entry_views(entries@);
    let mut out = String::new();
    let mut i: usize = 0;
    while i < entries.len()
        invariant
            i <= entries.len(),
            all == entry_views(entries@),
            out@ == tsv_text(all.take(i as int)),
        decreases entries.len() - i,
    {
        assert(all.take(i + 1).drop_last() =~= all.take(i as int));
        let line = write_line(&entries[i]);
        out.append(line.as_str());
        i += 1;
    }
    assert(all.take(i as int) =~= all);
    out
}

/// Whether an entry comes back from its line as it was: no tab and no line break in its address, no
/// line break in its title, and no carriage return at its end.
pub open spec fn savable(e: EntryView) -> bool {
    &&& !e.url.contains('\t')
    &&& !e.url.contains('\n')
    &&& !e.title.contains('\n')
    &&& e.title.len() > 0 ==> e.title.last() != '\r'
}

/// Whether every entry of a list comes back from its line as it was.
pub open spec fn all_savable(es: Seq<EntryView>) -> bool {
    forall|i: int| 0 <= i < es.len() ==> savable(#[trigger] es[i])
}

/// An entry made of fields comes back from its line.
pub proof fn fields_are_savable(ts: u64, url: Seq<char>, title: Seq<char>)
    ensures
        savable(EntryView { ts, url: sanitized(url), title: sanitized(title) }),
{
    sanitized_is_one_line(url);
    sanitized_is_one_line(title);
    if title.len() > 0 {
        assert(sanitized(title).contains(sanitized(title).last()));
    }
}

/// A line written for an entry reads back as that entry, and stands on one line.
proof fn lemma_line_reads_back(e: EntryView)
    requires
        savable(e),
    ensures
        line_entry(entry_line(e).drop_last()) == Some(e),
        !entry_line(e).drop_last().contains('\n'),
        entry_line(e).drop_last().last() != '\r',
        entry_line(e).drop_last().len() > 0,
        entry_line(e) == entry_line(e).drop_last() + seq!['\n'],
{
    let d = decimal(e.ts as nat);
    let rest = e.url + seq!['\t'] + e.title;
    let line = d + seq!['\t'] + rest;
    assert(entry_line(e).drop_last() =~= line);
    assert(entry_line(e) =~= line + seq!['\n']);
    lemma_decimal_reads_back(e.ts);
    assert forall|c: char| d.contains(c) implies c != '\t' && c != '\n' && c != '\r' by {
        let i = choose|i: int| 0 <= i < d.len() && d[i] == c;
        assert(is_digit(d[i]));
    }
    lemma_cut(d, '\t', rest);
    lemma_cut(e.url, '\t', e.title);
    if line.contains('\n') {
        let i = choose|i: int| 0 <= i < line.len() && line[i] == '\n';
        let n = d.len() as int;
        let m = e.url.len() as int;
        if i < n {
            assert(d.contains(d[i]));
        } else if n < i < n + 1 + m {
            assert(e.url[i - n - 1] == '\n');
        } else if i > n + 1 + m {
            assert(e.title[i - n - 2 - m] == '\n');
        }
        assert(false);
    }
    if e.title.len() > 0 {
        assert(line.last() == e.title.last());
    } else {
        assert(line.last() == '\t');
    }
}

/// What a text that ends in a newline holds, and what follows it holds, are the lines of both.
pub proof fn lines_of_concat(a: Seq<char>, b: Seq<char>)
    requires
        a.len() > 0 ==> a.last() == '\n',
    ensures
        lines(a + b) == lines(a) + lines(b),
    decreases a.len(),
{
    if a.len() == 0 {
        assert(a + b =~= b);
        assert(lines(a) + lines(b) =~= lines(b));
    } else {
        let k = index_of(a, '\n');
        lemma_index_of(a, '\n');
        assert(k < a.len()) by {
            if k == a.len() {
                assert(a[a.len() - 1] != '\n');
            }
        }
        assert forall|j: int| 0 <= j < k implies (a + b)[j] != '\n' by {
            assert((a + b)[j] == a[j]);
        }
        lemma_index_of_is(a + b, '\n', k);
        assert((a + b).take(k) =~= a.take(k));
        assert((a + b).skip(k + 1) =~= a.skip(k + 1) + b);
        let rest = a.skip(k + 1);
        if rest.len() > 0 {
            assert(rest.last() == a.last());
        }
        lines_of_concat(rest, b);
        assert(lines(a + b) =~= lines(a) + lines(b));
    }
}

proof fn lemma_lines_entries_concat(a: Seq<Seq<char>>, b: Seq<Seq<char>>)
    ensures
        lines_entries(a + b) == lines_entries(a) + lines_entries(b),
    decreases b.len(),
{
    if b.len() == 0 {
        assert(a + b =~= a);
        assert(lines_entries(a) + lines_entries(b) =~= lines_entries(a));
    } else {
        assert((a + b).drop_last() =~= a + b.drop_last());
        lemma_lines_entries_concat(a, b.drop_last());
        assert(lines_entries(a + b) =~= lines_entries(a) + lines_entries(b));
    }
}

/// A line added to a text of whole lines adds its entry to what the text holds.
pub proof fn appended_line_reads_back(text: Seq<char>, e: EntryView)
    requires
        text.len() > 0 ==> text.last() == '\n',
        savable(e),
    ensures
        tsv_entries(text + entry_line(e)) == tsv_entries(text).push(e),
{
    lemma_line_reads_back(e);
    let line = entry_line(e).drop_last();
    lines_of_concat(text, entry_line(e));
    lemma_first_line(line, Seq::empty());
    assert(entry_line(e) + Seq::<char>::empty() =~= entry_line(e));
    assert(lines(Seq::<char>::empty()) =~= Seq::empty());
    assert(lines(entry_line(e)) =~= seq![line]);
    lemma_lines_entries_concat(lines(text), seq![line]);
    assert(seq![line].drop_last() =~= Seq::empty());
    assert(lines_entries(Seq::<Seq<char>>::empty()) =~= Seq::empty());
    assert(lines_entries(seq![line]) =~= seq![e]);
    assert(tsv_entries(text + entry_line(e)) =~= tsv_entries(text).push(e));
}

/// A log reads back as the entries that were written.
pub proof fn written_reads_back(es: Seq<EntryView>)
    requires
        all_savable(es),
    ensures
        tsv_entries(tsv_text(es)) == es,
        tsv_text(es).len() > 0 ==> tsv_text(es).last() == '\n',
    decreases es.len(),
{
    if es.len() == 0 {
        assert(lines(tsv_text(es)) =~= Seq::empty());
        assert(tsv_entries(tsv_text(es)) =~= es);
    } else {
        assert(all_savable(es.drop_last())) by {
            assert forall|i: int| 0 <= i < es.drop_last().len() implies savable(
                #[trigger] es.drop_last()[i],
            ) by {
                assert(savable(es[i]));
            }
        }
        written_reads_back(es.drop_last());
        assert(savable(es[es.len() - 1]));
        appended_line_reads_back(tsv_text(es.drop_last()), es.last());
        assert(es.drop_last().push(es.last()) =~= es);
    }
}

// ---------------------------------------------------------------------------------------------
// What is still to be written
// ---------------------------------------------------------------------------------------------

/// What is to happen to a log's file: its text replaced, or a text added to its end.
#[derive(Clone, Debug)]
pub struct Change {
    pub replace: bool,
    pub text: String,
}

/// What a change does.
#[verifier::ext_equal]
pub struct ChangeView {
    pub replace: bool,
    pub text: Seq<char>,
}

impl View for Change {
    type V = ChangeView;

    open spec fn view(&self) -> ChangeView {
        ChangeView { replace: self.replace, text: self.text@ }
    }
}

impl ChangeView {
    /// Nothing to write.
    pub open spec fn nothing() -> ChangeView {
        ChangeView { replace: false, text: Seq::empty() }
    }

    /// This change, and a text added after it.
    pub open spec fn then_append(self, t: Seq<char>) -> ChangeView {
        ChangeView { replace: self.replace, text: self.text + t }
    }

    /// The file's text replaced, whatever was to happen before.
    pub open spec fn rewrite(t: Seq<char>) -> ChangeView {
        ChangeView { replace: true, text: t }
    }

    /// The text of the file once the change is made.
    pub open spec fn applied(self, file: Seq<char>) -> Seq<char> {
        if self.replace {
            self.text
        } else {
            file + self.text
        }
    }
}

impl Change {
    /// Nothing to write.
    pub fn nothing() -> (r: Change)
        ensures
            r@ == ChangeView::nothing(),
    {
        Change { replace: false, text: String::new() }
    }

    /// Adds a text to what is to be written.
    pub fn append(&mut self, t: &str)
        ensures
            final(self)@ == old(self)@.then_append(t@),
    {
        self.text.append(t);
    }

    /// The file's text replaced.
    pub fn rewrite(t: String) -> (r: Change)
        ensures
            r@ == ChangeView::rewrite(t@),
    {
        Change { replace: true, text: t }
    }

    /// Hands over the change, and leaves nothing to write.
    pub fn take(&mut self) -> (r: Change)
        ensures
            r == *old(self),
            final(self)@ == ChangeView::nothing(),
    {
        let mut out = Change::nothing();
        core::mem::swap(self, &mut out);
        out
    }
}

// ---------------------------------------------------------------------------------------------
// Lists of entries
// ---------------------------------------------------------------------------------------------

/// The index of the first entry for an address, or the length of the list.
pub open spec fn entry_index(es: Seq<EntryView>, url: Seq<char>) -> int
    decreases es.len(),
{
    if es.len() == 0 || es[0].url == url {
        0
    } else {
        1 + entry_index(es.drop_first(), url)
    }
}

/// Whether a list has an entry for an address.
pub open spec fn has_entry(es: Seq<EntryView>, url: Seq<char>) -> bool {
    exists|i: int| 0 <= i < es.len() && (#[trigger] es[i]).url == url
}

/// The entries that are not for an address, in order.
pub open spec fn entries_but(es: Seq<EntryView>, url: Seq<char>) -> Seq<EntryView> {
    es.filter(|e: EntryView| e.url != url)
}

/// What [`entry_index`] finds is the first entry for the address.
pub proof fn lemma_entry_index(es: Seq<EntryView>, url: Seq<char>)
    ensures
        0 <= entry_index(es, url) <= es.len(),
        has_entry(es, url) <==> entry_index(es, url) < es.len(),
        entry_index(es, url) < es.len() ==> es[entry_index(es, url)].url == url,
        forall|j: int| 0 <= j < entry_index(es, url) ==> (#[trigger] es[j]).url != url,
    decreases es.len(),
{
    if es.len() > 0 && es[0].url != url {
        let rest = es.drop_first();
        lemma_entry_index(rest, url);
        assert forall|j: int| 0 <= j < entry_index(es, url) implies (#[trigger] es[j]).url
            != url by {
            if j > 0 {
                assert(es[j] == rest[j - 1]);
            }
        }
        if has_entry(es, url) {
            let i = choose|i: int| 0 <= i < es.len() && (#[trigger] es[i]).url == url;
            assert(rest[i - 1].url == url);
        }
        if has_entry(rest, url) {
            let i = choose|i: int| 0 <= i < rest.len() && (#[trigger] rest[i]).url == url;
            assert(es[i + 1].url == url);
        }
    } else if es.len() > 0 {
        assert(es[0].url == url);
    }
}

/// The first entry for an address, or the length of the list.
pub fn find_entry(entries: &Vec<Entry>, url: &str) -> (r: usize)
    ensures
        r == entry_index(entry_views(entries@), url@),
        r <= entries.len(),
        r < entries.len() <==> has_entry(entry_views(entries@), url@),
{
    let ghost all = entry_views(entries@);
    proof {
        lemma_entry_index(all, url@);
    }
    let mut i: usize = 0;
    while i < entries.len()
        invariant
            i <= entries.len(),
            all == entry_views(entries@),
            i <= entry_index(all, url@) <= all.len(),
            entry_index(all, url@) < all.len() ==> all[entry_index(all, url@)].url == url@,
            forall|j: int| 0 <= j < entry_index(all, url@) ==> (#[trigger] all[j]).url != url@,
            has_entry(all, url@) <==> entry_index(all, url@) < all.len(),
        decreases entries.len() - i,
    {
        assert(all[i as int] == entries@[i as int]@);
        if same(entries[i].url.as_str(), url) {
            return i;
        }
        i += 1;
    }
    i
}

/// Drops every entry for an address.
pub fn remove_entries(entries: &mut Vec<Entry>, url: &str)
    ensures
        entry_views(final(entries)@) == entries_but(entry_views(old(entries)@), url@),
{
    let ghost all = entry_views(entries@);
    let mut out: Vec<Entry> = Vec::new();
    let mut i: usize = 0;
    assert(entry_views(out@) =~= entries_but(all.take(0), url@)) by {
        reveal(Seq::filter);
    }
    while i < entries.len()
        invariant
            i <= entries.len(),
            all == entry_views(entries@),
            entry_views(out@) == entries_but(all.take(i as int), url@),
        decreases entries.len() - i,
    {
        let ghost before = entry_views(out@);
        proof {
            reveal(Seq::filter);
            assert(all.take(i + 1).drop_last() =~= all.take(i as int));
            assert(all[i as int] == entries@[i as int]@);
        }
        if !same(entries[i].url.as_str(), url) {
            let e = copy_entry(&entries[i]);
            out.push(e);
            assert(entry_views(out@) =~= before.push(e@));
        }
        i += 1;
    }
    assert(all.take(i as int) =~= all);
    *entries = out;
}

/// A second copy of an entry.
pub fn copy_entry(e: &Entry) -> (r: Entry)
    ensures
        r@ == e@,
{
    Entry { ts: e.ts, url: e.url.clone(), title: e.title.clone() }
}

/// What is kept of a list is in it, and is not for the address.
pub proof fn lemma_entries_but(es: Seq<EntryView>, url: Seq<char>)
    ensures
        !has_entry(entries_but(es, url), url),
        forall|e: EntryView|
            #[trigger] entries_but(es, url).contains(e) <==> es.contains(e) && e.url != url,
        !has_entry(es, url) ==> entries_but(es, url) == es,
    decreases es.len(),
{
    reveal(Seq::filter);
    let kept = entries_but(es, url);
    if es.len() > 0 {
        let rest = es.drop_last();
        lemma_entries_but(rest, url);
        let before = entries_but(rest, url);
        assert forall|e: EntryView| kept.contains(e) <==> es.contains(e) && e.url != url by {
            if kept.contains(e) {
                let i = choose|i: int| 0 <= i < kept.len() && kept[i] == e;
                if i < before.len() {
                    assert(before[i] == e);
                    assert(before.contains(e));
                    let j = choose|j: int| 0 <= j < rest.len() && rest[j] == e;
                    assert(es[j] == e);
                } else {
                    assert(es[es.len() - 1] == e);
                }
            }
            if es.contains(e) && e.url != url {
                let j = choose|j: int| 0 <= j < es.len() && es[j] == e;
                if j < rest.len() {
                    assert(rest[j] == e);
                    assert(rest.contains(e));
                    assert(before.contains(e));
                    let i = choose|i: int| 0 <= i < before.len() && before[i] == e;
                    assert(kept[i] == e);
                } else {
                    assert(kept[kept.len() - 1] == e);
                }
            }
        }
        if !has_entry(es, url) {
            assert forall|i: int| 0 <= i < rest.len() implies (#[trigger] rest[i]).url
                != url by {
                assert(es[i].url != url);
            }
            assert(!has_entry(rest, url));
            assert(es[es.len() - 1].url != url);
            assert(kept =~= es);
        }
    } else {
        assert(kept =~= es);
    }
    assert(!has_entry(kept, url)) by {
        if has_entry(kept, url) {
            let i = choose|i: int| 0 <= i < kept.len() && (#[trigger] kept[i]).url == url;
            assert(kept.contains(kept[i]));
        }
    }
}

} // verus!
