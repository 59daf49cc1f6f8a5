//! Open-tab persistence: the tab set survives a restart.
//!
//! One line per tab in strip order: `1` or `0`, a tab, and the address; the flag marks the active
//! tab. The text is written on every change of the tab set, and not when nothing changed since the
//! last write.

use vstd::prelude::*;

use crate::split::{cut, lemma_cut, lemma_first_line, lines, lines_of, split_once, views};
use crate::text::same;
use crate::weburl::{one_line, url_opt, url_parse, view_opt, Url, UrlView};

verus! {

/// What was last written, or read.
#[derive(Debug, Default)]
pub struct Session {
    pub last: Option<String>,
}

/// A tab to be saved: its address, and whether it is the active one.
pub open spec fn tab_views(v: Seq<(String, bool)>) -> Seq<(Seq<char>, bool)> {
    v.map_values(|t: (String, bool)| (t.0@, t.1))
}

/// The line of one tab, without the newline.
pub open spec fn tab_line(tab: (Seq<char>, bool)) -> Seq<char> {
    (if tab.1 {
        seq!['1', '\t']
    } else {
        seq!['0', '\t']
    }) + tab.0
}

/// The text of a tab set.
pub open spec fn session_text(tabs: Seq<(Seq<char>, bool)>) -> Seq<char>
    decreases tabs.len(),
{
    if tabs.len() == 0 {
        Seq::empty()
    } else {
        tab_line(tabs[0]) + seq!['\n'] + session_text(tabs.drop_first())
    }
}

/// One line of a session: whether it is flagged, and the address parsed. A line without a tab
/// character is none.
pub open spec fn line_tab(line: Seq<char>) -> Option<(bool, Option<UrlView>)> {
    match cut(line, '\t') {
        Some((flag, url)) => Some((flag == seq!['1'], url_parse(url))),
        None => None,
    }
}

/// The tabs of a list of lines, those without a tab character left out.
pub open spec fn line_tabs(ls: Seq<Seq<char>>) -> Seq<(bool, Option<UrlView>)>
    decreases ls.len(),
{
    if ls.len() == 0 {
        Seq::empty()
    } else {
        let before = line_tabs(ls.drop_last());
        match line_tab(ls.last()) {
            Some(t) => before.push(t),
            None => before,
        }
    }
}

/// The addresses that parsed, in order.
pub open spec fn tab_urls(found: Seq<(bool, Option<UrlView>)>) -> Seq<UrlView>
    decreases found.len(),
{
    if found.len() == 0 {
        Seq::empty()
    } else {
        match found.last().1 {
            Some(u) => tab_urls(found.drop_last()).push(u),
            None => tab_urls(found.drop_last()),
        }
    }
}

/// The place, among the addresses that parsed, of the last one that was flagged; 0 where none was.
pub open spec fn active_tab(found: Seq<(bool, Option<UrlView>)>) -> int
    decreases found.len(),
{
    if found.len() == 0 {
        0
    } else if found.last().0 && found.last().1 is Some {
        tab_urls(found.drop_last()).len() as int
    } else {
        active_tab(found.drop_last())
    }
}

/// What each line says.
pub open spec fn found_views(v: Seq<(bool, Option<Url>)>) -> Seq<(bool, Option<UrlView>)> {
    v.map_values(|t: (bool, Option<Url>)| (t.0, url_opt(t.1)))
}

/// What each address is.
pub open spec fn url_views(v: Seq<Url>) -> Seq<UrlView> {
    v.map_values(|u: Url| u@)
}

/// Gathers the tabs that lines gave: the addresses that parsed, and the active one's place.
pub fn gather_tabs(found: &Vec<(bool, Option<Url>)>) -> (r: (Vec<Url>, usize))
    ensures
        url_views(r.0@) == tab_urls(found_views(found@)),
        r.1 == active_tab(found_views(found@)),
{
    let ghost all = found_views(found@);
    let mut tabs: Vec<Url> = Vec::new();
    let mut active: usize = 0;
    let mut i: usize = 0;
    assert(url_views(tabs@) =~= tab_urls(all.take(0)));
    while i < found.len()
        invariant
            i <= found.len(),
            all == found_views(found@),
            url_views(tabs@) == tab_urls(all.take(i as int)),
            active == active_tab(all.take(i as int)),
        decreases found.len() - i,
    {
        let ghost before = url_views(tabs@);
        assert(all.take(i + 1).drop_last() =~= all.take(i as int));
        assert(all[i as int] == (found@[i as int].0, url_opt(found@[i as int].1)));
        if let Some(u) = &found[i].1 {
            if found[i].0 {
                active = tabs.len();
                assert(before.len() == tabs.len());
            }
            let c = u.copy();
            tabs.push(c);
            assert(url_views(tabs@) =~= before.push(u@));
        }
        i += 1;
    }
    assert(all.take(i as int) =~= all);
    (tabs, active)
}

impl Session {
    /// A session that has neither been read nor written.
    pub fn new() -> (r: Session)
        ensures
            r.last is None,
    {
        Session { last: None }
    }

    /// The tabs saved by the previous run, in strip order, and the active one's place. `text` is
    /// what the file holds, empty where it cannot be read. Lines that do not parse mean fewer tabs.
    pub fn load(&mut self, text: &str) -> (r: (Vec<Url>, usize))
        ensures
            url_views(r.0@) == tab_urls(line_tabs(lines(text@))),
            r.1 == active_tab(line_tabs(lines(text@))),
            view_opt(final(self).last) == Some(text@),
    {
        let ls = lines_of(text);
        let ghost all = lines(text@);
        let mut found: Vec<(bool, Option<Url>)> = Vec::new();
        let mut i: usize = 0;
        assert(found_views(found@) =~= line_tabs(all.take(0)));
        while i < ls.len()
            invariant
                i <= ls.len(),
                all == views(ls@),
                found_views(found@) == line_tabs(all.take(i as int)),
            decreases ls.len() - i,
        {
            let ghost before = found_views(found@);
            assert(all.take(i + 1).drop_last() =~= all.take(i as int));
            assert(all[i as int] == ls@[i as int]@);
            if let Some((flag, url)) = split_once(ls[i].as_str(), '\t') {
                proof {
                    reveal_strlit("1");
                    assert("1"@ =~= seq!['1']);
                }
                let t = (same(flag.as_str(), "1"), Url::parse(url.as_str()));
                found.push(t);
                assert(found_views(found@) =~= before.push((t.0, url_opt(t.1))));
            }
            i += 1;
        }
        assert(all.take(i as int) =~= all);
        self.last = Some(text.to_owned());
        gather_tabs(&found)
    }

    /// The text to be written for the open tabs; nothing where it is what was last written.
    pub fn save(&self, tabs: &Vec<(String, bool)>) -> (r: Option<String>)
        ensures
            (match r {
                Some(t) => t@ == session_text(tab_views(tabs@)) && view_opt(self.last) != Some(t@),
                None => view_opt(self.last) == Some(session_text(tab_views(tabs@))),
            }),
    {
        let ghost all = tab_views(tabs@);
        let mut out = String::new();
        let mut i: usize = 0;
        assert(all.skip(0) =~= all);
        assert(out@ + session_text(all.skip(0)) =~= session_text(all));
        while i < tabs.len()
            invariant
                i <= tabs.len(),
                all == tab_views(tabs@),
                out@ + session_text(all.skip(i as int)) == session_text(all),
            decreases tabs.len() - i,
        {
            let ghost before = out@;
            let ghost rest = all.skip(i as int);
            assert(rest[0] == (tabs@[i as int].0@, tabs@[i as int].1));
            assert(rest.drop_first() =~= all.skip(i + 1));
            if tabs[i].1 {
                out.push('1');
            } else {
                out.push('0');
            }
            out.push('\t');
            out.append(tabs[i].0.as_str());
            out.push('\n');
            assert(out@ =~= before + (tab_line(rest[0]) + seq!['\n']));
            i += 1;
            assert(out@ + session_text(all.skip(i as int)) =~= before + session_text(rest));
        }
        assert(out@ + session_text(all.skip(i as int)) =~= out@);
        if let Some(last) = &self.last {
            if same(last.as_str(), out.as_str()) {
                return None;
            }
        }
        Some(out)
    }

    /// Notes that a text was written.
    pub fn written(&mut self, text: String)
        ensures
            final(self).last == Some(text),
    {
        self.last = Some(text);
    }
}

/// The tabs that a tab set is read back as.
pub open spec fn tabs_found(tabs: Seq<(Seq<char>, bool)>) -> Seq<(bool, Option<UrlView>)> {
    tabs.map_values(|t: (Seq<char>, bool)| (t.1, url_parse(t.0)))
}

/// Every line of a saved tab set reads back as its tab.
pub proof fn saved_reads_back(tabs: Seq<(Seq<char>, bool)>)
    requires
        forall|i: int| 0 <= i < tabs.len() ==> one_line((#[trigger] tabs[i]).0),
    ensures
        line_tabs(lines(session_text(tabs))) == tabs_found(tabs),
    decreases tabs.len(),
{
    if tabs.len() == 0 {
        assert(lines(session_text(tabs)) =~= Seq::empty());
        assert(line_tabs(lines(session_text(tabs))) =~= tabs_found(tabs));
    } else {
        let rest = tabs.drop_first();
        assert forall|i: int| 0 <= i < rest.len() implies one_line((#[trigger] rest[i]).0) by {
            assert(one_line(tabs[i + 1].0));
        }
        saved_reads_back(rest);
        let (url, active) = tabs[0];
        assert(one_line(tabs[0].0));
        let line = tab_line(tabs[0]);
        let flag = if active {
            seq!['1']
        } else {
            seq!['0']
        };
        assert(line =~= flag + seq!['\t'] + url);
        assert(!line.contains('\n')) by {
            if line.contains('\n') {
                let i = choose|i: int| 0 <= i < line.len() && line[i] == '\n';
                assert(url[i - 2] == '\n');
            }
        }
        assert(line.last() != '\r') by {
            if url.len() > 0 {
                assert(line.last() == url.last());
                assert(url.contains(url.last()));
            }
        }
        lemma_first_line(line, session_text(rest));
        assert(!flag.contains('\t'));
        lemma_cut(flag, '\t', url);
        assert(flag == seq!['1'] <==> active) by {
            assert(flag[0] == (if active {
                '1'
            } else {
                '0'
            }));
            assert(seq!['1'][0] == '1');
        }
        let ls = lines(session_text(rest));
        lemma_line_tabs_cons(line, ls);
        assert(tabs_found(tabs) =~= seq![(active, url_parse(url))] + tabs_found(rest));
    }
}

proof fn lemma_line_tabs_cons(line: Seq<char>, ls: Seq<Seq<char>>)
    ensures
        line_tabs(seq![line] + ls) == (match line_tab(line) {
            Some(t) => seq![t] + line_tabs(ls),
            None => line_tabs(ls),
        }),
    decreases ls.len(),
{
    let all = seq![line] + ls;
    if ls.len() == 0 {
        assert(all.drop_last() =~= Seq::empty());
        assert(all.last() == line);
        assert(line_tabs(Seq::<Seq<char>>::empty()) =~= Seq::empty());
        assert(line_tabs(ls) =~= Seq::empty());
        if let Some(t) = line_tab(line) {
            assert(line_tabs(all) =~= seq![t] + line_tabs(ls));
        }
    } else {
        assert(all.drop_last() =~= seq![line] + ls.drop_last());
        assert(all.last() == ls.last());
        lemma_line_tabs_cons(line, ls.drop_last());
        if let Some(t) = line_tab(line) {
            assert(line_tabs(all) =~= seq![t] + line_tabs(ls));
        }
    }
}

/// A saved tab set comes back: as many tabs, each at its address, in order, and the same one active.
/// The addresses are ones that parse as they stand.
pub proof fn session_round_trips(tabs: Seq<(Seq<char>, bool)>, active: int)
    requires
        forall|i: int| 0 <= i < tabs.len() ==> one_line((#[trigger] tabs[i]).0),
        forall|i: int|
            0 <= i < tabs.len() ==> (url_parse((#[trigger] tabs[i]).0) matches Some(u) && u.text
                == tabs[i].0),
        0 <= active < tabs.len(),
        forall|i: int| 0 <= i < tabs.len() ==> ((#[trigger] tabs[i]).1 <==> i == active),
    ensures
        ({
            let found = line_tabs(lines(session_text(tabs)));
            &&& tab_urls(found).len() == tabs.len()
            &&& forall|i: int|
                0 <= i < tabs.len() ==> (#[trigger] tab_urls(found)[i]).text == tabs[i].0
            &&& active_tab(found) == active
        }),
{
    saved_reads_back(tabs);
    lemma_found(tabs, tabs.len() as int, active);
    assert(tabs_found(tabs).take(tabs.len() as int) =~= tabs_found(tabs));
}

proof fn lemma_found(tabs: Seq<(Seq<char>, bool)>, n: int, active: int)
    requires
        forall|i: int|
            0 <= i < tabs.len() ==> (url_parse((#[trigger] tabs[i]).0) matches Some(u) && u.text
                == tabs[i].0),
        0 <= n <= tabs.len(),
        forall|i: int| 0 <= i < tabs.len() ==> ((#[trigger] tabs[i]).1 <==> i == active),
    ensures
        tab_urls(tabs_found(tabs).take(n)).len() == n,
        forall|i: int|
            0 <= i < n ==> (#[trigger] tab_urls(tabs_found(tabs).take(n))[i]).text == tabs[i].0,
        0 <= active < n ==> active_tab(tabs_found(tabs).take(n)) == active,
    decreases n,
{
    if n > 0 {
        lemma_found(tabs, n - 1, active);
        let f = tabs_found(tabs).take(n);
        assert(f.drop_last() =~= tabs_found(tabs).take(n - 1));
        assert(f.last() == (tabs[n - 1].1, url_parse(tabs[n - 1].0)));
    }
}

/// An empty tab set comes back as none.
pub proof fn empty_session_restores_nothing()
    ensures
        tab_urls(line_tabs(lines(session_text(Seq::empty())))).len() == 0,
        active_tab(line_tabs(lines(session_text(Seq::empty())))) == 0,
{
    let none = Seq::<(Seq<char>, bool)>::empty();
    assert(lines(session_text(none)) =~= Seq::empty());
    assert(line_tabs(lines(session_text(none))) =~= Seq::empty());
}

} // verus!
