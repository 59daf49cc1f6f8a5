//! Text for the internal pages: escaping, and the skeleton that they share.

use vstd::prelude::*;

use crate::text::chars_of;

verus! {

/// How a page starts, up to its title.
pub const PAGE_OPEN: &'static str = "<!DOCTYPE html><html><head><meta charset=\"utf-8\"><title>";

/// What follows the title.
pub const PAGE_TITLE_END: &'static str = "</title>";

/// The style of a page, and its body up to the heading.
pub const PAGE_STYLE: &'static str = "<style>:root{color-scheme:dark}body{background:#1a1b1d;color:#dcdce1;font-family:sans-serif;margin:0;padding:28px 36px}h1{font-size:20px;font-weight:600;margin:0 0 4px}.meta{color:#8a8c92;font-size:13px;margin-bottom:20px}.meta a{color:#7fa3d4;text-decoration:none;margin-left:12px}.e{display:flex;gap:14px;padding:7px 10px;border-radius:8px;align-items:baseline}.e:hover{background:#232427}.w{color:#8a8c92;font-size:12px;min-width:11em}.e a{color:#dcdce1;text-decoration:none;white-space:nowrap;overflow:hidden;text-overflow:ellipsis;max-width:40%}.e a:hover{color:#9fc1ea}.u{color:#6f7177;font-size:12px;white-space:nowrap;overflow:hidden;text-overflow:ellipsis;flex:1}.e a.rm{color:#6f7177;font-size:12px;max-width:none}.e a.rm:hover{color:#d49b9b}.e .tag{color:#7fa3d4;font-size:12px}.empty{color:#8a8c92}</style></head><body><h1>";

/// What follows the heading.
pub const PAGE_HEADING_END: &'static str = "</h1><div class=meta>";

/// What follows the line under the heading.
pub const PAGE_META_END: &'static str = "</div>";

/// How a page ends: a script that writes out the times, in local terms.
pub const PAGE_CLOSE: &'static str = "<script>for(const el of document.querySelectorAll('[data-ts]')){const d=new Date(1000*+el.dataset.ts);el.textContent=d.toLocaleDateString()+'  '+d.toLocaleTimeString([],{hour:'2-digit',minute:'2-digit'});}</script></body></html>";

/// The text of a page: its title, a line under the heading, a body, and what is added to its head.
pub open spec fn page_text(
    title: Seq<char>,
    meta: Seq<char>,
    body: Seq<char>,
    head_extra: Seq<char>,
) -> Seq<char> {
    PAGE_OPEN@ + title + PAGE_TITLE_END@ + head_extra + PAGE_STYLE@ + title + PAGE_HEADING_END@ + meta
        + PAGE_META_END@ + body + PAGE_CLOSE@
}

/// See [`page_text`].
pub fn page(title: &str, meta: &str, body: &str, head_extra: &str) -> (r: String)
    ensures
        r@ == page_text(title@, meta@, body@, head_extra@),
{
    let mut out = PAGE_OPEN.to_owned();
    out.append(title);
    out.append(PAGE_TITLE_END);
    out.append(head_extra);
    out.append(PAGE_STYLE);
    out.append(title);
    out.append(PAGE_HEADING_END);
    out.append(meta);
    out.append(PAGE_META_END);
    out.append(body);
    out.append(PAGE_CLOSE);
    out
}

/// A character as it stands in markup.
pub open spec fn escaped_char(c: char) -> Seq<char> {
    if c == '&' {
        "&amp;"@
    } else if c == '<' {
        "&lt;"@
    } else if c == '>' {
        "&gt;"@
    } else if c == '"' {
        "&quot;"@
    } else {
        seq![c]
    }
}

/// A text as it stands in markup.
pub open spec fn escaped(s: Seq<char>) -> Seq<char>
    decreases s.len(),
{
    if s.len() == 0 {
        Seq::empty()
    } else {
        escaped_char(s[0]) + escaped(s.drop_first())
    }
}

/// See [`escaped`].
pub fn html_escape(s: &str) -> (r: String)
    ensures
        r@ == escaped(s@),
{
    let v = chars_of(s);
    let mut out = String::new();
    let mut i: usize = 0;
    assert(s@.skip(0) =~= s@);
    assert(out@ + escaped(s@.skip(0)) =~= escaped(s@));
    while i < v.len()
        invariant
            i <= v.len(),
            v@ == s@,
            out@ + escaped(s@.skip(i as int)) == escaped(s@),
        decreases v.len() - i,
    {
        let c = v[i];
        let ghost before = out@;
        assert(s@.skip(i as int).drop_first() =~= s@.skip(i + 1));
        if c == '&' {
            out.append("&amp;");
        } else if c == '<' {
            out.append("&lt;");
        } else if c == '>' {
            out.append("&gt;");
        } else if c == '"' {
            out.append("&quot;");
        } else {
            out.push(c);
        }
        assert(out@ =~= before + escaped_char(c));
        i += 1;
        assert(out@ + escaped(s@.skip(i as int)) =~= before + (escaped_char(c) + escaped(
            s@.skip(i as int),
        )));
    }
    assert(out@ + escaped(s@.skip(i as int)) =~= out@);
    out
}

/// What stands in markup can neither open nor close a tag, nor end a quoted attribute.
pub proof fn escaped_is_inert(s: Seq<char>)
    ensures
        !escaped(s).contains('<'),
        !escaped(s).contains('>'),
        !escaped(s).contains('"'),
    decreases s.len(),
{
    if s.len() > 0 {
        escaped_is_inert(s.drop_first());
        reveal_strlit("&amp;");
        reveal_strlit("&lt;");
        reveal_strlit("&gt;");
        reveal_strlit("&quot;");
        let head = escaped_char(s[0]);
        let tail = escaped(s.drop_first());
        assert forall|c: char| escaped(s).contains(c) implies c != '<' && c != '>' && c != '"' by {
            let i = choose|i: int| 0 <= i < escaped(s).len() && escaped(s)[i] == c;
            if i < head.len() {
                assert(head[i] == c);
            } else {
                assert(tail[i - head.len()] == c);
                assert(tail.contains(c));
            }
        }
    }
}

/// What a reader of markup makes of a text: each of the four entities read as its character.
pub open spec fn unescaped(t: Seq<char>) -> Seq<char>
    decreases t.len(),
{
    if t.len() == 0 {
        Seq::empty()
    } else if t.len() >= 5 && t.take(5) == "&amp;"@ {
        seq!['&'] + unescaped(t.skip(5))
    } else if t.len() >= 4 && t.take(4) == "&lt;"@ {
        seq!['<'] + unescaped(t.skip(4))
    } else if t.len() >= 4 && t.take(4) == "&gt;"@ {
        seq!['>'] + unescaped(t.skip(4))
    } else if t.len() >= 6 && t.take(6) == "&quot;"@ {
        seq!['"'] + unescaped(t.skip(6))
    } else {
        seq![t[0]] + unescaped(t.drop_first())
    }
}

/// A text put into markup reads back as it was.
pub proof fn escaped_reads_back(s: Seq<char>)
    ensures
        unescaped(escaped(s)) == s,
    decreases s.len(),
{
    if s.len() == 0 {
        assert(unescaped(escaped(s)) =~= s);
    } else {
        let c = s[0];
        let head = escaped_char(c);
        let tail = escaped(s.drop_first());
        let t = escaped(s);
        escaped_reads_back(s.drop_first());
        reveal_strlit("&amp;");
        reveal_strlit("&lt;");
        reveal_strlit("&gt;");
        reveal_strlit("&quot;");
        assert(t.take(head.len() as int) =~= head);
        assert(t.skip(head.len() as int) =~= tail);
        if c == '<' || c == '>' || c == '"' {
            assert(t[1] == head[1]);
            assert(t[1] != 'a');
            if t.len() >= 5 && t.take(5) == "&amp;"@ {
                assert(t.take(5)[1] == 'a');
            }
            if c != '<' && t.len() >= 4 && t.take(4) == "&lt;"@ {
                assert(t.take(4)[1] == 'l');
            }
            if c == '"' && t.len() >= 4 && t.take(4) == "&gt;"@ {
                assert(t.take(4)[1] == 'g');
            }
        } else if c != '&' {
            assert(t[0] == c);
            if t.len() >= 5 {
                assert(t.take(5)[0] == c);
            }
            if t.len() >= 4 {
                assert(t.take(4)[0] == c);
            }
            if t.len() >= 6 {
                assert(t.take(6)[0] == c);
            }
            assert(t.drop_first() =~= tail);
        }
        assert(seq![c] + s.drop_first() =~= s);
    }
}

} // verus!
