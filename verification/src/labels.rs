//! Labels that have to fit.

use vstd::prelude::*;
use vstd::utf8::*;

use crate::positions::{
    boundary, chars_before, cut_at, lemma_at_ends, lemma_boundary, lemma_ends, prev_boundary,
};
use crate::text::{byte_len, same};
use crate::weburl::{url_opt, view_opt, Url, UrlView};

verus! {

/// The first `k` characters of a text, and dots for the rest.
pub open spec fn cut_label(text: Seq<char>, k: int) -> Seq<char> {
    text.take(k) + "..."@
}

/// Whether `fits` was asked about a text, and what it said.
pub open spec fn said<F: Fn(&str) -> bool>(fits: F, text: Seq<char>, answer: bool) -> bool {
    exists|s: &str| s@ == text && #[trigger] call_ensures(fits, (s,), answer)
}

/// Whether `r` is the label for a text by the answers of `fits`: the text itself where that fits,
/// else the longest start of it that fits with dots after it, else nothing.
pub open spec fn is_label<F: Fn(&str) -> bool>(fits: F, text: Seq<char>, r: Seq<char>) -> bool {
    ||| r == text && said(fits, text, true)
    ||| said(fits, text, false) && exists|k: int|
        0 <= k < text.len() && r == #[trigger] cut_label(text, k) && said(
            fits,
            cut_label(text, k),
            true,
        ) && forall|j: int|
            k < j < text.len() ==> said(fits, #[trigger] cut_label(text, j), false)
    ||| said(fits, text, false) && r.len() == 0 && forall|j: int|
        0 <= j < text.len() ==> said(fits, #[trigger] cut_label(text, j), false)
}

/// The widest start of a text that fits, with dots where something was cut. `fits` measures a text
/// as it would be drawn.
pub fn fit_text<F: Fn(&str) -> bool>(text: &str, fits: F) -> (r: String)
    requires
        forall|s: &str| #[trigger] call_requires(fits, (s,)),
    ensures
        is_label(fits, text@, r@),
{
    if fits(text) {
        return text.to_owned();
    }
    proof {
        lemma_ends(text@);
    }
    let mut end = byte_len(text);
    while end > 0
        invariant
            forall|s: &str| #[trigger] call_requires(fits, (s,)),
            boundary(text@, end as int),
            said(fits, text@, false),
            0 <= chars_before(text@, end as int) <= text@.len(),
            forall|j: int|
                chars_before(text@, end as int) <= j < text@.len() ==> said(
                    fits,
                    #[trigger] cut_label(text@, j),
                    false,
                ),
        decreases end,
    {
        let ghost k = chars_before(text@, end as int);
        proof {
            lemma_at_ends(text@, end as int);
        }
        end = prev_boundary(text, end);
        proof {
            lemma_boundary(text@, end as int);
        }
        let (mut cut, _rest) = cut_at(text, end);
        cut.append("...");
        assert(cut@ == cut_label(text@, k - 1));
        if fits(cut.as_str()) {
            assert(said(fits, cut_label(text@, k - 1), true));
            return cut;
        }
        assert(said(fits, cut_label(text@, k - 1), false));
    }
    proof {
        lemma_at_ends(text@, 0);
    }
    String::new()
}

/// What a tab's pill says: the page's title, else its address, and for a blank page that it is new.
pub open spec fn pill_text(title: Option<Seq<char>>, url: Option<UrlView>) -> Seq<char> {
    let said = match title {
        Some(t) if t.len() > 0 => Some(t),
        _ => match url {
            Some(u) => Some(u.text),
            None => None,
        },
    };
    match said {
        Some(t) if t != "about:blank"@ => t,
        _ => "New Tab"@,
    }
}

/// See [`pill_text`].
pub fn tab_label(title: &Option<String>, url: &Option<Url>) -> (r: String)
    ensures
        r@ == pill_text(view_opt(*title), url_opt(*url)),
{
    let said = match title {
        Some(t) if !t.as_str().is_empty() => Some(t.clone()),
        _ => match url {
            Some(u) => Some(u.as_str().to_owned()),
            None => None,
        },
    };
    match said {
        Some(t) => if same(t.as_str(), "about:blank") {
            "New Tab".to_owned()
        } else {
            t
        },
        None => "New Tab".to_owned(),
    }
}

} // verus!
