//! What is typed or passed as an address, and what it is taken to mean.

use vstd::prelude::*;

use crate::paths::str_opt;
use crate::text::{
    ascii_lower_text, chars_of, contains_char, ends_with, find_char, index_of, is_white,
    char_is_white, same, same_ignoring_ascii_case, starts_with, text_of, trim, trim_start, trimmed,
};
use crate::weburl::{file_url, form_text, url_encode, url_opt, url_parse, view_opt, Url, UrlView};

verus! {

/// The internal page that a name in the address bar stands for.
pub open spec fn named_page(s: Seq<char>) -> Option<Seq<char>> {
    let t = ascii_lower_text(s);
    if t == ascii_lower_text("about:history"@) {
        Some("cce://history"@)
    } else if t == ascii_lower_text("about:bookmarks"@) {
        Some("cce://bookmarks"@)
    } else if t == ascii_lower_text("about:favorites"@) {
        Some("cce://favorites"@)
    } else if t == ascii_lower_text("about:downloads"@) {
        Some("cce://downloads"@)
    } else if t == ascii_lower_text("about:cookies"@) {
        Some("cce://cookies"@)
    } else {
        None
    }
}

/// See [`named_page`].
pub fn page_named(s: &str) -> (r: Option<&'static str>)
    ensures
        str_opt(r) == named_page(s@),
{
    if same_ignoring_ascii_case(s, "about:history") {
        Some("cce://history")
    } else if same_ignoring_ascii_case(s, "about:bookmarks") {
        Some("cce://bookmarks")
    } else if same_ignoring_ascii_case(s, "about:favorites") {
        Some("cce://favorites")
    } else if same_ignoring_ascii_case(s, "about:downloads") {
        Some("cce://downloads")
    } else if same_ignoring_ascii_case(s, "about:cookies") {
        Some("cce://cookies")
    } else {
        None
    }
}

/// Whether an address can be loaded as it stands.
pub open spec fn loadable(u: UrlView) -> bool {
    u.scheme == "http"@ || u.scheme == "https"@ || u.scheme == "file"@ || u.scheme == "data"@
        || u.scheme == "about"@ || u.scheme == "cce"@
}

fn is_loadable(u: &Url) -> (r: bool)
    ensures
        r == loadable(u@),
{
    let s = u.scheme();
    same(s, "http") || same(s, "https") || same(s, "file") || same(s, "data") || same(s, "about")
        || same(s, "cce")
}

/// Whether a text could be a bare host: it has a dot and no space.
pub open spec fn hostlike(s: Seq<char>) -> bool {
    !s.contains(' ') && s.contains('.')
}

/// What is loaded for a text, given what it parses to as it stands, with `https://` before it, and
/// as a search: itself where it can be loaded, else a host where it looks like one, else a search.
pub open spec fn chosen(
    s: Seq<char>,
    as_is: Option<UrlView>,
    as_host: Option<UrlView>,
    as_search: Option<UrlView>,
) -> Option<UrlView> {
    if as_is is Some && loadable(as_is->0) {
        as_is
    } else if hostlike(s) && as_host is Some {
        as_host
    } else {
        as_search
    }
}

/// See [`chosen`].
pub fn choose_url(
    s: &str,
    as_is: Option<Url>,
    as_host: Option<Url>,
    as_search: Option<Url>,
) -> (r: Option<Url>)
    ensures
        url_opt(r) == chosen(s@, url_opt(as_is), url_opt(as_host), url_opt(as_search)),
{
    if let Some(u) = as_is {
        if is_loadable(&u) {
            return Some(u);
        }
    }
    if !contains_char(s, ' ') && contains_char(s, '.') {
        if let Some(u) = as_host {
            return Some(u);
        }
    }
    as_search
}

/// What the address bar's text is taken to mean: an internal page by its name, an address as it
/// stands, a bare host, or else a search. White space around it does not count, and a blank text
/// means nothing.
pub open spec fn input_url(input: Seq<char>, search_prefix: Seq<char>) -> Option<UrlView> {
    let s = trimmed(input);
    if s.len() == 0 {
        None
    } else {
        match named_page(s) {
            Some(page) => url_parse(page),
            None => chosen(
                s,
                url_parse(s),
                url_parse("https://"@ + s),
                url_parse(search_prefix + form_text(s)),
            ),
        }
    }
}

/// See [`input_url`].
pub fn parse_url_input(input: &str, search_prefix: &str) -> (r: Option<Url>)
    ensures
        url_opt(r) == input_url(input@, search_prefix@),
{
    let s = trim(input);
    if s.as_str().is_empty() {
        return None;
    }
    if let Some(page) = page_named(s.as_str()) {
        return Url::parse(page);
    }
    let as_is = Url::parse(s.as_str());
    let mut guess = "https://".to_owned();
    guess.append(s.as_str());
    let as_host = Url::parse(guess.as_str());
    let mut query = search_prefix.to_owned();
    let terms = url_encode(s.as_str());
    query.append(terms.as_str());
    let as_search = Url::parse(query.as_str());
    choose_url(s.as_str(), as_is, as_host, as_search)
}

/// What a launch's argument is taken to mean: an existing file by its absolute path, and anything
/// else as in the address bar.
pub open spec fn argument_url(
    arg: Seq<char>,
    existing: Option<Seq<char>>,
    search_prefix: Seq<char>,
) -> Option<UrlView> {
    match existing {
        Some(path) => match file_url(path) {
            Some(u) => Some(u),
            None => input_url(arg, search_prefix),
        },
        None => input_url(arg, search_prefix),
    }
}

/// See [`argument_url`]. `existing` is the absolute path that the argument names, where it names a
/// file that exists.
pub fn parse_startup_arg(arg: &str, existing: Option<&str>, search_prefix: &str) -> (r: Option<Url>)
    ensures
        url_opt(r) == argument_url(arg@, str_opt(existing), search_prefix@),
{
    if let Some(path) = existing {
        if let Some(u) = Url::from_file_path(path) {
            return Some(u);
        }
    }
    parse_url_input(arg, search_prefix)
}

/// Whether a host is this machine. An address spells the last of the numbers in brackets.
pub open spec fn loopback(host: Seq<char>) -> bool {
    ||| host == "localhost"@
    ||| ".localhost"@.is_suffix_of(host)
    ||| host == "127.0.0.1"@
    ||| host == "::1"@
    ||| host == "[::1]"@
}

/// Whether a password filled into a page would leave it in the clear: its origin is not `https`,
/// and its host is not this machine.
pub open spec fn insecure(origin: Seq<char>, host: Seq<char>) -> bool {
    origin.take(index_of(origin, ':')) != "https"@ && !loopback(host)
}

/// See [`insecure`].
pub fn insecure_origin(origin: &str, host: &str) -> (r: bool)
    ensures
        r == insecure(origin@, host@),
{
    let v = chars_of(origin);
    let k = find_char(&v, 0, ':');
    assert(v@.skip(0) =~= v@);
    let scheme = text_of(&v, 0, k);
    assert(scheme@ =~= origin@.take(index_of(origin@, ':')));
    let secure = same(scheme.as_str(), "https");
    let local = same(host, "localhost") || ends_with(host, ".localhost") || same(host, "127.0.0.1")
        || same(host, "::1") || same(host, "[::1]");
    !secure && !local
}

// ---------------------------------------------------------------------------------------------
// Another browser
// ---------------------------------------------------------------------------------------------

/// The index of the first character of `s` that is white space, or the length of `s`.
pub open spec fn white_index(s: Seq<char>) -> int
    decreases s.len(),
{
    if s.len() == 0 || is_white(s[0]) {
        0
    } else {
        1 + white_index(s.drop_first())
    }
}

proof fn lemma_white_index(s: Seq<char>)
    ensures
        0 <= white_index(s) <= s.len(),
        s.len() > 0 && !is_white(s[0]) ==> white_index(s) > 0,
    decreases s.len(),
{
    if s.len() > 0 && !is_white(s[0]) {
        lemma_white_index(s.drop_first());
    }
}

/// The words of a text: its runs of characters that are not white space.
pub open spec fn words(s: Seq<char>) -> Seq<Seq<char>>
    decreases s.len(),
    via words_decreases
{
    if s.len() == 0 {
        Seq::empty()
    } else if is_white(s[0]) {
        words(s.drop_first())
    } else {
        let k = white_index(s);
        seq![s.take(k)] + words(s.skip(k))
    }
}

#[via_fn]
proof fn words_decreases(s: Seq<char>) {
    lemma_white_index(s);
}

/// See [`words`].
pub fn split_words(s: &str) -> (r: Vec<String>)
    ensures
        crate::split::views(r@) == words(s@),
{
    let v = chars_of(s);
    let mut out: Vec<String> = Vec::new();
    let mut a: usize = 0;
    assert(v@.skip(0) =~= s@);
    assert(crate::split::views(out@) + words(v@.skip(0)) =~= words(s@));
    while a < v.len()
        invariant
            a <= v.len(),
            v@ == s@,
            crate::split::views(out@) + words(v@.skip(a as int)) == words(s@),
        decreases v.len() - a,
    {
        let ghost rest = v@.skip(a as int);
        let ghost before = crate::split::views(out@);
        if char_is_white(v[a]) {
            assert(rest.drop_first() =~= v@.skip(a + 1));
            a += 1;
        } else {
            let mut b: usize = a + 1;
            assert(rest.drop_first() =~= v@.skip(b as int));
            while b < v.len() && !char_is_white(v[b])
                invariant
                    a < b <= v.len(),
                    rest == v@.skip(a as int),
                    white_index(rest) == (b - a) + white_index(v@.skip(b as int)),
                decreases v.len() - b,
            {
                assert(v@.skip(b as int).drop_first() =~= v@.skip(b + 1));
                b += 1;
            }
            let word = text_of(&v, a, b);
            proof {
                assert(word@ =~= rest.take(b - a));
                assert(rest.skip(b - a) =~= v@.skip(b as int));
            }
            out.push(word);
            assert(crate::split::views(out@) =~= before + seq![word@]);
            assert(crate::split::views(out@) + words(v@.skip(b as int)) =~= before + words(rest));
            a = b;
        }
    }
    assert(crate::split::views(out@) + words(v@.skip(a as int)) =~= crate::split::views(out@));
    out
}

/// The program and its arguments that open a page in another browser: the command that is set, or
/// the desktop's own way, unless that would come back here. `handler` is what the desktop has for
/// web pages.
pub open spec fn outside_words(configured: Option<Seq<char>>, handler: Seq<char>) -> Option<
    Seq<Seq<char>>,
> {
    let command = match configured {
        Some(c) => Some(c),
        None => if "cce-browser"@.is_prefix_of(trim_start(handler)) {
            None
        } else {
            Some("xdg-open"@)
        },
    };
    match command {
        Some(c) if words(c).len() > 0 => Some(words(c)),
        _ => None,
    }
}

fn without_leading_white(s: &str) -> (r: String)
    ensures
        r@ == trim_start(s@),
{
    let v = chars_of(s);
    let mut a: usize = 0;
    assert(v@.skip(0) =~= s@);
    while a < v.len() && char_is_white(v[a])
        invariant
            a <= v.len(),
            v@ == s@,
            trim_start(s@) == trim_start(v@.skip(a as int)),
        decreases v.len() - a,
    {
        assert(v@.skip(a as int).drop_first() =~= v@.skip(a as int + 1));
        a += 1;
    }
    let r = text_of(&v, a, v.len());
    assert(r@ =~= v@.skip(a as int));
    r
}

/// See [`outside_words`].
pub fn outside_command(configured: &Option<String>, handler: &str) -> (r: Option<Vec<String>>)
    ensures
        (match r {
            Some(w) => outside_words(view_opt(*configured), handler@) == Some(
                crate::split::views(w@),
            ),
            None => outside_words(view_opt(*configured), handler@) is None,
        }),
{
    let command = match configured {
        Some(c) => c.clone(),
        None => {
            let h = without_leading_white(handler);
            if starts_with(h.as_str(), "cce-browser") {
                return None;
            }
            "xdg-open".to_owned()
        },
    };
    let w = split_words(command.as_str());
    assert(crate::split::views(w@).len() == w@.len());
    if w.len() == 0 {
        None
    } else {
        Some(w)
    }
}

} // verus!
