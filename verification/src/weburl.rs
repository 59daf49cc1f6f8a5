//! Addresses: the parts of a URL that the browser reads, and query strings.

use vstd::prelude::*;
use vstd::utf8::*;

use crate::text::{chars_of, same, text_of};

verus! {

/// A parsed address.
#[derive(Debug)]
pub struct Url {
    text: String,
    scheme: String,
    host: Option<String>,
    path: String,
}

/// What an address is made of, as texts.
#[verifier::ext_equal]
pub struct UrlView {
    /// The whole address.
    pub text: Seq<char>,
    pub scheme: Seq<char>,
    pub host: Option<Seq<char>>,
    pub path: Seq<char>,
}

/// Whether a text has none of the characters that end a line or a field of a log.
pub open spec fn one_line(s: Seq<char>) -> bool {
    !s.contains('\t') && !s.contains('\n') && !s.contains('\r')
}

/// An optional text.
pub open spec fn view_opt(s: Option<String>) -> Option<Seq<char>> {
    match s {
        Some(t) => Some(t@),
        None => None,
    }
}

impl View for Url {
    type V = UrlView;

    closed spec fn view(&self) -> UrlView {
        UrlView {
            text: self.text@,
            scheme: self.scheme@,
            host: view_opt(self.host),
            path: self.path@,
        }
    }
}

/// The views of an optional address.
pub open spec fn url_opt(u: Option<Url>) -> Option<UrlView> {
    match u {
        Some(u) => Some(u@),
        None => None,
    }
}

/// What `url::Url::parse` makes of a text: the parts of the address, or nothing where the text is
/// no absolute URL.
pub uninterp spec fn url_parse(s: Seq<char>) -> Option<UrlView>;

/// `url::Url::parse`, and of the URL it gives `as_str`, `scheme`, `host_str` and `path`, in this
/// order. The contract names the four together. Of a URL it says that every part is an ASCII
/// string, and that the whole holds neither a tab nor a line break, which the parser drops. It does
/// not say that the whole parses to the same URL again: the crate promises that nowhere.
#[verifier::external_body]
fn parse_parts(s: &str) -> (r: Option<(String, String, Option<String>, String)>)
    ensures
        (match r {
            Some((text, scheme, host, path)) => {
                &&& url_parse(s@) == Some(
                    UrlView { text: text@, scheme: scheme@, host: view_opt(host), path: path@ },
                )
                &&& is_ascii_chars(text@)
                &&& is_ascii_chars(path@)
                &&& host matches Some(h) ==> is_ascii_chars(h@)
                &&& one_line(text@)
            },
            None => url_parse(s@) is None,
        }),
{
    let u = url::Url::parse(s).ok()?;
    let host = u.host_str().map(str::to_owned);
    Some((u.as_str().to_owned(), u.scheme().to_owned(), host, u.path().to_owned()))
}

/// What `url::Url::from_file_path` makes of a path, on Unix: the parts of the address, or nothing
/// where the path is not absolute.
pub uninterp spec fn file_url(path: Seq<char>) -> Option<UrlView>;

/// `url::Url::from_file_path`, with the parts of the URL as in [`parse_parts`]. The contract names
/// them together, says that a path is turned into a URL where it starts with a slash and not
/// otherwise, that the scheme is `file`, and that the parts are ASCII on one line: what is not is
/// percent-encoded.
#[verifier::external_body]
fn file_parts(path: &str) -> (r: Option<(String, String, Option<String>, String)>)
    ensures
        (match r {
            Some((text, scheme, host, parts)) => {
                &&& file_url(path@) == Some(
                    UrlView { text: text@, scheme: scheme@, host: view_opt(host), path: parts@ },
                )
                &&& scheme@ == "file"@
                &&& is_ascii_chars(text@)
                &&& is_ascii_chars(parts@)
                &&& host matches Some(h) ==> is_ascii_chars(h@)
                &&& one_line(text@)
            },
            None => file_url(path@) is None,
        }),
        r is Some == (path@.len() > 0 && path@[0] == '/'),
{
    let u = url::Url::from_file_path(path).ok()?;
    let host = u.host_str().map(str::to_owned);
    Some((u.as_str().to_owned(), u.scheme().to_owned(), host, u.path().to_owned()))
}

impl Url {
    /// Every part of an address is ASCII, and the whole stands on one line.
    #[verifier::type_invariant]
    spec fn inv(self) -> bool {
        &&& is_ascii_chars(self.text@)
        &&& is_ascii_chars(self.path@)
        &&& self.host matches Some(h) ==> is_ascii_chars(h@)
        &&& one_line(self.text@)
    }

    /// Parses an absolute address.
    pub fn parse(s: &str) -> (r: Option<Url>)
        ensures
            url_opt(r) == url_parse(s@),
    {
        match parse_parts(s) {
            Some((text, scheme, host, path)) => Some(Url { text, scheme, host, path }),
            None => None,
        }
    }

    /// The address of a file, by its absolute path.
    pub fn from_file_path(path: &str) -> (r: Option<Url>)
        ensures
            url_opt(r) == file_url(path@),
            r is Some <==> path@.len() > 0 && path@[0] == '/',
            r matches Some(u) ==> u@.scheme == "file"@,
    {
        match file_parts(path) {
            Some((text, scheme, host, path)) => Some(Url { text, scheme, host, path }),
            None => None,
        }
    }

    /// The whole address.
    pub fn as_str(&self) -> (r: &str)
        ensures
            r@ == self@.text,
            is_ascii_chars(r@),
            one_line(r@),
    {
        proof {
            use_type_invariant(self);
        }
        self.text.as_str()
    }

    /// The scheme, in small letters and without the colon.
    pub fn scheme(&self) -> (r: &str)
        ensures
            r@ == self@.scheme,
    {
        self.scheme.as_str()
    }

    /// The host, where the address has one.
    pub fn host_str(&self) -> (r: Option<&str>)
        ensures
            (match r {
                Some(h) => self@.host == Some(h@) && is_ascii_chars(h@),
                None => self@.host is None,
            }),
    {
        proof {
            use_type_invariant(self);
        }
        match &self.host {
            Some(h) => Some(h.as_str()),
            None => None,
        }
    }

    /// The path, percent-encoded.
    pub fn path(&self) -> (r: &str)
        ensures
            r@ == self@.path,
            is_ascii_chars(r@),
    {
        proof {
            use_type_invariant(self);
        }
        self.path.as_str()
    }

    /// A second copy of the address.
    pub fn copy(&self) -> (r: Url)
        ensures
            r@ == self@,
    {
        proof {
            use_type_invariant(self);
        }
        let host = match &self.host {
            Some(h) => Some(h.clone()),
            None => None,
        };
        Url { text: self.text.clone(), scheme: self.scheme.clone(), host, path: self.path.clone() }
    }

    /// The last of the path's segments, where the path has segments.
    pub fn last_segment(&self) -> (r: Option<String>)
        ensures
            view_opt(r) == last_segment_of(self@.path),
            r matches Some(s) ==> is_ascii_chars(s@),
    {
        let v = chars_of(self.path());
        if v.len() == 0 || v[0] != '/' {
            return None;
        }
        let mut i: usize = v.len();
        while v[i - 1] != '/'
            invariant
                1 <= i <= v.len(),
                v@ == self@.path,
                v@[0] == '/',
                forall|j: int| i <= j < v.len() ==> v@[j] != '/',
            decreases i,
        {
            i -= 1;
        }
        let r = text_of(&v, i, v.len());
        proof {
            assert(r@ =~= v@.skip(i as int));
            lemma_after_last(v@, '/', i - 1);
            use_type_invariant(self);
        }
        Some(r)
    }
}

/// What stands after the last `c` of a text, or the whole text where there is none.
pub open spec fn after_last(s: Seq<char>, c: char) -> Seq<char>
    decreases s.len(),
{
    if s.len() == 0 || s.last() == c {
        Seq::empty()
    } else {
        after_last(s.drop_last(), c).push(s.last())
    }
}

proof fn lemma_after_last(s: Seq<char>, c: char, k: int)
    requires
        0 <= k < s.len(),
        s[k] == c,
        forall|j: int| k < j < s.len() ==> s[j] != c,
    ensures
        after_last(s, c) == s.skip(k + 1),
    decreases s.len(),
{
    if k == s.len() - 1 {
        assert(s.skip(k + 1) =~= Seq::empty());
    } else {
        lemma_after_last(s.drop_last(), c, k);
        assert(s.drop_last().skip(k + 1).push(s.last()) =~= s.skip(k + 1));
    }
}

/// The last of the segments of a path: what follows its last slash. A path that does not start
/// with a slash has no segments.
pub open spec fn last_segment_of(path: Seq<char>) -> Option<Seq<char>> {
    if path.len() > 0 && path[0] == '/' {
        Some(after_last(path, '/'))
    } else {
        None
    }
}

// ---------------------------------------------------------------------------------------------
// Query strings
// ---------------------------------------------------------------------------------------------

/// Whether a byte stands for itself in an encoded form.
pub open spec fn form_plain(b: u8) -> bool {
    ||| 48 <= b <= 57
    ||| 65 <= b <= 90
    ||| 97 <= b <= 122
    ||| b == 42
    ||| b == 45
    ||| b == 46
    ||| b == 95
}

/// The capital hexadecimal digit of value `d`.
pub open spec fn hex_capital(d: int) -> char {
    if d < 10 {
        (48 + d) as char
    } else {
        (55 + d) as char
    }
}

/// One byte of an encoded form: itself, a plus sign for a space, or a percent sign and two
/// hexadecimal digits.
pub open spec fn form_byte(b: u8) -> Seq<char> {
    if form_plain(b) {
        seq![b as char]
    } else if b == 32 {
        seq!['+']
    } else {
        seq!['%', hex_capital(b as int / 16), hex_capital(b as int % 16)]
    }
}

/// A run of bytes as it stands in an encoded form.
pub open spec fn form_bytes(bytes: Seq<u8>) -> Seq<char>
    decreases bytes.len(),
{
    if bytes.len() == 0 {
        Seq::empty()
    } else {
        form_bytes(bytes.drop_last()) + form_byte(bytes.last())
    }
}

/// A text as it stands in an encoded form.
pub open spec fn form_text(s: Seq<char>) -> Seq<char> {
    form_bytes(encode_utf8(s))
}

/// `url::form_urlencoded::byte_serialize` on the bytes of a text, the pieces joined: digits,
/// letters, `*`, `-`, `.` and `_` stay, a space becomes a plus sign, and any other byte a percent
/// sign and two capital hexadecimal digits.
#[verifier::external_body]
pub(crate) fn url_encode(s: &str) -> (r: String)
    ensures
        r@ == form_text(s@),
{
    url::form_urlencoded::byte_serialize(s.as_bytes()).collect()
}

/// Pairs of a name and a value.
pub open spec fn pair_views(v: Seq<(String, String)>) -> Seq<(Seq<char>, Seq<char>)> {
    v.map_values(|p: (String, String)| (p.0@, p.1@))
}

/// The query string that spells out a list of pairs.
pub open spec fn form_query(pairs: Seq<(Seq<char>, Seq<char>)>) -> Seq<char>
    decreases pairs.len(),
{
    if pairs.len() == 0 {
        Seq::empty()
    } else {
        let (k, v) = pairs.last();
        let piece = form_text(k) + seq!['='] + form_text(v);
        if pairs.len() == 1 {
            piece
        } else {
            form_query(pairs.drop_last()) + seq!['&'] + piece
        }
    }
}

/// What `url::form_urlencoded::parse` reads in a query string.
pub uninterp spec fn form_pairs(query: Seq<char>) -> Seq<(Seq<char>, Seq<char>)>;

/// `url::form_urlencoded::parse` on the bytes of a text, each pair turned into two strings. The
/// contract names the list, and says that a query which spells out a list of pairs in the encoding
/// of [`url_encode`] reads as that list.
#[verifier::external_body]
pub(crate) fn parse_query(query: &str) -> (r: Vec<(String, String)>)
    ensures
        pair_views(r@) == form_pairs(query@),
        forall|pairs: Seq<(Seq<char>, Seq<char>)>|
            query@ == #[trigger] form_query(pairs) ==> pair_views(r@) == pairs,
{
    url::form_urlencoded::parse(query.as_bytes()).into_owned().collect()
}

/// The value of the first pair of that name.
pub open spec fn first_value(pairs: Seq<(Seq<char>, Seq<char>)>, name: Seq<char>) -> Option<
    Seq<char>,
>
    decreases pairs.len(),
{
    if pairs.len() == 0 {
        None
    } else if pairs[0].0 == name {
        Some(pairs[0].1)
    } else {
        first_value(pairs.drop_first(), name)
    }
}

/// See [`first_value`].
pub fn find_param(pairs: &Vec<(String, String)>, name: &str) -> (r: Option<String>)
    ensures
        view_opt(r) == first_value(pair_views(pairs@), name@),
{
    let ghost all = pair_views(pairs@);
    let mut i: usize = 0;
    assert(all.skip(0) =~= all);
    while i < pairs.len()
        invariant
            i <= pairs.len(),
            all == pair_views(pairs@),
            first_value(all, name@) == first_value(all.skip(i as int), name@),
        decreases pairs.len() - i,
    {
        assert(all.skip(i as int)[0] == all[i as int]);
        if same(pairs[i].0.as_str(), name) {
            return Some(pairs[i].1.clone());
        }
        assert(all.skip(i as int).drop_first() =~= all.skip(i + 1));
        i += 1;
    }
    None
}

} // verus!
