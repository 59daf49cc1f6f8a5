//! What is loaded for what was typed, what is fetched as a file, and what the settings come to.

use vstd::prelude::*;

use crate::address::{argument_url, input_url, insecure, outside_words, words};
use crate::browser::commands::scheme_applied;
use crate::action::ActionView;
use crate::downloads::downloads;
use crate::settings::{settings_of, BarPosition, ColorScheme, Config, SettingsView};
use crate::text::{
    ascii_lower_text, is_white, lemma_index_of_is, lemma_trim_tight, trim_end, trim_start, trimmed,
};
use crate::weburl::{file_url, form_text, url_parse, UrlView};
use crate::wpe::host::HostView;

verus! {

// ---------------------------------------------------------------------------------------------
// Texts
// ---------------------------------------------------------------------------------------------

/// Whether a text is white space alone.
pub open spec fn blank(s: Seq<char>) -> bool {
    forall|i: int| 0 <= i < s.len() ==> is_white(#[trigger] s[i])
}

/// Whether a text neither starts nor ends with white space, and is not empty.
pub open spec fn tight(s: Seq<char>) -> bool {
    s.len() > 0 && !is_white(s[0]) && !is_white(s.last())
}

/// Trimming takes white space from both ends and nothing else.
pub proof fn trimming_takes_white_alone(s: Seq<char>, left: Seq<char>, right: Seq<char>)
    requires
        blank(left),
        blank(right),
    ensures
        tight(s) ==> trimmed(left + s + right) == s,
        trimmed(left).len() == 0,
{
    if tight(s) {
        lemma_trim_start(left, s + right);
        assert(left + s + right =~= left + (s + right));
        assert((s + right)[0] == s[0]);
        assert(trim_start(s + right) == s + right);
        lemma_trim_end(s, right);
        assert(trim_end(s) == s);
    }
    lemma_trim_start(left, Seq::empty());
    assert(left + Seq::<char>::empty() =~= left);
}

proof fn lemma_trim_start(left: Seq<char>, s: Seq<char>)
    requires
        blank(left),
    ensures
        trim_start(left + s) == trim_start(s),
    decreases left.len(),
{
    if left.len() > 0 {
        assert((left + s).drop_first() =~= left.drop_first() + s);
        assert forall|i: int| 0 <= i < left.drop_first().len() implies is_white(
            #[trigger] left.drop_first()[i],
        ) by {
            assert(left.drop_first()[i] == left[i + 1]);
        }
        lemma_trim_start(left.drop_first(), s);
    } else {
        assert(left + s =~= s);
    }
}

proof fn lemma_trim_end(s: Seq<char>, right: Seq<char>)
    requires
        blank(right),
    ensures
        trim_end(s + right) == trim_end(s),
    decreases right.len(),
{
    if right.len() > 0 {
        assert((s + right).drop_last() =~= s + right.drop_last());
        assert((s + right).last() == right.last());
        lemma_trim_end(s, right.drop_last());
    } else {
        assert(s + right =~= s);
    }
}

/// The space, the tab and the line breaks are white space; letters, digits and what stands in an
/// address are not.
pub proof fn white_space_is_what_it_is(c: char)
    ensures
        is_white(' ') && is_white('\t') && is_white('\n') && is_white('\r'),
        '!' <= c <= '~' ==> !is_white(c),
{
}

/// Small letters stand for their capitals, and every other character for itself.
pub proof fn small_letters_keep_the_text(s: Seq<char>, i: int)
    requires
        0 <= i < s.len(),
    ensures
        ascii_lower_text(s).len() == s.len(),
        !('A' <= s[i] <= 'Z') ==> ascii_lower_text(s)[i] == s[i],
        'A' <= s[i] <= 'Z' ==> ascii_lower_text(s)[i] as int == s[i] as int + 32,
        ascii_lower_text(ascii_lower_text(s)) == ascii_lower_text(s),
{
    assert(ascii_lower_text(ascii_lower_text(s)) =~= ascii_lower_text(s));
}

// ---------------------------------------------------------------------------------------------
// The address bar
// ---------------------------------------------------------------------------------------------

/// White space around what was typed makes no difference, and blank text means nothing.
pub proof fn white_space_around_does_not_count(
    s: Seq<char>,
    left: Seq<char>,
    right: Seq<char>,
    search: Seq<char>,
)
    requires
        blank(left),
        blank(right),
    ensures
        tight(s) ==> input_url(left + s + right, search) == input_url(s, search),
        input_url(left, search) is None,
{
    trimming_takes_white_alone(s, left, right);
    if tight(s) {
        lemma_trim_tight(s);
    }
}

/// Whether a text is the name of an internal page.
pub open spec fn is_page_name(s: Seq<char>) -> bool {
    seq![
        ascii_lower_text("about:history"@),
        ascii_lower_text("about:bookmarks"@),
        ascii_lower_text("about:favorites"@),
        ascii_lower_text("about:downloads"@),
        ascii_lower_text("about:cookies"@),
    ].contains(ascii_lower_text(s))
}

/// Whether an address has one of the schemes that the browser can show.
pub open spec fn can_be_shown(u: UrlView) -> bool {
    seq!["http"@, "https"@, "file"@, "data"@, "about"@, "cce"@].contains(u.scheme)
}

proof fn lemma_no_page(s: Seq<char>)
    requires
        !is_page_name(s),
    ensures
        crate::address::named_page(s) is None,
{
    let names = seq![
        ascii_lower_text("about:history"@),
        ascii_lower_text("about:bookmarks"@),
        ascii_lower_text("about:favorites"@),
        ascii_lower_text("about:downloads"@),
        ascii_lower_text("about:cookies"@),
    ];
    assert(names[0] == ascii_lower_text("about:history"@));
    assert(names[1] == ascii_lower_text("about:bookmarks"@));
    assert(names[2] == ascii_lower_text("about:favorites"@));
    assert(names[3] == ascii_lower_text("about:downloads"@));
    assert(names[4] == ascii_lower_text("about:cookies"@));
}

proof fn lemma_not_shown(u: UrlView)
    requires
        !can_be_shown(u),
    ensures
        !crate::address::loadable(u),
{
    let all = seq!["http"@, "https"@, "file"@, "data"@, "about"@, "cce"@];
    assert(all[0] == "http"@ && all[1] == "https"@ && all[2] == "file"@ && all[3] == "data"@ && all[4]
        == "about"@ && all[5] == "cce"@);
}

/// An address that the browser can show is loaded as it stands: every text that parses to an `http`,
/// `https`, `file`, `data`, `about` or `cce` address, unless it is the name of an internal page.
pub proof fn addresses_are_loaded_as_they_stand(s: Seq<char>, u: UrlView, search: Seq<char>)
    requires
        tight(s),
        url_parse(s) == Some(u),
        can_be_shown(u),
        !is_page_name(s),
    ensures
        input_url(s, search) == Some(u),
{
    lemma_trim_tight(s);
    lemma_no_page(s);
}

/// The names of the internal pages lead to them, in capitals or not.
pub proof fn names_lead_to_their_pages(s: Seq<char>, search: Seq<char>)
    requires
        tight(s),
    ensures
        ascii_lower_text(s) == ascii_lower_text("about:history"@) ==> input_url(s, search)
            == url_parse("cce://history"@),
        ascii_lower_text(s) == ascii_lower_text("about:bookmarks"@) ==> input_url(s, search)
            == url_parse("cce://bookmarks"@),
        ascii_lower_text(s) == ascii_lower_text("about:favorites"@) ==> input_url(s, search)
            == url_parse("cce://favorites"@),
        ascii_lower_text(s) == ascii_lower_text("about:downloads"@) ==> input_url(s, search)
            == url_parse("cce://downloads"@),
        ascii_lower_text(s) == ascii_lower_text("about:cookies"@) ==> input_url(s, search)
            == url_parse("cce://cookies"@),
{
    lemma_trim_tight(s);
    reveal_strlit("about:history");
    reveal_strlit("about:bookmarks");
    reveal_strlit("about:favorites");
    reveal_strlit("about:downloads");
    reveal_strlit("about:cookies");
    assert(ascii_lower_text("about:history"@)[6] == 'h');
    assert(ascii_lower_text("about:bookmarks"@)[6] == 'b');
    assert(ascii_lower_text("about:favorites"@)[6] == 'f');
    assert(ascii_lower_text("about:downloads"@)[6] == 'd');
    assert(ascii_lower_text("about:cookies"@)[6] == 'c');
}

/// A bare host is looked up over `https`: a text that is no address of its own, with a dot and
/// without a space.
pub proof fn bare_hosts_get_https(s: Seq<char>, u: UrlView, search: Seq<char>)
    requires
        tight(s),
        !is_page_name(s),
        url_parse(s) matches Some(v) ==> !can_be_shown(v),
        s.contains('.'),
        !s.contains(' '),
        url_parse("https://"@ + s) == Some(u),
    ensures
        input_url(s, search) == Some(u),
{
    lemma_trim_tight(s);
    lemma_no_page(s);
    if let Some(v) = url_parse(s) {
        lemma_not_shown(v);
    }
}

/// Everything else is searched for: the terms, escaped, after the search engine's prefix.
pub proof fn the_rest_is_searched_for(s: Seq<char>, search: Seq<char>)
    requires
        tight(s),
        !is_page_name(s),
        url_parse(s) matches Some(v) ==> !can_be_shown(v),
        s.contains(' ') || !s.contains('.') || url_parse("https://"@ + s) is None,
    ensures
        input_url(s, search) == url_parse(search + form_text(s)),
{
    lemma_trim_tight(s);
    lemma_no_page(s);
    if let Some(v) = url_parse(s) {
        lemma_not_shown(v);
    }
}

/// A launch's argument that names a file opens that file, and any other means what it means in the
/// address bar.
pub proof fn files_come_before_guesses(
    arg: Seq<char>,
    path: Seq<char>,
    u: UrlView,
    search: Seq<char>,
)
    ensures
        file_url(path) == Some(u) ==> argument_url(arg, Some(path), search) == Some(u),
        argument_url(arg, None, search) == input_url(arg, search),
{
}

/// A password leaves a page in the clear unless it goes over `https` or stays on this machine.
pub proof fn only_https_and_loopback_are_safe(scheme: Seq<char>, rest: Seq<char>, host: Seq<char>)
    requires
        !scheme.contains(':'),
    ensures
        insecure(scheme + seq![':'] + rest, host) <==> (scheme != "https"@ && !seq![
            "localhost"@,
            "127.0.0.1"@,
            "::1"@,
            "[::1]"@,
        ].contains(host) && !".localhost"@.is_suffix_of(host)),
{
    let origin = scheme + seq![':'] + rest;
    assert forall|j: int| 0 <= j < scheme.len() implies origin[j] != ':' by {
        assert(origin[j] == scheme[j]);
        assert(scheme.contains(scheme[j]));
    }
    lemma_index_of_is(origin, ':', scheme.len() as int);
    assert(origin.take(scheme.len() as int) =~= scheme);
    let own = seq!["localhost"@, "127.0.0.1"@, "::1"@, "[::1]"@];
    assert(own[0] == "localhost"@ && own[1] == "127.0.0.1"@ && own[2] == "::1"@ && own[3]
        == "[::1]"@);
}

/// A page goes to the command that is set; without one it goes to the desktop's, unless that is this
/// browser.
pub proof fn pages_go_to_another_browser(command: Seq<char>, handler: Seq<char>)
    ensures
        words(command).len() > 0 ==> outside_words(Some(command), handler) == Some(words(command)),
        "cce-browser"@.is_prefix_of(trim_start(handler)) ==> outside_words(None, handler) is None,
        !"cce-browser"@.is_prefix_of(trim_start(handler)) ==> outside_words(None, handler) == Some(
            seq!["xdg-open"@],
        ),
{
    reveal_strlit("xdg-open");
    lemma_one_word("xdg-open"@);
}

proof fn lemma_one_word(s: Seq<char>)
    requires
        s.len() > 0,
        forall|i: int| 0 <= i < s.len() ==> !is_white(#[trigger] s[i]),
    ensures
        words(s) == seq![s],
{
    lemma_no_white(s);
    assert(s.take(s.len() as int) =~= s);
    assert(words(s.skip(s.len() as int)) =~= Seq::empty());
    assert(words(s) =~= seq![s]);
}

proof fn lemma_no_white(s: Seq<char>)
    requires
        forall|i: int| 0 <= i < s.len() ==> !is_white(#[trigger] s[i]),
    ensures
        crate::address::white_index(s) == s.len(),
    decreases s.len(),
{
    if s.len() > 0 {
        assert forall|i: int| 0 <= i < s.drop_first().len() implies !is_white(
            #[trigger] s.drop_first()[i],
        ) by {
            assert(s.drop_first()[i] == s[i + 1]);
        }
        lemma_no_white(s.drop_first());
    }
}

/// A command is split at its white space: a word, white space, and the words of the rest.
pub proof fn commands_are_split_at_white_space(word: Seq<char>, gap: char, rest: Seq<char>)
    requires
        word.len() > 0,
        forall|i: int| 0 <= i < word.len() ==> !is_white(#[trigger] word[i]),
        is_white(gap),
    ensures
        words(word + seq![gap] + rest) == seq![word] + words(rest),
        words(seq![gap] + rest) == words(rest),
{
    let s = word + seq![gap] + rest;
    assert((seq![gap] + rest).drop_first() =~= rest);
    assert(words(seq![gap] + rest) == words(rest));
    lemma_white_after(word, gap, rest);
    assert(s[0] == word[0]);
    assert(s.take(word.len() as int) =~= word);
    assert(s.skip(word.len() as int) =~= seq![gap] + rest);
    assert(!is_white(s[0]));
    assert(words(s) == seq![s.take(word.len() as int)] + words(s.skip(word.len() as int)));
}

proof fn lemma_white_after(word: Seq<char>, gap: char, rest: Seq<char>)
    requires
        forall|i: int| 0 <= i < word.len() ==> !is_white(#[trigger] word[i]),
        is_white(gap),
    ensures
        crate::address::white_index(word + seq![gap] + rest) == word.len(),
    decreases word.len(),
{
    let s = word + seq![gap] + rest;
    if word.len() > 0 {
        assert(s[0] == word[0]);
        assert(s.drop_first() =~= word.drop_first() + seq![gap] + rest);
        assert forall|i: int| 0 <= i < word.drop_first().len() implies !is_white(
            #[trigger] word.drop_first()[i],
        ) by {
            assert(word.drop_first()[i] == word[i + 1]);
        }
        lemma_white_after(word.drop_first(), gap, rest);
    } else {
        assert(s[0] == gap);
    }
}

// ---------------------------------------------------------------------------------------------
// Files
// ---------------------------------------------------------------------------------------------

/// A file is what an `http` or `https` address names whose path ends in a dot and one of these
/// extensions, in capitals or not; nothing else is.
#[verifier::rlimit(40)]
pub proof fn files_go_by_their_extension(u: UrlView)
    ensures
        downloads(u) <==> seq!["http"@, "https"@].contains(u.scheme) && exists|k: int|
            #![trigger extensions()[k]]
            0 <= k < extensions().len() && (seq!['.'] + extensions()[k]).is_suffix_of(
                ascii_lower_text(u.path),
            ),
        extensions() == seq![
            "zip"@, "tar"@, "gz"@, "tgz"@, "xz"@, "bz2"@, "7z"@, "rar"@, "pdf"@, "iso"@, "img"@,
            "deb"@, "rpm"@, "exe"@, "msi"@, "dmg"@, "appimage"@, "bin"@, "apk"@, "jar"@, "flatpak"@,
        ],
{
    let web = seq!["http"@, "https"@];
    assert(web[0] == "http"@ && web[1] == "https"@);
    lemma_dotted();
    let e = extensions();
    let p = ascii_lower_text(u.path);
    if downloads(u) {
        assert(exists|k: int|
            #![trigger extensions()[k]]
            0 <= k < extensions().len() && (seq!['.'] + extensions()[k]).is_suffix_of(p)) by {
            if ".zip"@.is_suffix_of(p) { assert((seq!['.'] + e[0]).is_suffix_of(p)); }
            else if ".tar"@.is_suffix_of(p) { assert((seq!['.'] + e[1]).is_suffix_of(p)); }
            else if ".gz"@.is_suffix_of(p) { assert((seq!['.'] + e[2]).is_suffix_of(p)); }
            else if ".tgz"@.is_suffix_of(p) { assert((seq!['.'] + e[3]).is_suffix_of(p)); }
            else if ".xz"@.is_suffix_of(p) { assert((seq!['.'] + e[4]).is_suffix_of(p)); }
            else if ".bz2"@.is_suffix_of(p) { assert((seq!['.'] + e[5]).is_suffix_of(p)); }
            else if ".7z"@.is_suffix_of(p) { assert((seq!['.'] + e[6]).is_suffix_of(p)); }
            else if ".rar"@.is_suffix_of(p) { assert((seq!['.'] + e[7]).is_suffix_of(p)); }
            else if ".pdf"@.is_suffix_of(p) { assert((seq!['.'] + e[8]).is_suffix_of(p)); }
            else if ".iso"@.is_suffix_of(p) { assert((seq!['.'] + e[9]).is_suffix_of(p)); }
            else if ".img"@.is_suffix_of(p) { assert((seq!['.'] + e[10]).is_suffix_of(p)); }
            else if ".deb"@.is_suffix_of(p) { assert((seq!['.'] + e[11]).is_suffix_of(p)); }
            else if ".rpm"@.is_suffix_of(p) { assert((seq!['.'] + e[12]).is_suffix_of(p)); }
            else if ".exe"@.is_suffix_of(p) { assert((seq!['.'] + e[13]).is_suffix_of(p)); }
            else if ".msi"@.is_suffix_of(p) { assert((seq!['.'] + e[14]).is_suffix_of(p)); }
            else if ".dmg"@.is_suffix_of(p) { assert((seq!['.'] + e[15]).is_suffix_of(p)); }
            else if ".appimage"@.is_suffix_of(p) { assert((seq!['.'] + e[16]).is_suffix_of(p)); }
            else if ".bin"@.is_suffix_of(p) { assert((seq!['.'] + e[17]).is_suffix_of(p)); }
            else if ".apk"@.is_suffix_of(p) { assert((seq!['.'] + e[18]).is_suffix_of(p)); }
            else if ".jar"@.is_suffix_of(p) { assert((seq!['.'] + e[19]).is_suffix_of(p)); }
            else { assert((seq!['.'] + e[20]).is_suffix_of(p)); }
        }
    }
}

/// The extensions of files.
pub open spec fn extensions() -> Seq<Seq<char>> {
    seq![
        "zip"@, "tar"@, "gz"@, "tgz"@, "xz"@, "bz2"@, "7z"@, "rar"@, "pdf"@, "iso"@, "img"@, "deb"@,
        "rpm"@, "exe"@, "msi"@, "dmg"@, "appimage"@, "bin"@, "apk"@, "jar"@, "flatpak"@,
    ]
}

#[verifier::rlimit(40)]
proof fn lemma_dotted()
    ensures
        ".zip"@ == seq!['.'] + "zip"@, ".tar"@ == seq!['.'] + "tar"@, ".gz"@ == seq!['.'] + "gz"@,
        ".tgz"@ == seq!['.'] + "tgz"@, ".xz"@ == seq!['.'] + "xz"@, ".bz2"@ == seq!['.'] + "bz2"@,
        ".7z"@ == seq!['.'] + "7z"@, ".rar"@ == seq!['.'] + "rar"@, ".pdf"@ == seq!['.'] + "pdf"@,
        ".iso"@ == seq!['.'] + "iso"@, ".img"@ == seq!['.'] + "img"@, ".deb"@ == seq!['.'] + "deb"@,
        ".rpm"@ == seq!['.'] + "rpm"@, ".exe"@ == seq!['.'] + "exe"@, ".msi"@ == seq!['.'] + "msi"@,
        ".dmg"@ == seq!['.'] + "dmg"@, ".appimage"@ == seq!['.'] + "appimage"@,
        ".bin"@ == seq!['.'] + "bin"@, ".apk"@ == seq!['.'] + "apk"@, ".jar"@ == seq!['.'] + "jar"@,
        ".flatpak"@ == seq!['.'] + "flatpak"@,
{
    reveal_strlit(".zip"); reveal_strlit("zip"); assert(".zip"@ =~= seq!['.'] + "zip"@);
    reveal_strlit(".tar"); reveal_strlit("tar"); assert(".tar"@ =~= seq!['.'] + "tar"@);
    reveal_strlit(".gz"); reveal_strlit("gz"); assert(".gz"@ =~= seq!['.'] + "gz"@);
    reveal_strlit(".tgz"); reveal_strlit("tgz"); assert(".tgz"@ =~= seq!['.'] + "tgz"@);
    reveal_strlit(".xz"); reveal_strlit("xz"); assert(".xz"@ =~= seq!['.'] + "xz"@);
    reveal_strlit(".bz2"); reveal_strlit("bz2"); assert(".bz2"@ =~= seq!['.'] + "bz2"@);
    reveal_strlit(".7z"); reveal_strlit("7z"); assert(".7z"@ =~= seq!['.'] + "7z"@);
    reveal_strlit(".rar"); reveal_strlit("rar"); assert(".rar"@ =~= seq!['.'] + "rar"@);
    reveal_strlit(".pdf"); reveal_strlit("pdf"); assert(".pdf"@ =~= seq!['.'] + "pdf"@);
    reveal_strlit(".iso"); reveal_strlit("iso"); assert(".iso"@ =~= seq!['.'] + "iso"@);
    reveal_strlit(".img"); reveal_strlit("img"); assert(".img"@ =~= seq!['.'] + "img"@);
    reveal_strlit(".deb"); reveal_strlit("deb"); assert(".deb"@ =~= seq!['.'] + "deb"@);
    reveal_strlit(".rpm"); reveal_strlit("rpm"); assert(".rpm"@ =~= seq!['.'] + "rpm"@);
    reveal_strlit(".exe"); reveal_strlit("exe"); assert(".exe"@ =~= seq!['.'] + "exe"@);
    reveal_strlit(".msi"); reveal_strlit("msi"); assert(".msi"@ =~= seq!['.'] + "msi"@);
    reveal_strlit(".dmg"); reveal_strlit("dmg"); assert(".dmg"@ =~= seq!['.'] + "dmg"@);
    reveal_strlit(".appimage"); reveal_strlit("appimage");
    assert(".appimage"@ =~= seq!['.'] + "appimage"@);
    reveal_strlit(".bin"); reveal_strlit("bin"); assert(".bin"@ =~= seq!['.'] + "bin"@);
    reveal_strlit(".apk"); reveal_strlit("apk"); assert(".apk"@ =~= seq!['.'] + "apk"@);
    reveal_strlit(".jar"); reveal_strlit("jar"); assert(".jar"@ =~= seq!['.'] + "jar"@);
    reveal_strlit(".flatpak"); reveal_strlit("flatpak");
    assert(".flatpak"@ =~= seq!['.'] + "flatpak"@);
}

// ---------------------------------------------------------------------------------------------
// Settings
// ---------------------------------------------------------------------------------------------

/// What a configuration says is what the settings are: each value under its own name, a search engine
/// by its address, an edge and a color scheme by their names, and a path in the home directory from
/// its start.
#[verifier::rlimit(40)]
pub proof fn settings_are_what_is_said(c: Config, home: Seq<char>, name: Seq<char>)
    ensures
        c.homepage matches Some(h) ==> tight(h@) ==> settings_of(c, home).homepage == h@,
        c.external_browser matches Some(h) ==> tight(h@) ==> settings_of(c, home).external_browser
            == Some(h@),
        c.external_browser is None ==> settings_of(c, home).external_browser is None,
        c.download_dir matches Some(d) ==> d@ == "~/"@ + name && tight(d@) ==> settings_of(
            c,
            home,
        ).download_dir == Some(home + seq!['/'] + name),
        c.download_dir matches Some(d) ==> tight(d@) && !"~/"@.is_prefix_of(d@) ==> settings_of(
            c,
            home,
        ).download_dir == Some(d@),
        c.download_dir is None ==> settings_of(c, home).download_dir is None,
        c.history matches Some(h) ==> settings_of(c, home).history == h,
        c.search matches Some(s) ==> s@ == "google"@ ==> settings_of(c, home).search_prefix
            == "https://www.google.com/search?q="@,
        c.search matches Some(s) ==> s@ == "bing"@ ==> settings_of(c, home).search_prefix
            == "https://www.bing.com/search?q="@,
        c.search matches Some(s) ==> s@ == "wikipedia"@ ==> settings_of(c, home).search_prefix
            == "https://en.wikipedia.org/wiki/Special:Search?search="@,
        c.search matches Some(s) ==> !seq!["google"@, "bing"@, "wikipedia"@].contains(s@)
            ==> settings_of(c, home).search_prefix == "https://duckduckgo.com/html/?q="@,
        c.bar_position matches Some(b) ==> settings_of(c, home).bar_position == (if b@ == "bottom"@ {
            BarPosition::Bottom
        } else {
            BarPosition::Top
        }),
        c.color_scheme matches Some(s) ==> settings_of(c, home).color_scheme == (if s@ == "light"@ {
            ColorScheme::Light
        } else if s@ == "force-dark"@ {
            ColorScheme::ForceDark
        } else {
            ColorScheme::Dark
        }),
{
    if let Some(h) = c.homepage {
        if tight(h@) {
            lemma_trim_tight(h@);
        }
    }
    if let Some(h) = c.external_browser {
        if tight(h@) {
            lemma_trim_tight(h@);
        }
    }
    if let Some(d) = c.download_dir {
        if tight(d@) {
            lemma_trim_tight(d@);
            reveal_strlit("~/");
            if d@ == "~/"@ + name {
                assert(d@.take(2) =~= "~/"@);
                assert("~/"@.is_prefix_of(d@));
                assert(d@.skip(2) =~= name);
            }
        }
    }
    reveal_strlit("google");
    reveal_strlit("bing");
    reveal_strlit("wikipedia");
    reveal_strlit("light");
    reveal_strlit("force-dark");
    assert("google"@.len() == 6 && "bing"@.len() == 4 && "wikipedia"@.len() == 9);
    let named = seq!["google"@, "bing"@, "wikipedia"@];
    assert(named[0] == "google"@ && named[1] == "bing"@ && named[2] == "wikipedia"@);
}

/// Pages are told to prefer dark under the dark scheme alone; the inverting stylesheet is there under
/// the forced one alone; and visits are recorded where the settings say so.
pub proof fn schemes_reach_the_pages(h: HostView, s: SettingsView)
    ensures
        scheme_applied(h, s).history_enabled == s.history,
        scheme_applied(h, s).force_dark == (s.color_scheme == ColorScheme::ForceDark),
        scheme_applied(h, s).outbox.len() > h.outbox.len(),
        scheme_applied(h, s).outbox[h.outbox.len() as int] == ActionView::PreferDark(
            s.color_scheme == ColorScheme::Dark,
        ),
        !h.force_dark && s.color_scheme == ColorScheme::ForceDark ==> scheme_applied(
            h,
            s,
        ).outbox[h.outbox.len() as int + 1] == ActionView::InvertPages(true),
        h.force_dark && s.color_scheme != ColorScheme::ForceDark ==> scheme_applied(
            h,
            s,
        ).outbox[h.outbox.len() as int + 1] == ActionView::InvertPages(false),
        scheme_applied(h, s).tabs == h.tabs,
{
    let told = HostView { history_enabled: s.history, ..h }.told(
        ActionView::PreferDark(s.color_scheme == ColorScheme::Dark),
    );
    let on = s.color_scheme == ColorScheme::ForceDark;
    if on != h.force_dark {
        lemma_reloading(
            HostView { force_dark: on, ..told }.told(ActionView::InvertPages(on)),
            told.tabs.len(),
        );
    }
}

/// Where every page is reloaded, nothing else is asked and nothing changes.
pub proof fn lemma_reloading(h: HostView, n: nat)
    ensures
        h.reloading(n).outbox.len() == h.outbox.len() + n,
        forall|i: int|
            0 <= i < h.outbox.len() ==> #[trigger] h.reloading(n).outbox[i] == h.outbox[i],
        forall|i: int|
            0 <= i < n ==> #[trigger] h.reloading(n).outbox[h.outbox.len() + i]
                == ActionView::Reload(i as usize),
        h.reloading(n) == (HostView { outbox: h.reloading(n).outbox, ..h }),
    decreases n,
{
    if n > 0 {
        lemma_reloading(h, (n - 1) as nat);
    }
}

/// What is not said is the default: the standard homepage and search engine, visits recorded, the bar at the top, and
/// the dark scheme.
pub proof fn what_is_not_said_is_the_default(c: Config, home: Seq<char>)
    ensures
        c.homepage is None ==> settings_of(c, home).homepage == "https://servo.org"@,
        c.search is None ==> settings_of(c, home).search_prefix == "https://duckduckgo.com/html/?q="@,
        c.history is None ==> settings_of(c, home).history,
        c.bar_position is None ==> settings_of(c, home).bar_position == BarPosition::Top,
        c.color_scheme is None ==> settings_of(c, home).color_scheme == ColorScheme::Dark,
{
    reveal_strlit("duckduckgo");
    reveal_strlit("google");
    reveal_strlit("bing");
    reveal_strlit("wikipedia");
    reveal_strlit("top");
    reveal_strlit("bottom");
    reveal_strlit("dark");
    reveal_strlit("light");
    reveal_strlit("force-dark");
    assert("duckduckgo"@.len() == 10 && "google"@.len() == 6 && "bing"@.len() == 4 && "wikipedia"@.len()
        == 9);
    assert("top"@.len() == 3 && "bottom"@.len() == 6);
    assert("dark"@.len() == 4 && "light"@.len() == 5 && "force-dark"@.len() == 10);
}

/// Settings that differ in anything say something else.
pub proof fn settings_that_differ_are_told_apart(a: SettingsView, b: SettingsView)
    ensures
        a.says(a),
        a.homepage != b.homepage ==> !a.says(b),
        a.search_prefix != b.search_prefix ==> !a.says(b),
        a.history != b.history ==> !a.says(b),
        a.bar_position != b.bar_position ==> !a.says(b),
        a.color_scheme != b.color_scheme ==> !a.says(b),
        a.external_browser != b.external_browser ==> !a.says(b),
        a.download_dir is Some && b.download_dir is None ==> !a.says(b),
        a.download_dir is None && b.download_dir is Some ==> !a.says(b),
{
}

/// Where the inverting stylesheet comes or goes, every page is loaded again.
pub proof fn forcing_dark_reloads_every_page(h: HostView, on: bool, i: int)
    requires
        on != h.force_dark,
        0 <= i < h.tabs.len(),
        h.tabs.len() <= usize::MAX,
    ensures
        h.forced_dark(on).outbox.len() == h.outbox.len() + 1 + h.tabs.len(),
        h.forced_dark(on).outbox[h.outbox.len() as int] == ActionView::InvertPages(on),
        h.forced_dark(on).outbox[h.outbox.len() + 1 + i] == ActionView::Reload(i as usize),
        h.forced_dark(on).force_dark == on,
        h.forced_dark(h.force_dark) == h,
{
    let told = HostView { force_dark: on, ..h }.told(ActionView::InvertPages(on));
    lemma_reloading(told, h.tabs.len());
    assert(h.forced_dark(on).outbox[told.outbox.len() + i] == ActionView::Reload(i as usize));
}

} // verus!
