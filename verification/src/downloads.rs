//! Downloads: which addresses are files to fetch, what the files are called, and the list that
//! `cce://downloads` shows.

use vstd::prelude::*;
use vstd::utf8::*;

use crate::html::{escaped, html_escape, page, page_text};
use crate::numerals::{decimal, hex_digit_value, hex_value, to_decimal};
use crate::paths::{join_path, joined, str_opt};
use crate::positions::boundary;
use crate::sizes::{human_size, size_text};
use crate::split::{lines, lines_of, replace, replaced, views};
use crate::text::{
    after_prefix, ascii_lower_text, chars_of, contains_char, ends_with, same, strip_end_char,
    strip_prefix, strip_start_char, text_of, to_ascii_lower, trim, trim_char, trimmed,
};
use crate::weburl::{last_segment_of, view_opt, Url, UrlView};

verus! {

// ---------------------------------------------------------------------------------------------
// Addresses
// ---------------------------------------------------------------------------------------------

/// Whether a path, in small letters, has the extension of a file that downloads instead of opening.
pub open spec fn download_path(p: Seq<char>) -> bool {
    ||| ".zip"@.is_suffix_of(p)
    ||| ".tar"@.is_suffix_of(p)
    ||| ".gz"@.is_suffix_of(p)
    ||| ".tgz"@.is_suffix_of(p)
    ||| ".xz"@.is_suffix_of(p)
    ||| ".bz2"@.is_suffix_of(p)
    ||| ".7z"@.is_suffix_of(p)
    ||| ".rar"@.is_suffix_of(p)
    ||| ".pdf"@.is_suffix_of(p)
    ||| ".iso"@.is_suffix_of(p)
    ||| ".img"@.is_suffix_of(p)
    ||| ".deb"@.is_suffix_of(p)
    ||| ".rpm"@.is_suffix_of(p)
    ||| ".exe"@.is_suffix_of(p)
    ||| ".msi"@.is_suffix_of(p)
    ||| ".dmg"@.is_suffix_of(p)
    ||| ".appimage"@.is_suffix_of(p)
    ||| ".bin"@.is_suffix_of(p)
    ||| ".apk"@.is_suffix_of(p)
    ||| ".jar"@.is_suffix_of(p)
    ||| ".flatpak"@.is_suffix_of(p)
}

/// Whether an address is a file to download: `http` or `https`, with one of the extensions.
pub open spec fn downloads(u: UrlView) -> bool {
    (u.scheme == "http"@ || u.scheme == "https"@) && download_path(ascii_lower_text(u.path))
}

/// See [`downloads`].
pub fn is_download_url(url: &Url) -> (r: bool)
    ensures
        r == downloads(url@),
{
    if !same(url.scheme(), "http") && !same(url.scheme(), "https") {
        return false;
    }
    let path = to_ascii_lower(url.path());
    let p = path.as_str();
    ends_with(p, ".zip") || ends_with(p, ".tar") || ends_with(p, ".gz") || ends_with(p, ".tgz")
        || ends_with(p, ".xz") || ends_with(p, ".bz2") || ends_with(p, ".7z") || ends_with(
        p,
        ".rar",
    ) || ends_with(p, ".pdf") || ends_with(p, ".iso") || ends_with(p, ".img") || ends_with(
        p,
        ".deb",
    ) || ends_with(p, ".rpm") || ends_with(p, ".exe") || ends_with(p, ".msi") || ends_with(
        p,
        ".dmg",
    ) || ends_with(p, ".appimage") || ends_with(p, ".bin") || ends_with(p, ".apk") || ends_with(
        p,
        ".jar",
    ) || ends_with(p, ".flatpak")
}

// ---------------------------------------------------------------------------------------------
// Names of files
// ---------------------------------------------------------------------------------------------

/// The value of two characters as a hexadecimal number, where they are one: two digits, or a plus
/// sign and a digit.
pub open spec fn hex_pair(a: u8, b: u8) -> Option<int> {
    let low = hex_value(b as char);
    if b >= 128 || low is None {
        None
    } else if a == 43 {
        low
    } else if a >= 128 || hex_value(a as char) is None {
        None
    } else {
        Some(hex_value(a as char)->0 * 16 + low->0)
    }
}

/// The bytes of a text with every percent sign and hexadecimal number read as the byte it stands
/// for, and everything else as it is.
pub open spec fn percent_bytes(b: Seq<u8>) -> Seq<u8>
    decreases b.len(),
{
    if b.len() == 0 {
        Seq::empty()
    } else if b[0] == 37 && b.len() > 2 && hex_pair(b[1], b[2]) is Some {
        seq![hex_pair(b[1], b[2])->0 as u8] + percent_bytes(b.skip(3))
    } else {
        seq![b[0]] + percent_bytes(b.drop_first())
    }
}

/// Whether a text holds what no file's name can: a slash, which would part it, or a NUL.
pub open spec fn path_hostile(s: Seq<char>) -> bool {
    s.contains('/') || s.contains('\0')
}

/// A text with its percent signs read, where the bytes are a text again that a file's name can hold;
/// the text as it is where they are not.
pub open spec fn percent_decoded(s: Seq<char>) -> Seq<char> {
    let b = percent_bytes(encode_utf8(s));
    if valid_utf8(b) && !path_hostile(decode_utf8(b)) {
        decode_utf8(b)
    } else {
        s
    }
}

/// Whether the two bytes after every percent sign, where there are two, are whole characters.
pub open spec fn percent_signs_apart(s: Seq<char>) -> bool {
    let b = encode_utf8(s);
    forall|i: int| 0 <= i && i + 2 < b.len() && #[trigger] b[i] == 37 ==> boundary(s, i + 3)
}

/// `String::from_utf8`: the text that bytes encode, and nothing where they are not UTF-8.
#[verifier::external_body]
fn utf8_text(bytes: Vec<u8>) -> (r: Option<String>)
    ensures
        (match r {
            Some(t) => valid_utf8(bytes@) && t@ == decode_utf8(bytes@),
            None => !valid_utf8(bytes@),
        }),
{
    String::from_utf8(bytes).ok()
}

fn hex_pair_of(a: u8, b: u8) -> (r: Option<u8>)
    ensures
        (match r {
            Some(x) => hex_pair(a, b) == Some(x as int),
            None => hex_pair(a, b) is None,
        }),
{
    if b >= 128 {
        return None;
    }
    match hex_digit_value(b as char) {
        None => None,
        Some(low) => if a == 43 {
            Some(low)
        } else if a >= 128 {
            None
        } else {
            match hex_digit_value(a as char) {
                None => None,
                Some(high) => Some(high * 16 + low),
            }
        },
    }
}

/// See [`percent_decoded`].
pub fn percent_decode(s: &str) -> (r: String)
    requires
        percent_signs_apart(s@),
    ensures
        r@ == percent_decoded(s@),
{
    let bytes = s.as_bytes();
    let ghost all = encode_utf8(s@);
    let mut out: Vec<u8> = Vec::new();
    let mut i: usize = 0;
    assert(all.skip(0) =~= all);
    assert(out@ + percent_bytes(all.skip(0)) =~= percent_bytes(all));
    while i < bytes.len()
        invariant
            i <= bytes.len(),
            bytes@ == all,
            out@ + percent_bytes(all.skip(i as int)) == percent_bytes(all),
        decreases bytes.len() - i,
    {
        let ghost rest = all.skip(i as int);
        let ghost before = out@;
        assert(rest[0] == all[i as int]);
        assert(rest.drop_first() =~= all.skip(i + 1));
        if bytes[i] == 37 && bytes.len() - i > 2 {
            assert(rest[1] == all[i + 1] && rest[2] == all[i + 2]);
            if let Some(v) = hex_pair_of(bytes[i + 1], bytes[i + 2]) {
                out.push(v);
                assert(rest.skip(3) =~= all.skip(i + 3));
                i += 3;
                assert(out@ + percent_bytes(all.skip(i as int)) =~= before + percent_bytes(rest));
                continue;
            }
        }
        out.push(bytes[i]);
        i += 1;
        assert(out@ + percent_bytes(all.skip(i as int)) =~= before + percent_bytes(rest));
    }
    assert(out@ + percent_bytes(all.skip(i as int)) =~= out@);
    match utf8_text(out) {
        Some(t) => if contains_char(t.as_str(), '/') || contains_char(t.as_str(), '\0') {
            s.to_owned()
        } else {
            t
        },
        None => s.to_owned(),
    }
}

/// A character as it may stand in a file's name.
pub open spec fn name_char(c: char) -> char {
    if c == '/' || c == '\0' {
        '_'
    } else {
        c
    }
}

/// The name that an address suggests for its file: the last segment of its path, percent signs
/// read, with nothing in it that would part it; `download` where that leaves no name.
pub open spec fn file_name(u: UrlView) -> Seq<char> {
    let segment = match last_segment_of(u.path) {
        Some(s) => percent_decoded(s),
        None => Seq::empty(),
    };
    let name = segment.map_values(|c: char| name_char(c));
    if name.len() == 0 {
        "download"@
    } else {
        name
    }
}

/// See [`file_name`].
pub fn filename_for(url: &Url) -> (r: String)
    ensures
        r@ == file_name(url@),
{
    let segment = match url.last_segment() {
        Some(s) => {
            proof {
                lemma_ascii_apart(s@);
            }
            percent_decode(s.as_str())
        },
        None => String::new(),
    };
    let v = chars_of(segment.as_str());
    let mut name = String::new();
    let mut i: usize = 0;
    while i < v.len()
        invariant
            i <= v.len(),
            v@ == segment@,
            name@ == segment@.take(i as int).map_values(|c: char| name_char(c)),
        decreases v.len() - i,
    {
        let c = v[i];
        if c == '/' || c == '\0' {
            name.push('_');
        } else {
            name.push(c);
        }
        i += 1;
        assert(name@ =~= segment@.take(i as int).map_values(|c: char| name_char(c)));
    }
    assert(segment@.take(i as int) =~= segment@);
    if name.as_str().is_empty() {
        "download".to_owned()
    } else {
        name
    }
}

/// Reading percent signs brings neither a slash nor a NUL into a text.
pub proof fn decoding_parts_no_name(s: Seq<char>)
    requires
        !path_hostile(s),
    ensures
        !path_hostile(percent_decoded(s)),
{
}

/// No address suggests a name that reaches into another directory.
pub proof fn file_names_part_no_path(u: UrlView)
    ensures
        !path_hostile(file_name(u)),
{
    reveal_strlit("download");
    let name = file_name(u);
    assert forall|i: int| 0 <= i < name.len() implies #[trigger] name[i] != '/' && name[i]
        != '\0' by {}
}

proof fn lemma_ascii_apart(s: Seq<char>)
    requires
        is_ascii_chars(s),
    ensures
        percent_signs_apart(s),
{
    reveal(boundary);
    let b = encode_utf8(s);
    encode_utf8_valid_utf8(s);
    is_ascii_chars_encode_utf8(s);
    assert forall|i: int| 0 <= i && i + 2 < b.len() && #[trigger] b[i] == 37 implies boundary(
        s,
        i + 3,
    ) by {
        if i + 3 == b.len() {
            is_char_boundary_start_end_of_seq(b);
        } else {
            is_char_boundary_iff_not_is_continuation_byte(b, i + 3);
            utf8_byte_ranges_bitwise(b[i + 3]);
        }
    }
}

/// Where the extension of a name starts: at its last dot, unless that is its first character; the
/// length of the name where it has none.
pub open spec fn extension_at(name: Seq<char>) -> int {
    let k = last_dot(name);
    if k > 0 {
        k
    } else {
        name.len() as int
    }
}

/// The place of the last dot, or -1.
pub open spec fn last_dot(s: Seq<char>) -> int
    decreases s.len(),
{
    if s.len() == 0 {
        -1
    } else if s.last() == '.' {
        s.len() - 1
    } else {
        last_dot(s.drop_last())
    }
}

/// The `n`th name to try for a file: the name itself, and then the name with a number before its
/// extension.
pub open spec fn candidate(name: Seq<char>, n: nat) -> Seq<char> {
    if n == 0 {
        name
    } else {
        let k = extension_at(name);
        name.take(k) + seq!['.'] + decimal(n) + name.skip(k)
    }
}

proof fn lemma_last_dot(s: Seq<char>)
    ensures
        -1 <= last_dot(s) < s.len(),
    decreases s.len(),
{
    if s.len() > 0 && s.last() != '.' {
        lemma_last_dot(s.drop_last());
    }
}

/// See [`candidate`].
pub fn candidate_name(name: &str, n: u64) -> (r: String)
    ensures
        r@ == candidate(name@, n as nat),
{
    if n == 0 {
        return name.to_owned();
    }
    let v = chars_of(name);
    let mut i: usize = v.len();
    assert(v@.take(i as int) =~= name@);
    while i > 0 && v[i - 1] != '.'
        invariant
            i <= v.len(),
            v@ == name@,
            last_dot(name@) == last_dot(v@.take(i as int)),
        decreases i,
    {
        assert(v@.take(i as int).drop_last() =~= v@.take(i - 1));
        i -= 1;
    }
    let k: usize = if i > 1 {
        i - 1
    } else {
        v.len()
    };
    assert(k == extension_at(name@));
    let mut out = text_of(&v, 0, k);
    out.push('.');
    let number = to_decimal(n);
    out.append(number.as_str());
    let ext = text_of(&v, k, v.len());
    out.append(ext.as_str());
    assert(out@ =~= candidate(name@, n as nat));
    out
}

/// No two names to try are the same, so that a free one is found sooner or later.
pub proof fn candidates_differ(name: Seq<char>, m: u64, n: u64)
    requires
        m != n,
    ensures
        candidate(name, m as nat) != candidate(name, n as nat),
{
    lemma_last_dot(name);
    let k = extension_at(name);
    if candidate(name, m as nat) == candidate(name, n as nat) {
        if m == 0 || n == 0 {
            assert(candidate(name, m as nat).len() != candidate(name, n as nat).len());
        } else {
            let a = candidate(name, m as nat);
            let dm = decimal(m as nat);
            let dn = decimal(n as nat);
            let b = candidate(name, n as nat);
            assert(a.len() == name.len() + 1 + dm.len());
            assert(b.len() == name.len() + 1 + dn.len());
            assert(a.subrange(k + 1, k + 1 + dm.len()) =~= dm);
            assert(b.subrange(k + 1, k + 1 + dn.len()) =~= dn);
            crate::numerals::lemma_decimal_reads_back(m);
            crate::numerals::lemma_decimal_reads_back(n);
        }
    }
}

// ---------------------------------------------------------------------------------------------
// The directory
// ---------------------------------------------------------------------------------------------

/// The directory for downloads that the settings ask for, where they ask for one.
#[derive(Clone, Debug, Default)]
pub struct DownloadDir {
    pub chosen: Option<String>,
}

/// Sets or drops the directory that the settings ask for.
pub fn set_download_dir(place: &mut DownloadDir, dir: Option<String>)
    ensures
        final(place).chosen == dir,
{
    place.chosen = dir;
}

/// The directory that a line of `user-dirs.dirs` names for downloads.
pub open spec fn user_dir(line: Seq<char>, home: Seq<char>) -> Option<Seq<char>> {
    match after_prefix(trimmed(line), "XDG_DOWNLOAD_DIR="@) {
        None => None,
        Some(rest) => {
            let value = replaced(strip_end_char(strip_start_char(rest, '"'), '"'), "$HOME"@, home);
            if value.len() == 0 {
                None
            } else {
                Some(value)
            }
        },
    }
}

/// The directory that the first line to name one names.
pub open spec fn first_user_dir(ls: Seq<Seq<char>>, home: Seq<char>) -> Option<Seq<char>>
    decreases ls.len(),
{
    if ls.len() == 0 {
        None
    } else if user_dir(ls[0], home) is Some {
        user_dir(ls[0], home)
    } else {
        first_user_dir(ls.drop_first(), home)
    }
}

/// The directory for downloads: the one that the settings ask for, else the one that
/// `user-dirs.dirs` names, else `Downloads` in the home directory.
pub open spec fn download_dir_of(
    chosen: Option<Seq<char>>,
    home: Seq<char>,
    user_dirs: Option<Seq<char>>,
) -> Seq<char> {
    match chosen {
        Some(dir) => dir,
        None => match user_dirs {
            Some(text) => match first_user_dir(lines(text), home) {
                Some(dir) => dir,
                None => joined(home, "Downloads"@),
            },
            None => joined(home, "Downloads"@),
        },
    }
}

fn user_dir_of(line: &str, home: &str) -> (r: Option<String>)
    ensures
        view_opt(r) == user_dir(line@, home@),
{
    let line = trim(line);
    match strip_prefix(line.as_str(), "XDG_DOWNLOAD_DIR=") {
        None => None,
        Some(rest) => {
            let bare = trim_char(rest.as_str(), '"');
            proof {
                reveal_strlit("$HOME");
            }
            let value = replace(bare.as_str(), "$HOME", home);
            if value.as_str().is_empty() {
                None
            } else {
                Some(value)
            }
        },
    }
}

/// See [`download_dir_of`]; `user_dirs` is the text of `user-dirs.dirs`, where it can be read.
pub fn download_dir(place: &DownloadDir, home: &str, user_dirs: Option<&str>) -> (r: String)
    ensures
        r@ == download_dir_of(view_opt(place.chosen), home@, str_opt(user_dirs)),
{
    if let Some(dir) = &place.chosen {
        return dir.clone();
    }
    if let Some(text) = user_dirs {
        let ls = lines_of(text);
        let ghost all = lines(text@);
        let mut i: usize = 0;
        assert(all.skip(0) =~= all);
        while i < ls.len()
            invariant
                i <= ls.len(),
                all == views(ls@),
                first_user_dir(all, home@) == first_user_dir(all.skip(i as int), home@),
                str_opt(user_dirs) == Some(text@),
                all == lines(text@),
                place.chosen is None,
            decreases ls.len() - i,
        {
            assert(all.skip(i as int)[0] == ls@[i as int]@);
            assert(all.skip(i as int).drop_first() =~= all.skip(i + 1));
            if let Some(dir) = user_dir_of(ls[i].as_str(), home) {
                return dir;
            }
            i += 1;
        }
    }
    join_path(home, "Downloads")
}

// ---------------------------------------------------------------------------------------------
// The list
// ---------------------------------------------------------------------------------------------

/// How a download stands.
#[derive(Clone, Debug)]
pub enum State {
    Active,
    Done,
    Failed(String),
}

/// One download.
#[derive(Clone, Debug)]
pub struct Download {
    /// Stable handle for updates: clearing shifts places in the list, so places never do.
    pub id: u64,
    pub ts: u64,
    pub url: String,
    pub filename: String,
    pub path: String,
    pub received: u64,
    pub total: Option<u64>,
    pub state: State,
}

/// How a download stands, as texts.
#[verifier::ext_equal]
pub enum StateView {
    Active,
    Done,
    Failed(Seq<char>),
}

/// What a download is.
#[verifier::ext_equal]
pub struct DownloadView {
    pub id: u64,
    pub ts: u64,
    pub url: Seq<char>,
    pub filename: Seq<char>,
    pub path: Seq<char>,
    pub received: u64,
    pub total: Option<u64>,
    pub state: StateView,
}

impl View for State {
    type V = StateView;

    open spec fn view(&self) -> StateView {
        match self {
            State::Active => StateView::Active,
            State::Done => StateView::Done,
            State::Failed(e) => StateView::Failed(e@),
        }
    }
}

impl View for Download {
    type V = DownloadView;

    open spec fn view(&self) -> DownloadView {
        DownloadView {
            id: self.id,
            ts: self.ts,
            url: self.url@,
            filename: self.filename@,
            path: self.path@,
            received: self.received,
            total: self.total,
            state: self.state@,
        }
    }
}

/// All downloads, the oldest first.
#[derive(Debug, Default)]
pub struct Downloads {
    pub items: Vec<Download>,
    pub next_id: u64,
}

/// What is known of all downloads.
#[verifier::ext_equal]
pub struct DownloadsView {
    pub items: Seq<DownloadView>,
    pub next_id: u64,
}

/// What each download of a list is.
pub open spec fn item_views(v: Seq<Download>) -> Seq<DownloadView> {
    v.map_values(|d: Download| d@)
}

impl View for Downloads {
    type V = DownloadsView;

    open spec fn view(&self) -> DownloadsView {
        DownloadsView { items: item_views(self.items@), next_id: self.next_id }
    }
}

/// What becomes of a download while it runs and when it ends.
#[derive(Clone, Debug)]
pub enum Update {
    /// The size of the whole file became known, or is not to be known.
    Total(Option<u64>),
    /// So many bytes have come.
    Received(u64),
    /// It is done.
    Done,
    /// It failed, for this reason.
    Failed(String),
}

impl DownloadView {
    /// The download after an update.
    pub open spec fn updated(self, u: Update) -> DownloadView {
        match u {
            Update::Total(t) => DownloadView { total: t, ..self },
            Update::Received(n) => DownloadView { received: n, ..self },
            Update::Done => DownloadView { state: StateView::Done, ..self },
            Update::Failed(e) => DownloadView { state: StateView::Failed(e@), ..self },
        }
    }

    /// What the page says of the download's progress.
    pub open spec fn progress(self) -> Seq<char> {
        match self.state {
            StateView::Active => match self.total {
                Some(total) if total > 0 => size_text(self.received as nat) + " / "@ + size_text(
                    total as nat,
                ) + " ("@ + decimal((self.received * 100 / total as int) as nat) + "%)"@,
                _ => size_text(self.received as nat) + "..."@,
            },
            StateView::Done => size_text(self.received as nat),
            StateView::Failed(e) => "failed: "@ + escaped(e),
        }
    }

    /// The download's row of the page.
    pub open spec fn row(self) -> Seq<char> {
        "<div class=e><span class=w data-ts=\""@ + decimal(self.ts as nat)
            + "\"></span><a href=\"file://"@ + escaped(self.path) + "\">"@ + escaped(self.filename)
            + "</a><span class=u>"@ + escaped(self.url)
            + "</span><span class=w style=\"min-width:0\">"@ + self.progress() + "</span></div>\n"@
    }

    /// Whether the share that has come can be reckoned in 64 bits.
    pub open spec fn countable(self) -> bool {
        self.state is Active && (self.total matches Some(total) && total > 0) ==> self.received
            * 100 <= u64::MAX
    }
}

/// The rows of a list of downloads, the newest first.
pub open spec fn download_rows(items: Seq<DownloadView>) -> Seq<char>
    decreases items.len(),
{
    if items.len() == 0 {
        Seq::empty()
    } else {
        items.last().row() + download_rows(items.drop_last())
    }
}

/// Whether any download of a list is still running.
pub open spec fn any_active(items: Seq<DownloadView>) -> bool {
    exists|i: int| 0 <= i < items.len() && (#[trigger] items[i]).state is Active
}

/// The page that lists the downloads. It asks to be read again while anything is running.
pub open spec fn downloads_page(items: Seq<DownloadView>) -> Seq<char> {
    page_text(
        "Downloads"@,
        decimal(items.len()) + " downloads<a href=\"cce://downloads/clear\">clear finished</a>"@,
        if items.len() == 0 {
            "<p class=empty>No downloads yet. Links to archives and binaries download here.</p>"@
        } else {
            download_rows(items)
        },
        if any_active(items) {
            "<meta http-equiv=\"refresh\" content=\"1\">"@
        } else {
            ""@
        },
    )
}

/// The index of the first download with a handle, or the length of the list.
pub open spec fn id_index(items: Seq<DownloadView>, id: u64) -> int
    decreases items.len(),
{
    if items.len() == 0 || items[0].id == id {
        0
    } else {
        1 + id_index(items.drop_first(), id)
    }
}

proof fn lemma_id_index(items: Seq<DownloadView>, id: u64)
    ensures
        0 <= id_index(items, id) <= items.len(),
        id_index(items, id) < items.len() ==> items[id_index(items, id)].id == id,
        forall|j: int| 0 <= j < id_index(items, id) ==> (#[trigger] items[j]).id != id,
    decreases items.len(),
{
    if items.len() > 0 && items[0].id != id {
        lemma_id_index(items.drop_first(), id);
        assert forall|j: int| 0 <= j < id_index(items, id) implies (#[trigger] items[j]).id
            != id by {
            if j > 0 {
                assert(items[j] == items.drop_first()[j - 1]);
            }
        }
    }
}

impl DownloadsView {
    /// Every handle is one that was given out, and no two downloads share one.
    pub open spec fn wf(self) -> bool {
        &&& forall|i: int| 0 <= i < self.items.len() ==> (#[trigger] self.items[i]).id < self.next_id
        &&& forall|i: int, j: int|
            0 <= i < j < self.items.len() ==> (#[trigger] self.items[i]).id != (
            #[trigger] self.items[j]).id
    }

    /// The list with a new download at its end.
    pub open spec fn started(
        self,
        url: Seq<char>,
        filename: Seq<char>,
        path: Seq<char>,
        total: Option<u64>,
        now: u64,
    ) -> DownloadsView {
        DownloadsView {
            items: self.items.push(
                DownloadView {
                    id: self.next_id,
                    ts: now,
                    url,
                    filename,
                    path,
                    received: 0,
                    total,
                    state: StateView::Active,
                },
            ),
            next_id: self.next_id.wrapping_add(1),
        }
    }

    /// The list with the download of that handle updated.
    pub open spec fn updated(self, id: u64, u: Update) -> DownloadsView {
        let k = id_index(self.items, id);
        if k < self.items.len() {
            DownloadsView { items: self.items.update(k, self.items[k].updated(u)), ..self }
        } else {
            self
        }
    }

    /// The list without the downloads that have ended.
    pub open spec fn cleared(self) -> DownloadsView {
        DownloadsView { items: self.items.filter(|d: DownloadView| d.state is Active), ..self }
    }

    /// Whether every running download's share can be reckoned.
    pub open spec fn countable(self) -> bool {
        forall|i: int| 0 <= i < self.items.len() ==> (#[trigger] self.items[i]).countable()
    }
}

impl Downloads {
    /// An empty list.
    pub fn new() -> (r: Downloads)
        ensures
            r@ == (DownloadsView { items: Seq::empty(), next_id: 0 }),
            r@.wf(),
    {
        let r = Downloads { items: Vec::new(), next_id: 0 };
        assert(r@.items =~= Seq::empty());
        r
    }

    /// Notes that the file at `url` is being fetched to `path`, where it is called `filename`, and
    /// gives the handle for what becomes of it.
    pub fn start(&mut self, url: &Url, filename: String, path: String, now: u64) -> (r: u64)
        ensures
            r == old(self).next_id,
            final(self)@ == old(self)@.started(url@.text, filename@, path@, None, now),
            old(self)@.wf() && old(self).next_id < u64::MAX ==> final(self)@.wf(),
    {
        let text = url.as_str().to_owned();
        self.adopt(text, filename, path, None, now)
    }

    /// Notes a download that something else carries out, and gives its handle.
    pub fn adopt(
        &mut self,
        url: String,
        filename: String,
        path: String,
        total: Option<u64>,
        now: u64,
    ) -> (r: u64)
        ensures
            r == old(self).next_id,
            final(self)@ == old(self)@.started(url@, filename@, path@, total, now),
            old(self)@.wf() && old(self).next_id < u64::MAX ==> final(self)@.wf(),
    {
        let id = self.next_id;
        let ghost before = self@;
        self.next_id = id.wrapping_add(1);
        let d = Download {
            id,
            ts: now,
            url,
            filename,
            path,
            received: 0,
            total,
            state: State::Active,
        };
        self.items.push(d);
        assert(self@.items =~= before.items.push(d@));
        id
    }

    /// Updates the download of that handle, where it is still on the list.
    pub fn with_item(&mut self, id: u64, update: Update)
        ensures
            final(self)@ == old(self)@.updated(id, update),
            old(self)@.wf() ==> final(self)@.wf(),
    {
        let ghost before = self@;
        proof {
            lemma_id_index(before.items, id);
        }
        let mut i: usize = 0;
        while i < self.items.len() && self.items[i].id != id
            invariant
                i <= self.items.len(),
                self@ == before,
                i <= id_index(before.items, id) <= before.items.len(),
                id_index(before.items, id) < before.items.len() ==> before.items[id_index(
                    before.items,
                    id,
                )].id == id,
            decreases self.items.len() - i,
        {
            assert(before.items[i as int] == self.items@[i as int]@);
            i += 1;
        }
        if i < self.items.len() {
            assert(before.items[i as int] == self.items@[i as int]@);
            assert(i == id_index(before.items, id));
            let ghost u = update;
            let mut d = copy_download(&self.items[i]);
            match update {
                Update::Total(t) => {
                    d.total = t;
                },
                Update::Received(n) => {
                    d.received = n;
                },
                Update::Done => {
                    d.state = State::Done;
                },
                Update::Failed(e) => {
                    d.state = State::Failed(e);
                },
            }
            assert(d@ == before.items[i as int].updated(u));
            self.items.set(i, d);
            assert(self@.items =~= before.items.update(i as int, d@));
        }
    }

    /// Drops the downloads that have ended. The files stay.
    pub fn clear_finished(&mut self)
        ensures
            final(self)@ == old(self)@.cleared(),
            old(self)@.wf() ==> final(self)@.wf(),
    {
        let ghost all = self@.items;
        let ghost active = |d: DownloadView| d.state is Active;
        let mut out: Vec<Download> = Vec::new();
        let mut i: usize = 0;
        assert(item_views(out@) =~= all.take(0).filter(active)) by {
            reveal(Seq::filter);
        }
        while i < self.items.len()
            invariant
                i <= self.items.len(),
                all == item_views(self.items@),
                active == (|d: DownloadView| d.state is Active),
                item_views(out@) == all.take(i as int).filter(active),
            decreases self.items.len() - i,
        {
            let ghost before = item_views(out@);
            proof {
                reveal(Seq::filter);
                assert(all.take(i + 1).drop_last() =~= all.take(i as int));
                assert(all[i as int] == self.items@[i as int]@);
            }
            let keep = match self.items[i].state {
                State::Active => true,
                _ => false,
            };
            if keep {
                let d = copy_download(&self.items[i]);
                out.push(d);
                assert(item_views(out@) =~= before.push(d@));
            }
            i += 1;
        }
        assert(all.take(i as int) =~= all);
        self.items = out;
        proof {
            if old(self)@.wf() {
                lemma_filter_keeps_ids(all, active, old(self)@.next_id);
            }
        }
    }

    /// The page that lists the downloads.
    pub fn html(&self) -> (r: String)
        requires
            self@.countable(),
        ensures
            r@ == downloads_page(self@.items),
    {
        let ghost all = self@.items;
        let mut rows = String::new();
        let mut active = false;
        let mut i: usize = self.items.len();
        assert(all.take(i as int) =~= all);
        assert(rows@ + download_rows(all.take(i as int)) =~= download_rows(all));
        while i > 0
            invariant
                i <= self.items.len(),
                all == self@.items,
                self@.countable(),
                rows@ + download_rows(all.take(i as int)) == download_rows(all),
                active == exists|j: int|
                    i <= j < all.len() && (#[trigger] all[j]).state is Active,
            decreases i,
        {
            let ghost before = rows@;
            i -= 1;
            let d = &self.items[i];
            assert(all[i as int] == d@);
            assert(all.take(i + 1).drop_last() =~= all.take(i as int));
            if let State::Active = d.state {
                active = true;
            }
            let row = download_row(d);
            rows.append(row.as_str());
            assert(rows@ + download_rows(all.take(i as int)) =~= before + download_rows(
                all.take(i + 1),
            ));
        }
        assert(rows@ =~= download_rows(all));
        assert(active == any_active(all));
        let mut meta = to_decimal(self.items.len() as u64);
        meta.append(" downloads<a href=\"cce://downloads/clear\">clear finished</a>");
        if self.items.len() == 0 {
            rows =
            "<p class=empty>No downloads yet. Links to archives and binaries download here.</p>".to_owned();
        }
        let head = if active {
            "<meta http-equiv=\"refresh\" content=\"1\">"
        } else {
            ""
        };
        page("Downloads", meta.as_str(), rows.as_str(), head)
    }
}

/// A second copy of a download.
fn copy_download(d: &Download) -> (r: Download)
    ensures
        r@ == d@,
{
    let state = match &d.state {
        State::Active => State::Active,
        State::Done => State::Done,
        State::Failed(e) => State::Failed(e.clone()),
    };
    Download {
        id: d.id,
        ts: d.ts,
        url: d.url.clone(),
        filename: d.filename.clone(),
        path: d.path.clone(),
        received: d.received,
        total: d.total,
        state,
    }
}

fn download_row(d: &Download) -> (r: String)
    requires
        d@.countable(),
    ensures
        r@ == d@.row(),
{
    let mut out = "<div class=e><span class=w data-ts=\"".to_owned();
    let ts = to_decimal(d.ts);
    out.append(ts.as_str());
    out.append("\"></span><a href=\"file://");
    let path = html_escape(d.path.as_str());
    out.append(path.as_str());
    out.append("\">");
    let name = html_escape(d.filename.as_str());
    out.append(name.as_str());
    out.append("</a><span class=u>");
    let url = html_escape(d.url.as_str());
    out.append(url.as_str());
    out.append("</span><span class=w style=\"min-width:0\">");
    let progress = download_progress(d);
    out.append(progress.as_str());
    out.append("</span></div>\n");
    out
}

fn download_progress(d: &Download) -> (r: String)
    requires
        d@.countable(),
    ensures
        r@ == d@.progress(),
{
    match &d.state {
        State::Active => {
            let mut out = human_size(d.received);
            match d.total {
                Some(total) if total > 0 => {
                    out.append(" / ");
                    let whole = human_size(total);
                    out.append(whole.as_str());
                    out.append(" (");
                    let share = to_decimal(d.received * 100 / total);
                    out.append(share.as_str());
                    out.append("%)");
                },
                _ => {
                    out.append("...");
                },
            }
            out
        },
        State::Done => human_size(d.received),
        State::Failed(e) => {
            let mut out = "failed: ".to_owned();
            let reason = html_escape(e.as_str());
            out.append(reason.as_str());
            out
        },
    }
}

/// What a filter keeps has handles that were given out, each once.
proof fn lemma_filter_keeps_ids(
    items: Seq<DownloadView>,
    p: spec_fn(DownloadView) -> bool,
    next_id: u64,
)
    requires
        (DownloadsView { items, next_id }).wf(),
    ensures
        (DownloadsView { items: items.filter(p), next_id }).wf(),
        forall|i: int|
            0 <= i < items.filter(p).len() ==> items.contains(#[trigger] items.filter(p)[i]),
    decreases items.len(),
{
    reveal(Seq::filter);
    if items.len() > 0 {
        let rest = items.drop_last();
        assert((DownloadsView { items: rest, next_id }).wf()) by {
            assert forall|i: int| 0 <= i < rest.len() implies (#[trigger] rest[i]).id < next_id by {
                assert(items[i].id < next_id);
            }
            assert forall|i: int, j: int| 0 <= i < j < rest.len() implies (#[trigger] rest[i]).id
                != (#[trigger] rest[j]).id by {
                assert(items[i].id != items[j].id);
            }
        }
        lemma_filter_keeps_ids(rest, p, next_id);
        let kept = items.filter(p);
        let before = rest.filter(p);
        let last = items.last();
        assert forall|i: int| 0 <= i < kept.len() implies items.contains(#[trigger] kept[i]) by {
            if i < before.len() {
                assert(rest.contains(before[i]));
                let j = choose|j: int| 0 <= j < rest.len() && rest[j] == before[i];
                assert(items[j] == kept[i]);
            } else {
                assert(items[items.len() - 1] == kept[i]);
            }
        }
        assert forall|i: int| 0 <= i < kept.len() implies (#[trigger] kept[i]).id < next_id by {
            let j = choose|j: int| 0 <= j < items.len() && items[j] == kept[i];
            assert(items[j].id < next_id);
        }
        assert forall|i: int, j: int| 0 <= i < j < kept.len() implies (#[trigger] kept[i]).id != (
        #[trigger] kept[j]).id by {
            assert(kept[i] == before[i]);
            if j < before.len() {
                assert(kept[j] == before[j]);
            } else {
                assert(rest.contains(before[i]));
                let k = choose|k: int| 0 <= k < rest.len() && rest[k] == before[i];
                assert(items[k].id != items[items.len() - 1].id);
            }
        }
    }
}

/// An update reaches the download of its handle and no other.
pub proof fn update_reaches_its_own(list: DownloadsView, id: u64, u: Update, i: int)
    requires
        list.wf(),
        0 <= i < list.items.len(),
    ensures
        list.updated(id, u).items.len() == list.items.len(),
        list.updated(id, u).items[i] == (if list.items[i].id == id {
            list.items[i].updated(u)
        } else {
            list.items[i]
        }),
{
    lemma_id_index(list.items, id);
    let k = id_index(list.items, id);
    if list.items[i].id == id && k < i {
        assert(list.items[k].id != list.items[i].id);
    }
}

/// A handle that clearing took off the list stays without effect.
pub proof fn cleared_handles_are_dead(list: DownloadsView, i: int, u: Update)
    requires
        list.wf(),
        0 <= i < list.items.len(),
        !(list.items[i].state is Active),
    ensures
        list.cleared().updated(list.items[i].id, u) == list.cleared(),
{
    let p = |d: DownloadView| d.state is Active;
    let id = list.items[i].id;
    let kept = list.items.filter(p);
    lemma_filter_keeps_ids(list.items, p, list.next_id);
    lemma_id_index(kept, id);
    let k = id_index(kept, id);
    if k < kept.len() {
        assert(list.items.contains(kept[k]));
        let j = choose|j: int| 0 <= j < list.items.len() && list.items[j] == kept[k];
        list.items.lemma_filter_pred(p, k);
        assert(p(kept[k]));
        if i < j {
            assert(list.items[i].id != list.items[j].id);
        } else if j < i {
            assert(list.items[j].id != list.items[i].id);
        }
    }
}

} // verus!
