//! How texts, numbers, names and pictures are written and read.

use vstd::prelude::*;
use vstd::utf8::{encode_utf8, is_ascii_chars, is_ascii_chars_encode_utf8};

use crate::downloads::{
    candidate, download_dir_of, file_name, first_user_dir, last_dot, name_char, percent_bytes,
    percent_decoded, user_dir,
};
use crate::html::escaped;
use crate::lineedit::printable;
use crate::numerals::{decimal, digit};
use crate::outcomes::addresses::trimming_takes_white_alone;
use crate::outcomes::lists::narrowing_keeps_what_passes;
use crate::outcomes::stores::files_are_named_last;
use crate::paths::{joined, same_place, state_dir_of};
use crate::pixels::rgba_byte;
use crate::sizes::{double_step, nearest_double, rounded_even, size_text};
use crate::split::replaced;
use crate::store::sanitized;
use crate::text::{has_sub, is_ctrl, strip_end_char, strip_start_char, sub_at};
use crate::weburl::{form_byte, form_bytes, one_line, UrlView};
use crate::wpe::formwatch::{json_chars, json_literal};

verus! {

// ---------------------------------------------------------------------------------------------
// Markup and scripts
// ---------------------------------------------------------------------------------------------

/// In markup the four characters that mean something there are written as entities, every other character as
/// itself, and one after another.
pub proof fn markup_is_written_by_character(a: Seq<char>, b: Seq<char>, c: char)
    ensures
        escaped(seq!['&']) == "&amp;"@,
        escaped(seq!['<']) == "&lt;"@,
        escaped(seq!['>']) == "&gt;"@,
        escaped(seq!['"']) == "&quot;"@,
        c != '&' && c != '<' && c != '>' && c != '"' ==> escaped(seq![c]) == seq![c],
        escaped(a + b) == escaped(a) + escaped(b),
    decreases a.len(),
{
    lemma_escaped_one('&');
    lemma_escaped_one('<');
    lemma_escaped_one('>');
    lemma_escaped_one('"');
    lemma_escaped_one(c);
    if a.len() == 0 {
        assert(a + b =~= b);
        assert(escaped(a) + escaped(b) =~= escaped(b));
    } else {
        markup_is_written_by_character(a.drop_first(), b, c);
        assert((a + b).drop_first() =~= a.drop_first() + b);
        assert(escaped(a + b) =~= escaped(a) + escaped(b));
    }
}

proof fn lemma_escaped_one(c: char)
    ensures
        escaped(seq![c]) == crate::html::escaped_char(c),
{
    let s = seq![c];
    assert(s.drop_first() =~= Seq::empty());
    assert(escaped(s.drop_first()) =~= Seq::<char>::empty());
    assert(escaped(s) =~= crate::html::escaped_char(c));
}

/// In a script's literal a quote, a backslash, a line feed, a carriage return and a tab are written with a
/// backslash, the two other line ends by their numbers, and every other character that is not a control code as
/// itself, one after another between quotes.
pub proof fn literals_are_written_by_character(a: Seq<char>, b: Seq<char>, c: char)
    ensures
        json_chars(seq!['"']) == seq!['\\', '"'],
        json_chars(seq!['\\']) == seq!['\\', '\\'],
        json_chars(seq!['\n']) == seq!['\\', 'n'],
        json_chars(seq!['\r']) == seq!['\\', 'r'],
        json_chars(seq!['\t']) == seq!['\\', 't'],
        json_chars(seq!['\u{2028}']) == seq!['\\', 'u', '2', '0', '2', '8'],
        json_chars(seq!['\u{2029}']) == seq!['\\', 'u', '2', '0', '2', '9'],
        c as int >= 32 && c != '"' && c != '\\' && c != '\u{2028}' && c != '\u{2029}' ==> json_chars(
            seq![c],
        ) == seq![c],
        json_chars(a + b) == json_chars(a) + json_chars(b),
        json_literal(a) == seq!['"'] + json_chars(a) + seq!['"'],
    decreases a.len(),
{
    lemma_json_one('"');
    lemma_json_one('\\');
    lemma_json_one('\n');
    lemma_json_one('\r');
    lemma_json_one('\t');
    lemma_json_one('\u{2028}');
    lemma_json_one('\u{2029}');
    lemma_json_one(c);
    if a.len() == 0 {
        assert(a + b =~= b);
        assert(json_chars(a) + json_chars(b) =~= json_chars(b));
    } else {
        literals_are_written_by_character(a.drop_first(), b, c);
        assert((a + b).drop_first() =~= a.drop_first() + b);
        assert(json_chars(a + b) =~= json_chars(a) + json_chars(b));
    }
}

proof fn lemma_json_one(c: char)
    ensures
        json_chars(seq![c]) == crate::wpe::formwatch::json_char(c),
{
    let s = seq![c];
    assert(s.drop_first() =~= Seq::empty());
    assert(json_chars(s.drop_first()) =~= Seq::<char>::empty());
    assert(json_chars(s) =~= crate::wpe::formwatch::json_char(c));
}

/// The value of a capital hexadecimal digit.
pub open spec fn hex_of(c: char) -> int {
    if '0' <= c <= '9' {
        c as int - '0' as int
    } else {
        c as int - 'A' as int + 10
    }
}

/// In a query a letter, a digit, a star, a hyphen, a dot and an underscore stand for themselves, a space is a plus
/// sign, and any other byte is a percent sign and its number in two capital hexadecimal digits.
pub proof fn queries_are_written_by_byte(b: u8)
    ensures
        ('0' as u8 <= b <= '9' as u8 || 'A' as u8 <= b <= 'Z' as u8 || 'a' as u8 <= b <= 'z' as u8 || b
            == '*' as u8 || b == '-' as u8 || b == '.' as u8 || b == '_' as u8) ==> form_byte(b)
            == seq![b as char],
        b == 32 ==> form_byte(b) == seq!['+'],
        form_byte(b).len() == 1 || form_byte(b).len() == 3,
        form_byte(b).len() == 3 ==> form_byte(b)[0] == '%' && hex_of(form_byte(b)[1]) * 16 + hex_of(
            form_byte(b)[2],
        ) == b,
        form_byte(b).len() == 3 ==> b != 32 && !('a' as u8 <= b <= 'z' as u8) && !('A' as u8 <= b <= 'Z'
            as u8) && !('0' as u8 <= b <= '9' as u8),
        form_byte(b).len() == 1 && b != 32 ==> form_byte(b)[0] as int == b,
{
    assert('0' as u8 == 48 && '9' as u8 == 57 && 'A' as u8 == 65 && 'Z' as u8 == 90 && 'a' as u8 == 97
        && 'z' as u8 == 122);
    assert('*' as u8 == 42 && '-' as u8 == 45 && '.' as u8 == 46 && '_' as u8 == 95);
}

/// The bytes of a text are written one after another.
pub proof fn queries_are_written_in_order(a: Seq<u8>, b: Seq<u8>)
    ensures
        form_bytes(a + b) == form_bytes(a) + form_bytes(b),
    decreases b.len(),
{
    if b.len() == 0 {
        assert(a + b =~= a);
        assert(form_bytes(a) + form_bytes(b) =~= form_bytes(a));
    } else {
        queries_are_written_in_order(a, b.drop_last());
        assert((a + b).drop_last() =~= a + b.drop_last());
        assert(form_bytes(a + b) =~= form_bytes(a) + form_bytes(b));
    }
}

// ---------------------------------------------------------------------------------------------
// Numbers
// ---------------------------------------------------------------------------------------------

/// A number is written by its decimal digits, the highest first.
pub proof fn numbers_are_written_in_decimal(n: nat)
    ensures
        n < 10 ==> decimal(n).len() == 1 && decimal(n)[0] as int == '0' as int + n,
        n >= 10 ==> decimal(n).drop_last() == decimal(n / 10) && decimal(n).last() as int == '0' as int + n
            % 10,
{
    if n >= 10 {
        assert(decimal(n).drop_last() =~= decimal(n / 10));
    }
}

proof fn lemma_round(a: nat, b: nat)
    requires
        b > 0,
    ensures
        -(b as int) <= 2 * (rounded_even(a, b) * b - a) <= b,
{
    let q = a / b;
    let r = a % b;
    assert(a == q * b + r && r < b) by (nonlinear_arith)
        requires
            b > 0,
            q == a / b,
            r == a % b,
    ;
    assert((q + 1) * b == q * b + b) by (nonlinear_arith);
}

/// Whether a text is a size to a tenth, in a unit of so many bytes.
pub open spec fn reads_as(t: Seq<char>, tenths: nat, unit: Seq<char>) -> bool {
    t == decimal(tenths / 10) + "."@ + seq![digit((tenths % 10) as int)] + unit
}

proof fn lemma_small_sizes(n: nat)
    requires
        n < 0x20_0000_0000_0000,
    ensures
        nearest_double(n) == n,
{
    assert(double_step(n, 1) == 1);
    assert(rounded_even(n, 1) == n);
}

/// A size below 1024 bytes is written in bytes, and a larger one, to the nearest tenth, in the largest of
/// kilobytes, megabytes, gigabytes and terabytes that it fills.
#[verifier::rlimit(40)]
pub proof fn sizes_are_written_to_a_tenth(n: nat) -> (tenths: nat)
    requires
        n < 0x20_0000_0000_0000,
    ensures
        n < 1024 ==> size_text(n) == decimal(n) + " B"@,
        1024 <= n < 0x10_0000 ==> reads_as(size_text(n), tenths, " KB"@) && -1024 <= 2 * (tenths * 1024 - n
            * 10) <= 1024,
        0x10_0000 <= n < 0x4000_0000 ==> reads_as(size_text(n), tenths, " MB"@) && -0x10_0000 <= 2 * (tenths
            * 0x10_0000 - n * 10) <= 0x10_0000,
        0x4000_0000 <= n < 0x100_0000_0000 ==> reads_as(size_text(n), tenths, " GB"@) && -0x4000_0000 <= 2
            * (tenths * 0x4000_0000 - n * 10) <= 0x4000_0000,
        0x100_0000_0000 <= n ==> reads_as(size_text(n), tenths, " TB"@) && -0x100_0000_0000 <= 2 * (tenths
            * 0x100_0000_0000 - n * 10) <= 0x100_0000_0000,
{
    lemma_small_sizes(n);
    reveal_strlit(".");
    let unit: nat = if n < 0x10_0000 {
        0x400
    } else if n < 0x4000_0000 {
        0x10_0000
    } else if n < 0x100_0000_0000 {
        0x4000_0000
    } else {
        0x100_0000_0000
    };
    let tenths = rounded_even(n * 10, unit);
    lemma_round(n * 10, unit);
    assert(seq!['.', digit((tenths % 10) as int)] =~= "."@ + seq![digit((tenths % 10) as int)]);
    assert(decimal(tenths / 10) + seq!['.', digit((tenths % 10) as int)] =~= decimal(tenths / 10) + "."@
        + seq![digit((tenths % 10) as int)]);
    tenths
}

// ---------------------------------------------------------------------------------------------
// Control codes
// ---------------------------------------------------------------------------------------------

/// What is pasted loses its control codes and keeps everything else.
pub proof fn pasting_drops_control_codes(t: Seq<char>, c: char)
    ensures
        printable(t).contains(c) <==> t.contains(c) && c as int >= 32 && !(127 <= c as int && c as int
            <= 159),
        (forall|i: int| 0 <= i < t.len() ==> !is_ctrl(#[trigger] t[i])) ==> printable(t) == t,
    decreases t.len(),
{
    narrowing_keeps_what_passes(t, |c: char| !is_ctrl(c), c);
    if forall|i: int| 0 <= i < t.len() ==> !is_ctrl(#[trigger] t[i]) {
        reveal(Seq::filter);
        if t.len() > 0 {
            let s = t.drop_last();
            assert forall|i: int| 0 <= i < s.len() implies !is_ctrl(#[trigger] s[i]) by {
                assert(s[i] == t[i]);
            }
            pasting_drops_control_codes(s, c);
            assert(!is_ctrl(t[t.len() - 1]));
            assert(s.push(t.last()) =~= t);
        } else {
            assert(printable(t) =~= t);
        }
    }
}

// ---------------------------------------------------------------------------------------------
// Files
// ---------------------------------------------------------------------------------------------

/// A percent sign and two hexadecimal digits are read as the byte that they number; any other byte is read as
/// itself.
pub proof fn percent_signs_are_read(h: u8, l: u8, rest: Seq<u8>, b: u8)
    requires
        48 <= h <= 57 || 65 <= h <= 70 || 97 <= h <= 102,
        48 <= l <= 57 || 65 <= l <= 70 || 97 <= l <= 102,
        b != 37,
    ensures
        ({
            let high = if h <= 57 {
                h - 48
            } else if h <= 70 {
                h - 55
            } else {
                h - 87
            };
            let low = if l <= 57 {
                l - 48
            } else if l <= 70 {
                l - 55
            } else {
                l - 87
            };
            percent_bytes(seq![37u8, h, l] + rest) == seq![(high * 16 + low) as u8] + percent_bytes(rest)
        }),
        percent_bytes(seq![b] + rest) == seq![b] + percent_bytes(rest),
        percent_bytes(Seq::empty()).len() == 0,
{
    let s = seq![37u8, h, l] + rest;
    assert(s.skip(3) =~= rest);
    let t = seq![b] + rest;
    assert(t.drop_first() =~= rest);
}

proof fn lemma_no_percent(b: Seq<u8>)
    requires
        !b.contains(37),
    ensures
        percent_bytes(b) == b,
    decreases b.len(),
{
    if b.len() > 0 {
        let t = b.drop_first();
        assert(b.contains(b[0]));
        assert forall|i: int| 0 <= i < t.len() implies t[i] != 37 by {
            assert(b.contains(b[i + 1]));
        }
        lemma_no_percent(t);
        assert(percent_bytes(b) =~= b);
    } else {
        assert(percent_bytes(b) =~= b);
    }
}

/// A file is called what its address ends in, where that has no percent sign; an address that ends in a slash
/// gives no name, and the file is called `download`.
pub proof fn files_are_called_as_they_are_addressed(dir: Seq<char>, name: Seq<char>, u: UrlView)
    requires
        dir.len() > 0 ==> dir[0] == '/',
        u.path == dir + seq!['/'] + name,
        !name.contains('/'),
        !name.contains('\0'),
        !encode_utf8(name).contains(37),
    ensures
        name.len() > 0 ==> file_name(u) == name,
        name.len() == 0 ==> file_name(u) == "download"@,
{
    files_are_named_last(dir, name);
    lemma_no_percent(encode_utf8(name));
    vstd::utf8::encode_utf8_valid_utf8(name);
    vstd::utf8::encode_utf8_decode_utf8(name);
    assert(percent_decoded(name) == name);
    assert(name.map_values(|c: char| name_char(c)) =~= name) by {
        assert forall|i: int| 0 <= i < name.len() implies name_char(name[i]) == name[i] by {
            assert(name.contains(name[i]));
        }
    }
}

proof fn lemma_last_dot(stem: Seq<char>, ext: Seq<char>)
    requires
        !ext.contains('.'),
    ensures
        last_dot(stem + seq!['.'] + ext) == stem.len(),
    decreases ext.len(),
{
    let s = stem + seq!['.'] + ext;
    if ext.len() > 0 {
        let e = ext.drop_last();
        assert(ext.contains(ext.last()));
        assert forall|i: int| 0 <= i < e.len() implies e[i] != '.' by {
            assert(ext.contains(ext[i]));
        }
        lemma_last_dot(stem, e);
        assert(s.drop_last() =~= stem + seq!['.'] + e);
        assert(s.last() == ext.last());
    } else {
        assert(s.last() == '.');
    }
}

proof fn lemma_no_dot(s: Seq<char>)
    requires
        !s.contains('.'),
    ensures
        last_dot(s) == -1,
    decreases s.len(),
{
    if s.len() > 0 {
        assert(s.contains(s.last()));
        let t = s.drop_last();
        assert forall|i: int| 0 <= i < t.len() implies t[i] != '.' by {
            assert(s.contains(s[i]));
        }
        lemma_no_dot(t);
    }
}

/// A name that is taken gets a number before its extension, or at its end where it has none.
pub proof fn numbers_go_before_the_extension(stem: Seq<char>, ext: Seq<char>, n: nat)
    requires
        !ext.contains('.'),
        stem.len() > 0,
        n > 0,
    ensures
        candidate(stem + seq!['.'] + ext, 0) == stem + seq!['.'] + ext,
        candidate(stem + seq!['.'] + ext, n) == stem + "."@ + decimal(n) + "."@ + ext,
        ext.len() > 0 ==> candidate(ext, n) == ext + "."@ + decimal(n),
{
    reveal_strlit(".");
    let name = stem + seq!['.'] + ext;
    lemma_last_dot(stem, ext);
    assert(name.take(stem.len() as int) =~= stem);
    assert(candidate(name, n) =~= stem + "."@ + decimal(n) + "."@ + ext);
    lemma_no_dot(ext);
    assert(candidate(ext, n) =~= ext + "."@ + decimal(n));
}

/// Files go to the directory that the settings name, else to the one that the line for downloads in
/// `user-dirs.dirs` names, and else to `Downloads` in the home directory.
pub proof fn downloads_go_to_their_directory(chosen: Seq<char>, home: Seq<char>, text: Option<Seq<char>>)
    requires
        home.len() > 0,
        home.last() != '/',
    ensures
        download_dir_of(Some(chosen), home, text) == chosen,
        download_dir_of(None, home, None) == home + "/Downloads"@,
{
    reveal_strlit("/Downloads");
    reveal_strlit("Downloads");
    assert(joined(home, "Downloads"@) =~= home + "/Downloads"@);
}

proof fn lemma_nothing_replaced(s: Seq<char>, home: Seq<char>)
    requires
        !s.contains('$'),
    ensures
        replaced(s, "$HOME"@, home) == s,
    decreases s.len(),
{
    reveal_strlit("$HOME");
    if s.len() > 0 {
        assert(s.contains(s[0]));
        if "$HOME"@.is_prefix_of(s) {
            assert("$HOME"@[0] == s[0]);
        }
        let t = s.drop_first();
        assert forall|i: int| 0 <= i < t.len() implies t[i] != '$' by {
            assert(s.contains(s[i + 1]));
        }
        lemma_nothing_replaced(t, home);
        assert(replaced(s, "$HOME"@, home) =~= s);
    }
}

/// The line for downloads names a directory below the home directory by `$HOME`, between quotes.
#[verifier::rlimit(40)]
pub proof fn user_dirs_are_read(home: Seq<char>, rest: Seq<char>)
    requires
        rest.len() > 0,
        rest[0] == '/',
        rest.last() != '"',
        !rest.contains('$'),
    ensures
        user_dir("XDG_DOWNLOAD_DIR=\"$HOME"@ + rest + "\""@, home) == Some(home + rest),
        user_dir("XDG_MUSIC_DIR=\"$HOME"@ + rest + "\""@, home) is None,
{
    reveal_strlit("XDG_DOWNLOAD_DIR=\"$HOME");
    reveal_strlit("XDG_MUSIC_DIR=\"$HOME");
    reveal_strlit("XDG_DOWNLOAD_DIR=");
    reveal_strlit("$HOME");
    reveal_strlit("\"");
    let line = "XDG_DOWNLOAD_DIR=\"$HOME"@ + rest + "\""@;
    trimming_takes_white_alone(line, Seq::empty(), Seq::empty());
    assert(Seq::<char>::empty() + line + Seq::<char>::empty() =~= line);
    assert("XDG_DOWNLOAD_DIR="@.is_prefix_of(line)) by {
        assert(line.take(17) =~= "XDG_DOWNLOAD_DIR="@);
    }
    let quoted = line.skip(17);
    let inner = "$HOME"@ + rest;
    assert(quoted =~= seq!['"'] + inner + seq!['"']);
    assert(quoted.drop_first() =~= inner + seq!['"']);
    assert((inner + seq!['"'])[0] == '$');
    assert(strip_start_char(quoted, '"') == strip_start_char(inner + seq!['"'], '"'));
    assert(strip_start_char(quoted, '"') == inner + seq!['"']);
    assert((inner + seq!['"']).drop_last() =~= inner);
    assert(inner.last() == rest.last());
    assert(strip_end_char(inner + seq!['"'], '"') == strip_end_char(inner, '"'));
    assert(strip_end_char(inner, '"') == inner);
    assert("$HOME"@.is_prefix_of(inner));
    assert(inner.skip(5) =~= rest);
    lemma_nothing_replaced(rest, home);
    assert(replaced(inner, "$HOME"@, home) == home + rest);
    let other = "XDG_MUSIC_DIR=\"$HOME"@ + rest + "\""@;
    trimming_takes_white_alone(other, Seq::empty(), Seq::empty());
    assert(Seq::<char>::empty() + other + Seq::<char>::empty() =~= other);
    assert(!"XDG_DOWNLOAD_DIR="@.is_prefix_of(other)) by {
        assert(other[4] == 'M' && "XDG_DOWNLOAD_DIR="@[4] == 'D');
    }
}

/// The browser's own files are below the state directory: the one that the environment names, else
/// `.local/state` in the home directory.
#[verifier::rlimit(40)]
pub proof fn the_browser_has_a_directory(state: Seq<char>, home: Seq<char>)
    requires
        state.len() > 0,
        state.last() != '/',
        home.len() > 0,
        home.last() != '/',
    ensures
        state_dir_of(Some(state), Some(home)) == state + "/cce/browser"@,
        state_dir_of(None, Some(home)) == home + "/.local/state/cce/browser"@,
        joined(state, home) == state + "/"@ + home,
        joined(state + "/"@, home) == state + "/"@ + home,
{
    reveal_strlit("/");
    reveal_strlit("cce");
    reveal_strlit("browser");
    reveal_strlit(".local/state");
    reveal_strlit("/cce/browser");
    reveal_strlit("/.local/state/cce/browser");
    assert(joined(state, "cce"@) =~= state + seq!['/'] + "cce"@);
    assert(joined(joined(state, "cce"@), "browser"@) =~= state + "/cce/browser"@);
    let base = joined(home, ".local/state"@);
    assert(base =~= home + seq!['/'] + ".local/state"@);
    assert(joined(base, "cce"@) =~= base + seq!['/'] + "cce"@);
    assert(joined(joined(base, "cce"@), "browser"@) =~= home + "/.local/state/cce/browser"@);
    assert(joined(state, home) =~= state + "/"@ + home);
    assert(joined(state + "/"@, home) =~= state + "/"@ + home);
}

// ---------------------------------------------------------------------------------------------
// Pictures
// ---------------------------------------------------------------------------------------------

/// The pixel in column `x` of row `y` of a picture in red, green, blue and alpha is the one that stands there in
/// the frame in blue, green, red and alpha.
pub proof fn pixels_keep_their_place(src: Seq<u8>, width: int, stride: int, x: int, y: int)
    requires
        0 <= x < width,
        0 <= y,
    ensures
        ({
            let at = (y * width + x) * 4;
            let from = y * stride + x * 4;
            &&& rgba_byte(src, width, stride, at) == src[from + 2]
            &&& rgba_byte(src, width, stride, at + 1) == src[from + 1]
            &&& rgba_byte(src, width, stride, at + 2) == src[from]
            &&& rgba_byte(src, width, stride, at + 3) == src[from + 3]
        }),
{
    let p = y * width + x;
    assert(p >= 0 && p / width == y && p % width == x) by {
        vstd::arithmetic::div_mod::lemma_fundamental_div_mod_converse(p, width, y, x);
        assert(y * width >= 0) by (nonlinear_arith)
            requires
                y >= 0,
                width > 0,
        ;
    }
    let at = p * 4;
    assert(at / 4 == p && (at + 1) / 4 == p && (at + 2) / 4 == p && (at + 3) / 4 == p);
    assert(at % 4 == 0 && (at + 1) % 4 == 1 && (at + 2) % 4 == 2 && (at + 3) % 4 == 3);
}

// ---------------------------------------------------------------------------------------------
// Texts within texts
// ---------------------------------------------------------------------------------------------

/// A text stands in another where that is the text with something before and something after it.
pub proof fn texts_stand_within_texts(hay: Seq<char>, needle: Seq<char>)
    ensures
        has_sub(hay, needle) <==> exists|a: Seq<char>, b: Seq<char>| hay == #[trigger] (a + needle + b),
{
    if has_sub(hay, needle) {
        let i = choose|i: int| sub_at(hay, needle, i);
        let a = hay.take(i);
        let b = hay.skip(i + needle.len());
        assert(hay =~= a + hay.subrange(i, i + needle.len()) + b);
        assert(hay == a + needle + b);
    }
    if exists|a: Seq<char>, b: Seq<char>| hay == #[trigger] (a + needle + b) {
        let (a, b) = choose|a: Seq<char>, b: Seq<char>| hay == #[trigger] (a + needle + b);
        assert(hay.subrange(a.len() as int, (a.len() + needle.len()) as int) =~= needle);
        assert(sub_at(hay, needle, a.len() as int));
    }
}

/// A text stands on one line where it has neither a tab character nor a line end.
pub proof fn one_line_is_one_line(s: Seq<char>)
    ensures
        one_line(s) <==> forall|i: int|
            0 <= i < s.len() ==> #[trigger] s[i] != '\t' && s[i] != '\n' && s[i] != '\r',
{
    if one_line(s) {
        assert forall|i: int| 0 <= i < s.len() implies #[trigger] s[i] != '\t' && s[i] != '\n' && s[i]
            != '\r' by {
            assert(s.contains(s[i]));
        }
    }
}

/// What a field of a log keeps of a text: each character in its place, with a space for a tab character or a line end.
pub proof fn fields_keep_the_text(s: Seq<char>, i: int)
    requires
        0 <= i < s.len(),
    ensures
        sanitized(s).len() == s.len(),
        s[i] == '\t' || s[i] == '\n' || s[i] == '\r' ==> sanitized(s)[i] == ' ',
        s[i] != '\t' && s[i] != '\n' && s[i] != '\r' ==> sanitized(s)[i] == s[i],
{
}

/// A path is the same with a slash at its end, and another where it starts at the root.
pub proof fn paths_are_compared_by_their_parts(p: Seq<char>)
    ensures
        same_place(Some(p), Some(p)),
        same_place(None, None),
        !same_place(Some(p), None),
        p.len() > 0 && p[0] != '/' ==> !same_place(Some(p), Some(seq!['/'] + p)),
{
    let q = seq!['/'] + p;
    assert(q[0] == '/');
}

proof fn lemma_percent_after(x: Seq<u8>, y: Seq<u8>)
    requires
        !x.contains(37),
    ensures
        percent_bytes(x + y) == x + percent_bytes(y),
    decreases x.len(),
{
    if x.len() == 0 {
        assert(x + y =~= y);
        assert(x + percent_bytes(y) =~= percent_bytes(y));
    } else {
        let t = x.drop_first();
        assert(x.contains(x[0]));
        assert forall|i: int| 0 <= i < t.len() implies t[i] != 37 by {
            assert(x.contains(x[i + 1]));
        }
        lemma_percent_after(t, y);
        assert((x + y).drop_first() =~= t + y);
        assert((x + y)[0] == x[0]);
        assert(percent_bytes(x + y) =~= x + percent_bytes(y));
    }
}

/// A space that an address writes with a percent sign is a space in the file's name.
#[verifier::rlimit(40)]
pub proof fn escaped_spaces_are_spaces(a: Seq<char>, b: Seq<char>)
    requires
        is_ascii_chars(a),
        is_ascii_chars(b),
        !a.contains('%') && !a.contains('/') && !a.contains('\0'),
        !b.contains('%') && !b.contains('/') && !b.contains('\0'),
    ensures
        percent_decoded(a + "%20"@ + b) == a + " "@ + b,
{
    reveal_strlit("%20");
    reveal_strlit(" ");
    let s = a + "%20"@ + b;
    let t = a + " "@ + b;
    assert(is_ascii_chars(s));
    assert(is_ascii_chars(t));
    is_ascii_chars_encode_utf8(a);
    is_ascii_chars_encode_utf8(b);
    is_ascii_chars_encode_utf8(s);
    is_ascii_chars_encode_utf8(t);
    let x = encode_utf8(a);
    let y = encode_utf8(b);
    let code = seq![37u8, 50u8, 48u8];
    assert(encode_utf8(s) =~= x + (code + y));
    assert forall|i: int| 0 <= i < x.len() implies x[i] != 37 by {
        assert(a.contains(a[i]));
    }
    assert forall|i: int| 0 <= i < y.len() implies y[i] != 37 by {
        assert(b.contains(b[i]));
    }
    lemma_percent_after(x, code + y);
    percent_signs_are_read(50, 48, y, 0);
    lemma_no_percent(y);
    assert(x + (seq![32u8] + y) =~= encode_utf8(t));
    vstd::utf8::encode_utf8_valid_utf8(t);
    vstd::utf8::encode_utf8_decode_utf8(t);
    assert(!crate::downloads::path_hostile(t)) by {
        assert forall|i: int| 0 <= i < t.len() implies t[i] != '/' && t[i] != '\0' by {
            if i < a.len() {
                assert(a.contains(a[i]));
            } else if i > a.len() {
                assert(t[i] == b[i - a.len() - 1]);
                assert(b.contains(b[i - a.len() - 1]));
            }
        }
    }
}

/// The first line that names a directory for downloads is the one that counts.
pub proof fn the_first_line_counts(line: Seq<char>, rest: Seq<Seq<char>>, home: Seq<char>)
    ensures
        user_dir(line, home) is Some ==> first_user_dir(seq![line] + rest, home) == user_dir(line, home),
        user_dir(line, home) is None ==> first_user_dir(seq![line] + rest, home) == first_user_dir(
            rest,
            home,
        ),
        first_user_dir(Seq::empty(), home) is None,
{
    let ls = seq![line] + rest;
    assert(ls[0] == line);
    assert(ls.drop_first() =~= rest);
}

/// Without a directory in the settings, the one that `user-dirs.dirs` names is used.
pub proof fn user_dirs_are_used(home: Seq<char>, text: Seq<char>, dir: Seq<char>)
    requires
        first_user_dir(crate::split::lines(text), home) == Some(dir),
    ensures
        download_dir_of(None, home, Some(text)) == dir,
{
}

/// A control code in a script's literal is written by its number, in four hexadecimal digits.
pub proof fn control_codes_are_written_by_number(c: char)
    requires
        (c as int) < 32,
        c != '\n' && c != '\r' && c != '\t',
    ensures
        ({
            let t = json_chars(seq![c]);
            &&& t.len() == 6
            &&& t[0] == '\\' && t[1] == 'u' && t[2] == '0' && t[3] == '0'
            &&& (c as int) < 16 ==> t[4] == '0'
            &&& (c as int) >= 16 ==> t[4] == '1'
            &&& (c as int) % 16 < 10 ==> t[5] as int == '0' as int + (c as int) % 16
            &&& (c as int) % 16 >= 10 ==> t[5] as int == 'a' as int + (c as int) % 16 - 10
        }),
{
    lemma_json_one(c);
}

} // verus!
