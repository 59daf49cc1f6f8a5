//! The page half of account autocomplete: what the chrome knows about a login form, and how a
//! picked account gets into it.
//!
//! Both directions run in a private script world, not the page's: the page can neither see nor
//! replace the helpers, and cannot speak on the channel that the chrome listens on. The script runs
//! in the top frame only.

use vstd::prelude::*;

use crate::numerals::{hex_small, to_hex_small};
use crate::text::{chars_of, same};
use crate::weburl::view_opt;

verus! {

/// The isolated world everything here lives in.
pub const WORLD: &'static str = "cce-accounts";

/// The message channel the injected script posts on.
pub const CHANNEL: &'static str = "cceAccounts";

/// Watches the top frame for login fields and reports them to the chrome: positions, kinds of field
/// and what is typed into a username field, never page content at large.
pub const WATCH_JS: &'static str = r#"
(() => {
  const post = (m) => {
    try { window.webkit.messageHandlers.cceAccounts.postMessage(JSON.stringify(m)); }
    catch (e) {}
  };
  const state = { user: null, pass: null, filling: false };
  window.__cceAccounts = state;

  const isPassword = (el) =>
    el && el.tagName === 'INPUT' && el.type === 'password' && !el.disabled && !el.readOnly;
  // A username field is a text-ish input that keeps company with a password
  // one: same form, or — for the many login pages that use no form element —
  // anywhere on a page that has one. Autocomplete hints and the usual names
  // are accepted on their own, since some pages ask for the username first
  // and only render the password field on the next step.
  const textish = (el) =>
    el && el.tagName === 'INPUT' &&
    ['text', 'email', 'tel', ''].includes((el.type || '').toLowerCase()) &&
    !el.disabled && !el.readOnly;
  const named = (el) => {
    const hint = ((el.autocomplete || '') + ' ' + (el.name || '') + ' ' +
                  (el.id || '') + ' ' + (el.getAttribute('aria-label') || '')).toLowerCase();
    return /user|email|login|account|ident/.test(hint);
  };
  const passwordsIn = (root) =>
    Array.from((root || document).querySelectorAll('input[type=password]'))
         .filter(isPassword);

  const kindOf = (el) => {
    if (isPassword(el)) return 'pass';
    if (!textish(el)) return null;
    const form = el.form;
    if (passwordsIn(form).length) return 'user';
    if (named(el) && passwordsIn(document).length) return 'user';
    if (named(el) && el.type.toLowerCase() === 'email') return 'user';
    return null;
  };

  const rectOf = (el) => {
    const r = el.getBoundingClientRect();
    return [r.left, r.top, r.width, r.height];
  };

  const report = (el, kind, type) => {
    // A fill is not something to report back: the input events it dispatches
    // would arrive as "the user typed", re-opening the list that was just
    // used and filtering it by the name it had just filled in.
    if (state.filling) return;
    if (kind === 'pass') { state.pass = el; } else { state.user = el; }
    // Remember the pair, so filling reaches both fields from either one.
    const form = el.form;
    const pass = passwordsIn(form).concat(passwordsIn(document))[0] || null;
    if (pass) state.pass = pass;
    if (kind === 'user') state.user = el;
    post({
      t: type,
      kind: kind,
      origin: location.origin,
      rect: rectOf(el),
      value: kind === 'pass' ? '' : (el.value || ''),
    });
  };

  document.addEventListener('focusin', (e) => {
    const kind = kindOf(e.target);
    if (kind) report(e.target, kind, 'focus');
  }, true);

  document.addEventListener('focusout', (e) => {
    if (kindOf(e.target)) post({ t: 'blur' });
  }, true);

  // Typing in the username field is the filter; the password field's own
  // text is never reported.
  document.addEventListener('input', (e) => {
    const kind = kindOf(e.target);
    if (kind === 'user' && document.activeElement === e.target) {
      report(e.target, kind, 'input');
    }
  }, true);

  // The page moving under an open list would leave it pointing at nothing.
  const moved = () => {
    const el = document.activeElement;
    const kind = kindOf(el);
    if (kind) report(el, kind, 'move'); else post({ t: 'blur' });
  };
  window.addEventListener('scroll', moved, true);
  window.addEventListener('resize', moved, true);
  // The chrome calls this when it has something new to offer — the account
  // index finishing its first read, after a field was already focused.
  state.rescan = moved;
})();
"#;

/// Asks the watcher to report whatever login field is focused right now.
pub const RESCAN_JS: &'static str = "window.__cceAccounts && window.__cceAccounts.rescan && window.__cceAccounts.rescan();";

/// The script that fills the remembered pair, up to the username.
pub const FILL_OPEN: &'static str = r#"
(() => {
  const s = window.__cceAccounts || {};
  // Suppress the watcher for the duration: dispatching `input` is the whole
  // point of filling, and it must not come back as typing. Synchronous, so
  // the flag is down again before anything else runs.
  s.filling = true;
  const set = (el, v) => {
    if (!el) return false;
    const d = Object.getOwnPropertyDescriptor(Object.getPrototypeOf(el), 'value');
    if (d && d.set) { d.set.call(el, v); } else { el.value = v; }
    el.dispatchEvent(new Event('input', { bubbles: true }));
    el.dispatchEvent(new Event('change', { bubbles: true }));
    return true;
  };
  const user = "#;

/// What stands between the username and the password.
pub const FILL_MIDDLE: &'static str = r#";
  const pass = "#;

/// What follows the password. The script does not submit: pressing the button is the person's.
pub const FILL_CLOSE: &'static str = r#";
  const filledUser = user.length ? set(s.user, user) : false;
  const filledPass = set(s.pass, pass);
  if (filledUser && !filledPass && s.user) { s.user.focus(); }
  s.filling = false;
})();
"#;

/// A character as it stands inside a string literal of a script.
pub open spec fn json_char(c: char) -> Seq<char> {
    if c == '"' {
        seq!['\\', '"']
    } else if c == '\\' {
        seq!['\\', '\\']
    } else if c == '\n' {
        seq!['\\', 'n']
    } else if c == '\r' {
        seq!['\\', 'r']
    } else if c == '\t' {
        seq!['\\', 't']
    } else if c == '\u{2028}' {
        seq!['\\', 'u', '2', '0', '2', '8']
    } else if c == '\u{2029}' {
        seq!['\\', 'u', '2', '0', '2', '9']
    } else if (c as int) < 32 {
        seq!['\\', 'u', '0', '0', hex_small(c as int / 16), hex_small(c as int % 16)]
    } else {
        seq![c]
    }
}

/// A text as it stands inside a string literal of a script.
pub open spec fn json_chars(s: Seq<char>) -> Seq<char>
    decreases s.len(),
{
    if s.len() == 0 {
        Seq::empty()
    } else {
        json_char(s[0]) + json_chars(s.drop_first())
    }
}

/// The string literal that spells a text.
pub open spec fn json_literal(s: Seq<char>) -> Seq<char> {
    seq!['"'] + json_chars(s) + seq!['"']
}

/// See [`json_literal`].
pub fn json_string(s: &str) -> (r: String)
    ensures
        r@ == json_literal(s@),
{
    let v = chars_of(s);
    let mut out = String::new();
    out.push('"');
    let mut i: usize = 0;
    assert(s@.skip(0) =~= s@);
    assert(out@ =~= seq!['"']);
    while i < v.len()
        invariant
            i <= v.len(),
            v@ == s@,
            out@ + json_chars(s@.skip(i as int)) == seq!['"'] + json_chars(s@),
        decreases v.len() - i,
    {
        let c = v[i];
        let ghost before = out@;
        assert(s@.skip(i as int).drop_first() =~= s@.skip(i + 1));
        push_json(&mut out, c);
        i += 1;
        assert(out@ + json_chars(s@.skip(i as int)) =~= before + json_chars(s@.skip(i - 1)));
    }
    assert(out@ + json_chars(s@.skip(i as int)) =~= out@);
    out.push('"');
    assert(out@ =~= json_literal(s@));
    out
}

/// Adds a character to a string literal.
fn push_json(out: &mut String, c: char)
    ensures
        final(out)@ == old(out)@ + json_char(c),
{
    let ghost before = out@;
    if c == '"' {
        out.push('\\');
        out.push('"');
    } else if c == '\\' {
        out.push('\\');
        out.push('\\');
    } else if c == '\n' {
        out.push('\\');
        out.push('n');
    } else if c == '\r' {
        out.push('\\');
        out.push('r');
    } else if c == '\t' {
        out.push('\\');
        out.push('t');
    } else if c == '\u{2028}' || c == '\u{2029}' {
        // Line separators are literal newlines to a script parser.
        out.push('\\');
        out.push('u');
        out.push('2');
        out.push('0');
        out.push('2');
        if c == '\u{2028}' {
            out.push('8');
        } else {
            out.push('9');
        }
    } else if (c as u32) < 32 {
        let d: u8 = c as u8;
        out.push('\\');
        out.push('u');
        out.push('0');
        out.push('0');
        out.push(to_hex_small(d / 16));
        out.push(to_hex_small(d % 16));
    } else {
        out.push(c);
    }
    assert(out@ =~= before + json_char(c));
}

/// Fills the remembered pair of fields.
pub fn fill_js(username: &str, password: &str) -> (r: String)
    ensures
        r@ == FILL_OPEN@ + json_literal(username@) + FILL_MIDDLE@ + json_literal(password@)
            + FILL_CLOSE@,
{
    let mut out = FILL_OPEN.to_owned();
    let user = json_string(username);
    out.append(user.as_str());
    out.append(FILL_MIDDLE);
    let pass = json_string(password);
    out.append(pass.as_str());
    out.append(FILL_CLOSE);
    out
}

/// What a script makes of the inside of a string literal: each escape read as its character.
/// Nothing where a bare quote or line break, or an escape that is none, would end it.
pub open spec fn script_reads(t: Seq<char>) -> Option<Seq<char>>
    decreases t.len(),
{
    if t.len() == 0 {
        Some(Seq::empty())
    } else if t[0] == '"' || t[0] == '\n' || t[0] == '\r' || t[0] == '\u{2028}' || t[0]
        == '\u{2029}' {
        None
    } else if t[0] != '\\' {
        match script_reads(t.drop_first()) {
            Some(r) => Some(seq![t[0]] + r),
            None => None,
        }
    } else if t.len() < 2 {
        None
    } else if t[1] == 'u' {
        if t.len() < 6 {
            None
        } else {
            match (four_hex(t.subrange(2, 6)), script_reads(t.skip(6))) {
                (Some(c), Some(r)) => Some(seq![c] + r),
                _ => None,
            }
        }
    } else {
        match (short_escape(t[1]), script_reads(t.skip(2))) {
            (Some(c), Some(r)) => Some(seq![c] + r),
            _ => None,
        }
    }
}

/// What a backslash and one character stand for.
pub open spec fn short_escape(c: char) -> Option<char> {
    if c == '"' {
        Some('"')
    } else if c == '\\' {
        Some('\\')
    } else if c == 'n' {
        Some('\n')
    } else if c == 'r' {
        Some('\r')
    } else if c == 't' {
        Some('\t')
    } else {
        None
    }
}

/// The character that four hexadecimal digits number.
pub open spec fn four_hex(d: Seq<char>) -> Option<char> {
    match (
        crate::numerals::hex_value(d[0]),
        crate::numerals::hex_value(d[1]),
        crate::numerals::hex_value(d[2]),
        crate::numerals::hex_value(d[3]),
    ) {
        (Some(a), Some(b), Some(c), Some(e)) => Some((a * 4096 + b * 256 + c * 16 + e) as char),
        _ => None,
    }
}

proof fn lemma_hex_small(d: int)
    requires
        0 <= d < 16,
    ensures
        crate::numerals::hex_value(hex_small(d)) == Some(d),
{
}

proof fn lemma_escape_reads_back(c: char)
    requires
        (c as int) < 32,
    ensures
        four_hex(seq!['0', '0', hex_small(c as int / 16), hex_small(c as int % 16)]) == Some(c),
{
    lemma_hex_small(c as int / 16);
    lemma_hex_small(c as int % 16);
}

/// A credential cannot break out of the script: whatever it holds, its literal is read as exactly
/// that text, up to the closing quote.
pub proof fn literal_reads_back(s: Seq<char>)
    ensures
        script_reads(json_chars(s)) == Some(s),
    decreases s.len(),
{
    if s.len() == 0 {
        assert(s =~= Seq::empty());
    } else {
        let c = s[0];
        let rest = s.drop_first();
        literal_reads_back(rest);
        let head = json_char(c);
        let t = json_chars(s);
        assert(t.skip(head.len() as int) =~= json_chars(rest));
        assert(seq![c] + rest =~= s);
        assert(t[0] == head[0]);
        if head.len() == 1 {
            assert(t.drop_first() =~= json_chars(rest));
        } else if head.len() == 2 {
            assert(t[1] == head[1]);
        } else {
            assert(t[1] == head[1]);
            assert(t.subrange(2, 6) =~= head.subrange(2, 6));
            let d = t.subrange(2, 6);
            assert(d[0] == head[2] && d[1] == head[3] && d[2] == head[4] && d[3] == head[5]);
            if (c as int) < 32 {
                lemma_escape_reads_back(c);
            }
            assert(four_hex(d) == Some(c));
        }
    }
}

// ---------------------------------------------------------------------------------------------
// Events
// ---------------------------------------------------------------------------------------------

/// A place on the page: x, y, width and height in its pixels, each as the bits of a
/// double-precision number.
#[derive(Clone, Copy, Debug, PartialEq, Eq, Structural)]
pub struct Place {
    pub x: u64,
    pub y: u64,
    pub width: u64,
    pub height: u64,
}

/// What the watcher saw, as the chrome consumes it.
#[derive(Clone, Debug)]
pub enum FormEvent {
    /// A login field took focus, or moved, or its text changed.
    Field {
        /// The origin of the frame that reported it, checked against the tab's own address before
        /// anything is offered.
        origin: String,
        /// A password field rather than a username one.
        password: bool,
        rect: Place,
        /// What the username field holds, for filtering. Always empty for a password field: what is
        /// typed into one is none of the chrome's business.
        value: String,
        /// A field that was already focused, reported again.
        moved: bool,
    },
    /// Focus left the login field.
    Blur,
}

/// What an event says.
#[verifier::ext_equal]
pub enum FormEventView {
    Field { origin: Seq<char>, password: bool, rect: Place, value: Seq<char>, moved: bool },
    Blur,
}

impl View for FormEvent {
    type V = FormEventView;

    open spec fn view(&self) -> FormEventView {
        match self {
            FormEvent::Field { origin, password, rect, value, moved } => FormEventView::Field {
                origin: origin@,
                password: *password,
                rect: *rect,
                value: value@,
                moved: *moved,
            },
            FormEvent::Blur => FormEventView::Blur,
        }
    }
}

/// The members of a message that the chrome looks at: those that are strings, and the numbers of
/// the rectangle.
#[derive(Debug)]
pub struct Report {
    pub t: Option<String>,
    pub kind: Option<String>,
    pub origin: Option<String>,
    pub value: Option<String>,
    /// The members of the array: the bits of a double for a number, nothing for anything else.
    pub rect: Option<Vec<Option<u64>>>,
}

/// What the members say.
#[verifier::ext_equal]
pub struct ReportView {
    pub t: Option<Seq<char>>,
    pub kind: Option<Seq<char>>,
    pub origin: Option<Seq<char>>,
    pub value: Option<Seq<char>>,
    pub rect: Option<Seq<Option<u64>>>,
}

/// What an optional array holds.
pub open spec fn numbers_opt(v: Option<Vec<Option<u64>>>) -> Option<Seq<Option<u64>>> {
    match v {
        Some(v) => Some(v@),
        None => None,
    }
}

impl View for Report {
    type V = ReportView;

    open spec fn view(&self) -> ReportView {
        ReportView {
            t: view_opt(self.t),
            kind: view_opt(self.kind),
            origin: view_opt(self.origin),
            value: view_opt(self.value),
            rect: numbers_opt(self.rect),
        }
    }
}

/// The string that `serde_json` reads at a key of the object in a text; nothing where the text is
/// not JSON, or has no string there.
pub uninterp spec fn json_text(s: Seq<char>, key: Seq<char>) -> Option<Seq<char>>;

/// The array that `serde_json` reads at a key of the object in a text, as the bits of a double for
/// each number in it; nothing where the text is not JSON, or has no array there.
pub uninterp spec fn json_numbers(s: Seq<char>, key: Seq<char>) -> Option<Seq<Option<u64>>>;

/// `serde_json::from_str` into a `serde_json::Value`, and the value at the key through `as_str`.
/// The contract names the result.
#[verifier::external_body]
fn read_text(s: &str, key: &str) -> (r: Option<String>)
    ensures
        view_opt(r) == json_text(s@, key@),
{
    let v: serde_json::Value = serde_json::from_str(s).ok()?;
    v[key].as_str().map(str::to_owned)
}

/// `serde_json::from_str` into a `serde_json::Value`, and the value at the key through `as_array`,
/// each member of it through `as_f64`. The contract names the result.
#[verifier::external_body]
fn read_numbers(s: &str, key: &str) -> (r: Option<Vec<Option<u64>>>)
    ensures
        numbers_opt(r) == json_numbers(s@, key@),
{
    let v: serde_json::Value = serde_json::from_str(s).ok()?;
    let bits = |x: &serde_json::Value| x.as_f64().map(|n| n.to_bits());
    v[key].as_array().map(|a| a.iter().map(bits).collect())
}

/// A text, or the empty one.
pub open spec fn text_or_empty(t: Option<Seq<char>>) -> Seq<char> {
    match t {
        Some(t) => t,
        None => Seq::empty(),
    }
}

/// The place that the first four members of an array give, where all four are numbers.
pub open spec fn place_of(rect: Option<Seq<Option<u64>>>) -> Option<Place> {
    match rect {
        Some(v) => if v.len() >= 4 && v[0] is Some && v[1] is Some && v[2] is Some && v[3] is Some {
            Some(Place { x: v[0]->0, y: v[1]->0, width: v[2]->0, height: v[3]->0 })
        } else {
            None
        },
        None => None,
    }
}

/// The event that a message reports. Anything unexpected is dropped, and so is what a message says
/// of the text in a password field.
pub open spec fn event_of(p: ReportView) -> Option<FormEventView> {
    match p.t {
        None => None,
        Some(t) => if t == "blur"@ {
            Some(FormEventView::Blur)
        } else if t == "focus"@ || t == "input"@ || t == "move"@ {
            match place_of(p.rect) {
                None => None,
                Some(rect) => Some(
                    FormEventView::Field {
                        origin: text_or_empty(p.origin),
                        password: p.kind == Some("pass"@),
                        rect,
                        value: if p.kind == Some("pass"@) {
                            Seq::empty()
                        } else {
                            text_or_empty(p.value)
                        },
                        moved: t != "focus"@,
                    },
                ),
            }
        } else {
            None
        },
    }
}

/// The members of a message.
pub open spec fn report_in(json: Seq<char>) -> ReportView {
    ReportView {
        t: json_text(json, "t"@),
        kind: json_text(json, "kind"@),
        origin: json_text(json, "origin"@),
        value: json_text(json, "value"@),
        rect: json_numbers(json, "rect"@),
    }
}

/// What a message says, or nothing: what is not JSON has no members.
pub open spec fn parsed_event(json: Seq<char>) -> Option<FormEventView> {
    event_of(report_in(json))
}

/// What an optional event says.
pub open spec fn event_opt(e: Option<FormEvent>) -> Option<FormEventView> {
    match e {
        Some(e) => Some(e@),
        None => None,
    }
}

fn place_in(rect: &Option<Vec<Option<u64>>>) -> (r: Option<Place>)
    ensures
        r == place_of(numbers_opt(*rect)),
{
    match rect {
        Some(v) => {
            if v.len() < 4 {
                return None;
            }
            match (v[0], v[1], v[2], v[3]) {
                (Some(x), Some(y), Some(width), Some(height)) => Some(
                    Place { x, y, width, height },
                ),
                _ => None,
            }
        },
        None => None,
    }
}

/// See [`event_of`].
pub fn event_from(p: Report) -> (r: Option<FormEvent>)
    ensures
        event_opt(r) == event_of(p@),
{
    let t = match &p.t {
        Some(t) => t.as_str(),
        None => return None,
    };
    if same(t, "blur") {
        return Some(FormEvent::Blur);
    }
    if !same(t, "focus") && !same(t, "input") && !same(t, "move") {
        return None;
    }
    let rect = match place_in(&p.rect) {
        Some(rect) => rect,
        None => return None,
    };
    let password = match &p.kind {
        Some(k) => same(k.as_str(), "pass"),
        None => false,
    };
    let origin = match &p.origin {
        Some(o) => o.clone(),
        None => String::new(),
    };
    let value = match &p.value {
        Some(v) => if password {
            String::new()
        } else {
            v.clone()
        },
        None => String::new(),
    };
    Some(FormEvent::Field { origin, password, rect, value, moved: !same(t, "focus") })
}

/// Parses one message from the watcher.
pub fn parse_event(json: &str) -> (r: Option<FormEvent>)
    ensures
        event_opt(r) == parsed_event(json@),
{
    let p = Report {
        t: read_text(json, "t"),
        kind: read_text(json, "kind"),
        origin: read_text(json, "origin"),
        value: read_text(json, "value"),
        rect: read_numbers(json, "rect"),
    };
    event_from(p)
}

/// No event of a password field carries a value, whatever the page reports.
pub proof fn passwords_are_not_reported(json: Seq<char>)
    ensures
        parsed_event(json) matches Some(FormEventView::Field { password, value, .. }) ==> password
            ==> value.len() == 0,
{
}

} // verus!
