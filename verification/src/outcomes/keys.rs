//! What each key does.

use vstd::prelude::*;

use crate::action::ActionView;
use crate::browser::keys::{chord_of, page_key_of};
use crate::browser::state::AppView;
use crate::input::{ElementState, Key, KeyEvent, NamedKey};
use crate::lineedit::{printable, EditOutcome, LineView};
use crate::message::EditingCommand;
use crate::outcomes::tabs::{did, lemma_told, lemma_told_both};
use crate::weburl::UrlView;

verus! {

/// Whether a key went down that is a character.
pub open spec fn letter(e: KeyEvent, c: Seq<char>) -> bool {
    e.state == ElementState::Pressed && e.logical_key is Character && (e.logical_key->Character_0)@ == c
}

/// Whether a key went down that has a name.
pub open spec fn named(e: KeyEvent, n: NamedKey) -> bool {
    e.state == ElementState::Pressed && e.logical_key == Key::Named(n)
}

/// Whether no menu, no list and no prompt is open.
pub open spec fn quiet(a: AppView) -> bool {
    a.ctx_menu is None && a.modal is None && a.ac_menu is None && a.bm_menu is None
}

proof fn lemma_letters_differ()
    ensures
        "t"@.len() == 1 && "t"@[0] == 't',
        "w"@.len() == 1 && "w"@[0] == 'w',
        "d"@.len() == 1 && "d"@[0] == 'd',
        "D"@.len() == 1 && "D"@[0] == 'D',
        "b"@.len() == 1 && "b"@[0] == 'b',
        "B"@.len() == 1 && "B"@[0] == 'B',
        "h"@.len() == 1 && "h"@[0] == 'h',
        "j"@.len() == 1 && "j"@[0] == 'j',
        "o"@.len() == 1 && "o"@[0] == 'o',
        "O"@.len() == 1 && "O"@[0] == 'O',
        "c"@.len() == 1 && "c"@[0] == 'c',
        "x"@.len() == 1 && "x"@[0] == 'x',
        "v"@.len() == 1 && "v"@[0] == 'v',
        "l"@.len() == 1 && "l"@[0] == 'l',
        "r"@.len() == 1 && "r"@[0] == 'r',
        "a"@.len() == 1 && "a"@[0] == 'a',
        "u"@.len() == 1 && "u"@[0] == 'u',
{
    reveal_strlit("t");
    reveal_strlit("w");
    reveal_strlit("d");
    reveal_strlit("D");
    reveal_strlit("b");
    reveal_strlit("B");
    reveal_strlit("h");
    reveal_strlit("j");
    reveal_strlit("o");
    reveal_strlit("O");
    reveal_strlit("c");
    reveal_strlit("x");
    reveal_strlit("v");
    reveal_strlit("l");
    reveal_strlit("r");
    reveal_strlit("a");
    reveal_strlit("u");
}

// ---------------------------------------------------------------------------------------------
// Keys for the browser
// ---------------------------------------------------------------------------------------------

/// Ctrl with T opens a new tab, with H, B or J the page of the visits, the bookmarks or the downloads, with
/// D it stars the page, and with Shift and Delete, D, B or O it asks about cookies, makes the page a
/// favorite, shows the favorites, or hands the page to another browser. All of that whether or not the
/// address bar has the focus.
#[verifier::spinoff_prover]
#[verifier::rlimit(40)]
pub proof fn chords_do_what_they_are_for(
    a: AppView,
    e: KeyEvent,
    offer: Option<Seq<char>>,
    now: u64,
)
    requires
        quiet(a),
        e.ctrl,
    ensures
        ({
            let b = a.key_handled(e, offer, now).0;
            let drawn = AppView { rebuild: true, ..a };
            &&& letter(e, "t"@) ==> b == drawn.new_opened()
            &&& letter(e, "h"@) ==> b == drawn.page_opened("cce://history"@)
            &&& letter(e, "b"@) && !e.shift ==> b == drawn.page_opened("cce://bookmarks"@)
            &&& letter(e, "j"@) ==> b == drawn.page_opened("cce://downloads"@)
            &&& letter(e, "d"@) && !e.shift ==> b == drawn.bookmark_switched(now)
            &&& named(e, NamedKey::Delete) && e.shift ==> b == drawn.page_opened("cce://cookies"@)
            &&& (letter(e, "d"@) || letter(e, "D"@)) && e.shift ==> b == drawn.favorite_switched(now)
            &&& (letter(e, "b"@) || letter(e, "B"@)) && e.shift ==> b == drawn.page_opened(
                "cce://favorites"@,
            )
            &&& (letter(e, "o"@) || letter(e, "O"@)) && e.shift ==> b == a.opened_outside()
            &&& letter(e, "w"@) ==> a.key_handled(e, offer, now) == drawn.tab_closed(
                a.host.active as int,
            )
        }),
{
    reveal(AppView::key_handled);
    reveal(AppView::plain_key);
    reveal(AppView::chord_done);
    reveal(chord_of);
    lemma_letters_differ();
}

/// Ctrl with Tab goes to the next tab, and with Shift to the one before, around the ends; with a single tab
/// it goes nowhere.
pub proof fn tab_goes_from_tab_to_tab(a: AppView, e: KeyEvent, offer: Option<Seq<char>>, now: u64)
    requires
        quiet(a),
        e.ctrl,
        named(e, NamedKey::Tab),
        a.host.wf(),
        1 < a.host.tabs.len() <= usize::MAX,
    ensures
        ({
            let b = a.key_handled(e, offer, now).0;
            let n = a.host.tabs.len();
            &&& b.host.tabs == a.host.tabs
            &&& !e.shift && a.host.active + 1 < n ==> b.host.active == a.host.active + 1
            &&& !e.shift && a.host.active + 1 == n ==> b.host.active == 0
            &&& e.shift && a.host.active > 0 ==> b.host.active == a.host.active - 1
            &&& e.shift && a.host.active == 0 ==> b.host.active == n - 1
        }),
{
    reveal(AppView::key_handled);
    reveal(AppView::plain_key);
    reveal(AppView::chord_done);
    reveal(chord_of);
    let drawn = AppView { rebuild: true, ..a };
    let n = a.host.tabs.len() as int;
    crate::outcomes::tabs::switching_shows_the_tab(
        drawn,
        if e.shift {
            if a.host.active == 0 {
                n - 1
            } else {
                a.host.active - 1
            }
        } else if a.host.active + 1 < n {
            a.host.active + 1
        } else {
            0
        },
    );
}

// ---------------------------------------------------------------------------------------------
// Keys for the page
// ---------------------------------------------------------------------------------------------

/// While the page has the focus: Ctrl with C, X and V has it copy, cut and paste; Ctrl with R, or F5, loads
/// it again; Ctrl with L brings out the address bar with its text selected; Escape folds an open bar away;
/// and a key that is none of these, or comes up, is the page's.
#[verifier::spinoff_prover]
#[verifier::rlimit(40)]
pub proof fn page_keys_do_what_they_are_for(
    a: AppView,
    e: KeyEvent,
    offer: Option<Seq<char>>,
    now: u64,
)
    requires
        quiet(a),
        !a.url_focused,
    ensures
        ({
            let b = a.key_handled(e, offer, now).0;
            let here = a.host.active;
            &&& letter(e, "c"@) && e.ctrl ==> did(
                a,
                seq![ActionView::Edit(here, EditingCommand::Copy)],
                b,
            )
            &&& letter(e, "x"@) && e.ctrl ==> did(
                a,
                seq![ActionView::Edit(here, EditingCommand::Cut)],
                b,
            )
            &&& letter(e, "v"@) && e.ctrl ==> did(
                a,
                seq![ActionView::SyncClipboard, ActionView::Edit(here, EditingCommand::Paste)],
                b,
            )
            &&& letter(e, "r"@) && e.ctrl ==> did(a, seq![ActionView::Reload(here)], b)
            &&& named(e, NamedKey::F5) ==> did(a, seq![ActionView::Reload(here)], b)
            &&& letter(e, "l"@) && e.ctrl ==> b.url_focused && b.chrome_open && b.url.text
                == a.url.text && b.host == a.host && (a.url.text.len() > 0 ==> b.url.selection
                == Some((0int, a.url.text.len() as int)))
            &&& named(e, NamedKey::Escape) && a.chrome_open ==> !b.chrome_open && b.host == a.host
            &&& named(e, NamedKey::Escape) && !a.chrome_open ==> did(
                a,
                seq![ActionView::ForwardKey(here)],
                b,
            )
            &&& e.state != ElementState::Pressed ==> did(a, seq![ActionView::ForwardKey(here)], b)
            &&& !e.ctrl && !named(e, NamedKey::F5) && !named(e, NamedKey::Escape) ==> did(
                a,
                seq![ActionView::ForwardKey(here)],
                b,
            )
        }),
{
    reveal(AppView::key_handled);
    reveal(AppView::plain_key);
    reveal(AppView::page_key_done);
    reveal(AppView::bar_focused);
    reveal(AppView::chrome_closed);
    reveal(chord_of);
    reveal(page_key_of);
    lemma_letters_differ();
    let here = a.host.active;
    lemma_told(a, ActionView::Edit(here, EditingCommand::Copy));
    lemma_told(a, ActionView::Edit(here, EditingCommand::Cut));
    lemma_told_both(a, ActionView::SyncClipboard, ActionView::Edit(here, EditingCommand::Paste));
    lemma_told(a, ActionView::Reload(here));
    lemma_told(a, ActionView::ForwardKey(here));
}

// ---------------------------------------------------------------------------------------------
// Keys for the address bar
// ---------------------------------------------------------------------------------------------

/// Enter loads what the address bar means in the tab that is shown, and folds the bar away; Escape gives the
/// focus back to the page, whose address the bar then shows again.
#[verifier::rlimit(40)]
pub proof fn the_bar_loads_what_is_meant(
    a: AppView,
    e: KeyEvent,
    offer: Option<Seq<char>>,
    now: u64,
    u: UrlView,
)
    requires
        quiet(a),
        a.url_focused,
        !e.ctrl,
    ensures
        ({
            let b = a.key_handled(e, offer, now).0;
            &&& named(e, NamedKey::Enter) && crate::address::input_url(
                a.url.text,
                a.settings.search_prefix,
            ) == Some(u) ==> b.host.outbox == a.host.outbox.push(
                ActionView::Load(a.host.active, u.text),
            ) && b.host.tabs == a.host.tabs && !b.url_focused && !b.chrome_open && b.loading
            &&& named(e, NamedKey::Escape) ==> !b.url_focused && b.host == a.host
                && crate::outcomes::tabs::in_step(b)
            &&& e.state != ElementState::Pressed ==> b == a
        }),
{
    reveal(AppView::key_handled);
    reveal(AppView::plain_key);
    reveal(AppView::url_edited);
    reveal(AppView::line_edited);
    reveal(AppView::edit_finished);
    reveal(AppView::navigated);
    reveal(LineView::step);
    reveal(chord_of);
    let drawn = AppView { rebuild: true, ..a };
    crate::outcomes::tabs::the_chrome_follows_the_page(drawn.url_left());
}

/// Any other key in the address bar edits its text, and what that copies goes to the clipboard; the page
/// sees nothing of it.
pub proof fn the_bar_is_edited(a: AppView, e: KeyEvent, offer: Option<Seq<char>>, now: u64)
    requires
        quiet(a),
        a.url_focused,
        e.state == ElementState::Pressed,
        chord_of(e, a.host.tabs.len() > 1) is None,
        !named(e, NamedKey::Enter),
        !named(e, NamedKey::Escape),
    ensures
        ({
            let b = a.key_handled(e, offer, now).0;
            let (line, _, copied) = a.url.step(e, offer);
            &&& b.url == line
            &&& b.url_focused
            &&& copied is None ==> b.host == a.host
            &&& copied is Some ==> b.host.outbox == a.host.outbox.push(
                ActionView::CopyText(copied->0),
            )
        }),
{
    reveal(AppView::key_handled);
    reveal(AppView::plain_key);
    reveal(AppView::url_edited);
    reveal(AppView::line_edited);
    reveal(AppView::edit_finished);
    reveal(LineView::step);
}

// ---------------------------------------------------------------------------------------------
// Keys for a field
// ---------------------------------------------------------------------------------------------

/// What is typed stands where the caret was, and the caret after it.
pub proof fn typing_inserts(before: Seq<char>, after: Seq<char>, t: Seq<char>, masked: bool)
    ensures
        (LineView {
            text: before + after,
            caret: before.len() as int,
            selection: None,
            masked,
        }).typed(t) == (LineView {
            text: before + t + after,
            caret: (before.len() + t.len()) as int,
            selection: None,
            masked,
        }),
{
    let s = before + after;
    assert(s.take(before.len() as int) =~= before);
    assert(s.skip(before.len() as int) =~= after);
}

/// What is typed takes the place of what is selected.
pub proof fn typing_replaces(
    before: Seq<char>,
    sel: Seq<char>,
    after: Seq<char>,
    t: Seq<char>,
    caret: int,
    masked: bool,
)
    requires
        sel.len() > 0,
    ensures
        (LineView {
            text: before + sel + after,
            caret,
            selection: Some((before.len() as int, (before.len() + sel.len()) as int)),
            masked,
        }).typed(t) == (LineView {
            text: before + t + after,
            caret: (before.len() + t.len()) as int,
            selection: None,
            masked,
        }),
{
    let s = before + sel + after;
    let n = before.len() as int;
    let k = n + sel.len();
    assert(s.take(n) =~= before);
    assert(s.skip(k) =~= after);
    let w = before + after;
    assert(w.take(n) =~= before);
    assert(w.skip(n) =~= after);
}

/// With the caret between two characters, Backspace takes the one before it and Delete the one after it;
/// the arrows go one character to the left and to the right, and Home and End to the ends of the text.
#[verifier::spinoff_prover]
#[verifier::rlimit(40)]
pub proof fn keys_edit_a_field(
    before: Seq<char>,
    c: char,
    d: char,
    after: Seq<char>,
    masked: bool,
    e: KeyEvent,
    offer: Option<Seq<char>>,
)
    ensures
        ({
            let text = before + seq![c] + seq![d] + after;
            let k = before.len() + 1;
            let line = LineView { text, caret: k as int, selection: None, masked };
            let (next, outcome, copied) = line.step(e, offer);
            &&& named(e, NamedKey::Backspace) ==> next.text == before + seq![d] + after && next.caret
                == before.len()
            &&& named(e, NamedKey::Delete) ==> next.text == before + seq![c] + after && next.caret == k
            &&& named(e, NamedKey::ArrowLeft) ==> next.text == text && next.caret == k - 1
            &&& named(e, NamedKey::ArrowRight) ==> next.text == text && next.caret == k + 1
            &&& named(e, NamedKey::Home) ==> next.text == text && next.caret == 0
            &&& named(e, NamedKey::End) ==> next.text == text && next.caret == text.len()
            &&& named(e, NamedKey::Enter) ==> next == line && outcome == EditOutcome::Submit
            &&& named(e, NamedKey::Escape) ==> next == line && outcome == EditOutcome::Cancel
            &&& e.state != ElementState::Pressed ==> next == line && outcome == EditOutcome::Ignored
            &&& copied is None
        }),
{
    reveal(LineView::step);
    lemma_letters_differ();
    let text = before + seq![c] + seq![d] + after;
    let k = (before.len() + 1) as int;
    let line = LineView { text, caret: k, selection: None, masked };
    assert(line.cut(k - 1, k).text =~= before + seq![d] + after);
    assert(line.cut(k, k + 1).text =~= before + seq![c] + after);
}

/// With text selected, Backspace and Delete take it, and the arrows go to its ends.
pub proof fn keys_take_the_selection(
    before: Seq<char>,
    sel: Seq<char>,
    after: Seq<char>,
    caret: int,
    masked: bool,
    e: KeyEvent,
    offer: Option<Seq<char>>,
)
    requires
        sel.len() > 0,
    ensures
        ({
            let text = before + sel + after;
            let i = before.len() as int;
            let j = i + sel.len();
            let line = LineView { text, caret, selection: Some((i, j)), masked };
            let next = line.step(e, offer).0;
            &&& named(e, NamedKey::Backspace) || named(e, NamedKey::Delete) ==> next.text == before
                + after && next.caret == i && next.selection is None
            &&& named(e, NamedKey::ArrowLeft) ==> next.text == text && next.caret == i
                && next.selection is None
            &&& named(e, NamedKey::ArrowRight) ==> next.text == text && next.caret == j
                && next.selection is None
        }),
{
    reveal(LineView::step);
    let text = before + sel + after;
    let i = before.len() as int;
    let j = i + sel.len();
    assert(text.take(i) =~= before);
    assert(text.skip(j) =~= after);
}

/// Ctrl with A selects all of the text, with U it clears it, with C it copies what is selected, with X it
/// takes that out as well, and with V it puts in what the clipboard offers. Nothing leaves a password's
/// field.
#[verifier::spinoff_prover]
#[verifier::rlimit(40)]
pub proof fn chords_edit_a_field(
    before: Seq<char>,
    sel: Seq<char>,
    after: Seq<char>,
    masked: bool,
    e: KeyEvent,
    offer: Option<Seq<char>>,
)
    requires
        e.ctrl,
        sel.len() > 0,
    ensures
        ({
            let text = before + sel + after;
            let i = before.len() as int;
            let j = i + sel.len();
            let line = LineView { text, caret: j, selection: Some((i, j)), masked };
            let (next, _, copied) = line.step(e, offer);
            &&& letter(e, "a"@) ==> next.text == text && next.selection == Some((0int, text.len() as int))
                && copied is None
            &&& letter(e, "u"@) ==> next.text.len() == 0 && copied is None
            &&& letter(e, "c"@) && !masked ==> next == line && copied == Some(sel)
            &&& letter(e, "x"@) && !masked ==> next.text == before + after && copied == Some(sel)
            &&& (letter(e, "c"@) || letter(e, "x"@)) && masked ==> next == line && copied is None
            &&& letter(e, "v"@) && offer is Some && printable(offer->0).len() > 0 ==> next.text == before
                + printable(offer->0) + after && copied is None
            &&& letter(e, "v"@) && offer is None ==> next == line
        }),
{
    reveal(LineView::step);
    lemma_letters_differ();
    let text = before + sel + after;
    let i = before.len() as int;
    let j = i + sel.len();
    assert(text.subrange(i, j) =~= sel);
    assert(text.take(i) =~= before);
    assert(text.skip(j) =~= after);
    if offer is Some {
        typing_replaces(before, sel, after, printable(offer->0), j, masked);
    }
}

/// A key that types a text without control codes puts that text in; one that types none but is a character
/// puts the character in, and the space bar a space.
pub proof fn keys_type_their_text(line: LineView, e: KeyEvent, offer: Option<Seq<char>>, t: Seq<char>)
    requires
        e.state == ElementState::Pressed,
        !e.ctrl,
        forall|i: int| 0 <= i < t.len() ==> !crate::text::is_ctrl(#[trigger] t[i]),
    ensures
        e.logical_key is Character && e.text is Some && (e.text->0)@ == t ==> line.step(e, offer).0
            == line.typed(t),
        e.logical_key is Character && e.text is None && (e.logical_key->Character_0)@ == t ==> line.step(
            e,
            offer,
        ).0 == line.typed(t),
        e.logical_key == Key::Named(NamedKey::Space) && e.text is None ==> line.step(e, offer).0
            == line.typed(seq![' ']),
{
    reveal(LineView::step);
    reveal_strlit(" ");
    assert(" "@ =~= seq![' ']);
}

// ---------------------------------------------------------------------------------------------
// Keys for menus and lists
// ---------------------------------------------------------------------------------------------

/// While the account list is open, the arrows move its selection, Enter asks for the password of the
/// account that is selected, and Escape closes it; other keys are the page's.
pub proof fn the_list_is_driven_by_keys(a: AppView, e: KeyEvent, offer: Option<Seq<char>>, now: u64)
    requires
        a.ctx_menu is None,
        a.modal is None,
        a.bm_menu is None,
        a.ac_menu is Some,
        !a.url_focused,
        0 <= (a.ac_menu->0).selected < (a.ac_menu->0).shown.len(),
    ensures
        ({
            let b = a.key_handled(e, offer, now).0;
            let m = a.ac_menu->0;
            let n = m.shown.len();
            &&& named(e, NamedKey::ArrowDown) ==> b.ac_menu is Some && (b.ac_menu->0).selected == (
            if m.selected + 1 < n {
                m.selected + 1
            } else {
                0
            }) && (b.ac_menu->0).shown == m.shown && b.host == a.host
            &&& named(e, NamedKey::ArrowUp) ==> b.ac_menu is Some && (b.ac_menu->0).selected == (
            if m.selected > 0 {
                m.selected - 1
            } else {
                n - 1
            }) && (b.ac_menu->0).shown == m.shown && b.host == a.host
            &&& named(e, NamedKey::Enter) ==> b.host.outbox == a.host.outbox.push(
                ActionView::FetchSecret(m.shown[m.selected].path),
            ) && b.ac_menu == a.ac_menu
            &&& named(e, NamedKey::Escape) ==> b == (AppView { ac_menu: None, rebuild: true, ..a })
        }),
{
    reveal(AppView::key_handled);
    reveal(AppView::list_key_done);
    reveal(AppView::account_picked);
    crate::outcomes::logins::steps_go_to_the_neighbour(a.ac_menu->0);
}

/// Any key that goes down sends the right-click menu away and does nothing else; Escape closes the
/// bookmarks menu and does nothing else.
pub proof fn keys_send_menus_away(a: AppView, e: KeyEvent, offer: Option<Seq<char>>, now: u64)
    ensures
        a.ctx_menu is Some && e.state == ElementState::Pressed ==> a.key_handled(e, offer, now).0
            == (AppView { ctx_menu: None, rebuild: true, ..a }),
        a.ctx_menu is None && a.modal is None && a.ac_menu is None && a.bm_menu is Some && named(
            e,
            NamedKey::Escape,
        ) ==> a.key_handled(e, offer, now).0 == (AppView { bm_menu: None, rebuild: true, ..a }),
{
    reveal(AppView::key_handled);
}

/// A key with Ctrl that nothing here asks for is the page's, and so is Tab with Ctrl where there is one tab.
#[verifier::spinoff_prover]
#[verifier::rlimit(40)]
pub proof fn other_chords_are_the_pages(
    a: AppView,
    e: KeyEvent,
    offer: Option<Seq<char>>,
    now: u64,
)
    requires
        quiet(a),
        !a.url_focused,
        e.ctrl,
        !e.shift,
        e.state == ElementState::Pressed,
    ensures
        ({
            let b = a.key_handled(e, offer, now).0;
            let own = seq!["t"@, "w"@, "h"@, "b"@, "j"@, "d"@, "c"@, "x"@, "v"@, "l"@, "r"@];
            &&& e.logical_key is Character && !own.contains((e.logical_key->Character_0)@) ==> did(
                a,
                seq![ActionView::ForwardKey(a.host.active)],
                b,
            )
            &&& named(e, NamedKey::Tab) && a.host.tabs.len() == 1 ==> did(
                a,
                seq![ActionView::ForwardKey(a.host.active)],
                b,
            )
        }),
{
    reveal(AppView::key_handled);
    reveal(AppView::plain_key);
    reveal(AppView::page_key_done);
    reveal(chord_of);
    reveal(page_key_of);
    lemma_told(a, ActionView::ForwardKey(a.host.active));
    let own = seq!["t"@, "w"@, "h"@, "b"@, "j"@, "d"@, "c"@, "x"@, "v"@, "l"@, "r"@];
    assert(own[0] == "t"@ && own[1] == "w"@ && own[2] == "h"@ && own[3] == "b"@ && own[4] == "j"@
        && own[5] == "d"@ && own[6] == "c"@ && own[7] == "x"@ && own[8] == "v"@ && own[9] == "l"@
        && own[10] == "r"@);
}

} // verus!
