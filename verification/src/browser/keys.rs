//! What the keys do: first to what is open on top of the page, then to the browser, then to the page.

use vstd::prelude::*;

use crate::action::{Action, ActionView};
use crate::browser::state::{AppView, BrowserApp};
use crate::input::{ElementState, Key, KeyEvent, NamedKey};
use crate::menus::AcMenu;
use crate::message::{message_opt, EditingCommand, Message, MessageView};
use crate::text::same;
use crate::weburl::{url_parse, view_opt};

verus! {

/// What a key with Ctrl asks of the browser, wherever the focus is.
#[derive(Clone, Copy, Debug, PartialEq, Eq, Structural)]
pub enum Chord {
    NewTab,
    CloseTab,
    NextTab,
    PreviousTab,
    Cookies,
    Favorites,
    History,
    Bookmarks,
    Downloads,
    ToggleFavorite,
    ToggleBookmark,
    OpenOutside,
}

/// What a key means while the page has the focus.
#[derive(Clone, Copy, Debug, PartialEq, Eq, Structural)]
pub enum PageKey {
    /// The page copies, cuts or pastes: an engine wants that as a command, not as a key.
    Edit(EditingCommand),
    FocusBar,
    Reload,
    FoldBar,
    /// The key is the page's own.
    Forward,
}

/// What a key means while the account list is open.
#[derive(Clone, Copy, Debug, PartialEq, Eq, Structural)]
pub enum ListKey {
    Down,
    Up,
    Pick,
    Close,
}

/// Whether a key is a letter, in either case.
pub open spec fn is_letter(event: KeyEvent, small: Seq<char>, capital: Seq<char>) -> bool {
    event.is_char(small) || event.is_char(capital)
}

/// What a key asks of the browser. The favorites' chords sit a Shift above the bookmarks' ones. Only
/// where there are several tabs does Tab go from one to another.
#[verifier::opaque]
pub open spec fn chord_of(event: KeyEvent, several: bool) -> Option<Chord> {
    if event.state != ElementState::Pressed || !event.ctrl {
        None
    } else if event.is_char("t"@) {
        Some(Chord::NewTab)
    } else if event.is_char("w"@) {
        Some(Chord::CloseTab)
    } else if event.shift && event.is_named(NamedKey::Delete) {
        Some(Chord::Cookies)
    } else if event.shift && is_letter(event, "d"@, "D"@) {
        Some(Chord::ToggleFavorite)
    } else if event.shift && is_letter(event, "b"@, "B"@) {
        Some(Chord::Favorites)
    } else if event.is_char("h"@) {
        Some(Chord::History)
    } else if event.is_char("b"@) {
        Some(Chord::Bookmarks)
    } else if event.is_char("j"@) {
        Some(Chord::Downloads)
    } else if event.is_char("d"@) {
        Some(Chord::ToggleBookmark)
    } else if event.shift && is_letter(event, "o"@, "O"@) {
        Some(Chord::OpenOutside)
    } else if several && event.is_named(NamedKey::Tab) {
        Some(
            if event.shift {
                Chord::PreviousTab
            } else {
                Chord::NextTab
            },
        )
    } else {
        None
    }
}

/// What a key means while the page has the focus. Escape belongs to the bar while it is out.
#[verifier::opaque]
pub open spec fn page_key_of(event: KeyEvent, bar_out: bool) -> PageKey {
    if event.state != ElementState::Pressed {
        PageKey::Forward
    } else if event.ctrl && event.is_char("c"@) {
        PageKey::Edit(EditingCommand::Copy)
    } else if event.ctrl && event.is_char("x"@) {
        PageKey::Edit(EditingCommand::Cut)
    } else if event.ctrl && event.is_char("v"@) {
        PageKey::Edit(EditingCommand::Paste)
    } else if event.ctrl && event.is_char("l"@) {
        PageKey::FocusBar
    } else if event.ctrl && event.is_char("r"@) {
        PageKey::Reload
    } else if event.is_named(NamedKey::F5) {
        PageKey::Reload
    } else if bar_out && event.is_named(NamedKey::Escape) {
        PageKey::FoldBar
    } else {
        PageKey::Forward
    }
}

/// What a key means while the account list is open. What it does not ask for goes to the field.
pub open spec fn list_key_of(event: KeyEvent) -> Option<ListKey> {
    if event.state != ElementState::Pressed {
        None
    } else if event.is_named(NamedKey::ArrowDown) {
        Some(ListKey::Down)
    } else if event.is_named(NamedKey::ArrowUp) {
        Some(ListKey::Up)
    } else if event.is_named(NamedKey::Enter) {
        Some(ListKey::Pick)
    } else if event.is_named(NamedKey::Escape) {
        Some(ListKey::Close)
    } else {
        None
    }
}

fn letter(k: &str, small: &str, capital: &str) -> (r: bool)
    ensures
        r == (k@ == small@ || k@ == capital@),
{
    same(k, small) || same(k, capital)
}

/// See [`chord_of`].
pub fn chord(event: &KeyEvent, several: bool) -> (r: Option<Chord>)
    ensures
        r == chord_of(*event, several),
{
    proof {
        reveal(chord_of);
    }
    if event.state != ElementState::Pressed || !event.ctrl {
        return None;
    }
    match &event.logical_key {
        Key::Character(c) => {
            let k = c.as_str();
            if same(k, "t") {
                Some(Chord::NewTab)
            } else if same(k, "w") {
                Some(Chord::CloseTab)
            } else if event.shift && letter(k, "d", "D") {
                Some(Chord::ToggleFavorite)
            } else if event.shift && letter(k, "b", "B") {
                Some(Chord::Favorites)
            } else if same(k, "h") {
                Some(Chord::History)
            } else if same(k, "b") {
                Some(Chord::Bookmarks)
            } else if same(k, "j") {
                Some(Chord::Downloads)
            } else if same(k, "d") {
                Some(Chord::ToggleBookmark)
            } else if event.shift && letter(k, "o", "O") {
                Some(Chord::OpenOutside)
            } else {
                None
            }
        },
        Key::Named(NamedKey::Delete) => if event.shift {
            Some(Chord::Cookies)
        } else {
            None
        },
        Key::Named(NamedKey::Tab) => if !several {
            None
        } else if event.shift {
            Some(Chord::PreviousTab)
        } else {
            Some(Chord::NextTab)
        },
        _ => None,
    }
}

/// See [`page_key_of`].
pub fn page_key(event: &KeyEvent, bar_out: bool) -> (r: PageKey)
    ensures
        r == page_key_of(*event, bar_out),
{
    proof {
        reveal(page_key_of);
    }
    if event.state != ElementState::Pressed {
        return PageKey::Forward;
    }
    match &event.logical_key {
        Key::Character(c) => {
            let k = c.as_str();
            if !event.ctrl {
                PageKey::Forward
            } else if same(k, "c") {
                PageKey::Edit(EditingCommand::Copy)
            } else if same(k, "x") {
                PageKey::Edit(EditingCommand::Cut)
            } else if same(k, "v") {
                PageKey::Edit(EditingCommand::Paste)
            } else if same(k, "l") {
                PageKey::FocusBar
            } else if same(k, "r") {
                PageKey::Reload
            } else {
                PageKey::Forward
            }
        },
        Key::Named(NamedKey::F5) => PageKey::Reload,
        Key::Named(NamedKey::Escape) => if bar_out {
            PageKey::FoldBar
        } else {
            PageKey::Forward
        },
        _ => PageKey::Forward,
    }
}

/// See [`list_key_of`].
pub fn list_key(event: &KeyEvent) -> (r: Option<ListKey>)
    ensures
        r == list_key_of(*event),
{
    if event.state != ElementState::Pressed {
        return None;
    }
    match &event.logical_key {
        Key::Named(NamedKey::ArrowDown) => Some(ListKey::Down),
        Key::Named(NamedKey::ArrowUp) => Some(ListKey::Up),
        Key::Named(NamedKey::Enter) => Some(ListKey::Pick),
        Key::Named(NamedKey::Escape) => Some(ListKey::Close),
        _ => None,
    }
}

/// Whether a key is Escape going down.
pub open spec fn is_escape(event: KeyEvent) -> bool {
    event.state == ElementState::Pressed && event.is_named(NamedKey::Escape)
}

/// The tab after one of `n`, around the end.
pub open spec fn tab_after(i: int, n: int) -> int {
    if i + 1 >= n {
        0
    } else {
        i + 1
    }
}

/// The tab before one of `n`, around the end.
pub open spec fn tab_before(i: int, n: int) -> int {
    if i == 0 {
        n - 1
    } else {
        i - 1
    }
}

impl AppView {
    /// A new tab, where a blank page has an address.
    #[verifier::opaque]
    pub open spec fn new_opened(self) -> AppView {
        match url_parse("about:blank"@) {
            Some(u) => self.blank_opened(u),
            None => self,
        }
    }

    /// An internal page shown, its address parsed.
    #[verifier::opaque]
    pub open spec fn page_opened(self, page: Seq<char>) -> AppView {
        self.internal_opened(page, url_parse(page))
    }

    /// What a chord does. All but the last draw the window again.
    #[verifier::opaque]
    pub open spec fn chord_done(self, chord: Chord, now: u64) -> (AppView, Option<MessageView>) {
        let a = self.redrawn();
        let n = self.host.tabs.len() as int;
        match chord {
            Chord::NewTab => (a.new_opened(), None),
            Chord::CloseTab => a.tab_closed(a.host.active as int),
            Chord::NextTab => (a.tab_switched(tab_after(a.host.active as int, n)), None),
            Chord::PreviousTab => (a.tab_switched(tab_before(a.host.active as int, n)), None),
            Chord::Cookies => (a.page_opened("cce://cookies"@), None),
            Chord::Favorites => (a.page_opened("cce://favorites"@), None),
            Chord::History => (a.page_opened("cce://history"@), None),
            Chord::Bookmarks => (a.page_opened("cce://bookmarks"@), None),
            Chord::Downloads => (a.page_opened("cce://downloads"@), None),
            Chord::ToggleFavorite => (a.favorite_switched(now), None),
            Chord::ToggleBookmark => (a.bookmark_switched(now), None),
            Chord::OpenOutside => (self.opened_outside(), None),
        }
    }

    /// The bar brought out and its whole text selected for typing.
    #[verifier::opaque]
    pub open spec fn bar_focused(self) -> AppView {
        AppView { chrome_open: true, url_focused: true, url: self.url.all_selected(), ..self }
    }

    /// What a key does while the page has the focus.
    #[verifier::opaque]
    pub open spec fn page_key_done(self, key: PageKey) -> AppView {
        match key {
            PageKey::Edit(c) => self.with_host(self.host.editing(c)),
            PageKey::FocusBar => self.redrawn().bar_focused(),
            PageKey::Reload => self.told(ActionView::Reload(self.host.active)),
            PageKey::FoldBar => self.redrawn().chrome_closed(),
            PageKey::Forward => self.told(ActionView::ForwardKey(self.host.active)),
        }
    }

    /// What a key does to the open account list.
    #[verifier::opaque]
    pub open spec fn list_key_done(self, key: ListKey) -> AppView {
        let a = self.redrawn();
        match key {
            ListKey::Down => AppView { ac_menu: Some(a.ac_menu->0.stepped(1)), ..a },
            ListKey::Up => AppView { ac_menu: Some(a.ac_menu->0.stepped(-1)), ..a },
            ListKey::Pick => a.account_picked(a.ac_menu->0.selected),
            ListKey::Close => AppView { ac_menu: None, ..a },
        }
    }

    /// What a key does that no menu and no prompt took: chords work wherever the focus is; then a
    /// focused address bar takes every key, and else the page.
    #[verifier::opaque]
    pub open spec fn plain_key(self, event: KeyEvent, offer: Option<Seq<char>>, now: u64) -> (
        AppView,
        Option<MessageView>,
    ) {
        match chord_of(event, self.host.tabs.len() > 1) {
            Some(c) => self.chord_done(c, now),
            None => if self.url_focused {
                (
                    if event.state == ElementState::Pressed {
                        self.redrawn().url_edited(event, offer)
                    } else {
                        self
                    },
                    None,
                )
            } else {
                (self.page_key_done(page_key_of(event, self.chrome_open)), None)
            },
        }
    }

    /// What a key does. Any key sends the menu at the pointer away; a prompt takes every key; the
    /// account list takes the keys that drive it, and the bookmarks menu takes Escape.
    #[verifier::opaque]
    pub open spec fn key_handled(self, event: KeyEvent, offer: Option<Seq<char>>, now: u64) -> (
        AppView,
        Option<MessageView>,
    ) {
        if self.ctx_menu is Some && event.state == ElementState::Pressed {
            (AppView { ctx_menu: None, ..self }.redrawn(), None)
        } else if self.modal is Some {
            (self.redrawn().modal_key(event, offer), None)
        } else if self.ac_menu is Some && !self.url_focused && list_key_of(event) is Some {
            (self.list_key_done(list_key_of(event)->0), None)
        } else if self.bm_menu is Some && is_escape(event) {
            (AppView { bm_menu: None, ..self }.redrawn(), None)
        } else {
            self.plain_key(event, offer, now)
        }
    }
}

impl BrowserApp {
    /// See [`AppView::new_opened`].
    pub fn open_new(&mut self)
        requires
            old(self).wf(),
        ensures
            final(self)@ == old(self)@.new_opened(),
            final(self).wf(),
    {
        proof {
            reveal(AppView::new_opened);
        }
        self.new_tab();
    }

    /// See [`AppView::page_opened`].
    pub fn open_page(&mut self, page: &str)
        requires
            old(self).wf(),
        ensures
            final(self)@ == old(self)@.page_opened(page@),
            final(self).wf(),
    {
        proof {
            reveal(AppView::page_opened);
        }
        self.open_internal_page(page);
    }

    /// Does what a chord asks for.
    #[verifier::rlimit(50)]
    pub fn do_chord(&mut self, chord: Chord, now: u64) -> (r: Option<Message>)
        requires
            old(self).wf(),
        ensures
            (final(self)@, message_opt(r)) == old(self)@.chord_done(chord, now),
            r is None ==> final(self).wf(),
    {
        proof {
            reveal(AppView::chord_done);
        }
        if chord == Chord::OpenOutside {
            self.open_external();
            return None;
        }
        self.rebuild = true;
        let n = self.host.tab_count();
        let i = self.host.active_index();
        match chord {
            Chord::NewTab => self.open_new(),
            Chord::CloseTab => return self.close_tab(i),
            Chord::NextTab => {
                let next = if i + 1 >= n {
                    0
                } else {
                    i + 1
                };
                self.switch_tab(next);
            },
            Chord::PreviousTab => {
                let next = if i == 0 {
                    n - 1
                } else {
                    i - 1
                };
                self.switch_tab(next);
            },
            Chord::Cookies => self.open_page("cce://cookies"),
            Chord::Favorites => self.open_page("cce://favorites"),
            Chord::History => self.open_page("cce://history"),
            Chord::Bookmarks => self.open_page("cce://bookmarks"),
            Chord::Downloads => self.open_page("cce://downloads"),
            Chord::ToggleFavorite => self.toggle_favorite(now),
            Chord::ToggleBookmark => self.toggle_bookmark(now),
            Chord::OpenOutside => {},
        }
        None
    }

    /// Brings the bar out and selects its whole text, so that typing replaces it.
    pub fn focus_bar(&mut self)
        requires
            old(self).wf(),
        ensures
            final(self)@ == old(self)@.bar_focused(),
            final(self).wf(),
    {
        proof {
            reveal(AppView::bar_focused);
        }
        self.open_chrome();
        self.url_focused = true;
        self.url.select_all();
    }

    /// Does what a key means while the page has the focus.
    #[verifier::rlimit(40)]
    pub fn do_page_key(&mut self, key: PageKey)
        requires
            old(self).wf(),
        ensures
            final(self)@ == old(self)@.page_key_done(key),
            final(self).wf(),
    {
        proof {
            reveal(AppView::page_key_done);
        }
        match key {
            PageKey::Edit(c) => self.host.editing_action_cmd(c),
            PageKey::FocusBar => {
                self.rebuild = true;
                self.focus_bar();
            },
            PageKey::Reload => self.host.reload(),
            PageKey::FoldBar => {
                self.rebuild = true;
                self.close_chrome();
            },
            PageKey::Forward => {
                let i = self.host.active_index();
                self.tell(Action::ForwardKey(i));
            },
        }
    }

    /// Does what a key means to the open account list.
    #[verifier::rlimit(40)]
    pub fn do_list_key(&mut self, key: ListKey)
        requires
            old(self).wf(),
            old(self).ac_menu is Some,
        ensures
            final(self)@ == old(self)@.list_key_done(key),
            final(self).wf(),
    {
        proof {
            reveal(AppView::list_key_done);
        }
        self.rebuild = true;
        match key {
            ListKey::Down => self.step_list(1),
            ListKey::Up => self.step_list(-1),
            ListKey::Pick => {
                let selected = match &self.ac_menu {
                    Some(m) => m.selected,
                    None => 0,
                };
                self.pick_account(selected);
            },
            ListKey::Close => {
                self.ac_menu = None;
            },
        }
    }

    /// Moves the selection of the open account list.
    #[verifier::rlimit(40)]
    fn step_list(&mut self, delta: isize)
        requires
            old(self).wf(),
            old(self).ac_menu is Some,
        ensures
            final(self)@ == (AppView {
                ac_menu: Some(old(self)@.ac_menu->0.stepped(delta as int)),
                ..old(self)@
            }),
            final(self).wf(),
    {
        let mut open: Option<AcMenu> = None;
        core::mem::swap(&mut self.ac_menu, &mut open);
        if let Some(mut m) = open {
            m.step(delta);
            self.ac_menu = Some(m);
        }
    }

    /// See [`AppView::plain_key`].
    #[verifier::rlimit(40)]
    fn handle_plain_key(&mut self, event: &KeyEvent, offered: Option<String>, now: u64) -> (r: Option<
        Message,
    >)
        requires
            old(self).wf(),
        ensures
            (final(self)@, message_opt(r)) == old(self)@.plain_key(
                *event,
                view_opt(offered),
                now,
            ),
            r is None ==> final(self).wf(),
    {
        proof {
            reveal(AppView::plain_key);
        }
        let several = self.host.tab_count() > 1;
        if let Some(c) = chord(event, several) {
            return self.do_chord(c, now);
        }
        if self.url_focused {
            if event.state == ElementState::Pressed {
                self.rebuild = true;
                self.edit_url(event, offered);
            }
            return None;
        }
        let key = page_key(event, self.chrome_open);
        self.do_page_key(key);
        None
    }

    /// Handles a key. `offered` is what the clipboard holds.
    #[verifier::rlimit(40)]
    pub fn handle_key_input(&mut self, event: &KeyEvent, offered: Option<String>, now: u64) -> (r:
        Option<Message>)
        requires
            old(self).wf(),
        ensures
            (final(self)@, message_opt(r)) == old(self)@.key_handled(
                *event,
                view_opt(offered),
                now,
            ),
            r is None ==> final(self).wf(),
    {
        proof {
            reveal(AppView::key_handled);
        }
        let pressed = event.state == ElementState::Pressed;
        if self.ctx_menu.is_some() && pressed {
            self.ctx_menu = None;
            self.rebuild = true;
            return None;
        }
        if self.modal.is_some() {
            self.rebuild = true;
            self.key_in_modal(event, offered);
            return None;
        }
        if self.ac_menu.is_some() && !self.url_focused {
            if let Some(key) = list_key(event) {
                self.do_list_key(key);
                return None;
            }
        }
        let escape = match &event.logical_key {
            Key::Named(NamedKey::Escape) => pressed,
            _ => false,
        };
        if self.bm_menu.is_some() && escape {
            self.close_bm_menu();
            self.rebuild = true;
            return None;
        }
        self.handle_plain_key(event, offered, now)
    }
}

// ---------------------------------------------------------------------------------------------
// Laws
// ---------------------------------------------------------------------------------------------

/// Going to the next tab and back, or back and to the next, ends on the same tab.
pub proof fn tabs_go_round(i: int, n: int)
    requires
        0 <= i < n,
    ensures
        0 <= tab_after(i, n) < n,
        0 <= tab_before(i, n) < n,
        tab_before(tab_after(i, n), n) == i,
        tab_after(tab_before(i, n), n) == i,
{
}

/// While a prompt is up, no key reaches the page, the tabs or the stores: besides the prompt itself,
/// a key can change only what is asked of the engine, and then only by the prompt's own answer or by
/// a copy.
pub proof fn prompts_take_every_key(a: AppView, event: KeyEvent, offer: Option<Seq<char>>, now: u64)
    requires
        a.modal is Some,
    ensures
        ({
            let (b, m) = a.key_handled(event, offer, now);
            &&& m is None
            &&& b.host.tabs == a.host.tabs
            &&& b.host.active == a.host.active
            &&& b.pages == a.pages
            &&& b.url == a.url
            &&& b.url_focused == a.url_focused
            &&& b.chrome_open == a.chrome_open
            &&& a.host.outbox.is_prefix_of(b.host.outbox)
            &&& forall|i: int|
                a.host.outbox.len() <= i < b.host.outbox.len() ==> !((#[trigger] b.host.outbox[i])
                    is ForwardKey)
        }),
{
    reveal(AppView::key_handled);
    reveal(AppView::modal_key);
    reveal(AppView::modal_typed);
    reveal(AppView::modal_closed);
}

/// While the address bar has the focus, no key that is not a chord reaches the page.
pub proof fn bar_keeps_its_keys(a: AppView, event: KeyEvent, offer: Option<Seq<char>>, now: u64)
    requires
        a.url_focused,
        a.modal is None,
        chord_of(event, a.host.tabs.len() > 1) is None,
    ensures
        ({
            let (b, m) = a.key_handled(event, offer, now);
            &&& m is None
            &&& a.host.outbox.is_prefix_of(b.host.outbox)
            &&& forall|i: int|
                a.host.outbox.len() <= i < b.host.outbox.len() ==> !((#[trigger] b.host.outbox[i])
                    is ForwardKey)
        }),
{
    reveal(AppView::key_handled);
    reveal(AppView::plain_key);
    reveal(AppView::url_edited);
    reveal(AppView::line_edited);
    reveal(AppView::edit_finished);
    reveal(AppView::navigated);
    lemma_sync_asks_nothing(a.redrawn().line_edited(event, offer).0.url_left());
}

/// Taking the page's state over asks nothing of the engine, and leaves the tabs, the stores and the
/// focus alone.
pub proof fn lemma_sync_asks_nothing(a: AppView)
    ensures
        a.page_synced().host == a.host,
        a.page_synced().pages == a.pages,
        a.page_synced().url_focused == a.url_focused,
        a.page_synced().chrome_open == a.chrome_open,
        a.page_synced().bm_menu == a.bm_menu,
        a.page_synced().ac_menu == a.ac_menu,
        a.page_synced().modal == a.modal,
        a.page_synced().settings == a.settings,
{
    reveal(AppView::page_synced);
    reveal(AppView::favorites_refreshed);
}

/// The keys that drive the open account list do not reach the page, and what does not drive it is
/// left to what is below.
pub proof fn list_takes_its_keys(a: AppView, event: KeyEvent, offer: Option<Seq<char>>, now: u64)
    requires
        a.ac_menu is Some,
        a.ctx_menu is None,
        a.modal is None,
        !a.url_focused,
    ensures
        list_key_of(event) is Some ==> {
            let (b, m) = a.key_handled(event, offer, now);
            &&& m is None
            &&& b.host.tabs == a.host.tabs
            &&& b.host.outbox == a.host.outbox || b.host.outbox == a.host.outbox.push(
                ActionView::FetchSecret(a.ac_menu->0.shown[a.ac_menu->0.selected].path),
            )
        },
        list_key_of(event) is None && a.bm_menu is None ==> a.key_handled(event, offer, now)
            == a.plain_key(event, offer, now),
{
    reveal(AppView::key_handled);
    reveal(AppView::list_key_done);
    reveal(AppView::account_picked);
}

} // verus!
