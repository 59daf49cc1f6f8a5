//! The chrome's menus and prompts: how they open, what a choice does, and how they go.

use vstd::prelude::*;

use crate::action::{Action, ActionView};
use crate::browser::state::{AppView, BrowserApp};
use crate::input::{Clipboard, KeyEvent, MouseButton};
use crate::lineedit::EditOutcome;
use crate::menus::{ctx_items, BmHit, BmMenu, BmView, CtxAction, CtxActionView, CtxMenu};
use crate::message::EditingCommand;
use crate::modal::{auth_modal, script_modal, Modal, ModalKind};
use crate::pages::{strip, LogView};
use crate::protocol::ProtocolView;
use crate::store::entries_but;
use crate::weburl::{url_opt, url_parse, view_opt, Url, UrlView};
use crate::wpe::host::{ContextMenuInfo, ContextView};

verus! {

impl AppView {
    /// The bookmarks menu opened on a snapshot of the store. The address bar loses its focus.
    #[verifier::opaque]
    pub open spec fn bm_menu_opened(self) -> AppView {
        let a = if self.url_focused {
            self.url_left().page_synced()
        } else {
            self
        };
        AppView {
            bm_menu: Some(
                BmView {
                    items: strip(a.pages.bookmarks.entries.reverse()),
                    scroll: 0,
                    hover: None,
                },
            ),
            ..a
        }
    }

    /// The store read again into the open menu, which has room for `cap` bookmarks.
    #[verifier::opaque]
    pub open spec fn bm_menu_refreshed(self, cap: int) -> AppView {
        match self.bm_menu {
            Some(m) => AppView {
                bm_menu: Some(m.refreshed(strip(self.pages.bookmarks.entries.reverse()), cap)),
                ..self
            },
            None => self,
        }
    }

    /// The address of a bookmark in the open menu.
    pub open spec fn bm_target(self, i: int) -> Option<Seq<char>> {
        match self.bm_menu {
            Some(m) => if 0 <= i < m.items.len() {
                Some(m.items[i].url)
            } else {
                None
            },
            None => None,
        }
    }

    /// A bookmark or a favorite visited: in the tab that is shown, and the menu and the bar fold away;
    /// or in a new tab, and they stay.
    #[verifier::opaque]
    pub open spec fn visited(self, parsed: Option<UrlView>, new_tab: bool) -> AppView {
        match parsed {
            None => self,
            Some(u) => if new_tab {
                self.tab_opened(u)
            } else {
                AppView { bm_menu: None, ..self.loaded(u) }.chrome_closed().page_synced()
            },
        }
    }

    /// A bookmark dropped from inside the menu, which stays.
    #[verifier::opaque]
    pub open spec fn bm_dropped(self, i: int, cap: int) -> AppView {
        match self.bm_target(i) {
            None => self,
            Some(url) => AppView {
                pages: ProtocolView {
                    bookmarks: LogView::rewritten(
                        entries_but(self.pages.bookmarks.entries, url),
                    ),
                    ..self.pages
                },
                ..self
            }.bm_menu_refreshed(cap),
        }
    }

    /// What a click inside the bookmarks menu does.
    #[verifier::opaque]
    pub open spec fn bm_clicked(self, button: MouseButton, hit: BmHit, cap: int, now: u64) -> AppView {
        match (button, hit) {
            (MouseButton::Left, BmHit::Toggle) => if self.saveable() || self.host.listed(
                self.pages.bookmarks,
            ) {
                self.bookmark_switched(now).bm_menu_refreshed(cap)
            } else {
                self
            },
            (MouseButton::Left, BmHit::Entry(i, true)) => self.bm_dropped(i as int, cap),
            (MouseButton::Left, BmHit::Entry(i, false)) => self.visited(
                self.bm_parsed(i as int),
                false,
            ),
            (MouseButton::Middle, BmHit::Entry(i, _)) => self.visited(
                self.bm_parsed(i as int),
                true,
            ),
            (MouseButton::Left, BmHit::Manage) => AppView {
                bm_menu: None,
                ..self
            }.chrome_closed().internal_opened(
                "cce://bookmarks"@,
                url_parse("cce://bookmarks"@),
            ),
            _ => self,
        }
    }

    /// The address of a bookmark in the open menu, parsed.
    pub open spec fn bm_parsed(self, i: int) -> Option<UrlView> {
        match self.bm_target(i) {
            Some(t) => url_parse(t),
            None => None,
        }
    }

    /// What a page is blocked on put on screen, and whether anything was. A prompt that is on screen
    /// comes first.
    #[verifier::opaque]
    pub open spec fn modal_synced(self) -> (AppView, bool) {
        if self.modal is Some {
            (self, false)
        } else if self.host.dialog is Some {
            (AppView { modal: Some(script_modal(self.host.dialog->0)), ..self }, true)
        } else if self.host.auth is Some {
            (AppView { modal: Some(auth_modal(self.host.auth->0)), ..self }, true)
        } else {
            (self, false)
        }
    }

    /// The prompt answered and gone.
    #[verifier::opaque]
    pub open spec fn modal_closed(self, ok: bool) -> AppView {
        match self.modal {
            None => self,
            Some(m) => {
                let a = AppView { modal: None, ..self };
                match m.kind {
                    ModalKind::Script => a.with_host(
                        a.host.answered(
                            ok,
                            if m.fields.len() > 0 {
                                Some(m.fields[0].edit.text)
                            } else {
                                None
                            },
                        ),
                    ),
                    ModalKind::Auth => a.with_host(
                        a.host.authenticated(
                            if ok {
                                Some((m.fields[0].edit.text, m.fields[1].edit.text))
                            } else {
                                None
                            },
                        ),
                    ),
                }
            },
        }
    }

    /// The menu for what was under the pointer opened.
    #[verifier::opaque]
    pub open spec fn ctx_opened(self, info: ContextView) -> AppView {
        AppView {
            ctx_menu: Some(
                ctx_items(info, self.host.listed(self.pages.favorites), self.saveable()),
            ),
            ..self
        }
    }

    /// A link opened in a tab of its own, where it is an address.
    #[verifier::opaque]
    pub open spec fn link_opened(self, uri: Seq<char>) -> AppView {
        match url_parse(uri) {
            Some(u) => self.with_host(self.host.opened(u)).page_synced().persisted(),
            None => self,
        }
    }

    /// What an item of the right-click menu does.
    #[verifier::opaque]
    pub open spec fn ctx_done(self, action: CtxActionView, now: u64) -> AppView {
        match action {
            CtxActionView::Back => self.told(ActionView::Back(self.host.active)),
            CtxActionView::Forward => self.told(ActionView::Forward(self.host.active)),
            CtxActionView::Reload => self.told(ActionView::Reload(self.host.active)),
            CtxActionView::CopySelection => self.with_host(
                self.host.editing(EditingCommand::Copy),
            ),
            CtxActionView::Paste => self.with_host(self.host.editing(EditingCommand::Paste)),
            CtxActionView::OpenInTab(uri) => self.link_opened(uri),
            CtxActionView::CopyText(t) => self.told(ActionView::CopyText(t)),
            CtxActionView::Download(uri) => self.told(ActionView::Download(uri)),
            CtxActionView::OpenExternal => self.opened_outside(),
            CtxActionView::ToggleFavorite => self.favorite_switched(now),
        }
    }

    /// An item of the right-click menu chosen. The menu goes either way; an item that is not there
    /// or not enabled does nothing.
    #[verifier::opaque]
    pub open spec fn ctx_chosen(self, i: int, now: u64) -> AppView {
        match self.ctx_menu {
            None => self,
            Some(items) => {
                let a = AppView { ctx_menu: None, ..self };
                if 0 <= i < items.len() && items[i].enabled {
                    a.ctx_done(items[i].action, now)
                } else {
                    a
                }
            },
        }
    }

    /// A key while a prompt is up: Tab moves the focus, and anything else goes to the focused field;
    /// Enter and Escape answer.
    #[verifier::opaque]
    pub open spec fn modal_key(self, event: KeyEvent, offer: Option<Seq<char>>) -> AppView {
        let m = self.modal->0;
        if event.state == crate::input::ElementState::Pressed && event.is_named(
            crate::input::NamedKey::Tab,
        ) {
            AppView { modal: Some(m.tabbed(event.shift)), ..self }
        } else {
            let (a, outcome) = self.modal_typed(event, offer);
            match outcome {
                EditOutcome::Submit => a.modal_closed(true),
                EditOutcome::Cancel => a.modal_closed(false),
                _ => a,
            }
        }
    }

    /// A keystroke in a prompt.
    #[verifier::opaque]
    pub open spec fn modal_typed(self, event: KeyEvent, offer: Option<Seq<char>>) -> (
        AppView,
        EditOutcome,
    ) {
        let (m, outcome, copied) = self.modal->0.typed(event, offer);
        (AppView { modal: Some(m), ..self }.copied_out(copied), outcome)
    }
}

impl BrowserApp {
    /// Opens the bookmarks menu.
    #[verifier::rlimit(40)]
    pub fn open_bm_menu(&mut self)
        requires
            old(self).wf(),
        ensures
            final(self)@ == old(self)@.bm_menu_opened(),
            final(self).wf(),
    {
        proof {
            reveal(AppView::bm_menu_opened);
        }
        if self.url_focused {
            self.leave_url();
            self.sync_page_state();
        }
        let items = self.pages.bookmarks.snapshot();
        self.bm_menu = Some(BmMenu { items, scroll: 0, hover: None });
    }

    /// Closes the bookmarks menu.
    pub fn close_bm_menu(&mut self)
        requires
            old(self).wf(),
        ensures
            final(self)@ == (AppView { bm_menu: None, ..old(self)@ }),
            final(self).wf(),
    {
        self.bm_menu = None;
    }

    /// Reads the store again into the open menu.
    #[verifier::rlimit(40)]
    pub fn refresh_bm_menu(&mut self, cap: usize)
        requires
            old(self).wf(),
        ensures
            final(self)@ == old(self)@.bm_menu_refreshed(cap as int),
            final(self).wf(),
    {
        proof {
            reveal(AppView::bm_menu_refreshed);
        }
        let items = self.pages.bookmarks.snapshot();
        let mut open: Option<BmMenu> = None;
        core::mem::swap(&mut self.bm_menu, &mut open);
        if let Some(mut m) = open {
            m.refresh(items, cap);
            self.bm_menu = Some(m);
        }
    }

    /// The address of a bookmark in the open menu.
    fn bm_url(&self, index: usize) -> (r: Option<String>)
        ensures
            view_opt(r) == self@.bm_target(index as int),
    {
        match &self.bm_menu {
            Some(m) => if index < m.items.len() {
                assert(m@.items[index as int] == m.items@[index as int]@);
                Some(m.items[index].url.clone())
            } else {
                None
            },
            None => None,
        }
    }

    /// Visits a bookmark.
    pub fn bm_open(&mut self, index: usize, new_tab: bool)
        requires
            old(self).wf(),
        ensures
            final(self)@ == old(self)@.visited(old(self)@.bm_parsed(index as int), new_tab),
            final(self).wf(),
    {
        let parsed = match self.bm_url(index) {
            Some(u) => Url::parse(u.as_str()),
            None => None,
        };
        self.visit(parsed, new_tab);
    }

    /// Visits a bookmark or a favorite, with its address parsed.
    #[verifier::rlimit(40)]
    pub fn visit(&mut self, parsed: Option<Url>, new_tab: bool)
        requires
            old(self).wf(),
        ensures
            final(self)@ == old(self)@.visited(url_opt(parsed), new_tab),
            final(self).wf(),
    {
        proof {
            reveal(AppView::visited);
        }
        if let Some(u) = parsed {
            if new_tab {
                self.open_tab(u);
            } else {
                self.host.load(&u);
                self.loading = true;
                self.close_bm_menu();
                self.close_chrome();
                self.sync_page_state();
            }
        }
    }

    /// Drops a bookmark from inside the menu.
    #[verifier::rlimit(40)]
    pub fn bm_remove(&mut self, index: usize, cap: usize)
        requires
            old(self).wf(),
        ensures
            final(self)@ == old(self)@.bm_dropped(index as int, cap as int),
            final(self).wf(),
    {
        proof {
            reveal(AppView::bm_dropped);
        }
        if let Some(url) = self.bm_url(index) {
            self.pages.bookmarks.remove(url.as_str());
            self.refresh_bm_menu(cap);
        }
    }

    /// Acts on a click inside the bookmarks menu.
    #[verifier::rlimit(40)]
    pub fn bm_click(&mut self, button: MouseButton, hit: BmHit, cap: usize, now: u64)
        requires
            old(self).wf(),
        ensures
            final(self)@ == old(self)@.bm_clicked(button, hit, cap as int, now),
            final(self).wf(),
    {
        proof {
            reveal(AppView::bm_clicked);
        }
        match (button, hit) {
            (MouseButton::Left, BmHit::Toggle) => {
                if self.saveable() || self.host.active_bookmarked(&self.pages.bookmarks) {
                    self.toggle_bookmark(now);
                    self.refresh_bm_menu(cap);
                }
            },
            (MouseButton::Left, BmHit::Entry(i, true)) => self.bm_remove(i, cap),
            (MouseButton::Left, BmHit::Entry(i, false)) => self.bm_open(i, false),
            (MouseButton::Middle, BmHit::Entry(i, _)) => self.bm_open(i, true),
            (MouseButton::Left, BmHit::Manage) => {
                self.close_bm_menu();
                self.close_chrome();
                self.open_internal_page("cce://bookmarks");
            },
            _ => {},
        }
    }

    /// Puts what a page is blocked on on screen. Gives whether anything was.
    #[verifier::rlimit(40)]
    pub fn sync_modal(&mut self) -> (r: bool)
        requires
            old(self).wf(),
        ensures
            (final(self)@, r) == old(self)@.modal_synced(),
            final(self).wf(),
    {
        proof {
            reveal(AppView::modal_synced);
        }
        if self.modal.is_some() {
            return false;
        }
        if let Some(d) = self.host.pending_dialog() {
            self.modal = Some(Modal::for_dialog(d));
            return true;
        }
        if let Some(a) = self.host.pending_auth() {
            self.modal = Some(Modal::for_auth(a));
            return true;
        }
        false
    }

    /// Answers the page and dismisses the prompt.
    #[verifier::rlimit(40)]
    pub fn close_modal(&mut self, ok: bool)
        requires
            old(self).wf(),
        ensures
            final(self)@ == old(self)@.modal_closed(ok),
            final(self).wf(),
    {
        proof {
            reveal(AppView::modal_closed);
        }
        let mut open: Option<Modal> = None;
        core::mem::swap(&mut self.modal, &mut open);
        if let Some(m) = open {
            match m.kind {
                ModalKind::Script => {
                    let text = if m.fields.len() > 0 {
                        assert(m@.fields[0] == m.fields@[0]@);
                        Some(m.fields[0].edit.text.clone())
                    } else {
                        None
                    };
                    self.host.respond_dialog(ok, text);
                },
                ModalKind::Auth => {
                    if ok {
                        assert(m@.fields[0] == m.fields@[0]@);
                        assert(m@.fields[1] == m.fields@[1]@);
                        let user = m.fields[0].edit.text.clone();
                        let password = m.fields[1].edit.text.clone();
                        self.host.respond_auth(Some((user, password)));
                    } else {
                        self.host.respond_auth(None);
                    }
                },
            }
        }
    }

    /// Opens the right-click menu.
    pub fn open_ctx_menu(&mut self, info: &ContextMenuInfo)
        requires
            old(self).wf(),
        ensures
            final(self)@ == old(self)@.ctx_opened(info@),
            final(self).wf(),
    {
        proof {
            reveal(AppView::ctx_opened);
        }
        let favorited = self.host.active_favorited(&self.pages.favorites);
        let saveable = self.saveable();
        self.ctx_menu = Some(CtxMenu::build(info, favorited, saveable));
    }

    /// Opens a link in a tab of its own.
    #[verifier::rlimit(40)]
    fn open_link(&mut self, uri: &str)
        requires
            old(self).wf(),
        ensures
            final(self)@ == old(self)@.link_opened(uri@),
            final(self).wf(),
    {
        proof {
            reveal(AppView::link_opened);
        }
        if let Some(u) = Url::parse(uri) {
            self.host.open_tab(u);
            self.sync_page_state();
            self.persist_session();
        }
    }

    /// Does what an item of the right-click menu says.
    #[verifier::rlimit(50)]
    fn do_ctx_action(&mut self, action: &CtxAction, now: u64)
        requires
            old(self).wf(),
        ensures
            final(self)@ == old(self)@.ctx_done(action@, now),
            final(self).wf(),
    {
        proof {
            reveal(AppView::ctx_done);
        }
        match action {
            CtxAction::Back => self.host.back(),
            CtxAction::Forward => self.host.forward(),
            CtxAction::Reload => self.host.reload(),
            CtxAction::CopySelection => self.host.editing_action_cmd(EditingCommand::Copy),
            CtxAction::Paste => self.host.editing_action_cmd(EditingCommand::Paste),
            CtxAction::OpenInTab(uri) => self.open_link(uri.as_str()),
            CtxAction::CopyText(text) => self.host.tell(Action::CopyText(text.clone())),
            CtxAction::Download(uri) => self.host.tell(Action::Download(uri.clone())),
            CtxAction::OpenExternal => self.open_external(),
            CtxAction::ToggleFavorite => self.toggle_favorite(now),
        }
    }

    /// Acts on the choice of an item of the right-click menu.
    #[verifier::rlimit(40)]
    pub fn dispatch_ctx_action(&mut self, index: usize, now: u64)
        requires
            old(self).wf(),
        ensures
            final(self)@ == old(self)@.ctx_chosen(index as int, now),
            final(self).wf(),
    {
        proof {
            reveal(AppView::ctx_chosen);
        }
        let mut open: Option<CtxMenu> = None;
        core::mem::swap(&mut self.ctx_menu, &mut open);
        if let Some(menu) = open {
            if index < menu.items.len() {
                assert(menu@[index as int] == menu.items@[index as int]@);
                if menu.items[index].enabled {
                    self.do_ctx_action(&menu.items[index].action, now);
                }
            }
        }
    }

    /// Applies a keystroke to a prompt.
    #[verifier::rlimit(40)]
    fn type_in_modal(&mut self, event: &KeyEvent, offered: Option<String>) -> (r: EditOutcome)
        requires
            old(self).wf(),
            old(self).modal is Some,
        ensures
            (final(self)@, r) == old(self)@.modal_typed(*event, view_opt(offered)),
            final(self).wf(),
    {
        let ghost before = self@;
        let mut open: Option<Modal> = None;
        core::mem::swap(&mut self.modal, &mut open);
        let mut clipboard = Clipboard::offering(offered);
        let mut outcome = EditOutcome::Ignored;
        if let Some(mut m) = open {
            outcome = m.handle_key(event, &mut clipboard);
            self.modal = Some(m);
        }
        let ghost s = before.modal->0.typed(*event, view_opt(offered));
        proof {
            reveal(AppView::modal_typed);
            assert(self@ == AppView { modal: Some(s.0), ..before });
            assert(outcome == s.1);
            assert(clipboard.copy() == s.2);
        }
        self.copy_out(clipboard.copied);
        outcome
    }

    /// Handles a key while a prompt is up.
    #[verifier::rlimit(40)]
    pub fn key_in_modal(&mut self, event: &KeyEvent, offered: Option<String>)
        requires
            old(self).wf(),
            old(self).modal is Some,
        ensures
            final(self)@ == old(self)@.modal_key(*event, view_opt(offered)),
            final(self).wf(),
    {
        proof {
            reveal(AppView::modal_key);
        }
        let tab = match &event.logical_key {
            crate::input::Key::Named(crate::input::NamedKey::Tab) => event.state
                == crate::input::ElementState::Pressed,
            _ => false,
        };
        if tab {
            let mut open: Option<Modal> = None;
            core::mem::swap(&mut self.modal, &mut open);
            if let Some(mut m) = open {
                m.tab(event.shift);
                self.modal = Some(m);
            }
            return;
        }
        match self.type_in_modal(event, offered) {
            EditOutcome::Submit => self.close_modal(true),
            EditOutcome::Cancel => self.close_modal(false),
            _ => {},
        }
    }
}

} // verus!
