//! What the pointer does, by what it is on.

use vstd::prelude::*;

use crate::action::{Action, ActionView};
use crate::browser::state::{AppView, BrowserApp};
use crate::input::{ElementState, MouseButton};
use crate::lineedit::LineView;
use crate::menus::{AcMenu, AcView, BmHit, BmMenu, BmView};
use crate::message::{message_opt, Message, MessageView};
use crate::modal::{Modal, ModalView};
use crate::positions::{boundary, chars_before};
use crate::weburl::{url_parse, Url};

verus! {

/// What the pointer is on, as whoever draws knows it: everything that has its place there, whatever
/// covers it.
#[derive(Clone, Copy, Debug)]
pub struct Hits {
    /// The buttons of the prompt, and the field of it.
    pub accept: bool,
    pub cancel: bool,
    pub prompt_field: Option<usize>,
    /// The item of the right-click menu.
    pub item: Option<usize>,
    /// The row of the account list, and its plate.
    pub account: Option<usize>,
    pub account_plate: bool,
    /// What is inside the bookmarks menu, its plate, and the bookmarks that it has room for.
    pub bookmark: Option<BmHit>,
    pub bookmark_plate: bool,
    pub bookmark_rows: usize,
    /// The corner control, and the chrome: the control or the bar.
    pub dot: bool,
    pub chrome: bool,
    /// The first tab's pill there, and whether that is on its close region.
    pub tab: Option<(usize, bool)>,
    /// The first favorite's pill there.
    pub favorite: Option<usize>,
    pub plus: bool,
    pub back: bool,
    pub forward: bool,
    pub reload: bool,
    pub star: bool,
    pub bookmarks: bool,
    pub url: bool,
    /// The place in the address bar's text that is closest, in bytes.
    pub caret: usize,
}

impl AppView {
    /// A click on a prompt: its buttons answer, where it has them, and a field takes the focus.
    #[verifier::opaque]
    pub open spec fn prompt_clicked(self, hits: Hits) -> AppView {
        if hits.accept {
            self.modal_closed(true)
        } else if hits.cancel && self.modal->0.has_cancel {
            self.modal_closed(false)
        } else {
            match hits.prompt_field {
                Some(i) => if i < self.modal->0.fields.len() {
                    AppView { modal: Some(ModalView { focused: i, ..self.modal->0 }), ..self }
                } else {
                    self
                },
                None => self,
            }
        }
    }

    /// A click while the right-click menu is open: on an item it chooses that, and else it sends the
    /// menu away.
    #[verifier::opaque]
    pub open spec fn item_clicked(self, button: MouseButton, hits: Hits, now: u64) -> AppView {
        match (button, hits.item) {
            (MouseButton::Left, Some(i)) => self.ctx_chosen(i as int, now),
            _ => AppView { ctx_menu: None, ..self },
        }
    }

    /// A click while the bookmarks menu is open. One off its plate closes it.
    #[verifier::opaque]
    pub open spec fn bookmarks_clicked(self, button: MouseButton, hits: Hits, now: u64) -> AppView {
        match hits.bookmark {
            Some(hit) => self.bm_clicked(button, hit, hits.bookmark_rows as int, now),
            None => if hits.bookmark_plate {
                self
            } else {
                AppView { bm_menu: None, ..self }
            },
        }
    }

    /// A click on a favorite's pill.
    #[verifier::opaque]
    pub open spec fn pill_clicked(self, i: int, new_tab: bool) -> AppView {
        if i < self.favs.len() {
            self.visited(url_parse(self.favs[i].url), new_tab)
        } else {
            self
        }
    }

    /// A click in the address bar's field: it takes the focus and its whole text is selected, or,
    /// where it had the focus, the caret goes where the click was.
    #[verifier::opaque]
    pub open spec fn field_clicked(self, caret: int) -> AppView {
        if self.url_focused {
            AppView {
                url: LineView {
                    caret: chars_before(self.url.text, caret),
                    selection: None,
                    ..self.url
                },
                ..self
            }
        } else {
            AppView { url_focused: true, url: self.url.all_selected(), ..self }
        }
    }

    /// A click with the left button on what is left of the bar.
    #[verifier::opaque]
    pub open spec fn control_clicked(self, hits: Hits, now: u64) -> AppView {
        if hits.plus {
            self.new_opened()
        } else if hits.back {
            self.told(ActionView::Back(self.host.active))
        } else if hits.forward {
            self.told(ActionView::Forward(self.host.active))
        } else if hits.reload {
            self.told(ActionView::Reload(self.host.active))
        } else if hits.star {
            self.bookmark_switched(now)
        } else if hits.bookmarks {
            self.bm_menu_opened()
        } else if hits.url {
            self.field_clicked(hits.caret as int)
        } else {
            self.url_left()
        }
    }

    /// A click on the bar that is out: on a tab, on a favorite, or on a control. Picking a tab folds
    /// the bar away; closing one does not.
    #[verifier::opaque]
    pub open spec fn open_bar_clicked(self, button: MouseButton, hits: Hits, now: u64) -> (
        AppView,
        Option<MessageView>,
    ) {
        match hits.tab {
            Some((i, close)) => if button == MouseButton::Middle || close {
                self.tab_closed(i as int)
            } else {
                (self.tab_switched(i as int).chrome_closed(), None)
            },
            None => match hits.favorite {
                Some(i) => (self.pill_clicked(i as int, button == MouseButton::Middle), None),
                None => (
                    if button == MouseButton::Left {
                        self.control_clicked(hits, now)
                    } else {
                        self
                    },
                    None,
                ),
            },
        }
    }

    /// A click on the corner control.
    #[verifier::opaque]
    pub open spec fn dot_clicked(self, button: MouseButton) -> AppView {
        if button != MouseButton::Left {
            self
        } else if self.chrome_open {
            self.chrome_closed()
        } else {
            AppView { chrome_open: true, ..self }
        }
    }

    /// A click on the chrome. While the bar is folding away, nothing under it is live.
    #[verifier::opaque]
    pub open spec fn chrome_clicked(self, button: MouseButton, hits: Hits, now: u64) -> (
        AppView,
        Option<MessageView>,
    ) {
        if hits.dot {
            (self.dot_clicked(button), None)
        } else if self.chrome_open {
            self.open_bar_clicked(button, hits, now)
        } else {
            (self, None)
        }
    }

    /// The bar folded away, where it is out.
    #[verifier::opaque]
    pub open spec fn bar_folded(self) -> AppView {
        if self.chrome_open {
            self.redrawn().chrome_closed()
        } else {
            self
        }
    }

    /// A button over the page. Going down it folds the bar away first.
    #[verifier::opaque]
    pub open spec fn page_clicked(self, button: MouseButton, pressed: bool) -> AppView {
        let a = if pressed {
            self.bar_folded()
        } else {
            self
        };
        if pressed && button == MouseButton::Back {
            a.told(ActionView::Back(a.host.active))
        } else if pressed && button == MouseButton::Forward {
            a.told(ActionView::Forward(a.host.active))
        } else {
            a.told(ActionView::ForwardPointer(a.host.active))
        }
    }

    /// A button where neither a prompt nor the right-click menu nor an account's row has it.
    #[verifier::opaque]
    pub open spec fn plain_button(
        self,
        button: MouseButton,
        pressed: bool,
        hits: Hits,
        now: u64,
    ) -> (AppView, Option<MessageView>) {
        if self.bm_menu is Some {
            (
                if pressed {
                    self.redrawn().bookmarks_clicked(button, hits, now)
                } else {
                    self
                },
                None,
            )
        } else if hits.chrome {
            if pressed && (button == MouseButton::Left || button == MouseButton::Middle) {
                self.redrawn().chrome_clicked(button, hits, now)
            } else {
                (self, None)
            }
        } else {
            (self.page_clicked(button, pressed), None)
        }
    }

    /// What a button does. A prompt takes every click, and so does the right-click menu; a row of the
    /// account list is picked, and a click beside it closes the list and goes on.
    #[verifier::opaque]
    pub open spec fn button_handled(
        self,
        button: MouseButton,
        state: ElementState,
        hits: Hits,
        now: u64,
    ) -> (AppView, Option<MessageView>) {
        let pressed = state == ElementState::Pressed;
        let click = pressed && button == MouseButton::Left;
        if self.modal is Some {
            (
                if click {
                    self.redrawn().prompt_clicked(hits)
                } else {
                    self
                },
                None,
            )
        } else if self.ctx_menu is Some {
            (
                if pressed {
                    self.redrawn().item_clicked(button, hits, now)
                } else {
                    self
                },
                None,
            )
        } else if self.ac_menu is Some && hits.account is Some {
            (
                if click {
                    self.redrawn().account_picked(hits.account->0 as int)
                } else {
                    self.redrawn()
                },
                None,
            )
        } else {
            let a = if self.ac_menu is Some && pressed {
                AppView { ac_menu: None, ..self.redrawn() }
            } else {
                self
            };
            a.plain_button(button, pressed, hits, now)
        }
    }

    /// What the wheel does. The bookmarks menu takes it, over its plate or not.
    #[verifier::opaque]
    pub open spec fn wheel_handled(self, up: bool, hits: Hits) -> AppView {
        if self.ac_menu is Some && hits.account_plate {
            self
        } else if self.bm_menu is Some {
            if hits.bookmark_plate {
                AppView {
                    bm_menu: Some(self.bm_menu->0.scrolled(up, hits.bookmark_rows as int)),
                    ..self
                }.redrawn()
            } else {
                self
            }
        } else if hits.chrome {
            self
        } else {
            self.told(ActionView::ForwardPointer(self.host.active))
        }
    }

    /// The account list told which row the pointer is on.
    #[verifier::opaque]
    pub open spec fn list_hovered(self, row: Option<usize>) -> AppView {
        match self.ac_menu {
            Some(m) => if m.hover == row {
                self
            } else {
                AppView { ac_menu: Some(AcView { hover: row, ..m }), ..self }.redrawn()
            },
            None => self,
        }
    }

    /// The bookmarks menu told what the pointer is on.
    #[verifier::opaque]
    pub open spec fn menu_hovered(self, hit: Option<BmHit>) -> AppView {
        match self.bm_menu {
            Some(m) => if m.hover == hit {
                self
            } else {
                AppView { bm_menu: Some(BmView { hover: hit, ..m }), ..self }.redrawn()
            },
            None => self,
        }
    }

    /// The corner control and the strip told whether the pointer is on them.
    #[verifier::opaque]
    pub open spec fn bar_hovered(self, hits: Hits) -> AppView {
        let pill = if self.chrome_open && self.favs.len() > 0 {
            hits.favorite
        } else {
            None
        };
        AppView {
            dot_hover: hits.dot,
            fav_hover: pill,
            rebuild: self.rebuild || hits.dot != self.dot_hover || pill != self.fav_hover,
            ..self
        }
    }

    /// What a move of the pointer does. The page sees none while the right-click menu or the
    /// bookmarks menu is open, and none on the account list or the chrome.
    #[verifier::opaque]
    pub open spec fn move_handled(self, hits: Hits) -> AppView {
        if self.ctx_menu is Some {
            self.redrawn()
        } else {
            let a = self.list_hovered(hits.account);
            if self.ac_menu is Some && hits.account is Some {
                a
            } else if self.bm_menu is Some {
                a.menu_hovered(hits.bookmark)
            } else {
                let b = a.bar_hovered(hits);
                if hits.chrome {
                    b
                } else {
                    b.told(ActionView::ForwardPointer(b.host.active))
                }
            }
        }
    }
}

impl BrowserApp {
    /// Acts on a click on a prompt.
    #[verifier::rlimit(40)]
    fn click_prompt(&mut self, hits: &Hits)
        requires
            old(self).wf(),
            old(self).modal is Some,
        ensures
            final(self)@ == old(self)@.prompt_clicked(*hits),
            final(self).wf(),
    {
        proof {
            reveal(AppView::prompt_clicked);
        }
        let cancellable = match &self.modal {
            Some(m) => m.has_cancel,
            None => false,
        };
        if hits.accept {
            self.close_modal(true);
        } else if hits.cancel && cancellable {
            self.close_modal(false);
        } else if let Some(i) = hits.prompt_field {
            let mut open: Option<Modal> = None;
            core::mem::swap(&mut self.modal, &mut open);
            if let Some(mut m) = open {
                if i < m.fields.len() {
                    m.focus(i);
                }
                self.modal = Some(m);
            }
        }
    }

    /// Acts on a click while the right-click menu is open.
    #[verifier::rlimit(40)]
    fn click_item(&mut self, button: MouseButton, hits: &Hits, now: u64)
        requires
            old(self).wf(),
        ensures
            final(self)@ == old(self)@.item_clicked(button, *hits, now),
            final(self).wf(),
    {
        proof {
            reveal(AppView::item_clicked);
        }
        match (button, hits.item) {
            (MouseButton::Left, Some(i)) => self.dispatch_ctx_action(i, now),
            _ => {
                self.ctx_menu = None;
            },
        }
    }

    /// Acts on a click while the bookmarks menu is open.
    #[verifier::rlimit(40)]
    fn click_bookmarks(&mut self, button: MouseButton, hits: &Hits, now: u64)
        requires
            old(self).wf(),
        ensures
            final(self)@ == old(self)@.bookmarks_clicked(button, *hits, now),
            final(self).wf(),
    {
        proof {
            reveal(AppView::bookmarks_clicked);
        }
        match hits.bookmark {
            Some(hit) => self.bm_click(button, hit, hits.bookmark_rows, now),
            None => {
                if !hits.bookmark_plate {
                    self.close_bm_menu();
                }
            },
        }
    }

    /// Acts on a click on a favorite's pill.
    #[verifier::rlimit(40)]
    fn click_pill(&mut self, i: usize, new_tab: bool)
        requires
            old(self).wf(),
        ensures
            final(self)@ == old(self)@.pill_clicked(i as int, new_tab),
            final(self).wf(),
    {
        proof {
            reveal(AppView::pill_clicked);
        }
        if i < self.favs.len() {
            assert(self@.favs[i as int] == self.favs@[i as int]@);
            let parsed = Url::parse(self.favs[i].url.as_str());
            self.visit(parsed, new_tab);
        }
    }

    /// Acts on a click in the address bar's field.
    fn click_field(&mut self, caret: usize)
        requires
            old(self).wf(),
            old(self).url_focused ==> boundary(old(self).url.text@, caret as int),
        ensures
            final(self)@ == old(self)@.field_clicked(caret as int),
            final(self).wf(),
    {
        proof {
            reveal(AppView::field_clicked);
        }
        if self.url_focused {
            self.url.cursor = caret;
            self.url.selection = None;
        } else {
            self.url_focused = true;
            self.url.select_all();
        }
    }

    /// Acts on a click with the left button on what is left of the bar.
    #[verifier::rlimit(40)]
    fn click_control(&mut self, hits: &Hits, now: u64)
        requires
            old(self).wf(),
            hits.url && old(self).url_focused ==> boundary(old(self).url.text@, hits.caret as int),
        ensures
            final(self)@ == old(self)@.control_clicked(*hits, now),
            final(self).wf(),
    {
        proof {
            reveal(AppView::control_clicked);
        }
        if hits.plus {
            self.open_new();
        } else if hits.back {
            self.host.back();
        } else if hits.forward {
            self.host.forward();
        } else if hits.reload {
            self.host.reload();
        } else if hits.star {
            self.toggle_bookmark(now);
        } else if hits.bookmarks {
            self.open_bm_menu();
        } else if hits.url {
            self.click_field(hits.caret);
        } else {
            self.leave_url();
        }
    }

    /// Acts on a click on the bar that is out.
    #[verifier::rlimit(40)]
    fn click_open_bar(&mut self, button: MouseButton, hits: &Hits, now: u64) -> (r: Option<Message>)
        requires
            old(self).wf(),
            hits.url && old(self).url_focused ==> boundary(old(self).url.text@, hits.caret as int),
        ensures
            (final(self)@, message_opt(r)) == old(self)@.open_bar_clicked(button, *hits, now),
            r is None ==> final(self).wf(),
    {
        proof {
            reveal(AppView::open_bar_clicked);
        }
        if let Some((i, close)) = hits.tab {
            if button == MouseButton::Middle || close {
                return self.close_tab(i);
            }
            self.switch_tab(i);
            self.close_chrome();
            return None;
        }
        if let Some(i) = hits.favorite {
            self.click_pill(i, button == MouseButton::Middle);
            return None;
        }
        if button == MouseButton::Left {
            self.click_control(hits, now);
        }
        None
    }

    /// Acts on a click on the corner control.
    fn click_dot(&mut self, button: MouseButton)
        requires
            old(self).wf(),
        ensures
            final(self)@ == old(self)@.dot_clicked(button),
            final(self).wf(),
    {
        proof {
            reveal(AppView::dot_clicked);
        }
        if button == MouseButton::Left {
            if self.chrome_open {
                self.close_chrome();
            } else {
                self.open_chrome();
            }
        }
    }

    /// Acts on a click on the chrome.
    #[verifier::rlimit(40)]
    fn click_chrome(&mut self, button: MouseButton, hits: &Hits, now: u64) -> (r: Option<Message>)
        requires
            old(self).wf(),
            hits.url && old(self).url_focused ==> boundary(old(self).url.text@, hits.caret as int),
        ensures
            (final(self)@, message_opt(r)) == old(self)@.chrome_clicked(button, *hits, now),
            r is None ==> final(self).wf(),
    {
        proof {
            reveal(AppView::chrome_clicked);
        }
        if hits.dot {
            self.click_dot(button);
            None
        } else if self.chrome_open {
            self.click_open_bar(button, hits, now)
        } else {
            None
        }
    }

    /// Folds the bar away, where it is out.
    #[verifier::rlimit(40)]
    fn fold_bar(&mut self)
        requires
            old(self).wf(),
        ensures
            final(self)@ == old(self)@.bar_folded(),
            final(self).wf(),
    {
        proof {
            reveal(AppView::bar_folded);
        }
        if self.chrome_open {
            self.rebuild = true;
            self.close_chrome();
        }
    }

    /// Acts on a button over the page.
    #[verifier::rlimit(50)]
    fn click_page(&mut self, button: MouseButton, pressed: bool)
        requires
            old(self).wf(),
        ensures
            final(self)@ == old(self)@.page_clicked(button, pressed),
            final(self).wf(),
    {
        proof {
            reveal(AppView::page_clicked);
        }
        if pressed {
            self.fold_bar();
        }
        if pressed && button == MouseButton::Back {
            self.host.back();
        } else if pressed && button == MouseButton::Forward {
            self.host.forward();
        } else {
            let i = self.host.active_index();
            self.tell(Action::ForwardPointer(i));
        }
    }

    /// See [`AppView::plain_button`].
    #[verifier::rlimit(40)]
    fn handle_plain_button(
        &mut self,
        button: MouseButton,
        pressed: bool,
        hits: &Hits,
        now: u64,
    ) -> (r: Option<Message>)
        requires
            old(self).wf(),
            hits.url && old(self).url_focused ==> boundary(old(self).url.text@, hits.caret as int),
        ensures
            (final(self)@, message_opt(r)) == old(self)@.plain_button(
                button,
                pressed,
                *hits,
                now,
            ),
            r is None ==> final(self).wf(),
    {
        proof {
            reveal(AppView::plain_button);
        }
        if self.bm_menu.is_some() {
            if pressed {
                self.rebuild = true;
                self.click_bookmarks(button, hits, now);
            }
            None
        } else if hits.chrome {
            if pressed && (button == MouseButton::Left || button == MouseButton::Middle) {
                self.rebuild = true;
                self.click_chrome(button, hits, now)
            } else {
                None
            }
        } else {
            self.click_page(button, pressed);
            None
        }
    }

    /// Handles a button of the mouse.
    #[verifier::rlimit(40)]
    pub fn handle_mouse_input(
        &mut self,
        button: MouseButton,
        state: ElementState,
        hits: &Hits,
        now: u64,
    ) -> (r: Option<Message>)
        requires
            old(self).wf(),
            hits.url && old(self).url_focused ==> boundary(old(self).url.text@, hits.caret as int),
        ensures
            (final(self)@, message_opt(r)) == old(self)@.button_handled(
                button,
                state,
                *hits,
                now,
            ),
            r is None ==> final(self).wf(),
    {
        proof {
            reveal(AppView::button_handled);
        }
        let pressed = state == ElementState::Pressed;
        let click = pressed && button == MouseButton::Left;
        if self.modal.is_some() {
            if click {
                self.rebuild = true;
                self.click_prompt(hits);
            }
            return None;
        }
        if self.ctx_menu.is_some() {
            if pressed {
                self.rebuild = true;
                self.click_item(button, hits, now);
            }
            return None;
        }
        if self.ac_menu.is_some() {
            if let Some(i) = hits.account {
                self.rebuild = true;
                if click {
                    self.pick_account(i);
                }
                return None;
            }
            // The list sits over the page's own controls: the click that closes it is theirs, too.
            if pressed {
                self.rebuild = true;
                self.ac_menu = None;
            }
        }
        self.handle_plain_button(button, pressed, hits, now)
    }

    /// Handles the wheel.
    #[verifier::rlimit(40)]
    pub fn handle_mouse_wheel(&mut self, up: bool, hits: &Hits)
        requires
            old(self).wf(),
        ensures
            final(self)@ == old(self)@.wheel_handled(up, *hits),
            final(self).wf(),
    {
        proof {
            reveal(AppView::wheel_handled);
        }
        if self.ac_menu.is_some() && hits.account_plate {
            return;
        }
        if self.bm_menu.is_some() {
            if hits.bookmark_plate {
                self.bm_scroll(up, hits.bookmark_rows);
                self.rebuild = true;
            }
            return;
        }
        if !hits.chrome {
            let i = self.host.active_index();
            self.tell(Action::ForwardPointer(i));
        }
    }

    /// Scrolls the bookmarks menu by one bookmark.
    pub fn bm_scroll(&mut self, up: bool, cap: usize)
        requires
            old(self).wf(),
        ensures
            final(self)@ == (AppView {
                bm_menu: match old(self)@.bm_menu {
                    Some(m) => Some(m.scrolled(up, cap as int)),
                    None => None,
                },
                ..old(self)@
            }),
            final(self).wf(),
    {
        let mut open: Option<BmMenu> = None;
        core::mem::swap(&mut self.bm_menu, &mut open);
        if let Some(mut m) = open {
            m.wheel(up, cap);
            self.bm_menu = Some(m);
        }
    }

    /// Tells the account list which row the pointer is on.
    #[verifier::rlimit(40)]
    fn hover_list(&mut self, row: Option<usize>)
        requires
            old(self).wf(),
        ensures
            final(self)@ == old(self)@.list_hovered(row),
            final(self).wf(),
    {
        proof {
            reveal(AppView::list_hovered);
        }
        let mut open: Option<AcMenu> = None;
        core::mem::swap(&mut self.ac_menu, &mut open);
        if let Some(mut m) = open {
            if m.hover != row {
                m.hover = row;
                self.rebuild = true;
            }
            self.ac_menu = Some(m);
        }
    }

    /// Tells the bookmarks menu what the pointer is on.
    #[verifier::rlimit(40)]
    fn hover_menu(&mut self, hit: Option<BmHit>)
        requires
            old(self).wf(),
        ensures
            final(self)@ == old(self)@.menu_hovered(hit),
            final(self).wf(),
    {
        proof {
            reveal(AppView::menu_hovered);
        }
        let mut open: Option<BmMenu> = None;
        core::mem::swap(&mut self.bm_menu, &mut open);
        if let Some(mut m) = open {
            if !same_hit(m.hover, hit) {
                m.hover = hit;
                self.rebuild = true;
            }
            self.bm_menu = Some(m);
        }
    }

    /// Tells the corner control and the strip whether the pointer is on them.
    #[verifier::rlimit(40)]
    fn hover_bar(&mut self, hits: &Hits)
        requires
            old(self).wf(),
        ensures
            final(self)@ == old(self)@.bar_hovered(*hits),
            final(self).wf(),
    {
        proof {
            reveal(AppView::bar_hovered);
        }
        if hits.dot != self.dot_hover {
            self.dot_hover = hits.dot;
            self.rebuild = true;
        }
        let pill = if self.chrome_open && self.favs.len() > 0 {
            hits.favorite
        } else {
            None
        };
        if pill != self.fav_hover {
            self.fav_hover = pill;
            self.rebuild = true;
        }
    }

    /// Handles a move of the pointer.
    #[verifier::rlimit(40)]
    pub fn handle_pointer_move(&mut self, hits: &Hits)
        requires
            old(self).wf(),
        ensures
            final(self)@ == old(self)@.move_handled(*hits),
            final(self).wf(),
    {
        proof {
            reveal(AppView::move_handled);
            reveal(AppView::list_hovered);
        }
        if self.ctx_menu.is_some() {
            self.rebuild = true;
            return;
        }
        let listed = self.ac_menu.is_some() && hits.account.is_some();
        self.hover_list(hits.account);
        if listed {
            return;
        }
        if self.bm_menu.is_some() {
            self.hover_menu(hits.bookmark);
            return;
        }
        self.hover_bar(hits);
        if !hits.chrome {
            let i = self.host.active_index();
            self.tell(Action::ForwardPointer(i));
        }
    }
}

fn same_hit(a: Option<BmHit>, b: Option<BmHit>) -> (r: bool)
    ensures
        r == (a == b),
{
    match (a, b) {
        (None, None) => true,
        (Some(a), Some(b)) => a == b,
        _ => false,
    }
}

// ---------------------------------------------------------------------------------------------
// Laws
// ---------------------------------------------------------------------------------------------

/// While a prompt is up, no button reaches the page or changes the tabs, the stores or the bar.
pub proof fn prompts_take_every_click(
    a: AppView,
    button: MouseButton,
    state: ElementState,
    hits: Hits,
    now: u64,
)
    requires
        a.modal is Some,
    ensures
        ({
            let (b, m) = a.button_handled(button, state, hits, now);
            &&& m is None
            &&& b.host.tabs == a.host.tabs
            &&& b.host.active == a.host.active
            &&& b.pages == a.pages
            &&& b.url == a.url
            &&& b.url_focused == a.url_focused
            &&& b.chrome_open == a.chrome_open
            &&& forall|i: int|
                a.host.outbox.len() <= i < b.host.outbox.len() ==> !((#[trigger] b.host.outbox[i])
                    is ForwardPointer)
        }),
{
    reveal(AppView::button_handled);
    reveal(AppView::prompt_clicked);
    reveal(AppView::modal_closed);
}

/// A press beside the open account list closes it and still reaches what is below, as if the list
/// had not been there.
pub proof fn dismissing_click_goes_on(a: AppView, button: MouseButton, hits: Hits, now: u64)
    requires
        a.modal is None,
        a.ctx_menu is None,
        a.ac_menu is Some,
        hits.account is None,
    ensures
        a.button_handled(button, ElementState::Pressed, hits, now) == (AppView {
            ac_menu: None,
            ..a.redrawn()
        }).plain_button(button, true, hits, now),
{
    reveal(AppView::button_handled);
}

/// A menu of the chrome that is open keeps the click that sends it away: nothing reaches the page.
pub proof fn menus_keep_their_clicks(a: AppView, button: MouseButton, hits: Hits, now: u64)
    requires
        a.modal is None,
        a.ctx_menu is Some || (a.ac_menu is None && a.bm_menu is Some),
        hits.item is None,
        hits.bookmark is None,
    ensures
        ({
            let (b, m) = a.button_handled(button, ElementState::Pressed, hits, now);
            &&& m is None
            &&& b.host == a.host
            &&& b.ctx_menu is None
            &&& a.ctx_menu is None && !hits.bookmark_plate ==> b.bm_menu is None
        }),
{
    reveal(AppView::button_handled);
    reveal(AppView::item_clicked);
    reveal(AppView::plain_button);
    reveal(AppView::bookmarks_clicked);
}

/// The corner control clicked twice: where the bar was folded away it is again, and nothing else has
/// changed but that the window is to be drawn.
pub proof fn dot_toggles(a: AppView)
    requires
        !a.chrome_open,
        !a.url_focused,
        a.bm_menu is None,
    ensures
        a.dot_clicked(MouseButton::Left).chrome_open,
        a.dot_clicked(MouseButton::Left).dot_clicked(MouseButton::Left) == a,
{
    reveal(AppView::dot_clicked);
    reveal(AppView::chrome_closed);
}

} // verus!
