//! What each click does, and what the wheel does.

use vstd::prelude::*;

use crate::action::ActionView;
use crate::browser::pointer::Hits;
use crate::browser::state::AppView;
use crate::input::{ElementState, MouseButton};
use crate::menus::{BmHit, BmView};
use crate::outcomes::keys::quiet;
use crate::outcomes::tabs::{
    did, in_step, lemma_told, shows_new_tab, shows_tab, switching_shows_the_tab, tabs_open_last,
    the_chrome_follows_the_page,
};
use crate::pages::{label_of, FavoriteView};
use crate::store::{has_entry, lemma_entries_but, EntryView};
use crate::weburl::{one_line, url_parse, UrlView};
use crate::wpe::host::HostView;

verus! {

/// The browser after the left button went down.
pub open spec fn clicked(a: AppView, hits: Hits, now: u64) -> AppView {
    a.button_handled(MouseButton::Left, ElementState::Pressed, hits, now).0
}

/// Whether the pointer is on the bar, which is out, and on none of its pills.
pub open spec fn on_controls(a: AppView, hits: Hits) -> bool {
    &&& quiet(a)
    &&& a.chrome_open
    &&& hits.chrome
    &&& !hits.dot
    &&& hits.tab is None
    &&& hits.favorite is None
}

// ---------------------------------------------------------------------------------------------
// The bar
// ---------------------------------------------------------------------------------------------

/// The buttons of the bar do what they are for, to the page that is shown: back, forward, reload, a new
/// tab, the star, the bookmarks.
#[verifier::spinoff_prover]
#[verifier::rlimit(40)]
pub proof fn buttons_do_what_they_are_for(a: AppView, hits: Hits, now: u64)
    requires
        on_controls(a, hits),
    ensures
        ({
            let b = clicked(a, hits, now);
            let drawn = AppView { rebuild: true, ..a };
            let here = a.host.active;
            &&& hits.plus ==> b == drawn.new_opened()
            &&& hits.back && !hits.plus ==> did(drawn, seq![ActionView::Back(here)], b)
            &&& hits.forward && !hits.plus && !hits.back ==> did(
                drawn,
                seq![ActionView::Forward(here)],
                b,
            )
            &&& hits.reload && !hits.plus && !hits.back && !hits.forward ==> did(
                drawn,
                seq![ActionView::Reload(here)],
                b,
            )
            &&& hits.star && !hits.plus && !hits.back && !hits.forward && !hits.reload ==> b
                == drawn.bookmark_switched(now)
            &&& hits.bookmarks && !hits.plus && !hits.back && !hits.forward && !hits.reload
                && !hits.star ==> b == drawn.bm_menu_opened()
        }),
{
    reveal(AppView::button_handled);
    reveal(AppView::plain_button);
    reveal(AppView::chrome_clicked);
    reveal(AppView::open_bar_clicked);
    reveal(AppView::control_clicked);
    let drawn = AppView { rebuild: true, ..a };
    lemma_told(drawn, ActionView::Back(a.host.active));
    lemma_told(drawn, ActionView::Forward(a.host.active));
    lemma_told(drawn, ActionView::Reload(a.host.active));
}

/// A click in the address bar gives it the focus with all of its text selected; a click beside everything
/// takes the focus from it.
pub proof fn the_field_takes_the_focus(a: AppView, hits: Hits, now: u64)
    requires
        on_controls(a, hits),
        !hits.plus && !hits.back && !hits.forward && !hits.reload && !hits.star && !hits.bookmarks,
    ensures
        ({
            let b = clicked(a, hits, now);
            &&& hits.url && !a.url_focused ==> b.url_focused && b.url.text == a.url.text && (
            a.url.text.len() > 0 ==> b.url.selection == Some((0int, a.url.text.len() as int)))
            &&& hits.url && a.url_focused ==> b.url_focused && b.url.text == a.url.text
                && b.url.selection is None && b.url.caret == crate::positions::chars_before(
                a.url.text,
                hits.caret as int,
            )
            &&& !hits.url ==> !b.url_focused && b.url.text == a.url.text && b.url.selection is None
            &&& b.host == a.host
            &&& b.chrome_open
        }),
{
    reveal(AppView::button_handled);
    reveal(AppView::plain_button);
    reveal(AppView::chrome_clicked);
    reveal(AppView::open_bar_clicked);
    reveal(AppView::control_clicked);
    reveal(AppView::field_clicked);
}

/// The star bookmarks the page that is shown under its title, at the end of the list, or takes its
/// bookmark away; nothing else changes.
pub proof fn the_star_is_for_the_page(a: AppView, now: u64)
    requires
        a.host.tabs[a.host.active as int].url is Some,
        one_line((a.host.tabs[a.host.active as int].url->0).text),
        one_line(a.host.title_text()),
    ensures
        ({
            let b = a.bookmark_switched(now);
            let url = (a.host.tabs[a.host.active as int].url->0).text;
            let title = a.host.title_text();
            let before = a.pages.bookmarks.entries;
            let after = b.pages.bookmarks.entries;
            let own = "cce:"@.is_prefix_of(url) || url == "about:blank"@;
            &&& own ==> after == before
            &&& !own && !has_entry(before, url) ==> after == before.push(
                (EntryView { ts: now, url, title }),
            )
            &&& !own && has_entry(before, url) ==> exists|k: int|
                0 <= k < before.len() && (#[trigger] before[k]).url == url && after == before.remove(k)
            &&& b.host == a.host
            &&& b.pages.history == a.pages.history
            &&& b.pages.favorites == a.pages.favorites
        }),
{
    reveal(AppView::bookmark_switched);
    let url = (a.host.tabs[a.host.active as int].url->0).text;
    crate::outcomes::listings::the_star_adds_and_removes(
        a.pages.bookmarks,
        url,
        a.host.title_text(),
        now,
    );
}

/// What the page that is shown is called is its title, where it has one.
pub proof fn titles_are_the_tabs(h: HostView)
    ensures
        h.tabs[h.active as int].title is Some ==> h.title_text() == h.tabs[h.active as int].title->0,
        h.tabs[h.active as int].title is None ==> h.title_text().len() == 0,
{
}

/// A click on the corner control brings the bar out, or folds it away and takes the focus from its field.
pub proof fn the_corner_brings_out_the_bar(a: AppView, hits: Hits, now: u64)
    requires
        quiet(a),
        hits.chrome,
        hits.dot,
    ensures
        !a.chrome_open ==> clicked(a, hits, now) == (AppView { chrome_open: true, rebuild: true, ..a }),
        a.chrome_open ==> !clicked(a, hits, now).chrome_open && !clicked(a, hits, now).url_focused
            && clicked(a, hits, now).host == a.host,
{
    reveal(AppView::button_handled);
    reveal(AppView::plain_button);
    reveal(AppView::chrome_clicked);
    reveal(AppView::dot_clicked);
    reveal(AppView::chrome_closed);
    let drawn = AppView { rebuild: true, chrome_open: false, bm_menu: None, ..a };
    the_chrome_follows_the_page(drawn.url_left());
}

proof fn lemma_folded(a: AppView)
    ensures
        !a.chrome_closed().chrome_open,
        !a.chrome_closed().url_focused,
        a.chrome_closed().bm_menu is None,
        a.chrome_closed().host == a.host,
        a.chrome_closed().pages == a.pages,
        in_step(a) ==> in_step(a.chrome_closed()),
{
    reveal(AppView::chrome_closed);
    let b = AppView { chrome_open: false, bm_menu: None, ..a };
    the_chrome_follows_the_page(b.url_left());
}

/// A click on a tab's pill shows that tab and folds the bar away; a click on its close region, or with the
/// middle button, closes that tab.
#[verifier::rlimit(40)]
pub proof fn pills_are_for_their_tab(a: AppView, hits: Hits, now: u64, i: usize)
    requires
        quiet(a),
        a.chrome_open,
        hits.chrome,
        !hits.dot,
        a.host.wf(),
        i < a.host.tabs.len(),
        a.host.tabs.len() <= usize::MAX,
    ensures
        ({
            let drawn = AppView { rebuild: true, ..a };
            let left = a.button_handled(MouseButton::Left, ElementState::Pressed, hits, now);
            let middle = a.button_handled(MouseButton::Middle, ElementState::Pressed, hits, now);
            &&& hits.tab == Some((i, false)) ==> shows_tab(a, left.0, i as int)
                && !left.0.chrome_open && left.1 is None
            &&& hits.tab == Some((i, true)) ==> left == drawn.tab_closed(i as int)
            &&& hits.tab == Some((i, false)) || hits.tab == Some((i, true)) ==> middle
                == drawn.tab_closed(i as int)
        }),
{
    reveal(AppView::button_handled);
    reveal(AppView::plain_button);
    reveal(AppView::chrome_clicked);
    reveal(AppView::open_bar_clicked);
    let drawn = AppView { rebuild: true, ..a };
    switching_shows_the_tab(drawn, i as int);
    lemma_folded(drawn.tab_switched(i as int));
}

/// A click on a favorite's pill loads that favorite in the tab that is shown and folds the bar away; with
/// the middle button it opens in a new tab.
#[verifier::rlimit(40)]
pub proof fn favorites_lead_where_they_say(a: AppView, hits: Hits, now: u64, i: usize, u: UrlView)
    requires
        quiet(a),
        a.chrome_open,
        hits.chrome,
        !hits.dot,
        hits.tab is None,
        hits.favorite == Some(i),
        i < a.favs.len(),
        url_parse(a.favs[i as int].url) == Some(u),
        a.host.wf(),
        a.host.tabs.len() < usize::MAX,
    ensures
        ({
            let left = clicked(a, hits, now);
            let middle = a.button_handled(MouseButton::Middle, ElementState::Pressed, hits, now).0;
            &&& left.host.outbox == a.host.outbox.push(ActionView::Load(a.host.active, u.text))
            &&& left.host.tabs == a.host.tabs
            &&& left.host.active == a.host.active
            &&& !left.chrome_open
            &&& shows_new_tab(a, middle, u)
        }),
{
    reveal(AppView::button_handled);
    reveal(AppView::plain_button);
    reveal(AppView::chrome_clicked);
    reveal(AppView::open_bar_clicked);
    reveal(AppView::pill_clicked);
    let drawn = AppView { rebuild: true, ..a };
    lemma_visits(drawn, u);
}

proof fn lemma_visits(a: AppView, u: UrlView)
    requires
        a.host.wf(),
        a.host.tabs.len() < usize::MAX,
    ensures
        ({
            let here = a.visited(Some(u), false);
            &&& here.host.outbox == a.host.outbox.push(ActionView::Load(a.host.active, u.text))
            &&& here.host.tabs == a.host.tabs
            &&& here.host.active == a.host.active
            &&& !here.chrome_open
            &&& here.bm_menu is None
        }),
        shows_new_tab(a, a.visited(Some(u), true), u),
        a.visited(None, true) == a,
        a.visited(None, false) == a,
{
    reveal(AppView::visited);
    tabs_open_last(a, u);
    let b = AppView { bm_menu: None, ..a.loaded(u) };
    lemma_folded(b);
    the_chrome_follows_the_page(b.chrome_closed());
    reveal(AppView::page_synced);
    reveal(AppView::favorites_refreshed);
}

// ---------------------------------------------------------------------------------------------
// The bookmarks menu
// ---------------------------------------------------------------------------------------------

/// The bookmarks menu lists the bookmarks under their labels, the newest first.
pub proof fn the_menu_lists_the_bookmarks(a: AppView, k: int)
    requires
        0 <= k < a.pages.bookmarks.entries.len(),
    ensures
        ({
            let b = a.bm_menu_opened();
            let es = a.pages.bookmarks.entries;
            let e = es[es.len() - 1 - k];
            &&& b.bm_menu is Some
            &&& (b.bm_menu->0).items.len() == es.len()
            &&& (b.bm_menu->0).items[k].url == e.url
            &&& (b.bm_menu->0).items[k].label == label_of(e.url, e.title)
            &&& (b.bm_menu->0).scroll == 0
            &&& b.host == a.host
            &&& !b.url_focused
        }),
{
    reveal(AppView::bm_menu_opened);
    the_chrome_follows_the_page(a.url_left());
}

/// The browser after a button went down while the bookmarks menu was open, on a part of it.
pub open spec fn menu_clicked(
    a: AppView,
    button: MouseButton,
    hits: Hits,
    now: u64,
) -> AppView {
    a.button_handled(button, ElementState::Pressed, hits, now).0
}

/// In the bookmarks menu, a click on a bookmark loads it in the tab that is shown and closes the menu, and
/// with the middle button opens it in a new tab; a click on its remove region removes that bookmark and no
/// other; the last row opens the page of the bookmarks; and a click beside the menu closes it.
#[verifier::spinoff_prover]
#[verifier::rlimit(40)]
pub proof fn bookmarks_lead_where_they_say(
    a: AppView,
    hits: Hits,
    now: u64,
    i: usize,
    u: UrlView,
    e: EntryView,
)
    requires
        a.ctx_menu is None,
        a.modal is None,
        a.ac_menu is None,
        a.bm_menu is Some,
        i < (a.bm_menu->0).items.len(),
        url_parse((a.bm_menu->0).items[i as int].url) == Some(u),
        a.host.wf(),
        a.host.tabs.len() < usize::MAX,
    ensures
        ({
            let left = menu_clicked(a, MouseButton::Left, hits, now);
            let middle = menu_clicked(a, MouseButton::Middle, hits, now);
            let url = (a.bm_menu->0).items[i as int].url;
            &&& hits.bookmark == Some(BmHit::Entry(i, false)) ==> left.host.outbox
                == a.host.outbox.push(ActionView::Load(a.host.active, u.text)) && left.host.tabs
                == a.host.tabs && left.bm_menu is None && !left.chrome_open
            &&& hits.bookmark == Some(BmHit::Entry(i, false)) || hits.bookmark == Some(
                BmHit::Entry(i, true),
            ) ==> shows_new_tab(a, middle, u)
            &&& hits.bookmark == Some(BmHit::Entry(i, true)) ==> (
            left.pages.bookmarks.entries.contains(e) <==> a.pages.bookmarks.entries.contains(e)
                && e.url != url) && left.host == a.host && left.bm_menu is Some
            &&& hits.bookmark is None && !hits.bookmark_plate ==> left == (AppView {
                bm_menu: None,
                rebuild: true,
                ..a
            })
            &&& hits.bookmark is None && hits.bookmark_plate ==> left == (AppView {
                rebuild: true,
                ..a
            })
        }),
{
    reveal(AppView::button_handled);
    reveal(AppView::plain_button);
    reveal(AppView::bookmarks_clicked);
    reveal(AppView::bm_clicked);
    reveal(AppView::bm_dropped);
    reveal(AppView::bm_menu_refreshed);
    let drawn = AppView { rebuild: true, ..a };
    lemma_visits(drawn, u);
    lemma_entries_but(a.pages.bookmarks.entries, (a.bm_menu->0).items[i as int].url);
    assert(drawn.bm_parsed(i as int) == Some(u));
}

/// The first row of the bookmarks menu stars the page that is shown, or takes its star away; the last row
/// closes the menu and the bar, and opens the page of the bookmarks.
#[verifier::rlimit(40)]
pub proof fn the_other_rows_do_what_they_say(a: AppView, hits: Hits, now: u64)
    requires
        a.ctx_menu is None,
        a.modal is None,
        a.ac_menu is None,
        a.bm_menu is Some,
        a.host.wf(),
    ensures
        ({
            let left = menu_clicked(a, MouseButton::Left, hits, now);
            let url = a.host.tabs[a.host.active as int].url;
            &&& hits.bookmark == Some(BmHit::Toggle) && url is Some && (url->0).scheme != "cce"@ && (
            url->0).scheme != "about"@ ==> left.pages == a.bookmark_switched(now).pages && left.host
                == a.host && left.bm_menu is Some
            &&& hits.bookmark == Some(BmHit::Manage) ==> left == (AppView {
                bm_menu: None,
                rebuild: true,
                ..a
            }).chrome_closed().page_opened("cce://bookmarks"@)
        }),
{
    reveal(AppView::button_handled);
    reveal(AppView::plain_button);
    reveal(AppView::bookmarks_clicked);
    reveal(AppView::bm_clicked);
    reveal(AppView::bm_menu_refreshed);
    reveal(AppView::bookmark_switched);
    reveal(AppView::page_opened);
}

/// Turning the wheel up shows earlier rows of the bookmarks menu and turning it down later ones, one at a
/// time, and neither goes past the ends; the bookmarks stay.
pub proof fn the_wheel_scrolls_the_menu(m: BmView, cap: int)
    requires
        cap >= 0,
    ensures
        m.scroll > 0 && m.scroll - 1 + cap <= m.items.len() ==> m.scrolled(true, cap).scroll == m.scroll
            - 1,
        m.scroll == 0 ==> m.scrolled(true, cap).scroll == 0,
        m.scroll + 1 + cap <= m.items.len() && m.scroll < usize::MAX ==> m.scrolled(false, cap).scroll
            == m.scroll + 1,
        m.items.len() <= cap ==> m.scrolled(false, cap).scroll == 0,
        m.scrolled(true, cap).items == m.items,
        m.scrolled(false, cap).items == m.items,
{
}

/// The wheel over the page is the page's; over the plate of the bookmarks menu it scrolls that, up for up.
pub proof fn the_wheel_goes_where_the_pointer_is(a: AppView, hits: Hits, up: bool)
    ensures
        a.ac_menu is None && a.bm_menu is None && !hits.chrome ==> did(
            a,
            seq![ActionView::ForwardPointer(a.host.active)],
            a.wheel_handled(up, hits),
        ),
        a.ac_menu is None && a.bm_menu is None && hits.chrome ==> a.wheel_handled(up, hits) == a,
        a.ac_menu is None && a.bm_menu is Some && hits.bookmark_plate ==> a.wheel_handled(up, hits)
            == (AppView {
            bm_menu: Some((a.bm_menu->0).scrolled(up, hits.bookmark_rows as int)),
            rebuild: true,
            ..a
        }),
        a.ac_menu is None && a.bm_menu is Some && !hits.bookmark_plate ==> a.wheel_handled(up, hits)
            == a,
        a.ac_menu is Some && hits.account_plate ==> a.wheel_handled(up, hits) == a,
{
    reveal(AppView::wheel_handled);
    lemma_told(a, ActionView::ForwardPointer(a.host.active));
}

// ---------------------------------------------------------------------------------------------
// The page
// ---------------------------------------------------------------------------------------------

/// Over the page, the two side buttons go back and forward; any other button is the page's, and going down
/// it folds an open bar away. A move over the page is the page's too.
#[verifier::spinoff_prover]
#[verifier::rlimit(40)]
pub proof fn clicks_on_the_page_are_the_pages(
    a: AppView,
    button: MouseButton,
    state: ElementState,
    hits: Hits,
    now: u64,
)
    requires
        quiet(a),
        !hits.chrome,
    ensures
        ({
            let b = a.button_handled(button, state, hits, now).0;
            let down = state == ElementState::Pressed;
            let here = a.host.active;
            &&& down && button == MouseButton::Back ==> b.host.outbox == a.host.outbox.push(
                ActionView::Back(here),
            )
            &&& down && button == MouseButton::Forward ==> b.host.outbox == a.host.outbox.push(
                ActionView::Forward(here),
            )
            &&& !down || (button != MouseButton::Back && button != MouseButton::Forward)
                ==> b.host.outbox == a.host.outbox.push(ActionView::ForwardPointer(here))
            &&& down ==> !b.chrome_open
            &&& !down ==> b.chrome_open == a.chrome_open
            &&& b.host.tabs == a.host.tabs
            &&& b.host.active == here
        }),
{
    reveal(AppView::button_handled);
    reveal(AppView::plain_button);
    reveal(AppView::page_clicked);
    reveal(AppView::bar_folded);
    let drawn = AppView { rebuild: true, ..a };
    lemma_folded(drawn);
}

/// A move of the pointer over the page is the page's, and one over the chrome is not; the corner control and
/// the favorites' pills light up under the pointer.
pub proof fn moves_go_to_the_page(a: AppView, hits: Hits)
    requires
        quiet(a),
    ensures
        ({
            let b = a.move_handled(hits);
            &&& !hits.chrome ==> b.host.outbox == a.host.outbox.push(
                ActionView::ForwardPointer(a.host.active),
            )
            &&& hits.chrome ==> b.host == a.host
            &&& b.dot_hover == hits.dot
            &&& a.chrome_open && a.favs.len() > 0 ==> b.fav_hover == hits.favorite
            &&& !a.chrome_open ==> b.fav_hover is None
        }),
{
    reveal(AppView::move_handled);
    reveal(AppView::list_hovered);
    reveal(AppView::bar_hovered);
}

/// A click on a row of the account list asks for the password of the account in that row; a click beside
/// the list closes it, and goes on to what is there.
pub proof fn clicks_pick_an_account(a: AppView, hits: Hits, now: u64)
    requires
        a.modal is None,
        a.ctx_menu is None,
        a.ac_menu is Some,
    ensures
        ({
            let b = clicked(a, hits, now);
            let m = a.ac_menu->0;
            &&& hits.account is Some && hits.account->0 < m.shown.len() ==> b.host.outbox
                == a.host.outbox.push(ActionView::FetchSecret(m.shown[hits.account->0 as int].path))
            &&& hits.account is None ==> b == clicked(
                (AppView { ac_menu: None, rebuild: true, ..a }),
                hits,
                now,
            )
        }),
{
    reveal(AppView::button_handled);
    reveal(AppView::account_picked);
}

/// A click on an item of the right-click menu chooses that item; any other click sends the menu away, and
/// does nothing else.
pub proof fn clicks_choose_an_item(a: AppView, button: MouseButton, hits: Hits, now: u64)
    requires
        a.modal is None,
        a.ctx_menu is Some,
    ensures
        ({
            let b = a.button_handled(button, ElementState::Pressed, hits, now).0;
            &&& button == MouseButton::Left && hits.item is Some ==> b == (AppView {
                rebuild: true,
                ..a
            }).ctx_chosen(hits.item->0 as int, now)
            &&& button != MouseButton::Left || hits.item is None ==> b == (AppView {
                ctx_menu: None,
                rebuild: true,
                ..a
            })
        }),
{
    reveal(AppView::button_handled);
    reveal(AppView::item_clicked);
}

/// Over the chrome, only the left and the middle button do anything, and only going down.
pub proof fn other_buttons_do_nothing_on_the_chrome(
    a: AppView,
    button: MouseButton,
    state: ElementState,
    hits: Hits,
    now: u64,
)
    requires
        quiet(a),
        hits.chrome,
        state != ElementState::Pressed || (button != MouseButton::Left && button
            != MouseButton::Middle),
    ensures
        a.button_handled(button, state, hits, now) == (a, None::<crate::message::MessageView>),
{
    reveal(AppView::button_handled);
    reveal(AppView::plain_button);
}

/// The row of an open list or menu that the pointer is on is the one that lights up; while the right-click menu is
/// open, the page sees no move.
pub proof fn rows_light_up_under_the_pointer(a: AppView, hits: Hits)
    ensures
        a.ctx_menu is Some ==> a.move_handled(hits) == (AppView { rebuild: true, ..a }),
        a.ctx_menu is None && a.ac_menu is Some && hits.account is Some ==> a.move_handled(hits).host
            == a.host && a.move_handled(hits).ac_menu is Some && (a.move_handled(hits).ac_menu->0).hover
            == hits.account && (a.move_handled(hits).ac_menu->0).shown == (a.ac_menu->0).shown,
        a.ctx_menu is None && a.ac_menu is None && a.bm_menu is Some ==> a.move_handled(hits).host == a.host
            && a.move_handled(hits).bm_menu is Some && (a.move_handled(hits).bm_menu->0).hover
            == hits.bookmark && (a.move_handled(hits).bm_menu->0).items == (a.bm_menu->0).items,
{
    reveal(AppView::move_handled);
    reveal(AppView::list_hovered);
    reveal(AppView::menu_hovered);
}

/// A menu that is read again lists what the store holds now, scrolled no further than it goes.
pub proof fn menus_are_read_again(m: BmView, items: Seq<FavoriteView>, cap: int)
    requires
        cap >= 0,
    ensures
        m.refreshed(items, cap).items == items,
        m.refreshed(items, cap).hover is None,
        m.scroll + cap <= items.len() ==> m.refreshed(items, cap).scroll == m.scroll,
        items.len() <= cap ==> m.refreshed(items, cap).scroll == 0,
{
}

/// A page can be saved where it is neither one of the browser's own nor blank.
pub proof fn pages_can_be_saved(a: AppView)
    ensures
        a.saveable() <==> (a.host.tabs[a.host.active as int].url is Some && (
        a.host.tabs[a.host.active as int].url->0).scheme != "cce"@ && (
        a.host.tabs[a.host.active as int].url->0).scheme != "about"@),
        a.host.tabs[a.host.active as int].url is Some ==> a.page_host() == (
        a.host.tabs[a.host.active as int].url->0).host,
{
}

/// While the bar is folded away nothing of it but the corner control can be clicked, and the corner control only with
/// the left button.
pub proof fn folded_bars_cannot_be_clicked(a: AppView, button: MouseButton, hits: Hits, now: u64)
    requires
        quiet(a),
        hits.chrome,
    ensures
        !a.chrome_open && !hits.dot && (button == MouseButton::Left || button == MouseButton::Middle)
            ==> a.button_handled(button, ElementState::Pressed, hits, now).0 == (AppView {
            rebuild: true,
            ..a
        }),
        hits.dot && button == MouseButton::Middle ==> a.button_handled(
            button,
            ElementState::Pressed,
            hits,
            now,
        ).0 == (AppView { rebuild: true, ..a }),
{
    reveal(AppView::button_handled);
    reveal(AppView::plain_button);
    reveal(AppView::chrome_clicked);
    reveal(AppView::dot_clicked);
}

} // verus!
