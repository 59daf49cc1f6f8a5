//! What is on screen: the pills, the rows, the fields and the window's title.

use vstd::prelude::*;

use crate::browser::scene::{
    bm_scene, ctx_lit, field_scene_views, list_row_views, list_rows, modal_fields, pill_views,
    BmScene, FieldScene, ListRow, Pill,
};
use crate::browser::state::BrowserApp;
use crate::labels::pill_text;
use crate::menus::{bm_window_of, AcMenu, AcView, BmHit, BmMenu, CtxMenu};
use crate::modal::Modal;
use crate::numerals::decimal;
use crate::store::has_entry;
use crate::weburl::UrlView;

verus! {

/// A tab is called by the title of its page, else by its address, and `New Tab` where it is blank.
pub proof fn tabs_are_called_by_their_page(title: Seq<char>, u: UrlView)
    ensures
        title.len() > 0 && title != "about:blank"@ ==> pill_text(Some(title), Some(u)) == title,
        title.len() == 0 && u.text != "about:blank"@ ==> pill_text(Some(title), Some(u)) == u.text,
        u.text != "about:blank"@ ==> pill_text(None, Some(u)) == u.text,
        u.text == "about:blank"@ ==> pill_text(None, Some(u)) == "New Tab"@,
        pill_text(None, None) == "New Tab"@,
{
}

/// There is a pill for every tab, in order, under what the tab is called; the one of the tab that is shown is lit,
/// and those of tabs that load say so.
pub proof fn pills_show_the_tabs(a: BrowserApp, r: Vec<Pill>, i: int)
    requires
        call_ensures(BrowserApp::tab_pills, (&a,), r),
        0 <= i < a.host.tabs@.len(),
    ensures
        r@.len() == a.host.tabs@.len(),
        r@[i].label@ == pill_text(a@.host.tabs[i].title, a@.host.tabs[i].url),
        r@[i].lit <==> i == a.host.active,
        r@[i].loading == a@.host.tabs[i].loading,
{
    assert(pill_views(r@).len() == r@.len());
    assert(pill_views(r@)[i] == r@[i]@);
}

/// There is a pill for every favorite, in order, under its label; the one under the pointer is lit.
pub proof fn pills_show_the_favorites(a: BrowserApp, r: Vec<Pill>, i: int)
    requires
        call_ensures(BrowserApp::favorite_pills, (&a,), r),
        0 <= i < a.favs@.len(),
        a.favs@.len() <= usize::MAX,
    ensures
        r@.len() == a.favs@.len(),
        r@[i].label@ == a.favs@[i].label@,
        r@[i].lit <==> a.fav_hover == Some(i as usize),
        !r@[i].loading,
{
    assert(pill_views(r@).len() == r@.len());
    assert(pill_views(r@)[i] == r@[i]@);
    assert(a@.favs[i] == a.favs@[i]@);
}

/// The window is called by the page's title, and `Browser` where there is none; the star is lit for a page that is
/// bookmarked; and the corner control is lit under the pointer or while the bar is out.
pub proof fn the_window_shows_the_page(a: BrowserApp, title: String, starred: bool, lit: bool)
    requires
        a.wf(),
        call_ensures(BrowserApp::window_title, (&a,), title),
        call_ensures(BrowserApp::starred, (&a,), starred),
        call_ensures(BrowserApp::dot_lit, (&a,), lit),
    ensures
        a.title is Some ==> title@ == (a.title->0)@,
        a.title is None ==> title@ == "Browser"@,
        starred <==> (a@.host.tabs[a@.host.active as int].url is Some && has_entry(
            a@.pages.bookmarks.entries,
            (a@.host.tabs[a@.host.active as int].url->0).text,
        )),
        lit <==> a.dot_hover || a.chrome_open,
{
}

/// The bookmarks menu shows the bookmarks from where it is scrolled to, in order, as many as it has room for; its
/// first row says whether the page is starred, and its last how many bookmarks there are.
pub proof fn the_menu_shows_the_bookmarks(
    m: BmMenu,
    cap: usize,
    saved: bool,
    saveable: bool,
    r: BmScene,
    k: int,
)
    requires
        call_ensures(bm_scene, (&m, cap, saved, saveable), r),
        cap >= 1,
        m.items@.len() <= usize::MAX,
        m.scroll + cap <= m.items@.len(),
        0 <= k < cap,
    ensures
        r.rows@.len() == cap,
        r.rows@[k].index == m.scroll + k,
        r.rows@[k].label@ == m.items@[m.scroll + k].label@,
        r.rows@[k].hovered <==> m.hover == Some(BmHit::Entry((m.scroll + k) as usize, true)) || m.hover
            == Some(BmHit::Entry((m.scroll + k) as usize, false)),
        r.rows@[k].on_remove <==> m.hover == Some(BmHit::Entry((m.scroll + k) as usize, true)),
        saved ==> r.toggle@ == "Remove Bookmark"@,
        !saved ==> r.toggle@ == "Bookmark This Page"@,
        r.toggle_live <==> saved || saveable,
        r.manage@ == "Manage Bookmarks ("@ + decimal(m.items@.len()) + ")"@,
        !r.empty,
        r.toggle_lit <==> m.hover == Some(BmHit::Toggle) && (saved || saveable),
        r.manage_lit <==> m.hover == Some(BmHit::Manage),
        m.items@.len() > cap ==> r.thumb == Some((m.scroll, cap, m.items@.len() as usize)),
        m.items@.len() == cap ==> r.thumb is None,
{
    let views = crate::browser::scene::bm_row_views(r.rows@);
    assert(views.len() == r.rows@.len());
    assert(views[k] == r.rows@[k]@);
    assert(m@.items[m.scroll + k] == m.items@[m.scroll + k]@);
}

/// A field of a prompt shows what was typed into it, or what it is for where that is nothing; a password's field
/// shows none of it.
pub proof fn fields_show_what_was_typed(m: Modal, r: Vec<FieldScene>, i: int)
    requires
        m.wf(),
        call_ensures(modal_fields, (&m,), r),
        0 <= i < m.fields@.len(),
    ensures
        ({
            let f = m.fields@[i];
            &&& r@.len() == m.fields@.len()
            &&& r@[i].focused <==> i == m.focused
            &&& f.edit.text@.len() > 0 && !f.edit.masked ==> r@[i].text@ == f.edit.text@ && !r@[i].hint
            &&& f.edit.text@.len() > 0 && f.edit.masked ==> r@[i].text@.len() == f.edit.text@.len()
                && !r@[i].hint && forall|k: int|
                0 <= k < r@[i].text@.len() ==> #[trigger] r@[i].text@[k] == '\u{2022}'
            &&& f.edit.text@.len() == 0 && f.label@.len() > 0 ==> r@[i].text@ == f.label@ && r@[i].hint
        }),
{
    let views = field_scene_views(r@);
    assert(views.len() == r@.len());
    assert(views[i] == r@[i]@);
    assert(m@.fields[i] == m.fields@[i]@);
}

/// The account list shows at most six accounts, in order from where it is scrolled to, each with its two lines, and
/// marks the one that is selected.
pub proof fn the_list_shows_the_accounts(m: AcMenu, r: Vec<ListRow>, k: int)
    requires
        call_ensures(list_rows, (&m,), r),
        m.scroll + 6 <= m.shown@.len(),
        0 <= k < 6,
    ensures
        r@.len() == 6,
        (r@[k].first@, r@[k].second@) == crate::menus::account_rows(m.shown@[m.scroll + k]@),
        m.hover is None ==> (r@[k].picked <==> m.scroll + k == m.selected),
{
    let views = list_row_views(r@);
    assert(views.len() == r@.len());
    assert(views[k] == r@[k]@);
    assert(m@.shown[m.scroll + k] == m.shown@[m.scroll + k]@);
}

/// A list of no more than six accounts is shown whole.
pub proof fn short_lists_are_shown_whole(m: AcMenu, r: Vec<ListRow>, k: int)
    requires
        call_ensures(list_rows, (&m,), r),
        m.shown@.len() <= 6,
        0 <= k < m.shown@.len(),
    ensures
        r@.len() == m.shown@.len(),
        (r@[k].first@, r@[k].second@) == crate::menus::account_rows(m.shown@[k]@),
{
    let views = list_row_views(r@);
    assert(views.len() == r@.len());
    assert(views[k] == r@[k]@);
    assert(m@.shown[k] == m.shown@[k]@);
}

/// The item of the right-click menu under the pointer is lit, where it does anything, and no other.
pub proof fn one_item_is_lit(m: CtxMenu, hovered: Option<usize>, r: Vec<bool>, i: int)
    requires
        call_ensures(ctx_lit, (&m, hovered), r),
        0 <= i < m.items@.len(),
        m.items@.len() <= usize::MAX,
    ensures
        r@.len() == m.items@.len(),
        r@[i] <==> hovered == Some(i as usize) && m.items@[i].enabled,
{
    assert(m@[i] == m.items@[i]@);
}

/// What a plate with room for so many bookmarks shows: all of them where they fit, and else as many as fit, never
/// past the last.
pub proof fn plates_show_what_fits(n: int, scroll: int, cap: int)
    requires
        0 <= n,
        0 <= scroll,
        1 <= cap,
    ensures
        n <= cap ==> bm_window_of(n, scroll, cap) == (0int, n),
        n > cap && scroll <= n - cap ==> bm_window_of(n, scroll, cap) == (scroll, cap),
        n > cap && scroll > n - cap ==> bm_window_of(n, scroll, cap) == (n - cap, cap),
{
}

/// The selection stays on the list when it is narrowed, and on screen.
pub proof fn the_selection_stays_on_the_list(m: AcView, typed: Seq<char>)
    requires
        0 <= m.selected,
        0 <= m.scroll,
    ensures
        ({
            let n = m.refiltered(typed);
            &&& n.shown.len() > 0 && m.selected < n.shown.len() ==> n.selected == m.selected
            &&& n.shown.len() > 0 && m.selected >= n.shown.len() ==> n.selected == n.shown.len() - 1
            &&& n.shown.len() > 0 ==> n.scroll <= n.selected < n.scroll + 6
        }),
{
}

} // verus!
