//! What the chrome shows: its texts, and what of it is lit, live or dimmed. Where things stand and how
//! they are painted is for whoever draws.

use vstd::prelude::*;

use crate::browser::state::{AppView, BrowserApp};
use crate::labels::{pill_text, tab_label};
use crate::lineedit::shown;
use crate::menus::{
    ac_rows, account_lines, account_rows, bm_window, bm_window_of, AcMenu, AcView, BmHit, BmMenu,
    BmView, CtxItemView, CtxMenu, AC_MAX_ROWS,
};
use crate::modal::{FieldView, Modal, ModalView};
use crate::numerals::{decimal, to_decimal};
use crate::wpe::host::HostView;

verus! {

// ---------------------------------------------------------------------------------------------
// Pills
// ---------------------------------------------------------------------------------------------

/// A pill of the tab strip or of the favorites strip.
#[derive(Debug)]
pub struct Pill {
    pub label: String,
    /// It is the tab that is shown, or the pointer is on it.
    pub lit: bool,
    pub loading: bool,
}

/// What a pill is.
#[verifier::ext_equal]
pub struct PillView {
    pub label: Seq<char>,
    pub lit: bool,
    pub loading: bool,
}

impl View for Pill {
    type V = PillView;

    open spec fn view(&self) -> PillView {
        PillView { label: self.label@, lit: self.lit, loading: self.loading }
    }
}

/// What each pill is.
pub open spec fn pill_views(v: Seq<Pill>) -> Seq<PillView> {
    v.map_values(|p: Pill| p@)
}

/// The tab strip: what each page is called, the one that is shown, and those that load.
pub open spec fn tab_strip(h: HostView) -> Seq<PillView> {
    Seq::new(
        h.tabs.len(),
        |i: int|
            PillView {
                label: pill_text(h.tabs[i].title, h.tabs[i].url),
                lit: i == h.active,
                loading: h.tabs[i].loading,
            },
    )
}

impl AppView {
    /// The favorites strip, with the pill that the pointer is on.
    pub open spec fn favorite_strip(self) -> Seq<PillView> {
        Seq::new(
            self.favs.len(),
            |i: int|
                PillView {
                    label: self.favs[i].label,
                    lit: self.fav_hover == Some(i as usize),
                    loading: false,
                },
        )
    }
}

// ---------------------------------------------------------------------------------------------
// The bookmarks menu
// ---------------------------------------------------------------------------------------------

/// A bookmark's row.
#[derive(Debug)]
pub struct BmRow {
    /// The bookmark.
    pub index: usize,
    pub label: String,
    /// The pointer is on the row, or on its remove region.
    pub hovered: bool,
    pub on_remove: bool,
}

/// What a row is.
#[verifier::ext_equal]
pub struct BmRowView {
    pub index: usize,
    pub label: Seq<char>,
    pub hovered: bool,
    pub on_remove: bool,
}

impl View for BmRow {
    type V = BmRowView;

    open spec fn view(&self) -> BmRowView {
        BmRowView {
            index: self.index,
            label: self.label@,
            hovered: self.hovered,
            on_remove: self.on_remove,
        }
    }
}

/// What each row is.
pub open spec fn bm_row_views(v: Seq<BmRow>) -> Seq<BmRowView> {
    v.map_values(|r: BmRow| r@)
}

/// Whether the pointer is on a bookmark.
pub open spec fn on_entry(hover: Option<BmHit>, i: usize) -> bool {
    hover == Some(BmHit::Entry(i, true)) || hover == Some(BmHit::Entry(i, false))
}

impl BmView {
    /// The rows that a plate with room for `cap` shows.
    pub open spec fn rows(self, cap: int) -> Seq<BmRowView> {
        let (first, count) = bm_window_of(self.items.len() as int, self.scroll as int, cap);
        Seq::new(
            count as nat,
            |k: int|
                BmRowView {
                    index: (first + k) as usize,
                    label: self.items[first + k].label,
                    hovered: on_entry(self.hover, (first + k) as usize),
                    on_remove: self.hover == Some(BmHit::Entry((first + k) as usize, true)),
                },
        )
    }
}

/// The text of the row that leads to the whole collection.
pub open spec fn manage_text(n: nat) -> Seq<char> {
    "Manage Bookmarks ("@ + decimal(n) + ")"@
}

/// What the bookmarks menu shows.
#[derive(Debug)]
pub struct BmScene {
    /// The row for the page that is shown: its text, whether it does anything, and whether it is lit.
    pub toggle: &'static str,
    pub toggle_live: bool,
    pub toggle_lit: bool,
    pub rows: Vec<BmRow>,
    /// There is nothing to list.
    pub empty: bool,
    pub manage: String,
    pub manage_lit: bool,
    /// Of a list that is longer than its plate: the first bookmark, the rows, and the bookmarks.
    pub thumb: Option<(usize, usize, usize)>,
}

/// What the row for the page that is shown says.
pub open spec fn toggle_text(saved: bool) -> Seq<char> {
    if saved {
        "Remove Bookmark"@
    } else {
        "Bookmark This Page"@
    }
}

impl BmScene {
    /// Whether this is what a menu shows, for a page that is bookmarked or not, and can be saved or
    /// not.
    pub open spec fn shows(self, m: BmView, cap: int, saved: bool, saveable: bool) -> bool {
        &&& self.toggle@ == toggle_text(saved)
        &&& self.toggle_live == (saved || saveable)
        &&& self.toggle_lit == (m.hover == Some(BmHit::Toggle) && (saved || saveable))
        &&& bm_row_views(self.rows@) == m.rows(cap)
        &&& self.empty == (m.items.len() == 0)
        &&& self.manage@ == manage_text(m.items.len())
        &&& self.manage_lit == (m.hover == Some(BmHit::Manage))
        &&& self.thumb == (if m.rows(cap).len() > 0 && m.items.len() > m.rows(cap).len() {
            Some((m.scroll, m.rows(cap).len() as usize, m.items.len() as usize))
        } else {
            None
        })
    }
}

fn entry_hit(hover: Option<BmHit>, i: usize) -> (r: (bool, bool))
    ensures
        r.0 == on_entry(hover, i),
        r.1 == (hover == Some(BmHit::Entry(i, true))),
{
    match hover {
        Some(BmHit::Entry(h, remove)) => (h == i, h == i && remove),
        _ => (false, false),
    }
}

fn bm_rows(m: &BmMenu, cap: usize) -> (r: Vec<BmRow>)
    requires
        cap >= 1,
    ensures
        bm_row_views(r@) == m@.rows(cap as int),
{
    let (first, count) = bm_window(m.items.len(), m.scroll, cap);
    let ghost goal = m@.rows(cap as int);
    let mut out: Vec<BmRow> = Vec::new();
    let mut k: usize = 0;
    while k < count
        invariant
            k <= count,
            first + count <= m.items.len(),
            (first as int, count as int) == bm_window_of(
                m@.items.len() as int,
                m.scroll as int,
                cap as int,
            ),
            goal == m@.rows(cap as int),
            out.len() == k,
            forall|j: int| 0 <= j < k ==> (#[trigger] out@[j])@ == goal[j],
        decreases count - k,
    {
        let i = first + k;
        let (hovered, on_remove) = entry_hit(m.hover, i);
        let row = BmRow { index: i, label: m.items[i].label.clone(), hovered, on_remove };
        proof {
            assert(m@.items[i as int] == m.items@[i as int]@);
            assert(row@ == goal[k as int]);
        }
        out.push(row);
        k += 1;
    }
    assert(bm_row_views(out@) =~= goal);
    out
}

/// What the bookmarks menu shows, on a plate with room for `cap` bookmarks.
pub fn bm_scene(m: &BmMenu, cap: usize, saved: bool, saveable: bool) -> (r: BmScene)
    requires
        cap >= 1,
    ensures
        r.shows(m@, cap as int, saved, saveable),
{
    let rows = bm_rows(m, cap);
    let n = m.items.len();
    let on_toggle = match m.hover {
        Some(BmHit::Toggle) => true,
        _ => false,
    };
    let on_manage = match m.hover {
        Some(BmHit::Manage) => true,
        _ => false,
    };
    let mut manage = "Manage Bookmarks (".to_owned();
    let number = to_decimal(n as u64);
    manage.append(number.as_str());
    manage.append(")");
    proof {
        assert(bm_row_views(rows@).len() == rows@.len());
    }
    let thumb = if rows.len() > 0 && n > rows.len() {
        Some((m.scroll, rows.len(), n))
    } else {
        None
    };
    BmScene {
        toggle: if saved {
            "Remove Bookmark"
        } else {
            "Bookmark This Page"
        },
        toggle_live: saved || saveable,
        toggle_lit: on_toggle && (saved || saveable),
        rows,
        empty: n == 0,
        manage,
        manage_lit: on_manage,
        thumb,
    }
}

// ---------------------------------------------------------------------------------------------
// Prompts
// ---------------------------------------------------------------------------------------------

/// What a field of a prompt shows.
#[derive(Debug)]
pub struct FieldScene {
    pub text: String,
    /// The text is what the field is for: nothing was typed into it.
    pub hint: bool,
    pub focused: bool,
}

/// What a field shows.
#[verifier::ext_equal]
pub struct FieldSceneView {
    pub text: Seq<char>,
    pub hint: bool,
    pub focused: bool,
}

impl View for FieldScene {
    type V = FieldSceneView;

    open spec fn view(&self) -> FieldSceneView {
        FieldSceneView { text: self.text@, hint: self.hint, focused: self.focused }
    }
}

/// What each field shows.
pub open spec fn field_scene_views(v: Seq<FieldScene>) -> Seq<FieldSceneView> {
    v.map_values(|f: FieldScene| f@)
}

/// What a field shows: its text, masked where it is a password, or what it is for where it is empty.
pub open spec fn field_shows(f: FieldView, focused: bool) -> FieldSceneView {
    let hint = shown(f.edit).len() == 0 && f.label.len() > 0;
    FieldSceneView {
        text: if hint {
            f.label
        } else {
            shown(f.edit)
        },
        hint,
        focused,
    }
}

impl ModalView {
    /// What the fields of a prompt show.
    pub open spec fn field_scenes(self) -> Seq<FieldSceneView> {
        Seq::new(self.fields.len(), |i: int| field_shows(self.fields[i], i == self.focused))
    }
}

/// What the fields of a prompt show.
pub fn modal_fields(m: &Modal) -> (r: Vec<FieldScene>)
    requires
        m.wf(),
    ensures
        field_scene_views(r@) == m@.field_scenes(),
{
    let ghost goal = m@.field_scenes();
    let mut out: Vec<FieldScene> = Vec::new();
    let mut i: usize = 0;
    while i < m.fields.len()
        invariant
            i <= m.fields.len(),
            m.wf(),
            goal == m@.field_scenes(),
            out.len() == i,
            forall|j: int| 0 <= j < i ==> (#[trigger] out@[j])@ == goal[j],
        decreases m.fields.len() - i,
    {
        let f = &m.fields[i];
        assert(m@.fields[i as int] == f@);
        let text = f.edit.display();
        let hint = text.as_str().is_empty() && !f.label.as_str().is_empty();
        let scene = FieldScene {
            text: if hint {
                f.label.clone()
            } else {
                text
            },
            hint,
            focused: i == m.focused,
        };
        assert(scene@ == goal[i as int]);
        out.push(scene);
        i += 1;
    }
    assert(field_scene_views(out@) =~= goal);
    out
}

// ---------------------------------------------------------------------------------------------
// The account list
// ---------------------------------------------------------------------------------------------

/// An account's row.
#[derive(Debug)]
pub struct ListRow {
    pub first: String,
    pub second: String,
    /// The keyboard's selection or the pointer is on it.
    pub picked: bool,
}

/// What a row is.
#[verifier::ext_equal]
pub struct ListRowView {
    pub first: Seq<char>,
    pub second: Seq<char>,
    pub picked: bool,
}

impl View for ListRow {
    type V = ListRowView;

    open spec fn view(&self) -> ListRowView {
        ListRowView { first: self.first@, second: self.second@, picked: self.picked }
    }
}

/// What each row is.
pub open spec fn list_row_views(v: Seq<ListRow>) -> Seq<ListRowView> {
    v.map_values(|r: ListRow| r@)
}

impl AcView {
    /// The rows that are visible.
    pub open spec fn visible(self) -> Seq<ListRowView> {
        let first = self.first_row();
        Seq::new(
            ac_rows(self.shown.len() as int) as nat,
            |k: int|
                ListRowView {
                    first: account_rows(self.shown[first + k]).0,
                    second: account_rows(self.shown[first + k]).1,
                    picked: first + k == self.selected || self.hover == Some((first + k) as usize),
                },
        )
    }
}

/// The rows of the account list that are visible.
pub fn list_rows(m: &AcMenu) -> (r: Vec<ListRow>)
    ensures
        list_row_views(r@) == m@.visible(),
{
    let ghost goal = m@.visible();
    let n = m.shown.len();
    let count = if n < AC_MAX_ROWS {
        n
    } else {
        AC_MAX_ROWS
    };
    let first = m.first_row();
    let mut out: Vec<ListRow> = Vec::new();
    let mut k: usize = 0;
    while k < count
        invariant
            k <= count,
            count == ac_rows(m@.shown.len() as int),
            first == m@.first_row(),
            n == m@.shown.len(),
            first + count <= n,
            goal == m@.visible(),
            out.len() == k,
            forall|j: int| 0 <= j < k ==> (#[trigger] out@[j])@ == goal[j],
        decreases count - k,
    {
        let i = first + k;
        assert(m@.shown[i as int] == m.shown@[i as int]@);
        let (one, two) = account_lines(&m.shown[i]);
        let hovered = match m.hover {
            Some(h) => h == i,
            None => false,
        };
        let row = ListRow { first: one, second: two, picked: i == m.selected || hovered };
        assert(row@ == goal[k as int]);
        out.push(row);
        k += 1;
    }
    assert(list_row_views(out@) =~= goal);
    out
}

// ---------------------------------------------------------------------------------------------
// The right-click menu
// ---------------------------------------------------------------------------------------------

/// Which items of the right-click menu are lit: the one under the pointer, where it does anything.
pub open spec fn items_lit(items: Seq<CtxItemView>, hovered: Option<usize>) -> Seq<bool> {
    Seq::new(items.len(), |i: int| hovered == Some(i as usize) && items[i].enabled)
}

/// See [`items_lit`].
pub fn ctx_lit(menu: &CtxMenu, hovered: Option<usize>) -> (r: Vec<bool>)
    ensures
        r@ == items_lit(menu@, hovered),
{
    let ghost goal = items_lit(menu@, hovered);
    let mut out: Vec<bool> = Vec::new();
    let mut i: usize = 0;
    while i < menu.items.len()
        invariant
            i <= menu.items.len(),
            goal == items_lit(menu@, hovered),
            out.len() == i,
            forall|j: int| 0 <= j < i ==> #[trigger] out@[j] == goal[j],
        decreases menu.items.len() - i,
    {
        assert(menu@[i as int] == menu.items@[i as int]@);
        let here = match hovered {
            Some(h) => h == i,
            None => false,
        };
        out.push(here && menu.items[i].enabled);
        i += 1;
    }
    assert(out@ =~= goal);
    out
}

// ---------------------------------------------------------------------------------------------
// The window and the bar
// ---------------------------------------------------------------------------------------------

impl AppView {
    /// The window's title.
    pub open spec fn window_title(self) -> Seq<char> {
        match self.title {
            Some(t) => t,
            None => "Browser"@,
        }
    }
}

impl BrowserApp {
    /// The window's title.
    pub fn window_title(&self) -> (r: String)
        ensures
            r@ == self@.window_title(),
    {
        match &self.title {
            Some(t) => t.clone(),
            None => "Browser".to_owned(),
        }
    }

    /// The tab strip.
    pub fn tab_pills(&self) -> (r: Vec<Pill>)
        ensures
            pill_views(r@) == tab_strip(self@.host),
    {
        let ghost goal = tab_strip(self@.host);
        let n = self.host.tab_count();
        let active = self.host.active_index();
        let mut out: Vec<Pill> = Vec::new();
        let mut i: usize = 0;
        while i < n
            invariant
                i <= n,
                n == self@.host.tabs.len(),
                active == self@.host.active,
                goal == tab_strip(self@.host),
                out.len() == i,
                forall|j: int| 0 <= j < i ==> (#[trigger] out@[j])@ == goal[j],
            decreases n - i,
        {
            if let Some(t) = self.host.tab(i) {
                let pill = Pill {
                    label: tab_label(&t.title, &t.url),
                    lit: i == active,
                    loading: t.loading,
                };
                assert(pill@ == goal[i as int]);
                out.push(pill);
            }
            i += 1;
        }
        assert(pill_views(out@) =~= goal);
        out
    }

    /// The favorites strip.
    pub fn favorite_pills(&self) -> (r: Vec<Pill>)
        ensures
            pill_views(r@) == self@.favorite_strip(),
    {
        let ghost goal = self@.favorite_strip();
        let mut out: Vec<Pill> = Vec::new();
        let mut i: usize = 0;
        while i < self.favs.len()
            invariant
                i <= self.favs.len(),
                goal == self@.favorite_strip(),
                out.len() == i,
                forall|j: int| 0 <= j < i ==> (#[trigger] out@[j])@ == goal[j],
            decreases self.favs.len() - i,
        {
            assert(self@.favs[i as int] == self.favs@[i as int]@);
            let lit = match self.fav_hover {
                Some(h) => h == i,
                None => false,
            };
            let pill = Pill { label: self.favs[i].label.clone(), lit, loading: false };
            assert(pill@ == goal[i as int]);
            out.push(pill);
            i += 1;
        }
        assert(pill_views(out@) =~= goal);
        out
    }

    /// Whether the star is lit: the page that is shown is bookmarked.
    pub fn starred(&self) -> (r: bool)
        requires
            self.wf(),
        ensures
            r == self@.host.listed(self@.pages.bookmarks),
    {
        self.host.active_bookmarked(&self.pages.bookmarks)
    }

    /// Whether the corner control is emphasized: the pointer is on it, or the bar is out.
    pub fn dot_lit(&self) -> (r: bool)
        ensures
            r == (self@.dot_hover || self@.chrome_open),
    {
        self.dot_hover || self.chrome_open
    }

    /// Where the caret of the address bar is drawn: nowhere, unless the bar has the focus.
    pub fn caret(&self) -> (r: Option<usize>)
        ensures
            r == (if self@.url_focused {
                Some(self.url.cursor)
            } else {
                None
            }),
    {
        if self.url_focused {
            Some(self.url.cursor)
        } else {
            None
        }
    }

    /// What the bookmarks menu shows, where it is open.
    pub fn bookmarks_scene(&self, cap: usize) -> (r: Option<BmScene>)
        requires
            self.wf(),
            cap >= 1,
        ensures
            r is Some == self@.bm_menu is Some,
            r matches Some(scene) ==> scene.shows(
                self@.bm_menu->0,
                cap as int,
                self@.host.listed(self@.pages.bookmarks),
                self@.saveable(),
            ),
    {
        match &self.bm_menu {
            Some(m) => Some(bm_scene(m, cap, self.starred(), self.saveable())),
            None => None,
        }
    }
}

// ---------------------------------------------------------------------------------------------
// Laws
// ---------------------------------------------------------------------------------------------

/// Exactly one pill of the tab strip is lit.
pub proof fn one_tab_is_lit(h: HostView, i: int)
    requires
        h.wf(),
        0 <= i < h.tabs.len(),
    ensures
        tab_strip(h).len() == h.tabs.len(),
        tab_strip(h)[i].lit <==> i == h.active,
{
}

/// A masked field never shows its text: what is drawn is the same for every text of that length, and
/// a text that is not empty is never taken for the hint.
pub proof fn passwords_are_not_drawn(a: FieldView, b: FieldView, focused: bool)
    requires
        a.label == b.label,
        a.edit.masked,
        b.edit.masked,
        a.edit.text.len() == b.edit.text.len(),
    ensures
        field_shows(a, focused) == field_shows(b, focused),
        a.edit.text.len() > 0 ==> !field_shows(a, focused).hint,
{
    crate::lineedit::masked_shows_length_alone(a.edit, b.edit);
}

/// Every row of the bookmarks menu is a bookmark of the list, and the rows follow one another.
pub proof fn rows_are_bookmarks(m: BmView, cap: int, k: int)
    requires
        cap >= 1,
        m.items.len() <= usize::MAX,
        0 <= k < m.rows(cap).len(),
    ensures
        m.rows(cap).len() <= cap,
        m.rows(cap)[k].index < m.items.len(),
        m.rows(cap)[k].index == m.rows(cap)[0].index + k,
        m.rows(cap)[k].label == m.items[m.rows(cap)[k].index as int].label,
{
}

/// After the list is narrowed or the selection moved, the keyboard's selection is among the rows that
/// are drawn, and is picked there.
pub proof fn selection_is_drawn(m: AcView, typed: Seq<char>, delta: int)
    requires
        m.wf(),
    ensures
        m.refiltered(typed).shown.len() > 0 ==> {
            let r = m.refiltered(typed);
            let k = r.selected - r.first_row();
            0 <= k < r.visible().len() && r.visible()[k].picked
        },
        m.shown.len() > 0 ==> {
            let r = m.stepped(delta);
            let k = r.selected - r.first_row();
            0 <= k < r.visible().len() && r.visible()[k].picked
        },
{
    crate::menus::selection_is_visible(m, typed, delta);
}

} // verus!
