//! The chrome's menus: accounts at a login field, bookmarks at their button, and the one at the
//! pointer.

use vstd::prelude::*;

use crate::accounts::{account_views, Account, AccountView};
use crate::pages::{favorite_views, Favorite, FavoriteView};
use crate::text::{contains, has_sub, lowercase, to_lower, trim, trimmed};
use crate::weburl::view_opt;
use crate::wpe::formwatch::Place;
use crate::wpe::host::{ContextMenuInfo, ContextView};

verus! {

// ---------------------------------------------------------------------------------------------
// Accounts
// ---------------------------------------------------------------------------------------------

/// Rows before the account list scrolls with the selection.
pub const AC_MAX_ROWS: usize = 6;

/// The account list: what the keyring can offer the login field that is focused.
#[derive(Debug)]
pub struct AcMenu {
    /// Matches for this host, before filtering.
    pub all: Vec<Account>,
    /// What survives what has been typed into the username field.
    pub shown: Vec<Account>,
    /// The keyboard's selection among what is shown.
    pub selected: usize,
    /// The first visible row, when there are more than the list can show.
    pub scroll: usize,
    /// The field.
    pub anchor: Place,
    /// The host that this list was built for. A fetched password is checked against it.
    pub host: String,
    /// A password filled here would leave the page in the clear.
    pub insecure: bool,
    /// The row under the pointer.
    pub hover: Option<usize>,
}

/// What the list holds.
#[verifier::ext_equal]
pub struct AcView {
    pub all: Seq<AccountView>,
    pub shown: Seq<AccountView>,
    pub selected: int,
    pub scroll: int,
    pub anchor: Place,
    pub host: Seq<char>,
    pub insecure: bool,
    pub hover: Option<usize>,
}

impl View for AcMenu {
    type V = AcView;

    open spec fn view(&self) -> AcView {
        AcView {
            all: account_views(self.all@),
            shown: account_views(self.shown@),
            selected: self.selected as int,
            scroll: self.scroll as int,
            anchor: self.anchor,
            host: self.host@,
            insecure: self.insecure,
            hover: self.hover,
        }
    }
}

/// The smaller of two numbers.
pub open spec fn least(a: int, b: int) -> int {
    if a <= b {
        a
    } else {
        b
    }
}

/// The number of rows that a list of that length has on screen.
pub open spec fn ac_rows(n: int) -> int {
    least(n, AC_MAX_ROWS as int)
}

/// Whether an account survives what was typed: it is nothing, or stands somewhere in the username
/// or the title, whatever the case.
pub open spec fn survives(a: AccountView, needle: Seq<char>) -> bool {
    needle.len() == 0 || has_sub(lowercase(a.username), needle) || has_sub(
        lowercase(a.label),
        needle,
    )
}

/// The accounts that survive what was typed, in order.
pub open spec fn surviving(all: Seq<AccountView>, typed: Seq<char>) -> Seq<AccountView> {
    let needle = lowercase(trimmed(typed));
    all.filter(|a: AccountView| survives(a, needle))
}

impl AcView {
    /// The selection is on a row of the list, unless the list is empty.
    pub open spec fn wf(self) -> bool {
        &&& 0 <= self.selected
        &&& 0 <= self.scroll
        &&& self.shown.len() > 0 ==> self.selected < self.shown.len()
    }

    /// The list scrolled so that the selection is among the visible rows.
    pub open spec fn kept_visible(self) -> AcView {
        let rows = ac_rows(self.shown.len() as int);
        if rows == 0 {
            self
        } else if self.selected < self.scroll {
            AcView { scroll: self.selected, ..self }
        } else if self.selected >= self.scroll + rows {
            AcView { scroll: self.selected + 1 - rows, ..self }
        } else {
            self
        }
    }

    /// The list narrowed to what was typed.
    pub open spec fn refiltered(self, typed: Seq<char>) -> AcView {
        let shown = surviving(self.all, typed);
        let last = if shown.len() > 0 {
            shown.len() - 1
        } else {
            0
        };
        AcView {
            shown,
            selected: least(self.selected, last),
            scroll: least(self.scroll, last),
            ..self
        }.kept_visible()
    }

    /// The row that is shown first.
    pub open spec fn first_row(self) -> int {
        let n = self.shown.len() as int;
        least(self.scroll, n - ac_rows(n))
    }

    /// The selection moved, around the ends of the list.
    pub open spec fn stepped(self, delta: int) -> AcView {
        if self.shown.len() == 0 {
            self
        } else {
            AcView {
                selected: (self.selected + delta) % (self.shown.len() as int),
                ..self
            }.kept_visible()
        }
    }
}

impl AcMenu {
    /// Narrows the list to what has been typed.
    pub fn refilter(&mut self, typed: &str)
        ensures
            final(self)@ == old(self)@.refiltered(typed@),
            final(self)@.wf(),
    {
        let ghost before = self@;
        let t = trim(typed);
        let needle = to_lower(t.as_str());
        let ghost keep = |a: AccountView| survives(a, needle@);
        let mut shown: Vec<Account> = Vec::new();
        let mut i: usize = 0;
        proof {
            reveal(Seq::filter);
            assert(account_views(shown@) =~= before.all.take(0).filter(keep));
        }
        while i < self.all.len()
            invariant
                i <= self.all.len(),
                self@ == before,
                keep == (|a: AccountView| survives(a, needle@)),
                account_views(shown@) == before.all.take(i as int).filter(keep),
            decreases self.all.len() - i,
        {
            let ghost was = account_views(shown@);
            let a = &self.all[i];
            proof {
                assert(before.all[i as int] == a@);
                assert(before.all.take(i + 1) =~= before.all.take(i as int).push(a@));
                before.all.take(i as int).lemma_filter_push(a@, keep);
            }
            if account_survives(a, needle.as_str()) {
                let c = a.copy();
                shown.push(c);
                assert(account_views(shown@) =~= was.push(a@));
            }
            i += 1;
        }
        assert(before.all.take(i as int) =~= before.all);
        let last: usize = if shown.len() > 0 {
            shown.len() - 1
        } else {
            0
        };
        self.shown = shown;
        if self.selected > last {
            self.selected = last;
        }
        if self.scroll > last {
            self.scroll = last;
        }
        self.keep_selected_visible();
    }

    /// The row that is shown first.
    pub fn first_row(&self) -> (r: usize)
        ensures
            r == self@.first_row(),
    {
        let n = self.shown.len();
        let rows = if n < AC_MAX_ROWS {
            n
        } else {
            AC_MAX_ROWS
        };
        if self.scroll < n - rows {
            self.scroll
        } else {
            n - rows
        }
    }

    /// Moves the keyboard's selection, and the list to follow it.
    pub fn step(&mut self, delta: isize)
        requires
            old(self)@.wf(),
        ensures
            final(self)@ == old(self)@.stepped(delta as int),
            final(self)@.wf(),
    {
        if self.shown.len() == 0 {
            return;
        }
        let n = self.shown.len() as u128;
        let s = self.selected as u128;
        let next: u128 = if delta >= 0 {
            let d = delta as u128 % n;
            proof {
                vstd::arithmetic::div_mod::lemma_add_mod_noop_right(
                    s as int,
                    delta as int,
                    n as int,
                );
            }
            (s + d) % n
        } else {
            let b = (-(delta as i128)) as u128 % n;
            proof {
                let m = n as int;
                let back = -(delta as int);
                vstd::arithmetic::div_mod::lemma_sub_mod_noop_right(s as int, back, m);
                vstd::arithmetic::div_mod::lemma_mod_add_multiples_vanish(s as int - b as int, m);
                assert((s + n - b) % m == (s - b) % m);
            }
            (s + n - b) % n
        };
        assert(next == (self@.selected + delta) % (self@.shown.len() as int));
        self.selected = next as usize;
        self.keep_selected_visible();
    }

    /// Moves the list so that the selection is visible.
    pub fn keep_selected_visible(&mut self)
        requires
            old(self)@.wf(),
        ensures
            final(self)@ == old(self)@.kept_visible(),
            final(self)@.wf(),
    {
        let n = self.shown.len();
        let rows = if n < AC_MAX_ROWS {
            n
        } else {
            AC_MAX_ROWS
        };
        if rows == 0 {
            return;
        }
        if self.selected < self.scroll {
            self.scroll = self.selected;
        } else if self.selected - self.scroll >= rows {
            self.scroll = self.selected + 1 - rows;
        }
    }
}

fn account_survives(a: &Account, needle: &str) -> (r: bool)
    ensures
        r == survives(a@, needle@),
{
    if needle.is_empty() {
        return true;
    }
    let user = to_lower(a.username.as_str());
    if contains(user.as_str(), needle) {
        return true;
    }
    let label = to_lower(a.label.as_str());
    contains(label.as_str(), needle)
}

/// After the list is narrowed or the selection moved, the selection is one of the visible rows.
pub proof fn selection_is_visible(m: AcView, typed: Seq<char>, delta: int)
    requires
        m.wf(),
    ensures
        m.refiltered(typed).shown.len() > 0 ==> {
            let r = m.refiltered(typed);
            r.first_row() <= r.selected < r.first_row() + ac_rows(r.shown.len() as int)
        },
        m.shown.len() > 0 ==> {
            let r = m.stepped(delta);
            r.first_row() <= r.selected < r.first_row() + ac_rows(r.shown.len() as int)
        },
{
}

/// A step down and a step up leave the selection where it was.
pub proof fn steps_cancel(m: AcView)
    requires
        m.wf(),
        m.shown.len() > 0,
    ensures
        m.stepped(1).stepped(-1).selected == m.selected,
        m.stepped(-1).stepped(1).selected == m.selected,
{
    let n = m.shown.len() as int;
    if m.selected + 1 == n {
        assert((m.selected + 1) % n == 0) by (nonlinear_arith)
            requires
                m.selected + 1 == n,
                n > 0,
        ;
        vstd::arithmetic::div_mod::lemma_mod_add_multiples_vanish(-1, n);
        vstd::arithmetic::div_mod::lemma_small_mod((n - 1) as nat, n as nat);
    } else {
        vstd::arithmetic::div_mod::lemma_small_mod((m.selected + 1) as nat, n as nat);
        vstd::arithmetic::div_mod::lemma_small_mod(m.selected as nat, n as nat);
    }
    if m.selected == 0 {
        vstd::arithmetic::div_mod::lemma_mod_add_multiples_vanish(-1, n);
        vstd::arithmetic::div_mod::lemma_small_mod((n - 1) as nat, n as nat);
        assert(n % n == 0) by (nonlinear_arith)
            requires
                n > 0,
        ;
    } else {
        vstd::arithmetic::div_mod::lemma_small_mod((m.selected - 1) as nat, n as nat);
        vstd::arithmetic::div_mod::lemma_small_mod(m.selected as nat, n as nat);
    }
}

/// The two lines of an account's row: the username, or the title where there is none, and below it
/// the title, with the host where the title does not say it.
pub open spec fn account_rows(a: AccountView) -> (Seq<char>, Seq<char>) {
    let first = if a.username.len() == 0 {
        a.label
    } else {
        a.username
    };
    let second = match a.host() {
        Some(host) => if has_sub(lowercase(a.label), host) {
            a.label
        } else if a.label.len() == 0 {
            host
        } else {
            a.label + " \u{2014} "@ + host
        },
        None => a.label,
    };
    (first, second)
}

/// See [`account_rows`].
pub fn account_lines(a: &Account) -> (r: (String, String))
    ensures
        (r.0@, r.1@) == account_rows(a@),
{
    let first = if a.username.as_str().is_empty() {
        a.label.clone()
    } else {
        a.username.clone()
    };
    let second = match a.host() {
        Some(host) => {
            let label = to_lower(a.label.as_str());
            if contains(label.as_str(), host.as_str()) {
                a.label.clone()
            } else if a.label.as_str().is_empty() {
                host
            } else {
                let mut out = a.label.clone();
                out.append(" \u{2014} ");
                out.append(host.as_str());
                out
            }
        },
        None => a.label.clone(),
    };
    (first, second)
}

// ---------------------------------------------------------------------------------------------
// Bookmarks
// ---------------------------------------------------------------------------------------------

/// The bookmarks menu: a snapshot of the store, so that the list a pointer is travelling down does
/// not reorder underneath it.
#[derive(Debug)]
pub struct BmMenu {
    pub items: Vec<Favorite>,
    /// The first listed bookmark, when there are more than the plate can show.
    pub scroll: usize,
    pub hover: Option<BmHit>,
}

/// What a pointer is on inside the bookmarks menu.
#[derive(Clone, Copy, Debug, PartialEq, Eq, Structural)]
pub enum BmHit {
    /// The row that adds or removes the page that is shown.
    Toggle,
    /// A bookmark, and whether the pointer is on its remove region.
    Entry(usize, bool),
    /// The row that leads to the whole collection.
    Manage,
}

/// What the menu holds.
#[verifier::ext_equal]
pub struct BmView {
    pub items: Seq<FavoriteView>,
    pub scroll: usize,
    pub hover: Option<BmHit>,
}

impl View for BmMenu {
    type V = BmView;

    open spec fn view(&self) -> BmView {
        BmView { items: favorite_views(self.items@), scroll: self.scroll, hover: self.hover }
    }
}

/// The rows of the list that a plate with room for `cap` shows: the first bookmark, and how many.
pub open spec fn bm_window_of(n: int, scroll: int, cap: int) -> (int, int) {
    let rows = if n < 1 {
        1
    } else {
        least(n, cap)
    };
    let past = if n > rows {
        n - rows
    } else {
        0
    };
    (least(scroll, past), least(rows, n))
}

/// See [`bm_window_of`].
pub fn bm_window(n: usize, scroll: usize, cap: usize) -> (r: (usize, usize))
    requires
        cap >= 1,
    ensures
        (r.0 as int, r.1 as int) == bm_window_of(n as int, scroll as int, cap as int),
        r.0 + r.1 <= n,
        r.1 <= cap,
{
    let rows = if n < 1 {
        1
    } else if n < cap {
        n
    } else {
        cap
    };
    let past = if n > rows {
        n - rows
    } else {
        0
    };
    let first = if scroll < past {
        scroll
    } else {
        past
    };
    let count = if rows < n {
        rows
    } else {
        n
    };
    (first, count)
}

impl BmView {
    /// The furthest that the list can be scrolled.
    pub open spec fn furthest(self, cap: int) -> int {
        if self.items.len() > cap {
            self.items.len() - cap
        } else {
            0
        }
    }

    /// The list scrolled by one bookmark, within its range.
    pub open spec fn scrolled(self, up: bool, cap: int) -> BmView {
        let to = if up {
            self.scroll - 1
        } else {
            self.scroll + 1
        };
        let max = self.furthest(cap);
        BmView {
            scroll: (if to < 0 {
                0
            } else {
                least(to, max)
            }) as usize,
            ..self
        }
    }

    /// The list with other bookmarks, its scroll within the new range.
    pub open spec fn refreshed(self, items: Seq<FavoriteView>, cap: int) -> BmView {
        let new = BmView { items, scroll: self.scroll, hover: None };
        BmView { scroll: least(self.scroll as int, new.furthest(cap)) as usize, ..new }
    }
}

impl BmMenu {
    /// Scrolls the list by one bookmark.
    pub fn wheel(&mut self, up: bool, cap: usize)
        ensures
            final(self)@ == old(self)@.scrolled(up, cap as int),
    {
        let n = self.items.len();
        let max = if n > cap {
            n - cap
        } else {
            0
        };
        if up {
            if self.scroll > 0 {
                self.scroll = if self.scroll - 1 < max {
                    self.scroll - 1
                } else {
                    max
                };
            }
        } else if self.scroll < max {
            self.scroll = self.scroll + 1;
        } else {
            self.scroll = max;
        }
    }

    /// Takes up other bookmarks.
    pub fn refresh(&mut self, items: Vec<Favorite>, cap: usize)
        ensures
            final(self)@ == old(self)@.refreshed(favorite_views(items@), cap as int),
    {
        let n = items.len();
        let max = if n > cap {
            n - cap
        } else {
            0
        };
        if self.scroll > max {
            self.scroll = max;
        }
        self.items = items;
        self.hover = None;
    }
}

// ---------------------------------------------------------------------------------------------
// At the pointer
// ---------------------------------------------------------------------------------------------

/// What an item of the right-click menu does.
#[derive(Debug)]
pub enum CtxAction {
    Back,
    Forward,
    Reload,
    /// Copy the page's selection.
    CopySelection,
    Paste,
    OpenInTab(String),
    /// Put this text on the clipboard.
    CopyText(String),
    Download(String),
    OpenExternal,
    /// Add the page to the favorites, or take it out.
    ToggleFavorite,
}

/// What an item does, as texts.
#[verifier::ext_equal]
pub enum CtxActionView {
    Back,
    Forward,
    Reload,
    CopySelection,
    Paste,
    OpenInTab(Seq<char>),
    CopyText(Seq<char>),
    Download(Seq<char>),
    OpenExternal,
    ToggleFavorite,
}

impl View for CtxAction {
    type V = CtxActionView;

    open spec fn view(&self) -> CtxActionView {
        match self {
            CtxAction::Back => CtxActionView::Back,
            CtxAction::Forward => CtxActionView::Forward,
            CtxAction::Reload => CtxActionView::Reload,
            CtxAction::CopySelection => CtxActionView::CopySelection,
            CtxAction::Paste => CtxActionView::Paste,
            CtxAction::OpenInTab(u) => CtxActionView::OpenInTab(u@),
            CtxAction::CopyText(t) => CtxActionView::CopyText(t@),
            CtxAction::Download(u) => CtxActionView::Download(u@),
            CtxAction::OpenExternal => CtxActionView::OpenExternal,
            CtxAction::ToggleFavorite => CtxActionView::ToggleFavorite,
        }
    }
}

/// An item of the right-click menu.
#[derive(Debug)]
pub struct CtxItem {
    pub label: String,
    pub action: CtxAction,
    pub enabled: bool,
}

/// What an item is.
#[verifier::ext_equal]
pub struct CtxItemView {
    pub label: Seq<char>,
    pub action: CtxActionView,
    pub enabled: bool,
}

impl View for CtxItem {
    type V = CtxItemView;

    open spec fn view(&self) -> CtxItemView {
        CtxItemView { label: self.label@, action: self.action@, enabled: self.enabled }
    }
}

/// The right-click menu.
#[derive(Debug)]
pub struct CtxMenu {
    pub items: Vec<CtxItem>,
}

/// What each item is.
pub open spec fn item_views(v: Seq<CtxItem>) -> Seq<CtxItemView> {
    v.map_values(|i: CtxItem| i@)
}

impl View for CtxMenu {
    type V = Seq<CtxItemView>;

    open spec fn view(&self) -> Seq<CtxItemView> {
        item_views(self.items@)
    }
}

/// An item that is always there.
pub open spec fn live(label: Seq<char>, action: CtxActionView) -> CtxItemView {
    CtxItemView { label, action, enabled: true }
}

/// The items for a link.
pub open spec fn link_items(link: Option<Seq<char>>) -> Seq<CtxItemView> {
    match link {
        Some(u) => seq![
            live("Open Link in New Tab"@, CtxActionView::OpenInTab(u)),
            live("Copy Link"@, CtxActionView::CopyText(u)),
            live("Download Link"@, CtxActionView::Download(u)),
        ],
        None => Seq::empty(),
    }
}

/// The items for an image.
pub open spec fn image_items(image: Option<Seq<char>>) -> Seq<CtxItemView> {
    match image {
        Some(u) => seq![
            live("Copy Image Address"@, CtxActionView::CopyText(u)),
            live("Download Image"@, CtxActionView::Download(u)),
        ],
        None => Seq::empty(),
    }
}

/// The items for what is selected and what can be typed into.
pub open spec fn edit_items(selection: bool, editable: bool) -> Seq<CtxItemView> {
    (if selection {
        seq![live("Copy"@, CtxActionView::CopySelection)]
    } else {
        Seq::empty()
    }) + (if editable {
        seq![live("Paste"@, CtxActionView::Paste)]
    } else {
        Seq::empty()
    })
}

/// The items that every page has. A page can become a favorite where it can be saved, and a favorite
/// can always be taken out.
pub open spec fn page_items(
    back: bool,
    forward: bool,
    favorited: bool,
    saveable: bool,
) -> Seq<CtxItemView> {
    seq![
        CtxItemView { label: "Back"@, action: CtxActionView::Back, enabled: back },
        CtxItemView { label: "Forward"@, action: CtxActionView::Forward, enabled: forward },
        live("Reload"@, CtxActionView::Reload),
        CtxItemView {
            label: if favorited {
                "Remove from Favorites"@
            } else {
                "Add to Favorites"@
            },
            action: CtxActionView::ToggleFavorite,
            enabled: favorited || saveable,
        },
        live("Open in Other Browser"@, CtxActionView::OpenExternal),
    ]
}

/// The right-click menu for what was under the pointer.
pub open spec fn ctx_items(info: ContextView, favorited: bool, saveable: bool) -> Seq<CtxItemView> {
    link_items(info.link) + image_items(info.image_uri) + edit_items(
        info.is_selection,
        info.is_editable,
    ) + page_items(info.can_go_back, info.can_go_forward, favorited, saveable)
}

fn push_item(items: &mut Vec<CtxItem>, label: &str, action: CtxAction, enabled: bool)
    ensures
        item_views(final(items)@) == item_views(old(items)@).push(
            CtxItemView { label: label@, action: action@, enabled },
        ),
{
    let ghost before = item_views(items@);
    let item = CtxItem { label: label.to_owned(), action, enabled };
    items.push(item);
    assert(item_views(items@) =~= before.push(item@));
}

fn push_link_items(items: &mut Vec<CtxItem>, link: &Option<String>)
    ensures
        item_views(final(items)@) == item_views(old(items)@) + link_items(view_opt(*link)),
{
    if let Some(uri) = link {
        push_item(items, "Open Link in New Tab", CtxAction::OpenInTab(uri.clone()), true);
        push_item(items, "Copy Link", CtxAction::CopyText(uri.clone()), true);
        push_item(items, "Download Link", CtxAction::Download(uri.clone()), true);
    }
    assert(item_views(items@) =~= item_views(old(items)@) + link_items(view_opt(*link)));
}

fn push_image_items(items: &mut Vec<CtxItem>, image: &Option<String>)
    ensures
        item_views(final(items)@) == item_views(old(items)@) + image_items(view_opt(*image)),
{
    if let Some(uri) = image {
        push_item(items, "Copy Image Address", CtxAction::CopyText(uri.clone()), true);
        push_item(items, "Download Image", CtxAction::Download(uri.clone()), true);
    }
    assert(item_views(items@) =~= item_views(old(items)@) + image_items(view_opt(*image)));
}

fn push_edit_items(items: &mut Vec<CtxItem>, selection: bool, editable: bool)
    ensures
        item_views(final(items)@) == item_views(old(items)@) + edit_items(selection, editable),
{
    if selection {
        push_item(items, "Copy", CtxAction::CopySelection, true);
    }
    if editable {
        push_item(items, "Paste", CtxAction::Paste, true);
    }
    assert(item_views(items@) =~= item_views(old(items)@) + edit_items(selection, editable));
}

fn push_page_items(
    items: &mut Vec<CtxItem>,
    back: bool,
    forward: bool,
    favorited: bool,
    saveable: bool,
)
    ensures
        item_views(final(items)@) == item_views(old(items)@) + page_items(
            back,
            forward,
            favorited,
            saveable,
        ),
{
    push_item(items, "Back", CtxAction::Back, back);
    push_item(items, "Forward", CtxAction::Forward, forward);
    push_item(items, "Reload", CtxAction::Reload, true);
    let label = if favorited {
        "Remove from Favorites"
    } else {
        "Add to Favorites"
    };
    push_item(items, label, CtxAction::ToggleFavorite, favorited || saveable);
    push_item(items, "Open in Other Browser", CtxAction::OpenExternal, true);
    assert(item_views(items@) =~= item_views(old(items)@) + page_items(
        back,
        forward,
        favorited,
        saveable,
    ));
}

impl CtxMenu {
    /// See [`ctx_items`].
    pub fn build(info: &ContextMenuInfo, favorited: bool, saveable: bool) -> (r: CtxMenu)
        ensures
            r@ == ctx_items(info@, favorited, saveable),
    {
        let mut items: Vec<CtxItem> = Vec::new();
        assert(item_views(items@) =~= Seq::empty());
        push_link_items(&mut items, &info.link);
        push_image_items(&mut items, &info.image_uri);
        push_edit_items(&mut items, info.is_selection, info.is_editable);
        push_page_items(
            &mut items,
            info.can_go_back,
            info.can_go_forward,
            favorited,
            saveable,
        );
        assert(item_views(items@) =~= ctx_items(info@, favorited, saveable));
        CtxMenu { items }
    }
}

} // verus!
