//! What the items of the right-click menu and of the bookmarks menu do.

use vstd::prelude::*;

use crate::action::ActionView;
use crate::browser::state::AppView;
use crate::menus::{ctx_items, CtxActionView, CtxItemView};
use crate::message::EditingCommand;
use crate::outcomes::tabs::{
    did, lemma_new_tab, lemma_settled, lemma_told, lemma_told_both, shows_new_tab,
};
use crate::pages::label_of;
use crate::store::{has_entry, lemma_entries_but, sanitized_is_one_line, EntryView};
use crate::weburl::{one_line, url_parse, UrlView};
use crate::wpe::host::ContextView;

verus! {

// ---------------------------------------------------------------------------------------------
// The right-click menu
// ---------------------------------------------------------------------------------------------

proof fn lemma_labels_differ()
    ensures
        "Back"@.len() == 4 && "Back"@[0] == 'B',
        "Copy"@.len() == 4 && "Copy"@[0] == 'C',
        "Paste"@.len() == 5,
        "Reload"@.len() == 6,
        "Forward"@.len() == 7,
        "Copy Link"@.len() == 9,
        "Download Link"@.len() == 13,
        "Download Image"@.len() == 14,
        "Add to Favorites"@.len() == 16,
        "Copy Image Address"@.len() == 18,
        "Open Link in New Tab"@.len() == 20,
        "Remove from Favorites"@.len() == 21 && "Remove from Favorites"@[0] == 'R',
        "Open in Other Browser"@.len() == 21 && "Open in Other Browser"@[0] == 'O',
{
    reveal_strlit("Back");
    reveal_strlit("Copy");
    reveal_strlit("Paste");
    reveal_strlit("Reload");
    reveal_strlit("Forward");
    reveal_strlit("Copy Link");
    reveal_strlit("Download Link");
    reveal_strlit("Download Image");
    reveal_strlit("Add to Favorites");
    reveal_strlit("Copy Image Address");
    reveal_strlit("Open Link in New Tab");
    reveal_strlit("Remove from Favorites");
    reveal_strlit("Open in Other Browser");
}

/// Whether an item does what its label says, of what was under the pointer.
pub open spec fn honest(i: CtxItemView, info: ContextView) -> bool {
    &&& i.label == "Back"@ ==> i.action == CtxActionView::Back && i.enabled == info.can_go_back
    &&& i.label == "Forward"@ ==> i.action == CtxActionView::Forward && i.enabled
        == info.can_go_forward
    &&& i.label == "Reload"@ ==> i.action == CtxActionView::Reload && i.enabled
    &&& i.label == "Copy"@ ==> i.action == CtxActionView::CopySelection && i.enabled
        && info.is_selection
    &&& i.label == "Paste"@ ==> i.action == CtxActionView::Paste && i.enabled && info.is_editable
    &&& i.label == "Open Link in New Tab"@ ==> info.link is Some && i.action
        == CtxActionView::OpenInTab(info.link->0) && i.enabled
    &&& i.label == "Copy Link"@ ==> info.link is Some && i.action
        == CtxActionView::CopyText(info.link->0) && i.enabled
    &&& i.label == "Download Link"@ ==> info.link is Some && i.action
        == CtxActionView::Download(info.link->0) && i.enabled
    &&& i.label == "Copy Image Address"@ ==> info.image_uri is Some && i.action
        == CtxActionView::CopyText(info.image_uri->0) && i.enabled
    &&& i.label == "Download Image"@ ==> info.image_uri is Some && i.action
        == CtxActionView::Download(info.image_uri->0) && i.enabled
    &&& i.label == "Open in Other Browser"@ ==> i.action == CtxActionView::OpenExternal && i.enabled
    &&& i.label == "Add to Favorites"@ ==> i.action == CtxActionView::ToggleFavorite
    &&& i.label == "Remove from Favorites"@ ==> i.action == CtxActionView::ToggleFavorite
        && i.enabled
}

/// Whether a label is one that the menu can have.
pub open spec fn known_label(l: Seq<char>) -> bool {
    ||| l == "Back"@
    ||| l == "Forward"@
    ||| l == "Reload"@
    ||| l == "Copy"@
    ||| l == "Paste"@
    ||| l == "Open Link in New Tab"@
    ||| l == "Copy Link"@
    ||| l == "Download Link"@
    ||| l == "Copy Image Address"@
    ||| l == "Download Image"@
    ||| l == "Open in Other Browser"@
    ||| l == "Add to Favorites"@
    ||| l == "Remove from Favorites"@
}

/// In every menu, every item does what its label says, and has a label that says something.
#[verifier::rlimit(40)]
pub proof fn items_do_what_they_say(info: ContextView, favorited: bool, saveable: bool, k: int)
    requires
        0 <= k < ctx_items(info, favorited, saveable).len(),
    ensures
        honest(ctx_items(info, favorited, saveable)[k], info),
        known_label(ctx_items(info, favorited, saveable)[k].label),
{
    lemma_labels_differ();
}

/// Whether a menu has an item under a label.
pub open spec fn has_item(items: Seq<CtxItemView>, label: Seq<char>) -> bool {
    exists|k: int| 0 <= k < items.len() && (#[trigger] items[k]).label == label
}

proof fn lemma_has(items: Seq<CtxItemView>, label: Seq<char>, k: int)
    requires
        0 <= k < items.len(),
        items[k].label == label,
    ensures
        has_item(items, label),
{
}

/// Every menu has the items of the page; those for a link, an image, a selection and a field are
/// there where one of these was under the pointer, and not otherwise.
#[verifier::spinoff_prover]
#[verifier::rlimit(40)]
pub proof fn menus_offer_what_is_there(info: ContextView, favorited: bool, saveable: bool)
    ensures
        ({
            let items = ctx_items(info, favorited, saveable);
            &&& has_item(items, "Back"@)
            &&& has_item(items, "Forward"@)
            &&& has_item(items, "Reload"@)
            &&& has_item(items, "Open in Other Browser"@)
            &&& has_item(items, "Remove from Favorites"@) <==> favorited
            &&& has_item(items, "Add to Favorites"@) <==> !favorited
            &&& has_item(items, "Open Link in New Tab"@) <==> info.link is Some
            &&& has_item(items, "Copy Link"@) <==> info.link is Some
            &&& has_item(items, "Download Link"@) <==> info.link is Some
            &&& has_item(items, "Copy Image Address"@) <==> info.image_uri is Some
            &&& has_item(items, "Download Image"@) <==> info.image_uri is Some
            &&& has_item(items, "Copy"@) <==> info.is_selection
            &&& has_item(items, "Paste"@) <==> info.is_editable
        }),
{
    lemma_labels_differ();
    let items = ctx_items(info, favorited, saveable);
    let l: int = if info.link is Some { 3 } else { 0 };
    let m: int = if info.image_uri is Some { 2 } else { 0 };
    let s: int = if info.is_selection { 1 } else { 0 };
    let e: int = if info.is_editable { 1 } else { 0 };
    let n = l + m + s + e;
    assert(items.len() == n + 5);
    lemma_has(items, "Back"@, n);
    lemma_has(items, "Forward"@, n + 1);
    lemma_has(items, "Reload"@, n + 2);
    lemma_has(items, items[n + 3].label, n + 3);
    lemma_has(items, "Open in Other Browser"@, n + 4);
    if info.link is Some {
        lemma_has(items, "Open Link in New Tab"@, 0);
        lemma_has(items, "Copy Link"@, 1);
        lemma_has(items, "Download Link"@, 2);
    }
    if info.image_uri is Some {
        lemma_has(items, "Copy Image Address"@, l);
        lemma_has(items, "Download Image"@, l + 1);
    }
    if info.is_selection {
        lemma_has(items, "Copy"@, l + m);
    }
    if info.is_editable {
        lemma_has(items, "Paste"@, l + m + s);
    }
    assert forall|k: int| 0 <= k < items.len() implies honest(#[trigger] items[k], info) by {
        items_do_what_they_say(info, favorited, saveable, k);
    }
}

/// A page can be made a favorite where it is neither the browser's own nor blank, and taken out
/// always.
pub proof fn favorites_can_be_switched(info: ContextView, favorited: bool, saveable: bool, k: int)
    requires
        0 <= k < ctx_items(info, favorited, saveable).len(),
    ensures
        ctx_items(info, favorited, saveable)[k].label == "Add to Favorites"@
            ==> ctx_items(info, favorited, saveable)[k].enabled == saveable,
{
    lemma_labels_differ();
}

/// The menu that opens at the pointer is the one for what was there; nothing else changes.
#[verifier::rlimit(40)]
pub proof fn the_menu_opens(a: AppView, info: ContextView)
    ensures
        ({
            let b = a.ctx_opened(info);
            let items = b.ctx_menu->0;
            let here = a.host.tabs[a.host.active as int].url;
            &&& b.ctx_menu is Some
            &&& b == (AppView { ctx_menu: b.ctx_menu, ..a })
            &&& has_item(items, "Remove from Favorites"@) <==> (here is Some && has_entry(
                a.pages.favorites.entries,
                (here->0).text,
            ))
            &&& forall|k: int| 0 <= k < items.len() ==> honest(#[trigger] items[k], info)
        }),
{
    reveal(AppView::ctx_opened);
    menus_offer_what_is_there(info, a.host.listed(a.pages.favorites), a.saveable());
    assert forall|k: int| 0 <= k < (a.ctx_opened(info).ctx_menu->0).len() implies honest(
        #[trigger] (a.ctx_opened(info).ctx_menu->0)[k],
        info,
    ) by {
        items_do_what_they_say(info, a.host.listed(a.pages.favorites), a.saveable(), k);
    }
}

/// Whether what a browser without the menu became is what an item that was chosen says, of what was
/// under the pointer.
pub open spec fn came_true(a: AppView, i: CtxItemView, info: ContextView, b: AppView) -> bool {
    let here = a.host.active;
    let page = a.host.tabs[here as int].url;
    let link = info.link->0;
    let image = info.image_uri->0;
    &&& !i.enabled ==> b == a
    &&& i.enabled && i.label == "Back"@ ==> did(a, seq![ActionView::Back(here)], b)
    &&& i.enabled && i.label == "Forward"@ ==> did(a, seq![ActionView::Forward(here)], b)
    &&& i.label == "Reload"@ ==> did(a, seq![ActionView::Reload(here)], b)
    &&& i.label == "Copy"@ ==> did(a, seq![ActionView::Edit(here, EditingCommand::Copy)], b)
    &&& i.label == "Paste"@ ==> did(
        a,
        seq![ActionView::SyncClipboard, ActionView::Edit(here, EditingCommand::Paste)],
        b,
    )
    &&& i.label == "Copy Link"@ ==> did(a, seq![ActionView::CopyText(link)], b)
    &&& i.label == "Download Link"@ ==> did(a, seq![ActionView::Download(link)], b)
    &&& i.label == "Copy Image Address"@ ==> did(a, seq![ActionView::CopyText(image)], b)
    &&& i.label == "Download Image"@ ==> did(a, seq![ActionView::Download(image)], b)
    &&& i.label == "Open in Other Browser"@ && page is Some ==> did(
        a,
        seq![ActionView::OpenOutside((page->0).text, a.settings.external_browser)],
        b,
    )
}

#[verifier::rlimit(40)]
proof fn lemma_choice(a: AppView, i: CtxItemView, info: ContextView, now: u64)
    requires
        honest(i, info),
    ensures
        i.enabled ==> came_true(a, i, info, a.ctx_done(i.action, now)),
        !i.enabled ==> came_true(a, i, info, a),
{
    reveal(AppView::ctx_done);
    reveal(AppView::opened_outside);
    let here = a.host.active;
    lemma_told(a, ActionView::Back(here));
    lemma_told(a, ActionView::Forward(here));
    lemma_told(a, ActionView::Reload(here));
    lemma_told(a, ActionView::Edit(here, EditingCommand::Copy));
    lemma_told_both(a, ActionView::SyncClipboard, ActionView::Edit(here, EditingCommand::Paste));
    lemma_told(a, ActionView::CopyText(info.link->0));
    lemma_told(a, ActionView::Download(info.link->0));
    lemma_told(a, ActionView::CopyText(info.image_uri->0));
    lemma_told(a, ActionView::Download(info.image_uri->0));
    lemma_told(
        a,
        ActionView::OpenOutside(
            (a.host.tabs[here as int].url->0).text,
            a.settings.external_browser,
        ),
    );
}

/// Choosing an enabled item does what its label says, to the page that is shown, and nothing else;
/// choosing one that is not enabled does nothing. The menu goes either way.
#[verifier::rlimit(40)]
pub proof fn choices_do_what_they_say(a: AppView, info: ContextView, k: int, now: u64)
    requires
        0 <= k < (a.ctx_opened(info).ctx_menu->0).len(),
    ensures
        came_true(
            (AppView { ctx_menu: None, ..a }),
            (a.ctx_opened(info).ctx_menu->0)[k],
            info,
            a.ctx_opened(info).ctx_chosen(k, now),
        ),
{
    the_menu_opens(a, info);
    reveal(AppView::ctx_chosen);
    let item = (a.ctx_opened(info).ctx_menu->0)[k];
    let shut = AppView { ctx_menu: None, ..a };
    lemma_choice(shut, item, info, now);
    assert((AppView { ctx_menu: None, ..a.ctx_opened(info) }) == shut);
}

/// A link that is an address opens in a new tab, which is shown; the tabs that were there stay.
#[verifier::rlimit(40)]
pub proof fn links_open_in_new_tabs(a: AppView, info: ContextView, k: int, now: u64, u: UrlView)
    requires
        a.host.wf(),
        a.host.tabs.len() < usize::MAX,
        0 <= k < (a.ctx_opened(info).ctx_menu->0).len(),
        (a.ctx_opened(info).ctx_menu->0)[k].label == "Open Link in New Tab"@,
        url_parse(info.link->0) == Some(u),
    ensures
        shows_new_tab(a, a.ctx_opened(info).ctx_chosen(k, now), u),
{
    the_menu_opens(a, info);
    reveal(AppView::ctx_chosen);
    reveal(AppView::ctx_done);
    reveal(AppView::link_opened);
    let item = (a.ctx_opened(info).ctx_menu->0)[k];
    assert(honest(item, info));
    let shut = AppView { ctx_menu: None, ..a };
    assert((AppView { ctx_menu: None, ..a.ctx_opened(info) }) == shut);
    lemma_new_tab(shut, u);
    lemma_settled(shut.with_host(shut.host.opened(u)));
}

/// Adding the page that is shown to the favorites puts it at the end of the list and of the strip,
/// under the title of the page; taking it out leaves every other favorite.
#[verifier::rlimit(40)]
pub proof fn the_favorite_is_the_page(a: AppView, info: ContextView, k: int, now: u64, e: EntryView)
    requires
        0 <= k < (a.ctx_opened(info).ctx_menu->0).len(),
        (a.ctx_opened(info).ctx_menu->0)[k].enabled,
        a.host.tabs[a.host.active as int].url is Some,
    ensures
        ({
            let item = (a.ctx_opened(info).ctx_menu->0)[k];
            let page = (a.host.tabs[a.host.active as int].url->0).text;
            let title = a.host.title_text();
            let before = a.pages.favorites.entries;
            let b = a.ctx_opened(info).ctx_chosen(k, now);
            let after = b.pages.favorites.entries;
            &&& item.label == "Remove from Favorites"@ ==> after.contains(e) == (before.contains(e)
                && e.url != page) && b.host == a.host && b.pages.bookmarks == a.pages.bookmarks
            &&& item.label == "Add to Favorites"@ && one_line(page) && one_line(
                label_of(page, title),
            ) && !"cce:"@.is_prefix_of(page) && page != "about:blank"@ ==> after == before.push(
                (EntryView { ts: now, url: page, title: label_of(page, title) }),
            ) && b.host == a.host && b.pages.bookmarks == a.pages.bookmarks
        }),
{
    the_menu_opens(a, info);
    menus_offer_what_is_there(info, a.host.listed(a.pages.favorites), a.saveable());
    reveal(AppView::ctx_opened);
    reveal(AppView::ctx_chosen);
    reveal(AppView::ctx_done);
    reveal(AppView::favorite_switched);
    reveal(AppView::favorites_refreshed);
    let item = (a.ctx_opened(info).ctx_menu->0)[k];
    assert(honest(item, info));
    let shut = AppView { ctx_menu: None, ..a };
    assert((AppView { ctx_menu: None, ..a.ctx_opened(info) }) == shut);
    lemma_has(a.ctx_opened(info).ctx_menu->0, item.label, k);
    let page = (a.host.tabs[a.host.active as int].url->0).text;
    lemma_entries_but(a.pages.favorites.entries, page);
    sanitized_is_one_line(page);
    sanitized_is_one_line(label_of(page, a.host.title_text()));
}

} // verus!
