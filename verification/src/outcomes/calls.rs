//! What a caller of the library gets: each function that is called from outside does what the laws say of it.

use vstd::prelude::*;

use crate::accounts::{
    keyring_unlisted, keyring_unreachable, skip_collection, Account, Accounts, Request, Secret,
};
use crate::action::ActionView;
use crate::address::{
    insecure_origin, outside_command, parse_startup_arg, parse_url_input, split_words,
};
use crate::browser::pointer::Hits;
use crate::browser::state::{AppView, BrowserApp};
use crate::downloads::{
    candidate_name, download_dir, filename_for, is_download_url, set_download_dir, DownloadDir,
    Downloads, Update,
};
use crate::html::{escaped, html_escape};
use crate::input::{Clipboard, ElementState, KeyEvent, MouseButton};
use crate::instance::{launch_command, parse_command, read_command, socket_path, Claim, ClaimAction};
use crate::labels::tab_label;
use crate::lineedit::{EditOutcome, LineEdit};
use crate::menus::{account_lines, AcMenu, BmHit, CtxMenu};
use crate::message::{message_opt, Message};
use crate::outcomes::addresses::{
    addresses_are_loaded_as_they_stand, extensions, files_go_by_their_extension, is_page_name,
    tight,
};
use crate::outcomes::listings::{
    bookmarks_link_to_what_was_starred, deed, favorites_link_to_what_was_chosen, file_link,
    downloads_link_to_their_file, history_links_to_what_was_visited, link, titled,
};
use crate::outcomes::logins::{fills, passwords_are_filled_in};
use crate::outcomes::menus::{
    came_true, choices_do_what_they_say, has_item, honest, items_do_what_they_say,
    menus_offer_what_is_there,
};
use crate::pages::{label_of, Bookmarks, Favorite, Favorites, History};
use crate::paths::str_opt;
use crate::protocol::{CceProtocol, ProtocolView};
use crate::session::{session_text, tab_views, Session};
use crate::settings::{load, settings_of, Config, Settings};
use crate::sizes::{human_size, size_text};
use crate::store::{has_entry, EntryView};
use crate::text::{ascii_lower_text, has_sub};
use crate::transfers::{begin, ended, Transfer};
use crate::weburl::{one_line, pair_views, url_opt, url_parse, view_opt, Url, UrlView};
use crate::wpe::formwatch::{fill_js, parse_event, FormEvent};
use crate::wpe::host::{next_wake, ContextMenuInfo};

verus! {

// ---------------------------------------------------------------------------------------------
// Addresses and files
// ---------------------------------------------------------------------------------------------

/// An address that is typed, and that the browser can show, is the address that is loaded.
pub proof fn typed_addresses_are_loaded(input: &str, prefix: &str, u: UrlView, r: Option<Url>)
    requires
        call_ensures(parse_url_input, (input, prefix), r),
        tight(input@),
        url_parse(input@) == Some(u),
        seq!["http"@, "https"@, "file"@, "data"@, "about"@, "cce"@].contains(u.scheme),
        !is_page_name(input@),
    ensures
        r is Some,
        (r->0)@ == u,
{
    addresses_are_loaded_as_they_stand(input@, u, prefix@);
}

/// What is typed, and what a launch is given, means what is said of it.
pub proof fn typed_texts_are_understood(
    input: &str,
    existing: Option<&str>,
    prefix: &str,
    host: &str,
    configured: Option<String>,
    typed: Option<Url>,
    given: Option<Url>,
    unsafe_origin: bool,
    words: Vec<String>,
    command: Option<Vec<String>>,
)
    requires
        call_ensures(parse_url_input, (input, prefix), typed),
        call_ensures(parse_startup_arg, (input, existing, prefix), given),
        call_ensures(insecure_origin, (input, host), unsafe_origin),
        call_ensures(split_words, (input,), words),
        call_ensures(outside_command, (&configured, host), command),
    ensures
        url_opt(typed) == crate::address::input_url(input@, prefix@),
        url_opt(given) == crate::address::argument_url(input@, str_opt(existing), prefix@),
        unsafe_origin == crate::address::insecure(input@, host@),
        crate::split::views(words@) == crate::address::words(input@),
        command is Some <==> crate::address::outside_words(view_opt(configured), host@) is Some,
        command is Some ==> crate::address::outside_words(view_opt(configured), host@) == Some(
            crate::split::views((command->0)@),
        ),
{
}

/// An address is a file to download exactly where it is on the web and ends in one of the extensions, in small
/// letters or capitals.
pub proof fn files_are_told_apart(url: Url, r: bool)
    requires
        call_ensures(is_download_url, (&url,), r),
    ensures
        r <==> seq!["http"@, "https"@].contains(url@.scheme) && exists|k: int|
            #![trigger extensions()[k]]
            0 <= k < extensions().len() && (seq!['.'] + extensions()[k]).is_suffix_of(
                ascii_lower_text(url@.path),
            ),
{
    files_go_by_their_extension(url@);
}

/// Names, directories and sizes are what is said of them.
pub proof fn names_are_given(
    url: Url,
    name: &str,
    n: u64,
    place: DownloadDir,
    home: &str,
    dirs: Option<&str>,
    file: String,
    next: String,
    dir: String,
    size: String,
)
    requires
        call_ensures(filename_for, (&url,), file),
        call_ensures(candidate_name, (name, n), next),
        call_ensures(download_dir, (&place, home, dirs), dir),
        call_ensures(human_size, (n,), size),
    ensures
        file@ == crate::downloads::file_name(url@),
        next@ == crate::downloads::candidate(name@, n as nat),
        dir@ == crate::downloads::download_dir_of(view_opt(place.chosen), home@, str_opt(dirs)),
        size@ == size_text(n as nat),
        place.chosen is Some ==> dir@ == (place.chosen->0)@,
{
}

/// The directory that the settings ask for is the one that is used from then on.
pub proof fn the_directory_is_set(place: &mut DownloadDir, dir: Option<String>, home: &str, r: String)
    requires
        call_ensures(set_download_dir, (place, dir), ()),
        dir is Some,
        call_ensures(download_dir, (&*final(place), home, None), r),
    ensures
        r@ == (dir->0)@,
{
}

// ---------------------------------------------------------------------------------------------
// Stores and their pages
// ---------------------------------------------------------------------------------------------

/// The history page links to every page among the last five hundred visits.
pub proof fn the_history_page_links_to_visits(h: History, r: String, i: int)
    requires
        call_ensures(History::html, (&h,), r),
        0 <= i < h.log.entries@.len(),
        h.log.entries@.len() - i <= 500,
    ensures
        ({
            let e = h.log.entries@[i];
            has_sub(r@, link(e.url@, titled(e.title@, e.url@)))
        }),
{
    assert(h@.entries[i] == h.log.entries@[i]@);
    history_links_to_what_was_visited(h@.entries, i);
}

/// The bookmarks page links to every bookmark, with a link that removes it; the favorites page links to every
/// favorite under its label; and the downloads page to every file.
pub proof fn the_other_pages_link_to_what_they_list(
    b: Bookmarks,
    v: Favorites,
    l: Downloads,
    bookmarks: String,
    favorites: String,
    downloads: String,
    i: int,
    j: int,
    k: int,
)
    requires
        call_ensures(Bookmarks::html, (&b, &v), bookmarks),
        call_ensures(Favorites::html, (&v,), favorites),
        call_ensures(Downloads::html, (&l,), downloads),
        0 <= i < b.log.entries@.len(),
        0 <= j < v.log.entries@.len(),
        0 <= k < l.items@.len(),
    ensures
        ({
            let e = b.log.entries@[i];
            let f = v.log.entries@[j];
            let d = l.items@[k];
            &&& has_sub(bookmarks@, link(e.url@, titled(e.title@, e.url@)))
            &&& has_sub(bookmarks@, deed("bookmarks/remove"@, e.url@, "remove"@))
            &&& has_sub(favorites@, link(f.url@, label_of(f.url@, f.title@)))
            &&& has_sub(favorites@, deed("favorites/remove"@, f.url@, "remove"@))
            &&& has_sub(downloads@, file_link(d.path@, d.filename@))
        }),
{
    assert(b@.entries[i] == b.log.entries@[i]@);
    assert(v@.entries[j] == v.log.entries@[j]@);
    assert(l@.items[k] == l.items@[k]@);
    bookmarks_link_to_what_was_starred(b@.entries, v@.entries, i, i);
    favorites_link_to_what_was_chosen(v@.entries, j, j);
    downloads_link_to_their_file(l@.items, k, k);
}

/// A visit is recorded at the end, with its address, its title and the time.
pub proof fn visits_are_recorded(h: &mut History, url: &str, title: &str, now: u64)
    requires
        call_ensures(History::record, (h, url, title, now), ()),
        one_line(url@),
        one_line(title@),
        !"cce:"@.is_prefix_of(url@),
        url@ != "about:blank"@,
        old(h)@.entries.len() == 0 || old(h)@.entries.last().url != url@,
    ensures
        final(h)@.entries == old(h)@.entries.push((EntryView { ts: now, url: url@, title: title@ })),
{
    crate::outcomes::listings::visits_are_added_last(old(h)@, url@, title@, now);
}

/// Clearing leaves no visits; removing a bookmark or a favorite leaves the others; starring adds at the end.
#[verifier::rlimit(40)]
pub proof fn stores_change_as_asked(
    h: &mut History,
    b: &mut Bookmarks,
    c: &mut Bookmarks,
    v: &mut Favorites,
    w: &mut Favorites,
    url: &str,
    title: &str,
    now: u64,
    starred: bool,
    e: EntryView,
)
    requires
        call_ensures(History::clear, (h,), ()),
        call_ensures(Bookmarks::remove, (b, url), ()),
        call_ensures(Bookmarks::toggle, (c, url, title, now), starred),
        call_ensures(Favorites::remove, (v, url), ()),
        call_ensures(Favorites::add, (w, url, title, now), ()),
        one_line(url@),
        tight(title@),
        one_line(title@),
        !"cce:"@.is_prefix_of(url@),
        url@ != "about:blank"@,
    ensures
        final(h)@.entries.len() == 0,
        final(b)@.entries.contains(e) <==> old(b)@.entries.contains(e) && e.url != url@,
        starred <==> !has_entry(old(c)@.entries, url@),
        starred ==> final(c)@.entries == old(c)@.entries.push(
            (EntryView { ts: now, url: url@, title: title@ }),
        ),
        !starred ==> final(c)@.entries.len() == old(c)@.entries.len() - 1,
        final(v)@.entries.contains(e) <==> old(v)@.entries.contains(e) && e.url != url@,
        !has_entry(old(w)@.entries, url@) ==> final(w)@.entries == old(w)@.entries.push(
            (EntryView { ts: now, url: url@, title: title@ }),
        ),
        has_entry(old(w)@.entries, url@) ==> final(w)@ == old(w)@,
{
    crate::store::lemma_entries_but(old(b)@.entries, url@);
    crate::store::lemma_entries_but(old(v)@.entries, url@);
    crate::outcomes::listings::the_star_adds_and_removes(old(c)@, url@, title@, now);
    crate::outcomes::stores::titles_are_labels(url@, title@);
    crate::store::sanitized_is_one_line(url@);
    crate::store::sanitized_is_one_line(title@);
}

/// Whether a page is in a list, and the title it was starred with, are what the list says; a label is what is
/// said of labels.
#[verifier::rlimit(40)]
pub proof fn stores_answer(
    b: Bookmarks,
    v: Favorites,
    url: &str,
    title: &str,
    starred: bool,
    chosen: bool,
    label: String,
    found: Option<String>,
)
    requires
        call_ensures(Bookmarks::contains, (&b, url), starred),
        call_ensures(Favorites::contains, (&v, url), chosen),
        call_ensures(crate::pages::default_label, (url, title), label),
        call_ensures(Bookmarks::title_of, (&b, url), found),
    ensures
        starred <==> exists|i: int|
            0 <= i < b.log.entries@.len() && (#[trigger] b.log.entries@[i]).url@ == url@,
        chosen <==> exists|i: int|
            0 <= i < v.log.entries@.len() && (#[trigger] v.log.entries@[i]).url@ == url@,
        label@ == label_of(url@, title@),
        found is Some <==> starred,
        found is Some ==> exists|i: int|
            0 <= i < b.log.entries@.len() && (#[trigger] b.log.entries@[i]).url@ == url@
                && b.log.entries@[i].title@ == (found->0)@,
{
    crate::store::lemma_entry_index(b@.entries, url@);
    if starred {
        let i = choose|i: int| 0 <= i < b@.entries.len() && (#[trigger] b@.entries[i]).url == url@;
        assert(b.log.entries@[i].url@ == url@);
        let k = crate::store::entry_index(b@.entries, url@);
        assert(b.log.entries@[k].url@ == url@);
        assert(b.log.entries@[k].title@ == (found->0)@);
    }
    if exists|i: int| 0 <= i < b.log.entries@.len() && (#[trigger] b.log.entries@[i]).url@ == url@ {
        let i = choose|i: int|
            0 <= i < b.log.entries@.len() && (#[trigger] b.log.entries@[i]).url@ == url@;
        assert(b@.entries[i].url == url@);
    }
    if chosen {
        let i = choose|i: int| 0 <= i < v@.entries.len() && (#[trigger] v@.entries[i]).url == url@;
        assert(v.log.entries@[i].url@ == url@);
    }
    if exists|i: int| 0 <= i < v.log.entries@.len() && (#[trigger] v.log.entries@[i]).url@ == url@ {
        let i = choose|i: int|
            0 <= i < v.log.entries@.len() && (#[trigger] v.log.entries@[i]).url@ == url@;
        assert(v@.entries[i].url == url@);
    }
}

/// An address of the browser's own does what is said of its name.
pub proof fn own_addresses_are_served(
    p: &mut CceProtocol,
    path: &str,
    pairs: Vec<(String, String)>,
    now: u64,
    r: Option<String>,
)
    requires
        call_ensures(CceProtocol::route_pairs, (p, path, &pairs, now), r),
    ensures
        (final(p)@, view_opt(r)) == old(p)@.routed(path@, pair_views(pairs@), now),
{
}

/// The links of the pages do what they say: each asks for its page with its own address.
#[verifier::rlimit(40)]
pub proof fn own_links_are_served(p: &mut CceProtocol, url: &str, now: u64, r: Option<String>, to: Seq<char>)
    requires
        call_ensures(CceProtocol::route, (p, url, now), r),
        url@ == "cce://bookmarks/remove?url="@ + crate::weburl::form_text(to),
    ensures
        !has_entry(final(p)@.bookmarks.entries, to),
        final(p)@ == (ProtocolView { bookmarks: final(p)@.bookmarks, ..old(p)@ }),
{
    reveal_strlit("bookmarks/remove");
    reveal_strlit("cce://bookmarks/remove?url=");
    reveal_strlit("cce://");
    reveal_strlit("?url=");
    let act = "bookmarks/remove"@;
    assert(act[0] == 'b');
    assert(act.take(6)[0] == 'b');
    assert("cce://"@[0] == 'c');
    assert("cce://bookmarks/remove?url="@ =~= "cce://"@ + act + "?url="@);
    assert(url@ == "cce://"@ + act + "?url="@ + crate::weburl::form_text(to));
    crate::protocol::link_carries_its_address(act, to);
    crate::protocol::remove_link_removes(old(p)@, to, now);
}

/// What is running and what has ended of a download is noted of it.
pub proof fn downloads_are_followed(
    l: &mut Downloads,
    m: &mut Downloads,
    n: &mut Downloads,
    url: Url,
    name: String,
    path: String,
    now: u64,
    id: u64,
    u: Update,
)
    requires
        call_ensures(Downloads::start, (l, &url, name, path, now), id),
        call_ensures(Downloads::with_item, (m, id, u), ()),
        call_ensures(Downloads::clear_finished, (n,), ()),
    ensures
        id == old(l).next_id,
        final(l)@ == old(l)@.started(url@.text, name@, path@, None, now),
        final(m)@ == old(m)@.updated(id, u),
        final(n)@ == old(n)@.cleared(),
{
}

/// A file is fetched to the directory for downloads, under the first name that is free, and is listed under that
/// name and that place.
pub proof fn files_are_fetched_to_their_place(
    l: &mut Downloads,
    url: Url,
    dir: &str,
    taken: Vec<String>,
    now: u64,
    r: (u64, String),
)
    requires
        call_ensures(begin, (l, &url, dir, &taken, now), r),
        dir@.len() > 0,
        dir@.last() != '/',
    ensures
        ({
            let d = final(l)@.items.last();
            &&& final(l)@.items.len() == old(l)@.items.len() + 1
            &&& d.url == url@.text
            &&& d.path == r.1@
            &&& r.1@ == dir@ + seq!['/'] + d.filename
            &&& !crate::split::views(taken@).contains(d.filename)
            &&& d.id == r.0
            &&& d.state is Active
        }),
{
}

/// What the engine says of a transfer is noted of its download: how much has come, that it is done, that it failed.
pub proof fn transfers_report(
    t: Transfer,
    l: &mut Downloads,
    m: &mut Downloads,
    n: u64,
    why: String,
    failure: Update,
    success: Update,
)
    requires
        t.id is Some,
        call_ensures(Transfer::received, (&t, l, n), ()),
        call_ensures(Transfer::finished, (&t, m), ()),
        call_ensures(ended, (Err(why),), failure),
        call_ensures(ended, (Ok(()),), success),
    ensures
        final(l)@ == old(l)@.updated(t.id->0, Update::Received(n)),
        final(m)@ == old(m)@.updated(t.id->0, Update::Done),
        failure == Update::Failed(why),
        success is Done,
{
}

// ---------------------------------------------------------------------------------------------
// The right-click menu
// ---------------------------------------------------------------------------------------------

/// In every menu that is built, the item labelled `Forward` goes forward, the one labelled `Back` goes back, and so
/// on for each; and it has the items of the page.
pub proof fn built_menus_are_honest(
    info: ContextMenuInfo,
    favorited: bool,
    saveable: bool,
    m: CtxMenu,
    k: int,
)
    requires
        call_ensures(CtxMenu::build, (&info, favorited, saveable), m),
        0 <= k < m.items@.len(),
    ensures
        ({
            let i = m.items@[k];
            &&& honest(i@, info@)
            &&& i.label@ == "Back"@ ==> i.action is Back && i.enabled == info.can_go_back
            &&& i.label@ == "Forward"@ ==> i.action is Forward && i.enabled == info.can_go_forward
            &&& i.label@ == "Reload"@ ==> i.action is Reload && i.enabled
            &&& i.label@ == "Copy"@ ==> i.action is CopySelection
            &&& i.label@ == "Paste"@ ==> i.action is Paste
            &&& i.label@ == "Open in Other Browser"@ ==> i.action is OpenExternal
        }),
        has_item(m@, "Back"@),
        has_item(m@, "Forward"@),
        has_item(m@, "Reload"@),
{
    assert(m@[k] == m.items@[k]@);
    items_do_what_they_say(info@, favorited, saveable, k);
    menus_offer_what_is_there(info@, favorited, saveable);
}

/// Choosing an item of the open menu does what its label says.
pub proof fn chosen_items_come_true(
    a: &mut BrowserApp,
    b: &mut BrowserApp,
    info: ContextMenuInfo,
    k: usize,
    now: u64,
)
    requires
        call_ensures(BrowserApp::open_ctx_menu, (a, &info), ()),
        *old(b) == *final(a),
        final(a)@.ctx_menu is Some,
        k < (final(a)@.ctx_menu->0).len(),
        call_ensures(BrowserApp::dispatch_ctx_action, (b, k, now), ()),
    ensures
        came_true(
            (AppView { ctx_menu: None, ..old(a)@ }),
            (final(a)@.ctx_menu->0)[k as int],
            info@,
            final(b)@,
        ),
{
    choices_do_what_they_say(old(a)@, info@, k as int, now);
}

// ---------------------------------------------------------------------------------------------
// Accounts
// ---------------------------------------------------------------------------------------------

/// A password that arrives for an account of the open list is put into the page with that account's username, and
/// goes into the password's place.
pub proof fn passwords_arrive(a: &mut BrowserApp, path: &str, secret: Secret, k: int)
    requires
        call_ensures(BrowserApp::fill_account, (a, path, &secret), ()),
        old(a)@.ac_menu is Some,
        old(a)@.host.tabs[old(a)@.host.active as int].url is Some,
        (old(a)@.host.tabs[old(a)@.host.active as int].url->0).host == Some((old(a)@.ac_menu->0).host),
        0 <= k < (old(a)@.ac_menu->0).shown.len(),
        (old(a)@.ac_menu->0).shown[k].path == path@,
        forall|j: int| 0 <= j < k ==> (#[trigger] (old(a)@.ac_menu->0).shown[j]).path != path@,
    ensures
        final(a)@.host.outbox == old(a)@.host.outbox + seq![
            ActionView::RunScript(
                old(a)@.host.active,
                fills((old(a)@.ac_menu->0).shown[k].username, secret@),
            ),
        ],
        final(a)@.ac_menu is None,
{
    passwords_are_filled_in(old(a)@, path@, secret@, k);
}

/// The script that fills a form binds the username and the password, each in its place.
pub proof fn scripts_fill_both(user: &str, pass: &str, r: String)
    requires
        call_ensures(fill_js, (user, pass), r),
    ensures
        r@ == fills(user@, pass@),
{
}

/// Choosing a row, and a field that is reported, do what is said of them.
pub proof fn fields_and_rows_are_answered(
    a: &mut BrowserApp,
    b: &mut BrowserApp,
    k: usize,
    event: FormEvent,
    draw: bool,
)
    requires
        call_ensures(BrowserApp::pick_account, (a, k), ()),
        call_ensures(BrowserApp::on_form_event, (b, event), draw),
    ensures
        final(a)@ == old(a)@.account_picked(k as int),
        (final(b)@, draw) == old(b)@.form_seen(event@),
{
}

/// The index is asked for once; what it holds is offered on the hosts that it suits; and a collection that is
/// locked, or may be, is left alone.
pub proof fn the_index_is_asked(
    a: &mut Accounts,
    all: Accounts,
    host: &str,
    path: &str,
    request: Option<Request>,
    fetch: Request,
    offered: Vec<Account>,
    locked: Option<bool>,
    skip: bool,
)
    requires
        call_ensures(Accounts::ensure_loaded, (a,), request),
        call_ensures(Accounts::fetch, (&all, path), fetch),
        call_ensures(Accounts::matching, (&all, host), offered),
        call_ensures(skip_collection, (locked,), skip),
    ensures
        !old(a).loaded && !old(a).loading ==> request == Some(Request::Load) && final(a)@.loading,
        old(a).loaded || old(a).loading ==> request is None && *final(a) == *old(a),
        fetch is Fetch && (fetch->Fetch_0)@ == path@,
        crate::accounts::account_views(offered@) == crate::accounts::offered(all@.all, host@),
        skip <==> locked != Some(false),
{
}

/// A password is what it was made of, and is never written out.
pub proof fn passwords_are_kept(text: String, s: Secret, shown: &str, logged: String)
    requires
        call_ensures(Secret::new, (text,), s),
        call_ensures(Secret::expose, (&s,), shown),
        call_ensures(Secret::debug_text, (&s,), logged),
    ensures
        shown@ == text@,
        logged@ == "Secret(\u{2026})"@,
{
}

/// Why the keyring could not be read is said as it is.
pub proof fn keyring_failures_are_told(why: &str, a: String, b: String)
    requires
        call_ensures(keyring_unreachable, (why,), a),
        call_ensures(keyring_unlisted, (why,), b),
    ensures
        a@ == "no secret service: "@ + why@,
        b@ == "listing collections failed: "@ + why@,
{
}

// ---------------------------------------------------------------------------------------------
// The browser
// ---------------------------------------------------------------------------------------------

/// Keys, buttons, the wheel, moves of the pointer and messages do what is said of them.
pub proof fn events_are_handled(
    a: &mut BrowserApp,
    b: &mut BrowserApp,
    c: &mut BrowserApp,
    d: &mut BrowserApp,
    e: &mut BrowserApp,
    key: KeyEvent,
    offered: Option<String>,
    button: MouseButton,
    state: ElementState,
    hits: Hits,
    up: bool,
    msg: Message,
    existing: Option<&str>,
    now: u64,
    after_key: Option<Message>,
    after_click: Option<Message>,
)
    requires
        call_ensures(BrowserApp::handle_key_input, (a, &key, offered, now), after_key),
        call_ensures(BrowserApp::handle_mouse_input, (b, button, state, &hits, now), after_click),
        call_ensures(BrowserApp::handle_mouse_wheel, (c, up, &hits), ()),
        call_ensures(BrowserApp::handle_pointer_move, (d, &hits), ()),
        call_ensures(BrowserApp::update, (e, msg, existing, now), ()),
    ensures
        (final(a)@, message_opt(after_key)) == old(a)@.key_handled(key, view_opt(offered), now),
        (final(b)@, message_opt(after_click)) == old(b)@.button_handled(button, state, hits, now),
        final(c)@ == old(c)@.wheel_handled(up, hits),
        final(d)@ == old(d)@.move_handled(hits),
        final(e)@ == old(e)@.updated(msg@, str_opt(existing), now),
{
}

/// The commands of the browser do what is said of them.
pub proof fn commands_are_carried_out(
    a: &mut BrowserApp,
    b: &mut BrowserApp,
    c: &mut BrowserApp,
    d: &mut BrowserApp,
    e: &mut BrowserApp,
    f: &mut BrowserApp,
    g: &mut BrowserApp,
    h: &mut BrowserApp,
    url: Url,
    page: &str,
    i: usize,
    now: u64,
    last: Option<Message>,
)
    requires
        call_ensures(BrowserApp::open_tab, (a, url), ()),
        call_ensures(BrowserApp::close_tab, (b, i), last),
        call_ensures(BrowserApp::switch_tab, (c, i), ()),
        call_ensures(BrowserApp::open_internal_page, (d, page), ()),
        call_ensures(BrowserApp::toggle_favorite, (e, now), ()),
        call_ensures(BrowserApp::toggle_bookmark, (f, now), ()),
        call_ensures(BrowserApp::open_external, (g,), ()),
        call_ensures(BrowserApp::navigate, (h,), ()),
    ensures
        final(a)@ == old(a)@.tab_opened(url@),
        (final(b)@, message_opt(last)) == old(b)@.tab_closed(i as int),
        final(c)@ == old(c)@.tab_switched(i as int),
        final(d)@ == old(d)@.internal_opened(page@, url_parse(page@)),
        final(e)@ == old(e)@.favorite_switched(now),
        final(f)@ == old(f)@.bookmark_switched(now),
        final(g)@ == old(g)@.opened_outside(),
        final(h)@ == old(h)@.navigated(old(h)@.meant()),
{
}

/// Going where the address bar means loads that in the tab that is shown, and gives the focus back to the page.
pub proof fn the_bar_navigates(a: &mut BrowserApp, u: UrlView)
    requires
        call_ensures(BrowserApp::navigate, (a,), ()),
        crate::address::input_url(old(a)@.url.text, old(a)@.settings.search_prefix) == Some(u),
    ensures
        final(a)@.host.outbox == old(a)@.host.outbox.push(
            ActionView::Load(old(a)@.host.active, u.text),
        ),
        final(a)@.host.tabs == old(a)@.host.tabs,
        !final(a)@.url_focused,
        !final(a)@.chrome_open,
        final(a)@.loading,
{
    reveal(AppView::navigated);
}

/// Handing a page to another browser hands over the page that is shown, with the command that is set.
pub proof fn pages_are_handed_over(a: &mut BrowserApp)
    requires
        call_ensures(BrowserApp::open_external, (a,), ()),
        old(a)@.host.tabs[old(a)@.host.active as int].url is Some,
    ensures
        final(a)@.host.outbox == old(a)@.host.outbox.push(
            ActionView::OpenOutside(
                (old(a)@.host.tabs[old(a)@.host.active as int].url->0).text,
                old(a)@.settings.external_browser,
            ),
        ),
{
    reveal(AppView::opened_outside);
}

/// The menus and prompts open, are answered and go as is said of them.
pub proof fn menus_and_prompts_are_run(
    a: &mut BrowserApp,
    b: &mut BrowserApp,
    c: &mut BrowserApp,
    d: &mut BrowserApp,
    e: &mut BrowserApp,
    f: &mut BrowserApp,
    g: &mut BrowserApp,
    i: usize,
    cap: usize,
    new_tab: bool,
    ok: bool,
    hit: BmHit,
    button: MouseButton,
    now: u64,
    shown: bool,
)
    requires
        call_ensures(BrowserApp::open_bm_menu, (a,), ()),
        call_ensures(BrowserApp::close_bm_menu, (b,), ()),
        call_ensures(BrowserApp::bm_open, (c, i, new_tab), ()),
        call_ensures(BrowserApp::bm_remove, (d, i, cap), ()),
        call_ensures(BrowserApp::bm_click, (e, button, hit, cap, now), ()),
        call_ensures(BrowserApp::sync_modal, (f,), shown),
        call_ensures(BrowserApp::close_modal, (g, ok), ()),
    ensures
        final(a)@ == old(a)@.bm_menu_opened(),
        final(b)@ == (AppView { bm_menu: None, ..old(b)@ }),
        final(c)@ == old(c)@.visited(old(c)@.bm_parsed(i as int), new_tab),
        final(d)@ == old(d)@.bm_dropped(i as int, cap as int),
        final(e)@ == old(e)@.bm_clicked(button, hit, cap as int, now),
        (final(f)@, shown) == old(f)@.modal_synced(),
        final(g)@ == old(g)@.modal_closed(ok),
{
}

/// The browser of a launch holds what was saved, what it was given and what is set.
pub proof fn the_browser_starts(
    settings: Settings,
    accounts_on: bool,
    text: &str,
    arg: Option<&str>,
    existing: Option<&str>,
    pages: CceProtocol,
    r: Option<BrowserApp>,
)
    requires
        call_ensures(BrowserApp::new, (settings, accounts_on, text, arg, existing, pages), r),
        r is Some,
    ensures
        (r->0)@.settings == settings@,
        (r->0)@.accounts_on == accounts_on,
        (r->0)@.pages == pages@,
        (r->0)@.last == Some(text@),
        !(r->0)@.exit,
        (r->0)@.favs == crate::pages::strip(pages@.favorites.entries),
{
    reveal(crate::browser::launch::launched);
}

/// Settings that changed are taken up, and with them the directory for downloads.
pub proof fn changed_settings_are_taken(
    a: &mut BrowserApp,
    new: Settings,
    accounts_on: bool,
    place: &mut DownloadDir,
    r: bool,
)
    requires
        call_ensures(BrowserApp::reload_settings, (a, new, accounts_on, place), r),
    ensures
        final(a)@ == old(a)@.settings_taken(new@, accounts_on),
        r <==> !(new@.says(old(a)@.settings) && accounts_on == old(a)@.accounts_on),
        r ==> view_opt(final(place).chosen) == new@.download_dir,
        !r ==> view_opt(final(place).chosen) == view_opt(old(place).chosen),
{
}

/// The settings of a configuration are what is said of it.
pub proof fn configurations_are_loaded(config: Config, home: &str, r: Settings)
    requires
        call_ensures(load, (&config, home), r),
    ensures
        r@ == settings_of(config, home@),
{
}

/// The session is saved where it changed, and as what is said of it.
pub proof fn sessions_are_saved(s: Session, tabs: Vec<(String, bool)>, r: Option<String>)
    requires
        call_ensures(Session::save, (&s, &tabs), r),
    ensures
        r is Some ==> (r->0)@ == session_text(tab_views(tabs@)),
        r is None <==> view_opt(s.last) == Some(session_text(tab_views(tabs@))),
{
}

/// A launch sends what it was given to the browser that runs, over that browser's socket, and is understood there.
pub proof fn launches_are_sent(
    arg: Option<&str>,
    absolute: Option<&str>,
    display: Option<&str>,
    line: &str,
    sent: String,
    socket: String,
    heard: Option<Message>,
    read: Option<Message>,
)
    requires
        call_ensures(launch_command, (arg, absolute), sent),
        call_ensures(socket_path, (display,), socket),
        call_ensures(parse_command, (line,), heard),
        call_ensures(read_command, (line,), read),
    ensures
        sent@ == crate::instance::command_text(str_opt(arg), str_opt(absolute)),
        socket@ == crate::instance::socket_of(str_opt(display)),
        message_opt(heard) == crate::instance::command_of(line@),
        message_opt(read) == crate::instance::command_of(crate::text::trimmed(line@)),
{
}

/// A launch asks the browser that runs; where none answers it takes the socket, and where that is lost it asks once
/// more and then starts on its own. It exits only where another took it over.
pub proof fn launches_settle(worked: bool, a: Claim, b: Claim, c: Claim)
    requires
        call_ensures(Claim::next, (Claim::Asking, worked), a),
        call_ensures(Claim::next, (Claim::Binding, worked), b),
        call_ensures(Claim::next, (Claim::AskingAgain, worked), c),
    ensures
        a == (if worked {
            Claim::Forwarded
        } else {
            Claim::Binding
        }),
        b == (if worked {
            Claim::Claimed
        } else {
            Claim::AskingAgain
        }),
        c == (if worked {
            Claim::Forwarded
        } else {
            Claim::Standalone
        }),
{
}

/// What a launch does at each stage.
pub proof fn launches_act(stage: Claim, r: ClaimAction)
    requires
        call_ensures(Claim::action, (stage,), r),
    ensures
        stage is Asking || stage is AskingAgain ==> r is Forward,
        stage is Binding ==> r is Bind,
        stage is Forwarded ==> r is Exit,
        stage is Claimed ==> r is Listen,
        stage is Standalone ==> r is Start,
{
}

/// A field is edited by a key as is said of it, and what that copies is what goes to the clipboard.
pub proof fn fields_are_edited(
    l: &mut LineEdit,
    key: KeyEvent,
    clipboard: &mut Clipboard,
    r: EditOutcome,
)
    requires
        call_ensures(LineEdit::handle_key, (l, &key, clipboard), r),
    ensures
        ({
            let (line, outcome, copied) = old(l)@.step(key, old(clipboard).offer());
            &&& final(l)@ == line
            &&& r == outcome
            &&& copied is Some ==> final(clipboard).copy() == copied
            &&& copied is None ==> *final(clipboard) == *old(clipboard)
        }),
{
}

/// What a field shows is its text, or as many bullets.
pub proof fn fields_show_their_text(l: LineEdit, r: String, k: int)
    requires
        call_ensures(LineEdit::display, (&l,), r),
    ensures
        !l.masked ==> r@ == l.text@,
        l.masked ==> r@.len() == l.text@.len() && (0 <= k < r@.len() ==> r@[k] == '\u{2022}'),
{
}

/// What is logged of a message names it, and says nothing of a password.
pub proof fn messages_are_logged(path: String, secret: Secret, arg: String, a: String, b: String)
    requires
        call_ensures(Message::debug_text, (&Message::Credential(path, secret),), a),
        call_ensures(Message::debug_text, (&Message::OpenExternal(Some(arg)),), b),
    ensures
        a@ == "Credential(\""@ + path@ + "\", "@ + "Secret(\u{2026})"@ + ")"@,
        b@ == "OpenExternal(Some(\""@ + arg@ + "\"))"@,
{
}

/// Markup, events of the watcher, labels and waits are what is said of them.
pub proof fn the_rest_is_as_said(
    s: &str,
    title: Option<String>,
    url: Option<Url>,
    account: Account,
    timeout: Option<u64>,
    markup: String,
    event: Option<FormEvent>,
    label: String,
    rows: (String, String),
    wait: u64,
)
    requires
        call_ensures(html_escape, (s,), markup),
        call_ensures(parse_event, (s,), event),
        call_ensures(tab_label, (&title, &url), label),
        call_ensures(account_lines, (&account,), rows),
        call_ensures(next_wake, (timeout,), wait),
    ensures
        markup@ == escaped(s@),
        crate::wpe::formwatch::event_opt(event) == crate::wpe::formwatch::parsed_event(s@),
        label@ == crate::labels::pill_text(view_opt(title), url_opt(url)),
        (rows.0@, rows.1@) == crate::menus::account_rows(account@),
        wait == crate::wpe::host::wake_after(timeout),
{
}

// ---------------------------------------------------------------------------------------------
// The rest of the stores
// ---------------------------------------------------------------------------------------------

/// Favorites are renamed, moved and switched as is said of them, and a snapshot is the strip; the bookmarks' is
/// theirs from the newest.
#[verifier::rlimit(40)]
pub proof fn favorites_change_as_asked(
    a: &mut Favorites,
    b: &mut Favorites,
    c: &mut Favorites,
    v: Favorites,
    k: Bookmarks,
    url: &str,
    title: &str,
    delta: isize,
    now: u64,
    chosen: bool,
    strip: Vec<Favorite>,
    newest: Vec<Favorite>,
    i: int,
)
    requires
        call_ensures(Favorites::rename, (a, url, title), ()),
        call_ensures(Favorites::shift, (b, url, delta), ()),
        call_ensures(Favorites::toggle, (c, url, title, now), chosen),
        call_ensures(Favorites::snapshot, (&v,), strip),
        call_ensures(Bookmarks::snapshot, (&k,), newest),
    ensures
        final(a)@ == crate::pages::favorite_renamed(old(a)@, url@, label_of(url@, title@)),
        final(b)@ == crate::pages::favorite_shifted(old(b)@, url@, delta as int),
        has_entry(old(c)@.entries, url@) ==> !chosen && !has_entry(final(c)@.entries, url@),
        !has_entry(old(c)@.entries, url@) && one_line(url@) && !"cce:"@.is_prefix_of(url@) && url@
            != "about:blank"@ ==> chosen && final(c)@.entries.last().url == url@
            && final(c)@.entries.drop_last() == old(c)@.entries,
        strip@.len() == v.log.entries@.len(),
        0 <= i < strip@.len() ==> strip@[i].url@ == v.log.entries@[i].url@,
        newest@.len() == k.log.entries@.len(),
        0 <= i < newest@.len() ==> newest@[i].url@ == k.log.entries@[newest@.len() - 1 - i].url@,
{
    crate::store::lemma_entries_but(old(c)@.entries, url@);
    crate::store::sanitized_is_one_line(url@);
    let s = crate::pages::favorite_views(strip@);
    let n = crate::pages::favorite_views(newest@);
    assert(s.len() == strip@.len() && n.len() == newest@.len());
    if 0 <= i < strip@.len() {
        assert(s[i] == strip@[i]@);
    }
    if 0 <= i < newest@.len() {
        assert(n[i] == newest@[i]@);
    }
    if !has_entry(old(c)@.entries, url@) {
        let e = final(c)@.entries;
        assert(e.len() > 0 ==> e.drop_last() =~= old(c)@.entries || e == old(c)@.entries);
        if one_line(url@) && !"cce:"@.is_prefix_of(url@) && url@ != "about:blank"@ {
            assert(e.last().url == url@);
            assert(e.drop_last() =~= old(c)@.entries);
        }
    }
}

/// What is kept of a store is read as the store that was kept.
pub proof fn stores_are_read(text: &str, h: History, b: Bookmarks, v: Favorites, l: Vec<crate::store::Entry>)
    requires
        call_ensures(History::load, (text,), h),
        call_ensures(Bookmarks::load, (text,), b),
        call_ensures(Favorites::load, (text,), v),
        call_ensures(crate::store::read_tsv, (text,), l),
    ensures
        h@.entries == crate::store::tsv_entries(text@),
        b@.entries == crate::store::tsv_entries(text@),
        v@.entries == crate::store::tsv_entries(text@),
        crate::store::entry_views(l@) == crate::store::tsv_entries(text@),
        h@.change.text.len() == 0 && !h@.change.replace,
{
}

/// A session is read as the tabs that its lines name, and what was read is what was last saved.
pub proof fn sessions_are_read(s: &mut Session, text: &str, r: (Vec<Url>, usize))
    requires
        call_ensures(Session::load, (s, text), r),
    ensures
        crate::session::url_views(r.0@) == crate::session::tab_urls(
            crate::session::line_tabs(crate::split::lines(text@)),
        ),
        r.1 == crate::session::active_tab(crate::session::line_tabs(crate::split::lines(text@))),
        final(s).last is Some,
        (final(s).last->0)@ == text@,
{
}

/// A transfer whose destination is decided is a download in the list, at that place, under the first name that is free
/// after the one that was suggested, with the length that was announced.
#[verifier::rlimit(40)]
pub proof fn transfers_begin(
    t: &mut Transfer,
    l: &mut Downloads,
    uri: String,
    name: String,
    dir: &str,
    taken: Vec<String>,
    length: u64,
    now: u64,
    r: String,
)
    requires
        call_ensures(
            Transfer::decide,
            (t, l, Some(uri), Some(name), dir, &taken, length, now),
            r,
        ),
        dir@.len() > 0,
        dir@.last() != '/',
    ensures
        ({
            let d = final(l)@.items.last();
            &&& final(l)@.items.len() == old(l)@.items.len() + 1
            &&& final(t).id == Some(d.id)
            &&& d.url == uri@
            &&& d.path == r@
            &&& r@ == dir@ + seq!['/'] + d.filename
            &&& !crate::split::views(taken@).contains(d.filename)
            &&& !crate::split::views(taken@).contains(name@) ==> d.filename == name@
            &&& length > 0 ==> d.total == Some(length)
            &&& length == 0 ==> d.total is None
        }),
{
    let d = final(l)@.items.last();
    if !crate::split::views(taken@).contains(name@) {
        let n = choose|n: nat|
            d.filename == #[trigger] crate::downloads::candidate(name@, n)
                && crate::transfers::taken_before(name@, crate::split::views(taken@), n)
                && !crate::split::views(taken@).contains(d.filename);
        if n > 0 {
            assert(crate::split::views(taken@).contains(crate::downloads::candidate(name@, 0)));
        }
    }
}

/// The keyring's entries become accounts, each under its own handle.
pub proof fn keyring_entries_are_read(
    path: String,
    label: String,
    attrs: Vec<(String, String)>,
    r: Option<Account>,
)
    requires
        call_ensures(crate::accounts::account_from, (path, label, &attrs), r),
    ensures
        r is Some <==> crate::accounts::account_of(path@, label@, pair_views(attrs@)) is Some,
        r is Some ==> crate::accounts::account_of(path@, label@, pair_views(attrs@)) == Some((r->0)@),
        r is Some ==> (r->0).path@ == path@ && (r->0).label@ == label@,
{
}

/// A text that is too long is cut where it still fits, with dots after it: for a room of so many characters, all of them
/// are used.
#[verifier::rlimit(40)]
pub proof fn long_texts_are_cut<F: Fn(&str) -> bool>(text: &str, fits: F, room: nat, r: String)
    requires
        call_ensures(crate::labels::fit_text::<F>, (text, fits), r),
        forall|s: &str, b: bool|
            #[trigger] call_ensures(fits, (s,), b) ==> b == (s@.len() <= room),
    ensures
        text@.len() <= room ==> r@ == text@,
        text@.len() > room && room >= 3 ==> r@ == text@.take(room - 3) + "..."@,
        text@.len() > room && room < 3 ==> r@.len() == 0,
{
    reveal_strlit("...");
    let t = text@;
    if r@ == t && crate::labels::said(fits, t, true) {
    } else if crate::labels::said(fits, t, false) && exists|k: int|
        0 <= k < t.len() && r@ == #[trigger] crate::labels::cut_label(t, k) && crate::labels::said(
            fits,
            crate::labels::cut_label(t, k),
            true,
        ) && forall|j: int|
            k < j < t.len() ==> crate::labels::said(
                fits,
                #[trigger] crate::labels::cut_label(t, j),
                false,
            ) {
        let k = choose|k: int|
            0 <= k < t.len() && r@ == #[trigger] crate::labels::cut_label(t, k)
                && crate::labels::said(fits, crate::labels::cut_label(t, k), true) && forall|j: int|
                k < j < t.len() ==> crate::labels::said(
                    fits,
                    #[trigger] crate::labels::cut_label(t, j),
                    false,
                );
        assert(k + 3 <= room);
        if k + 3 < room {
            assert(crate::labels::said(fits, crate::labels::cut_label(t, room - 3), false));
        }
    } else if room >= 3 && t.len() > room {
        assert(crate::labels::said(fits, crate::labels::cut_label(t, room - 3), false));
    }
}

/// The parts of an address are read from it, and a parameter by its name.
pub proof fn addresses_are_taken_apart(
    url: Url,
    pairs: Vec<(String, String)>,
    name: &str,
    text: &str,
    scheme: &str,
    host: Option<&str>,
    path: &str,
    found: Option<String>,
)
    requires
        call_ensures(Url::as_str, (&url,), text),
        call_ensures(Url::scheme, (&url,), scheme),
        call_ensures(Url::host_str, (&url,), host),
        call_ensures(Url::path, (&url,), path),
        call_ensures(crate::weburl::find_param, (&pairs, name), found),
    ensures
        text@ == url@.text,
        scheme@ == url@.scheme,
        host is Some <==> url@.host is Some,
        host is Some ==> url@.host == Some((host->0)@),
        path@ == url@.path,
        view_opt(found) == crate::weburl::first_value(pair_views(pairs@), name@),
{
}

/// A file that nothing is called like yet keeps the name that its address gives it.
pub proof fn free_names_are_kept(
    l: &mut Downloads,
    url: Url,
    dir: &str,
    taken: Vec<String>,
    now: u64,
    r: (u64, String),
)
    requires
        call_ensures(begin, (l, &url, dir, &taken, now), r),
        !crate::split::views(taken@).contains(crate::downloads::file_name(url@)),
    ensures
        final(l)@.items.last().filename == crate::downloads::file_name(url@),
{
    let first = crate::downloads::file_name(url@);
    let d = final(l)@.items.last();
    let n = choose|n: nat|
        d.filename == #[trigger] crate::downloads::candidate(first, n)
            && crate::transfers::taken_before(first, crate::split::views(taken@), n)
            && !crate::split::views(taken@).contains(d.filename);
    if n > 0 {
        assert(crate::split::views(taken@).contains(crate::downloads::candidate(first, 0)));
    }
}

// ---------------------------------------------------------------------------------------------
// The rest of the browser
// ---------------------------------------------------------------------------------------------

/// A launch opens the tabs of the saved text, in order, with the marked one shown; its argument comes on top of them.
#[verifier::rlimit(40)]
pub proof fn the_browser_restores_its_tabs(
    settings: Settings,
    accounts_on: bool,
    text: &str,
    pages: CceProtocol,
    r: Option<BrowserApp>,
    i: int,
)
    requires
        call_ensures(BrowserApp::new, (settings, accounts_on, text, None, None, pages), r),
        ({
            let saved = crate::session::tab_urls(
                crate::session::line_tabs(crate::split::lines(text@)),
            );
            let active = crate::session::active_tab(
                crate::session::line_tabs(crate::split::lines(text@)),
            );
            0 <= i < saved.len() && saved.len() < usize::MAX && 0 <= active < saved.len()
        }),
    ensures
        ({
            let saved = crate::session::tab_urls(
                crate::session::line_tabs(crate::split::lines(text@)),
            );
            let active = crate::session::active_tab(
                crate::session::line_tabs(crate::split::lines(text@)),
            );
            &&& r is Some
            &&& (r->0)@.host.tabs.len() == saved.len()
            &&& (r->0)@.host.tabs[i].url == Some(saved[i])
            &&& (r->0)@.host.active == active
            &&& (r->0)@.host.history_enabled == settings@.history
        }),
{
    let saved = crate::session::tab_urls(crate::session::line_tabs(crate::split::lines(text@)));
    let active = crate::session::active_tab(
        crate::session::line_tabs(crate::split::lines(text@)),
    );
    let start = crate::browser::launch::start_page(
        None,
        crate::address::input_url(settings@.homepage, settings@.search_prefix),
        url_parse(crate::settings::DEFAULT_HOMEPAGE@),
    );
    let first = match start {
        Some(u) => u,
        None => saved[0],
    };
    crate::outcomes::news::launches_restore_what_was_open(saved, active, first, first, i);
    reveal(crate::browser::launch::launched);
    crate::outcomes::news::launches_apply_the_settings(
        crate::browser::launch::launch_host(saved, active, None, first),
        settings@,
        accounts_on,
        Some(text@),
        pages@,
    );
    crate::outcomes::addresses::schemes_reach_the_pages(
        crate::browser::launch::launch_host(saved, active, None, first),
        settings@,
    );
    assert((r->0)@.host.active == crate::browser::launch::launch_host(
        saved,
        active,
        None,
        first,
    ).active) by {
        lemma_scheme_keeps_the_tab(
            crate::browser::launch::launch_host(saved, active, None, first),
            settings@,
        );
    }
}

proof fn lemma_scheme_keeps_the_tab(h: crate::wpe::host::HostView, s: crate::settings::SettingsView)
    ensures
        crate::browser::commands::scheme_applied(h, s).active == h.active,
{
    let on = s.color_scheme == crate::settings::ColorScheme::ForceDark;
    let told = (crate::wpe::host::HostView { history_enabled: s.history, ..h }).told(
        ActionView::PreferDark(s.color_scheme == crate::settings::ColorScheme::Dark),
    );
    if on != h.force_dark {
        crate::outcomes::addresses::lemma_reloading(
            (crate::wpe::host::HostView { force_dark: on, ..told }).told(
                ActionView::InvertPages(on),
            ),
            told.tabs.len(),
        );
    }
}

/// The bar comes out and goes, the engine's news, a later launch and a change of focus are taken, and the caret is where
/// the address bar has it while it has the focus.
pub proof fn the_browser_is_run(
    a: &mut BrowserApp,
    b: &mut BrowserApp,
    c: &mut BrowserApp,
    d: &mut BrowserApp,
    e: &mut BrowserApp,
    f: BrowserApp,
    up: bool,
    cap: usize,
    now: u64,
    u: Url,
    caret: Option<usize>,
)
    requires
        call_ensures(BrowserApp::open_chrome, (a,), ()),
        call_ensures(BrowserApp::close_chrome, (b,), ()),
        call_ensures(BrowserApp::bm_scroll, (c, up, cap), ()),
        call_ensures(BrowserApp::spin, (d, now), ()),
        call_ensures(BrowserApp::answer_launch, (e, Some(Some(u))), ()),
        call_ensures(BrowserApp::caret, (&f,), caret),
    ensures
        final(a)@ == (AppView { chrome_open: true, ..old(a)@ }),
        final(b)@ == old(b)@.chrome_closed(),
        old(c)@.bm_menu is Some ==> final(c)@ == (AppView {
            bm_menu: Some((old(c)@.bm_menu->0).scrolled(up, cap as int)),
            ..old(c)@
        }),
        final(d)@ == old(d)@.spun(now),
        final(e)@ == old(e)@.launch_answered(Some(Some(u@))),
        f.url_focused ==> caret == Some(f.url.cursor),
        !f.url_focused ==> caret is None,
{
}

/// The host of the page that is shown, and whether the page can be saved, are read from its address.
pub proof fn the_page_is_asked(a: BrowserApp, host: Option<String>, can: bool)
    requires
        call_ensures(BrowserApp::page_host, (&a,), host),
        call_ensures(BrowserApp::saveable, (&a,), can),
        a@.host.tabs[a@.host.active as int].url is Some,
    ensures
        ({
            let u = a@.host.tabs[a@.host.active as int].url->0;
            &&& view_opt(host) == u.host
            &&& can <==> u.scheme != "cce"@ && u.scheme != "about"@
        }),
{
}

/// A frame is turned into a picture of the same size, pixel by pixel; without an extent there is none.
pub proof fn frames_become_pictures(
    src: Vec<u8>,
    width: u32,
    height: u32,
    stride: usize,
    r: Option<Vec<u8>>,
    x: int,
    y: int,
)
    requires
        call_ensures(crate::pixels::rgba_from_bgra, (&src, width, height, stride), r),
    ensures
        width == 0 || height == 0 ==> r is None,
        0 <= x < width && 0 <= y < height ==> ({
            let at = (y * width + x) * 4;
            let from = y * stride + x * 4;
            &&& r is Some
            &&& (r->0)@.len() == width * height * 4
            &&& (r->0)@[at] == src@[from + 2]
            &&& (r->0)@[at + 1] == src@[from + 1]
            &&& (r->0)@[at + 2] == src@[from]
            &&& (r->0)@[at + 3] == src@[from + 3]
        }),
{
    if 0 <= x < width && 0 <= y < height {
        crate::outcomes::values::pixels_keep_their_place(src@, width as int, stride as int, x, y);
        let at = (y * width + x) * 4;
        assert(0 <= at && at + 4 <= width * height * 4) by (nonlinear_arith)
            requires
                0 <= x < width,
                0 <= y < height,
                at == (y * width + x) * 4,
        ;
    }
}

/// Lines, fields, paths and changes of a file are what is said of them.
pub proof fn files_are_written(
    e: crate::store::Entry,
    es: Vec<crate::store::Entry>,
    s: &str,
    t: &str,
    c: &mut crate::store::Change,
    line: String,
    text: String,
    field: String,
    path: String,
    dir: String,
    taken: crate::store::Change,
)
    requires
        call_ensures(crate::store::write_line, (&e,), line),
        call_ensures(crate::store::write_tsv, (&es,), text),
        call_ensures(crate::store::sanitize, (s,), field),
        call_ensures(crate::paths::join_path, (s, t), path),
        call_ensures(crate::paths::state_dir, (Some(s), Some(t)), dir),
        call_ensures(crate::store::Change::take, (c,), taken),
    ensures
        line@ == crate::store::entry_line(e@),
        text@ == crate::store::tsv_text(crate::store::entry_views(es@)),
        field@ == crate::store::sanitized(s@),
        path@ == crate::paths::joined(s@, t@),
        dir@ == crate::paths::state_dir_of(Some(s@), Some(t@)),
        taken == *old(c),
        final(c)@.text.len() == 0 && !final(c)@.replace,
{
}

/// A list of entries is written line by line, in order.
pub proof fn lists_are_written_in_order(es: Seq<EntryView>, e: EntryView)
    ensures
        crate::store::tsv_text(es.push(e)) == crate::store::tsv_text(es) + crate::store::entry_line(e),
        crate::store::tsv_text(Seq::empty()).len() == 0,
{
    assert(es.push(e).drop_last() =~= es);
}

/// The account list is narrowed and stepped through, and the bookmarks menu scrolled, as is said of them.
pub proof fn lists_are_run(
    a: &mut AcMenu,
    b: &mut AcMenu,
    m: &mut crate::menus::BmMenu,
    typed: &str,
    delta: isize,
    up: bool,
    cap: usize,
)
    requires
        call_ensures(AcMenu::refilter, (a, typed), ()),
        call_ensures(AcMenu::step, (b, delta), ()),
        call_ensures(crate::menus::BmMenu::wheel, (m, up, cap), ()),
    ensures
        final(a)@ == old(a)@.refiltered(typed@),
        final(b)@ == old(b)@.stepped(delta as int),
        final(m)@ == old(m)@.scrolled(up, cap as int),
{
}

/// A new field is empty, a password's is masked, and one with a text has the caret at its end.
pub proof fn fields_start_as_said(text: String, a: LineEdit, b: LineEdit, c: LineEdit)
    requires
        call_ensures(LineEdit::new, (), a),
        call_ensures(LineEdit::masked, (), b),
        call_ensures(LineEdit::with_text, (text,), c),
    ensures
        a@.text.len() == 0 && !a@.masked,
        b@.text.len() == 0 && b@.masked,
        c@.text == text@ && !c@.masked && c@.caret == text@.len() && c@.selection is None,
{
}

/// The colors that the settings name are told apart.
pub proof fn colors_are_told_apart(s: crate::settings::ColorScheme, dark: bool, forced: bool)
    requires
        call_ensures(crate::settings::ColorScheme::is_dark, (s,), dark),
        call_ensures(crate::settings::ColorScheme::forces_dark, (s,), forced),
    ensures
        dark <==> s == crate::settings::ColorScheme::Dark,
        forced <==> s == crate::settings::ColorScheme::ForceDark,
{
}

} // verus!
