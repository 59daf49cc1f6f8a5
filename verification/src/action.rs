//! What the browser decides to have done, for the engine and the desktop to do in order.

use vstd::prelude::*;

use crate::accounts::Request;
use crate::message::EditingCommand;
use crate::weburl::view_opt;

verus! {

/// One thing to be done. Tabs are counted as they stand when its turn comes.
pub enum Action {
    /// Make a page view for a new last tab, and load this address in it.
    Build(String),
    /// Destroy the page view of a tab, and take the tab off the strip.
    Discard(usize),
    /// Take a tab's page view off the window.
    Hide(usize),
    /// Put a tab's page view on the window, at its size.
    Show(usize),
    /// Load an address in a tab.
    Load(usize, String),
    Reload(usize),
    Back(usize),
    Forward(usize),
    /// Hand the system's clipboard to the engine.
    SyncClipboard,
    /// Have the page of a tab copy, cut or paste.
    Edit(usize, EditingCommand),
    /// Install or remove the inverting stylesheet.
    InvertPages(bool),
    /// Tell pages whether to prefer dark.
    PreferDark(bool),
    /// Start or stop watching pages for login fields.
    WatchForms(bool),
    /// Reply to a page's prompt: the text, or that it was cancelled.
    PromptText(Option<String>),
    /// Reply to a page's question.
    Confirm(bool),
    /// Let the page go on.
    CloseDialog,
    /// Answer an authentication challenge, for this session only.
    Authenticate(String, String),
    CancelAuthentication,
    /// Run a script in the watcher's world, in a tab.
    RunScript(usize, String),
    /// Fetch an address to a file.
    Download(String),
    /// Hand the key event to the page of a tab.
    ForwardKey(usize),
    /// Hand the pointer event to the page of a tab.
    ForwardPointer(usize),
    /// Put a text on the clipboard.
    CopyText(String),
    /// Open an address in another browser, by this command where one is set.
    OpenOutside(String, Option<String>),
    /// Ask the keyring.
    Ask(Request),
    /// Write the session file.
    SaveSession(String),
    /// Bring the window to the user.
    RaiseWindow,
}

/// What is to be done, as texts.
#[verifier::ext_equal]
pub enum ActionView {
    Build(Seq<char>),
    Discard(usize),
    Hide(usize),
    Show(usize),
    Load(usize, Seq<char>),
    Reload(usize),
    Back(usize),
    Forward(usize),
    SyncClipboard,
    Edit(usize, EditingCommand),
    InvertPages(bool),
    PreferDark(bool),
    WatchForms(bool),
    PromptText(Option<Seq<char>>),
    Confirm(bool),
    CloseDialog,
    Authenticate(Seq<char>, Seq<char>),
    CancelAuthentication,
    RunScript(usize, Seq<char>),
    Download(Seq<char>),
    ForwardKey(usize),
    ForwardPointer(usize),
    CopyText(Seq<char>),
    OpenOutside(Seq<char>, Option<Seq<char>>),
    LoadAccounts,
    FetchSecret(Seq<char>),
    SaveSession(Seq<char>),
    RaiseWindow,
}

impl View for Action {
    type V = ActionView;

    open spec fn view(&self) -> ActionView {
        match self {
            Action::Build(u) => ActionView::Build(u@),
            Action::Discard(i) => ActionView::Discard(*i),
            Action::Hide(i) => ActionView::Hide(*i),
            Action::Show(i) => ActionView::Show(*i),
            Action::Load(i, u) => ActionView::Load(*i, u@),
            Action::Reload(i) => ActionView::Reload(*i),
            Action::Back(i) => ActionView::Back(*i),
            Action::Forward(i) => ActionView::Forward(*i),
            Action::SyncClipboard => ActionView::SyncClipboard,
            Action::Edit(i, c) => ActionView::Edit(*i, *c),
            Action::InvertPages(b) => ActionView::InvertPages(*b),
            Action::PreferDark(b) => ActionView::PreferDark(*b),
            Action::WatchForms(b) => ActionView::WatchForms(*b),
            Action::PromptText(t) => ActionView::PromptText(view_opt(*t)),
            Action::Confirm(b) => ActionView::Confirm(*b),
            Action::CloseDialog => ActionView::CloseDialog,
            Action::Authenticate(u, p) => ActionView::Authenticate(u@, p@),
            Action::CancelAuthentication => ActionView::CancelAuthentication,
            Action::RunScript(i, s) => ActionView::RunScript(*i, s@),
            Action::Download(u) => ActionView::Download(u@),
            Action::ForwardKey(i) => ActionView::ForwardKey(*i),
            Action::ForwardPointer(i) => ActionView::ForwardPointer(*i),
            Action::CopyText(t) => ActionView::CopyText(t@),
            Action::OpenOutside(u, c) => ActionView::OpenOutside(u@, view_opt(*c)),
            Action::Ask(r) => match *r {
                Request::Load => ActionView::LoadAccounts,
                Request::Fetch(p) => ActionView::FetchSecret(p@),
            },
            Action::SaveSession(t) => ActionView::SaveSession(t@),
            Action::RaiseWindow => ActionView::RaiseWindow,
        }
    }
}

/// What is to be done, in order.
pub open spec fn action_views(v: Seq<Action>) -> Seq<ActionView> {
    v.map_values(|a: Action| a@)
}

} // verus!
