//! What reaches the browser's loop from outside, and the clipboard's commands.

use vstd::prelude::*;

use crate::accounts::{account_views, Account, AccountView, Secret};
use crate::weburl::view_opt;

verus! {

/// A clipboard action, named by neither the chrome's nor an engine's vocabulary.
#[derive(Clone, Copy, Debug, PartialEq, Eq, Structural)]
pub enum EditingCommand {
    Copy,
    Cut,
    Paste,
}

/// A message to the browser's loop.
pub enum Message {
    /// The keyring answered a load: the index, or why it failed.
    Accounts(Result<Vec<Account>, String>),
    /// One entry's password arrived for the account of this handle.
    Credential(String, Secret),
    /// The engine has work to do.
    Spin,
    /// The last tab closed: exit.
    Quit,
    /// A later launch: an address or file to open in a new tab, or a bare launch that becomes a
    /// blank tab.
    OpenExternal(Option<String>),
}

/// What a message says.
#[verifier::ext_equal]
pub enum MessageView {
    Accounts(Result<Seq<AccountView>, Seq<char>>),
    Credential(Seq<char>, Seq<char>),
    Spin,
    Quit,
    OpenExternal(Option<Seq<char>>),
}

impl View for Message {
    type V = MessageView;

    open spec fn view(&self) -> MessageView {
        match self {
            Message::Accounts(r) => MessageView::Accounts(
                match *r {
                    Ok(all) => Ok(account_views(all@)),
                    Err(e) => Err(e@),
                },
            ),
            Message::Credential(path, secret) => MessageView::Credential(path@, secret@),
            Message::Spin => MessageView::Spin,
            Message::Quit => MessageView::Quit,
            Message::OpenExternal(arg) => MessageView::OpenExternal(view_opt(*arg)),
        }
    }
}

/// What an optional message says.
pub open spec fn message_opt(m: Option<Message>) -> Option<MessageView> {
    match m {
        Some(m) => Some(m@),
        None => None,
    }
}

/// What a log prints of a message: its name and what it carries, but never a password. This is not
/// the text of `Debug`: texts stand between the quotes as they are, and the accounts of an index
/// that was read are left out.
pub open spec fn logged(m: MessageView) -> Seq<char> {
    match m {
        MessageView::Accounts(Ok(_)) => "Accounts(Ok(\u{2026}))"@,
        MessageView::Accounts(Err(e)) => "Accounts(Err(\""@ + e + "\"))"@,
        MessageView::Credential(path, _) => "Credential(\""@ + path + "\", "@ + "Secret(\u{2026})"@
            + ")"@,
        MessageView::Spin => "Spin"@,
        MessageView::Quit => "Quit"@,
        MessageView::OpenExternal(Some(arg)) => "OpenExternal(Some(\""@ + arg + "\"))"@,
        MessageView::OpenExternal(None) => "OpenExternal(None)"@,
    }
}

impl Message {
    /// See [`logged`].
    pub fn debug_text(&self) -> (r: String)
        ensures
            r@ == logged(self@),
    {
        match self {
            Message::Accounts(Ok(_)) => "Accounts(Ok(\u{2026}))".to_owned(),
            Message::Accounts(Err(e)) => {
                let mut out = "Accounts(Err(\"".to_owned();
                out.append(e.as_str());
                out.append("\"))");
                out
            },
            Message::Credential(path, secret) => {
                let mut out = "Credential(\"".to_owned();
                out.append(path.as_str());
                out.append("\", ");
                let shown = secret.debug_text();
                out.append(shown.as_str());
                out.append(")");
                out
            },
            Message::Spin => "Spin".to_owned(),
            Message::Quit => "Quit".to_owned(),
            Message::OpenExternal(Some(arg)) => {
                let mut out = "OpenExternal(Some(\"".to_owned();
                out.append(arg.as_str());
                out.append("\"))");
                out
            },
            Message::OpenExternal(None) => "OpenExternal(None)".to_owned(),
        }
    }
}

/// What is printed of a credential is the same whatever the password is.
pub proof fn logs_hide_passwords(path: Seq<char>, a: Seq<char>, b: Seq<char>)
    ensures
        logged(MessageView::Credential(path, a)) == logged(MessageView::Credential(path, b)),
{
}

} // verus!
