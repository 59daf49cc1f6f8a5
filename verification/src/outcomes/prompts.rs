//! What a prompt shows, and what its page is told when it is answered.

use vstd::prelude::*;

use crate::action::ActionView;
use crate::browser::pointer::Hits;
use crate::browser::state::AppView;
use crate::input::{ElementState, KeyEvent, MouseButton, NamedKey};
use crate::lineedit::LineView;
use crate::modal::{script_modal, auth_modal, FieldView, ModalKind, ModalView};
use crate::outcomes::keys::named;
use crate::outcomes::tabs::{did, lemma_told, lemma_told_both};
use crate::wpe::host::{dialog_of, DialogKind, DialogView, HostView};

verus! {

/// A page's dialog as it waits: it says what the page said; a prompt has a text to start from, and everything
/// but an alert can be cancelled.
pub proof fn dialogs_say_what_the_page_said(
    message: Seq<char>,
    default: Seq<char>,
)
    ensures
        dialog_of(DialogKind::Alert, Some(message), Some(default)) == (DialogView {
            message,
            prompt_default: None,
            has_cancel: false,
        }),
        dialog_of(DialogKind::Confirm, Some(message), Some(default)) == (DialogView {
            message,
            prompt_default: None,
            has_cancel: true,
        }),
        dialog_of(DialogKind::BeforeUnload, Some(message), Some(default)) == (DialogView {
            message,
            prompt_default: None,
            has_cancel: true,
        }),
        dialog_of(DialogKind::Prompt, Some(message), Some(default)) == (DialogView {
            message,
            prompt_default: Some(default),
            has_cancel: true,
        }),
        dialog_of(DialogKind::Prompt, None, None) == (DialogView {
            message: Seq::empty(),
            prompt_default: Some(Seq::empty()),
            has_cancel: true,
        }),
{
}

/// The prompt on screen for a page's dialog shows the page's message, and a field with the text to start
/// from where there is one.
pub proof fn prompts_show_the_dialog(a: AppView)
    requires
        a.modal is None,
        a.host.dialog is Some,
    ensures
        ({
            let d = a.host.dialog->0;
            let b = a.modal_synced().0;
            let m = b.modal->0;
            &&& a.modal_synced().1
            &&& b == (AppView { modal: b.modal, ..a })
            &&& b.modal is Some
            &&& m.kind == ModalKind::Script
            &&& m.title == "This page says"@
            &&& m.message == d.message
            &&& m.has_cancel == d.has_cancel
            &&& d.prompt_default is None ==> m.fields.len() == 0
            &&& d.prompt_default is Some ==> m.fields.len() == 1 && m.fields[0].edit.text
                == d.prompt_default->0 && !m.fields[0].edit.masked && m.focused == 0
        }),
{
    reveal(AppView::modal_synced);
}

/// The prompt on screen for a challenge names the host and the realm, says so where the last try failed, and
/// has a field for the username and a masked one for the password.
pub proof fn prompts_show_the_challenge(a: AppView)
    requires
        a.modal is None,
        a.host.dialog is None,
        a.host.auth is Some,
    ensures
        ({
            let c = a.host.auth->0;
            let b = a.modal_synced().0;
            let m = b.modal->0;
            &&& a.modal_synced().1
            &&& b == (AppView { modal: b.modal, ..a })
            &&& b.modal is Some
            &&& m.kind == ModalKind::Auth
            &&& m.has_cancel
            &&& c.retry ==> m.title == "Sign in failed \u{2014} try again"@
            &&& !c.retry ==> m.title == "Sign in"@
            &&& c.host.is_prefix_of(m.message)
            &&& c.realm.is_suffix_of(m.message)
            &&& c.realm.len() == 0 ==> m.message == c.host
            &&& m.fields.len() == 2
            &&& m.fields[0].label == "Username"@ && !m.fields[0].edit.masked
                && m.fields[0].edit.text.len() == 0
            &&& m.fields[1].label == "Password"@ && m.fields[1].edit.masked
                && m.fields[1].edit.text.len() == 0
            &&& m.focused == 0
        }),
{
    reveal(AppView::modal_synced);
    let c = a.host.auth->0;
    let m = auth_modal(c);
    if c.realm.len() == 0 {
        assert(m.message.take(c.host.len() as int) =~= c.host);
        assert(m.message.skip(m.message.len() as int) =~= c.realm);
    } else {
        assert(m.message.take(c.host.len() as int) =~= c.host);
        assert(m.message.skip(m.message.len() - c.realm.len()) =~= c.realm);
    }
}

/// With nothing to show, or a prompt on screen already, none appears.
pub proof fn prompts_do_not_replace_each_other(a: AppView)
    requires
        a.modal is Some || (a.host.dialog is None && a.host.auth is None),
    ensures
        a.modal_synced() == (a, false),
{
    reveal(AppView::modal_synced);
}

/// The page is told what was answered: a prompt the text in its field, or that it was cancelled; a question
/// whether it was accepted; and an alert nothing. Then the page goes on, and the prompt is gone.
#[verifier::rlimit(40)]
pub proof fn pages_are_told_the_answer(a: AppView, ok: bool, d: DialogView)
    requires
        a.modal is Some,
        (a.modal->0).kind == ModalKind::Script,
        a.host.dialog == Some(d),
    ensures
        ({
            let b = a.modal_closed(ok);
            let m = a.modal->0;
            let free = AppView { modal: None, host: HostView { dialog: None, ..a.host }, ..a };
            &&& d.prompt_default is Some && ok && m.fields.len() > 0 ==> did(
                free,
                seq![
                    ActionView::PromptText(Some(m.fields[0].edit.text)),
                    ActionView::CloseDialog,
                ],
                b,
            )
            &&& d.prompt_default is Some && !ok ==> did(
                free,
                seq![ActionView::PromptText(None), ActionView::CloseDialog],
                b,
            )
            &&& d.prompt_default is None && d.has_cancel ==> did(
                free,
                seq![ActionView::Confirm(ok), ActionView::CloseDialog],
                b,
            )
            &&& d.prompt_default is None && !d.has_cancel ==> did(
                free,
                seq![ActionView::CloseDialog],
                b,
            )
        }),
{
    reveal(AppView::modal_closed);
    let m = a.modal->0;
    let free = AppView { modal: None, host: HostView { dialog: None, ..a.host }, ..a };
    if d.prompt_default is Some {
        if ok {
            lemma_told_both(
                free,
                ActionView::PromptText(Some(m.fields[0].edit.text)),
                ActionView::CloseDialog,
            );
        } else {
            lemma_told_both(free, ActionView::PromptText(None), ActionView::CloseDialog);
        }
    } else if d.has_cancel {
        lemma_told_both(free, ActionView::Confirm(ok), ActionView::CloseDialog);
    } else {
        lemma_told(free, ActionView::CloseDialog);
    }
}

/// A challenge is answered with the username from the first field and the password from the second, or
/// cancelled; and the prompt is gone.
#[verifier::rlimit(40)]
pub proof fn challenges_get_the_credentials(a: AppView, ok: bool)
    requires
        a.modal is Some,
        (a.modal->0).kind == ModalKind::Auth,
        (a.modal->0).fields.len() == 2,
        a.host.auth is Some,
    ensures
        ({
            let b = a.modal_closed(ok);
            let m = a.modal->0;
            let free = AppView { modal: None, host: HostView { auth: None, ..a.host }, ..a };
            &&& ok ==> did(
                free,
                seq![
                    ActionView::Authenticate(m.fields[0].edit.text, m.fields[1].edit.text),
                ],
                b,
            )
            &&& !ok ==> did(free, seq![ActionView::CancelAuthentication], b)
        }),
{
    reveal(AppView::modal_closed);
    let o = a.host.outbox;
    let m = a.modal->0;
    let x = ActionView::Authenticate(m.fields[0].edit.text, m.fields[1].edit.text);
    assert(o.push(x) =~= o + seq![x]);
    assert(o.push(ActionView::CancelAuthentication) =~= o + seq![ActionView::CancelAuthentication]);
}

/// Enter accepts a prompt and Escape cancels it; Tab goes to the next field, and with Shift to the one
/// before, around the ends; and another key is typed into the field that has the focus.
#[verifier::spinoff_prover]
#[verifier::rlimit(40)]
pub proof fn keys_answer_a_prompt(a: AppView, e: KeyEvent, offer: Option<Seq<char>>, now: u64)
    requires
        a.ctx_menu is None,
        a.modal is Some,
        (a.modal->0).fields.len() > 0 ==> (a.modal->0).focused < (a.modal->0).fields.len(),
        (a.modal->0).fields.len() <= usize::MAX,
    ensures
        ({
            let b = a.key_handled(e, offer, now).0;
            let drawn = AppView { rebuild: true, ..a };
            let m = a.modal->0;
            let n = m.fields.len();
            &&& named(e, NamedKey::Enter) ==> b == drawn.modal_closed(true)
            &&& named(e, NamedKey::Escape) ==> b == drawn.modal_closed(false)
            &&& named(e, NamedKey::Tab) && n > 0 ==> b.modal is Some && (b.modal->0).fields == m.fields
                && (b.modal->0).focused == (if e.shift {
                if m.focused == 0 {
                    n - 1
                } else {
                    m.focused - 1
                }
            } else if m.focused + 1 < n {
                m.focused + 1
            } else {
                0
            })
            &&& !named(e, NamedKey::Enter) && !named(e, NamedKey::Escape) && !named(e, NamedKey::Tab)
                && n > 0 ==> b.modal is Some && (b.modal->0).fields == m.fields.update(
                m.focused as int,
                (FieldView {
                    edit: m.fields[m.focused as int].edit.step(e, offer).0,
                    ..m.fields[m.focused as int]
                }),
            ) && (b.modal->0).focused == m.focused && b.host.tabs == a.host.tabs
        }),
{
    reveal(AppView::key_handled);
    reveal(AppView::modal_key);
    reveal(AppView::modal_typed);
    reveal(LineView::step);
    let m = a.modal->0;
    if m.fields.len() > 0 {
        let f = m.fields[m.focused as int];
        assert(m.fields.update(m.focused as int, f) =~= m.fields);
    }
}

/// The button that accepts answers a prompt with yes, the one that cancels with no where the prompt has
/// one, and a click on a field gives it the focus.
pub proof fn clicks_answer_a_prompt(a: AppView, hits: Hits, now: u64)
    requires
        a.modal is Some,
    ensures
        ({
            let b = a.button_handled(MouseButton::Left, ElementState::Pressed, hits, now).0;
            let drawn = AppView { rebuild: true, ..a };
            let m = a.modal->0;
            &&& hits.accept ==> b == drawn.modal_closed(true)
            &&& hits.cancel && !hits.accept && m.has_cancel ==> b == drawn.modal_closed(false)
            &&& !hits.accept && !hits.cancel && hits.prompt_field is Some && hits.prompt_field->0
                < m.fields.len() ==> b == (AppView {
                modal: Some(ModalView { focused: hits.prompt_field->0, ..m }),
                ..drawn
            })
            &&& !hits.accept && !hits.cancel && hits.prompt_field is None ==> b == drawn
        }),
{
    reveal(AppView::button_handled);
    reveal(AppView::prompt_clicked);
}

/// The text that a prompt starts from is selected, so that typing replaces it.
pub proof fn prompts_start_selected(d: DialogView)
    requires
        d.prompt_default is Some,
        (d.prompt_default->0).len() > 0,
    ensures
        script_modal(d).fields[0].edit.selection == Some((0int, (d.prompt_default->0).len() as int)),
        script_modal(d).fields[0].edit.typed(seq!['x']).text == seq!['x'],
{
    let t = d.prompt_default->0;
    let e = script_modal(d).fields[0].edit;
    assert(e.typed(seq!['x']).text =~= seq!['x']);
}

} // verus!
