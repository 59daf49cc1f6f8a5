//! Page-blocking prompts: the page is blocked until one is answered.

use vstd::prelude::*;

use crate::input::{Clipboard, ElementState, Key, KeyEvent, NamedKey};
use crate::lineedit::{EditOutcome, LineEdit, LineView};
use crate::wpe::host::{AuthView, DialogView, PendingAuth, PendingDialog};

verus! {

/// What a prompt answers.
#[derive(Clone, Copy, Debug, PartialEq, Eq, Structural)]
pub enum ModalKind {
    /// A page's alert, question or prompt.
    Script,
    /// An authentication challenge.
    Auth,
}

/// An editable field of a prompt.
#[derive(Debug)]
pub struct Field {
    pub label: String,
    pub edit: LineEdit,
}

/// A prompt.
#[derive(Debug)]
pub struct Modal {
    pub title: String,
    pub message: String,
    /// Editable fields, in tab order. None for a bare alert or question.
    pub fields: Vec<Field>,
    pub focused: usize,
    pub has_cancel: bool,
    pub kind: ModalKind,
}

/// What a field holds.
#[verifier::ext_equal]
pub struct FieldView {
    pub label: Seq<char>,
    pub edit: LineView,
}

/// What a prompt holds.
#[verifier::ext_equal]
pub struct ModalView {
    pub title: Seq<char>,
    pub message: Seq<char>,
    pub fields: Seq<FieldView>,
    pub focused: usize,
    pub has_cancel: bool,
    pub kind: ModalKind,
}

impl View for Field {
    type V = FieldView;

    open spec fn view(&self) -> FieldView {
        FieldView { label: self.label@, edit: self.edit@ }
    }
}

/// What each field holds.
pub open spec fn field_views(v: Seq<Field>) -> Seq<FieldView> {
    v.map_values(|f: Field| f@)
}

impl View for Modal {
    type V = ModalView;

    open spec fn view(&self) -> ModalView {
        ModalView {
            title: self.title@,
            message: self.message@,
            fields: field_views(self.fields@),
            focused: self.focused,
            has_cancel: self.has_cancel,
            kind: self.kind,
        }
    }
}

/// An empty field of a prompt.
pub open spec fn empty_line(masked: bool) -> LineView {
    LineView { text: Seq::empty(), caret: 0, selection: None, masked }
}

/// The prompt for a page's dialog: a prompt's default text is in its field, all selected.
pub open spec fn script_modal(d: DialogView) -> ModalView {
    ModalView {
        title: "This page says"@,
        message: d.message,
        fields: match d.prompt_default {
            Some(t) => seq![
                FieldView {
                    label: ""@,
                    edit: (LineView {
                        text: t,
                        caret: t.len() as int,
                        selection: None,
                        masked: false,
                    }).all_selected(),
                },
            ],
            None => Seq::empty(),
        },
        focused: 0,
        has_cancel: d.has_cancel,
        kind: ModalKind::Script,
    }
}

/// The prompt for an authentication challenge. The password's field is masked.
pub open spec fn auth_modal(a: AuthView) -> ModalView {
    ModalView {
        title: if a.retry {
            "Sign in failed \u{2014} try again"@
        } else {
            "Sign in"@
        },
        message: if a.realm.len() == 0 {
            a.host
        } else {
            a.host + " \u{2014} "@ + a.realm
        },
        fields: seq![
            FieldView { label: "Username"@, edit: empty_line(false) },
            FieldView { label: "Password"@, edit: empty_line(true) },
        ],
        focused: 0,
        has_cancel: true,
        kind: ModalKind::Auth,
    }
}

impl ModalView {
    /// The focus on the next field, or the previous one, around the ends.
    pub open spec fn tabbed(self, back: bool) -> ModalView {
        let n = self.fields.len() as int;
        if n == 0 {
            self
        } else {
            ModalView {
                focused: (if back {
                    if self.focused == 0 {
                        n - 1
                    } else {
                        self.focused - 1
                    }
                } else if self.focused == n - 1 {
                    0
                } else {
                    self.focused + 1
                }) as usize,
                ..self
            }
        }
    }

    /// A keystroke in the focused field; without a field only Enter and Escape mean anything. Gives
    /// what was copied, too.
    pub open spec fn typed(self, event: KeyEvent, offer: Option<Seq<char>>) -> (
        ModalView,
        EditOutcome,
        Option<Seq<char>>,
    ) {
        if self.fields.len() > 0 {
            let f = self.fields[self.focused as int];
            let (line, outcome, copied) = f.edit.step(event, offer);
            (
                ModalView {
                    fields: self.fields.update(
                        self.focused as int,
                        FieldView { edit: line, ..f },
                    ),
                    ..self
                },
                outcome,
                copied,
            )
        } else if event.state == ElementState::Pressed && event.is_named(NamedKey::Enter) {
            (self, EditOutcome::Submit, None)
        } else if event.state == ElementState::Pressed && event.is_named(NamedKey::Escape) {
            (self, EditOutcome::Cancel, None)
        } else {
            (self, EditOutcome::Ignored, None)
        }
    }
}

impl Modal {
    /// The focus is on a field, where there is one; a challenge has two; every field is well formed.
    pub open spec fn wf(self) -> bool {
        &&& self.fields@.len() > 0 ==> self.focused < self.fields@.len()
        &&& self.kind == ModalKind::Auth ==> self.fields@.len() == 2
        &&& forall|i: int| 0 <= i < self.fields@.len() ==> (#[trigger] self.fields@[i]).edit.wf()
    }

    /// See [`script_modal`].
    pub fn for_dialog(d: PendingDialog) -> (r: Modal)
        ensures
            r@ == script_modal(d@),
            r.wf(),
    {
        let mut fields: Vec<Field> = Vec::new();
        let PendingDialog { message, prompt_default, has_cancel } = d;
        match prompt_default {
            Some(t) => {
                let mut edit = LineEdit::with_text(t);
                edit.select_all();
                fields.push(Field { label: "".to_owned(), edit });
            },
            None => {},
        }
        let r = Modal {
            title: "This page says".to_owned(),
            message,
            fields,
            focused: 0,
            has_cancel,
            kind: ModalKind::Script,
        };
        assert(r@.fields =~= script_modal(d@).fields);
        r
    }

    /// See [`auth_modal`].
    pub fn for_auth(a: PendingAuth) -> (r: Modal)
        ensures
            r@ == auth_modal(a@),
            r.wf(),
    {
        let PendingAuth { host, realm, retry } = a;
        let message = if realm.as_str().is_empty() {
            host
        } else {
            let mut out = host;
            out.append(" \u{2014} ");
            out.append(realm.as_str());
            out
        };
        let title = if retry {
            "Sign in failed \u{2014} try again".to_owned()
        } else {
            "Sign in".to_owned()
        };
        let mut fields: Vec<Field> = Vec::new();
        fields.push(Field { label: "Username".to_owned(), edit: LineEdit::new() });
        fields.push(Field { label: "Password".to_owned(), edit: LineEdit::masked() });
        let r = Modal { title, message, fields, focused: 0, has_cancel: true, kind: ModalKind::Auth };
        assert(r@.fields =~= auth_modal(a@).fields);
        r
    }

    /// Moves the focus.
    pub fn tab(&mut self, back: bool)
        requires
            old(self).wf(),
        ensures
            final(self)@ == old(self)@.tabbed(back),
            final(self).wf(),
    {
        let n = self.fields.len();
        if n == 0 {
            return;
        }
        if back {
            if self.focused == 0 {
                self.focused = n - 1;
            } else {
                self.focused = self.focused - 1;
            }
        } else if self.focused == n - 1 {
            self.focused = 0;
        } else {
            self.focused = self.focused + 1;
        }
    }

    /// Puts the focus on a field.
    pub fn focus(&mut self, i: usize)
        requires
            old(self).wf(),
            i < old(self)@.fields.len(),
        ensures
            final(self)@ == (ModalView { focused: i, ..old(self)@ }),
            final(self).wf(),
    {
        self.focused = i;
    }

    /// Applies one keystroke.
    pub fn handle_key(&mut self, event: &KeyEvent, clipboard: &mut Clipboard) -> (r: EditOutcome)
        requires
            old(self).wf(),
        ensures
            final(self).wf(),
            ({
                let (modal, outcome, copied) = old(self)@.typed(*event, old(clipboard).offer());
                &&& final(self)@ == modal
                &&& r == outcome
                &&& final(clipboard).offered == old(clipboard).offered
                &&& copied is None ==> *final(clipboard) == *old(clipboard)
                &&& copied is Some ==> final(clipboard).copy() == copied
            }),
    {
        if self.fields.len() > 0 {
            let ghost before = self@;
            let i = self.focused;
            assert(before.fields[i as int] == self.fields@[i as int]@);
            let outcome = self.fields[i].edit.handle_key(event, clipboard);
            assert(self@.fields =~= before.fields.update(i as int, self.fields@[i as int]@));
            outcome
        } else if event.state != ElementState::Pressed {
            EditOutcome::Ignored
        } else {
            match &event.logical_key {
                Key::Named(NamedKey::Enter) => EditOutcome::Submit,
                Key::Named(NamedKey::Escape) => EditOutcome::Cancel,
                _ => EditOutcome::Ignored,
            }
        }
    }
}

/// Tabbing forth and back leaves the focus where it was.
pub proof fn tabbing_back_restores(m: ModalView)
    requires
        m.fields.len() > 0,
        m.focused < m.fields.len(),
        m.fields.len() <= usize::MAX,
    ensures
        m.tabbed(false).tabbed(true) == m,
        m.tabbed(true).tabbed(false) == m,
{
}

} // verus!
