//! A one-line text field: the text, a caret, and a selection.

use vstd::prelude::*;
use vstd::utf8::*;

use crate::input::{Clipboard, ElementState, Key, KeyEvent, NamedKey};
use crate::positions::{
    boundary, chars_before, cut_at, lemma_at_ends, lemma_boundary, lemma_bytes_before,
    lemma_bytes_before_grows, lemma_ends, next_boundary,
};
use crate::text::{byte_len, char_is_ctrl, chars_of, is_ctrl, same};

pub use crate::positions::prev_boundary;

verus! {

/// What a keystroke meant, beyond editing the text.
#[derive(Clone, Copy, Debug, PartialEq, Eq, Structural)]
pub enum EditOutcome {
    /// Nothing structural: redraw and carry on.
    Edited,
    /// Enter: the caller commits.
    Submit,
    /// Escape: the caller cancels.
    Cancel,
    /// Not for the field (a chord the chrome owns).
    Ignored,
}

/// A text field. The caret and the ends of the selection are byte offsets.
#[derive(Debug, Default)]
pub struct LineEdit {
    pub text: String,
    pub cursor: usize,
    /// Normalized (start < end). Any edit replaces or drops it.
    pub selection: Option<(usize, usize)>,
    /// Drawn as bullets. Set for password fields.
    pub masked: bool,
}

/// What a text field holds, with every place counted in characters.
#[verifier::ext_equal]
pub struct LineView {
    pub text: Seq<char>,
    pub caret: int,
    pub selection: Option<(int, int)>,
    pub masked: bool,
}

impl LineView {
    /// The caret and the selection lie within the text, and the selection is not empty.
    pub open spec fn wf(self) -> bool {
        &&& 0 <= self.caret <= self.text.len()
        &&& self.selection matches Some((a, b)) ==> 0 <= a < b <= self.text.len()
    }

    /// The field with all of its text selected and the caret at the end.
    pub open spec fn all_selected(self) -> LineView {
        LineView {
            caret: self.text.len() as int,
            selection: if self.text.len() > 0 {
                Some((0, self.text.len() as int))
            } else {
                None
            },
            ..self
        }
    }

    /// The field without the text from `a` to `b`, and the caret where that text was.
    pub open spec fn cut(self, a: int, b: int) -> LineView {
        LineView {
            text: self.text.take(a) + self.text.skip(b),
            caret: a,
            selection: None,
            masked: self.masked,
        }
    }

    /// The field without the text that is selected.
    pub open spec fn unselected(self) -> LineView {
        match self.selection {
            Some((a, b)) => self.cut(a, b),
            None => self,
        }
    }

    /// The field with `t` in place of the selection, or at the caret, and the caret after it.
    pub open spec fn typed(self, t: Seq<char>) -> LineView {
        let w = self.unselected();
        LineView {
            text: w.text.take(w.caret) + t + w.text.skip(w.caret),
            caret: w.caret + t.len(),
            selection: None,
            masked: w.masked,
        }
    }

    /// The field with the caret at `k` and nothing selected.
    pub open spec fn at(self, k: int) -> LineView {
        LineView { caret: k, selection: None, ..self }
    }

    /// The text that is selected.
    pub open spec fn selected(self) -> Option<Seq<char>> {
        match self.selection {
            Some((a, b)) => Some(self.text.subrange(a, b)),
            None => None,
        }
    }

    /// What the field becomes on a keystroke, what the keystroke meant, and what was copied.
    #[verifier::opaque]
    pub open spec fn step(self, event: KeyEvent, offer: Option<Seq<char>>) -> (
        LineView,
        EditOutcome,
        Option<Seq<char>>,
    ) {
        if event.state != ElementState::Pressed {
            (self, EditOutcome::Ignored, None)
        } else {
            match event.logical_key {
                Key::Named(NamedKey::Enter) => (self, EditOutcome::Submit, None),
                Key::Named(NamedKey::Escape) => (self, EditOutcome::Cancel, None),
                Key::Named(NamedKey::Backspace) => (
                    if self.selection is Some {
                        self.unselected()
                    } else if self.caret > 0 {
                        self.cut(self.caret - 1, self.caret)
                    } else {
                        self
                    },
                    EditOutcome::Edited,
                    None,
                ),
                Key::Named(NamedKey::Delete) => (
                    if self.selection is Some {
                        self.unselected()
                    } else if self.caret < self.text.len() {
                        self.cut(self.caret, self.caret + 1)
                    } else {
                        self
                    },
                    EditOutcome::Edited,
                    None,
                ),
                Key::Named(NamedKey::ArrowLeft) => (
                    self.at(
                        match self.selection {
                            Some((a, _)) => a,
                            None => if self.caret > 0 {
                                self.caret - 1
                            } else {
                                0
                            },
                        },
                    ),
                    EditOutcome::Edited,
                    None,
                ),
                Key::Named(NamedKey::ArrowRight) => (
                    self.at(
                        match self.selection {
                            Some((_, b)) => b,
                            None => if self.caret < self.text.len() {
                                self.caret + 1
                            } else {
                                self.text.len() as int
                            },
                        },
                    ),
                    EditOutcome::Edited,
                    None,
                ),
                Key::Named(NamedKey::Home) => (self.at(0), EditOutcome::Edited, None),
                Key::Named(NamedKey::End) => (
                    self.at(self.text.len() as int),
                    EditOutcome::Edited,
                    None,
                ),
                Key::Character(c) => if event.ctrl {
                    self.chord(c@, offer)
                } else {
                    self.insertion(event)
                },
                _ => self.insertion(event),
            }
        }
    }

    /// The part of [`LineView::step`] for a character typed with Ctrl held.
    pub open spec fn chord(self, c: Seq<char>, offer: Option<Seq<char>>) -> (
        LineView,
        EditOutcome,
        Option<Seq<char>>,
    ) {
        if c == "a"@ {
            (self.all_selected(), EditOutcome::Edited, None)
        } else if c == "u"@ {
            (
                LineView { text: Seq::empty(), caret: 0, selection: None, masked: self.masked },
                EditOutcome::Edited,
                None,
            )
        } else if c == "v"@ {
            (
                match offer {
                    Some(t) => {
                        let flat = printable(t);
                        if flat.len() > 0 {
                            self.typed(flat)
                        } else {
                            self
                        }
                    },
                    None => self,
                },
                EditOutcome::Edited,
                None,
            )
        } else if c == "c"@ && !self.masked {
            (self, EditOutcome::Edited, self.selected())
        } else if c == "x"@ && !self.masked {
            (self.unselected(), EditOutcome::Edited, self.selected())
        } else {
            (self, EditOutcome::Ignored, None)
        }
    }

    /// The part of [`LineView::step`] for a key that types a text, or nothing.
    pub open spec fn insertion(self, event: KeyEvent) -> (LineView, EditOutcome, Option<Seq<char>>) {
        match inserted(event) {
            Some(t) => (self.typed(t), EditOutcome::Edited, None),
            None => (self, EditOutcome::Ignored, None),
        }
    }
}

/// The text that a key puts into a field: what it types, where that is printable and Ctrl is not
/// held; failing a text of its own, a space for the space bar and the character for a character.
pub open spec fn inserted(event: KeyEvent) -> Option<Seq<char>> {
    match event.typed() {
        Some(t) => if !event.ctrl && !has_ctrl(t) {
            Some(t)
        } else {
            None
        },
        None => match event.logical_key {
            Key::Named(NamedKey::Space) => Some(" "@),
            Key::Character(c) => if !event.ctrl {
                Some(c@)
            } else {
                None
            },
            _ => None,
        },
    }
}

/// See [`inserted`].
pub fn insertion_of(event: &KeyEvent) -> (r: Option<String>)
    ensures
        (match r {
            Some(t) => inserted(*event) == Some(t@),
            None => inserted(*event) is None,
        }),
{
    match &event.text {
        Some(t) => if !event.ctrl && !holds_ctrl(t.as_str()) {
            Some(t.clone())
        } else {
            None
        },
        None => match &event.logical_key {
            Key::Named(NamedKey::Space) => Some(" ".to_owned()),
            Key::Character(c) => if !event.ctrl {
                Some(c.clone())
            } else {
                None
            },
            _ => None,
        },
    }
}

/// Whether a text holds a control code.
pub open spec fn has_ctrl(t: Seq<char>) -> bool {
    exists|i: int| 0 <= i < t.len() && is_ctrl(#[trigger] t[i])
}

/// A text without its control codes.
pub open spec fn printable(t: Seq<char>) -> Seq<char> {
    t.filter(|c: char| !is_ctrl(c))
}

/// See [`has_ctrl`].
pub fn holds_ctrl(t: &str) -> (r: bool)
    ensures
        r == has_ctrl(t@),
{
    let v = chars_of(t);
    let mut i: usize = 0;
    while i < v.len()
        invariant
            i <= v.len(),
            v@ == t@,
            forall|j: int| 0 <= j < i ==> !is_ctrl(#[trigger] t@[j]),
        decreases v.len() - i,
    {
        if char_is_ctrl(v[i]) {
            assert(is_ctrl(t@[i as int]));
            return true;
        }
        i += 1;
    }
    false
}

/// See [`printable`].
pub fn without_ctrl(t: &str) -> (r: String)
    ensures
        r@ == printable(t@),
{
    let v = chars_of(t);
    let mut out = String::new();
    let mut i: usize = 0;
    assert(t@.take(0) =~= Seq::empty());
    assert(out@ =~= printable(t@.take(0))) by {
        reveal(Seq::filter);
    }
    while i < v.len()
        invariant
            i <= v.len(),
            v@ == t@,
            out@ == printable(t@.take(i as int)),
        decreases v.len() - i,
    {
        proof {
            reveal(Seq::filter);
            assert(t@.take(i + 1).drop_last() =~= t@.take(i as int));
        }
        if !char_is_ctrl(v[i]) {
            out.push(v[i]);
        }
        i += 1;
    }
    assert(t@.take(i as int) =~= t@);
    out
}

impl View for LineEdit {
    type V = LineView;

    open spec fn view(&self) -> LineView {
        LineView {
            text: self.text@,
            caret: chars_before(self.text@, self.cursor as int),
            selection: match self.selection {
                Some((a, b)) => Some(
                    (chars_before(self.text@, a as int), chars_before(self.text@, b as int)),
                ),
                None => None,
            },
            masked: self.masked,
        }
    }
}

impl LineEdit {
    /// The caret and the ends of the selection fall between characters of the text, and the
    /// selection is not empty.
    pub open spec fn wf(self) -> bool {
        &&& boundary(self.text@, self.cursor as int)
        &&& self.selection matches Some((a, b)) ==> a < b && boundary(self.text@, a as int)
            && boundary(self.text@, b as int)
    }

    /// A field that is well formed has its places within its text.
    pub proof fn lemma_wf(self)
        requires
            self.wf(),
        ensures
            self@.wf(),
    {
        lemma_boundary(self.text@, self.cursor as int);
        if let Some((a, b)) = self.selection {
            lemma_boundary(self.text@, a as int);
            lemma_boundary(self.text@, b as int);
            let j = chars_before(self.text@, a as int);
            let k = chars_before(self.text@, b as int);
            if k < j {
                lemma_bytes_before_grows(self.text@, k, j);
            }
        }
    }

    /// An empty field that shows what is typed.
    pub fn new() -> (r: LineEdit)
        ensures
            r.wf(),
            r@ == (LineView { text: Seq::empty(), caret: 0, selection: None, masked: false }),
    {
        let r = LineEdit { text: String::new(), cursor: 0, selection: None, masked: false };
        proof {
            lemma_ends(r.text@);
        }
        r
    }

    /// A field that holds `text`, with the caret at its end.
    pub fn with_text(text: String) -> (r: LineEdit)
        ensures
            r.wf(),
            r.text == text,
            r@ == (LineView {
                text: text@,
                caret: text@.len() as int,
                selection: None,
                masked: false,
            }),
    {
        proof {
            lemma_ends(text@);
        }
        let cursor = byte_len(text.as_str());
        LineEdit { text, cursor, selection: None, masked: false }
    }

    /// An empty field that shows bullets.
    pub fn masked() -> (r: LineEdit)
        ensures
            r.wf(),
            r@ == (LineView { text: Seq::empty(), caret: 0, selection: None, masked: true }),
    {
        let r = LineEdit { text: String::new(), cursor: 0, selection: None, masked: true };
        proof {
            lemma_ends(r.text@);
        }
        r
    }

    /// What to draw: the text, or a bullet for each of its characters where the field is masked.
    pub fn display(&self) -> (r: String)
        ensures
            r@ == shown(self@),
    {
        if self.masked {
            let v = chars_of(self.text.as_str());
            let mut out = String::new();
            let mut i: usize = 0;
            while i < v.len()
                invariant
                    i <= v.len(),
                    out@ == Seq::new(i as nat, |k: int| '\u{2022}'),
                decreases v.len() - i,
            {
                out.push('\u{2022}');
                i += 1;
                assert(out@ =~= Seq::new(i as nat, |k: int| '\u{2022}'));
            }
            out
        } else {
            self.text.clone()
        }
    }

    /// Selects the whole text, and puts the caret at its end.
    pub fn select_all(&mut self)
        ensures
            final(self).wf(),
            final(self).text == old(self).text,
            final(self)@ == old(self)@.all_selected(),
    {
        self.cursor = byte_len(self.text.as_str());
        proof {
            lemma_ends(self.text@);
            if self.text@.len() == 0 {
                assert(encode_utf8(self.text@).len() == 0);
            }
        }
        self.selection = if self.cursor > 0 {
            Some((0, self.cursor))
        } else {
            None
        };
    }

    /// Removes the text between two byte offsets and leaves the caret there.
    fn remove(&mut self, a: usize, b: usize)
        requires
            boundary(old(self).text@, a as int),
            boundary(old(self).text@, b as int),
            a <= b,
        ensures
            final(self).wf(),
            final(self)@ == old(self)@.cut(
                chars_before(old(self).text@, a as int),
                chars_before(old(self).text@, b as int),
            ),
    {
        let ghost s = self.text@;
        let (mut head, _rest) = cut_at(self.text.as_str(), a);
        let (_start, tail) = cut_at(self.text.as_str(), b);
        proof {
            lemma_boundary(s, a as int);
            let t = head@ + tail@;
            assert(t.take(head@.len() as int) =~= head@);
            lemma_bytes_before(t, head@.len() as int);
        }
        head.append(tail.as_str());
        self.text = head;
        self.cursor = a;
        self.selection = None;
    }

    /// Removes the selected text, and says whether there was any.
    fn take_selection(&mut self) -> (r: bool)
        requires
            old(self).wf(),
        ensures
            final(self).wf(),
            r == (old(self).selection is Some),
            final(self)@ == old(self)@.unselected(),
            final(self).selection is None,
            old(self).selection is None ==> *final(self) == *old(self),
    {
        match self.selection {
            Some((a, b)) => {
                self.remove(a, b);
                true
            },
            None => false,
        }
    }

    /// Puts `t` in place of the selection, or at the caret.
    fn type_text(&mut self, t: &str)
        requires
            old(self).wf(),
        ensures
            final(self).wf(),
            final(self)@ == old(self)@.typed(t@),
    {
        let _had = self.take_selection();
        let ghost s = self.text@;
        let (mut head, tail) = cut_at(self.text.as_str(), self.cursor);
        let ghost before = head@;
        proof {
            lemma_boundary(s, self.cursor as int);
        }
        head.append(t);
        let cursor = byte_len(head.as_str());
        proof {
            let whole = head@ + tail@;
            assert(whole.take(head@.len() as int) =~= head@);
            lemma_bytes_before(whole, head@.len() as int);
        }
        head.append(tail.as_str());
        self.text = head;
        self.cursor = cursor;
        self.selection = None;
        assert(self@.caret == before.len() + t@.len());
    }

    /// Applies one keystroke.
    pub fn handle_key(&mut self, event: &KeyEvent, clipboard: &mut Clipboard) -> (r: EditOutcome)
        requires
            old(self).wf(),
        ensures
            final(self).wf(),
            ({
                let (line, outcome, copied) = old(self)@.step(*event, old(clipboard).offer());
                &&& final(self)@ == line
                &&& r == outcome
                &&& final(clipboard).offered == old(clipboard).offered
                &&& copied is None ==> *final(clipboard) == *old(clipboard)
                &&& copied is Some ==> final(clipboard).copy() == copied
            }),
    {
        proof {
            reveal(LineView::step);
            self.lemma_wf();
            lemma_at_ends(self.text@, self.cursor as int);
            lemma_ends(self.text@);
        }
        if event.state != ElementState::Pressed {
            return EditOutcome::Ignored;
        }
        if event.ctrl {
            if let Key::Character(c) = &event.logical_key {
                return self.handle_chord(c.as_str(), clipboard);
            }
        }
        match &event.logical_key {
            Key::Named(NamedKey::Enter) => return EditOutcome::Submit,
            Key::Named(NamedKey::Escape) => return EditOutcome::Cancel,
            Key::Named(NamedKey::Backspace) => {
                if !self.take_selection() && self.cursor > 0 {
                    let prev = prev_boundary(self.text.as_str(), self.cursor);
                    let cursor = self.cursor;
                    self.remove(prev, cursor);
                }
            },
            Key::Named(NamedKey::Delete) => {
                if !self.take_selection() && self.cursor < byte_len(self.text.as_str()) {
                    let next = next_boundary(self.text.as_str(), self.cursor);
                    let cursor = self.cursor;
                    self.remove(cursor, next);
                }
            },
            // Arrows collapse a selection to the edge they move toward.
            Key::Named(NamedKey::ArrowLeft) => {
                self.cursor = match self.selection {
                    Some((a, _)) => a,
                    None => prev_boundary(self.text.as_str(), self.cursor),
                };
                self.selection = None;
            },
            Key::Named(NamedKey::ArrowRight) => {
                self.cursor = match self.selection {
                    Some((_, b)) => b,
                    None => next_boundary(self.text.as_str(), self.cursor),
                };
                self.selection = None;
            },
            Key::Named(NamedKey::Home) => {
                self.selection = None;
                self.cursor = 0;
            },
            Key::Named(NamedKey::End) => {
                self.selection = None;
                self.cursor = byte_len(self.text.as_str());
            },
            _ => {
                let insert = insertion_of(event);
                match insert {
                    Some(t) => self.type_text(t.as_str()),
                    None => return EditOutcome::Ignored,
                }
            },
        }
        EditOutcome::Edited
    }

    /// Applies a character typed with Ctrl held. Copy and cut are absent on a masked field; paste
    /// is not.
    fn handle_chord(&mut self, c: &str, clipboard: &mut Clipboard) -> (r: EditOutcome)
        requires
            old(self).wf(),
        ensures
            final(self).wf(),
            ({
                let (line, outcome, copied) = old(self)@.chord(c@, old(clipboard).offer());
                &&& final(self)@ == line
                &&& r == outcome
                &&& final(clipboard).offered == old(clipboard).offered
                &&& copied is None ==> *final(clipboard) == *old(clipboard)
                &&& copied is Some ==> final(clipboard).copy() == copied
            }),
    {
        if same(c, "a") {
            self.select_all();
        } else if same(c, "u") {
            self.text = String::new();
            self.cursor = 0;
            self.selection = None;
            proof {
                lemma_ends(self.text@);
            }
        } else if same(c, "v") {
            if let Some(t) = &clipboard.offered {
                let flat = without_ctrl(t.as_str());
                if byte_len(flat.as_str()) > 0 {
                    self.type_text(flat.as_str());
                }
            }
        } else if same(c, "c") && !self.masked {
            self.copy_selection(clipboard);
        } else if same(c, "x") && !self.masked {
            self.copy_selection(clipboard);
            let _had = self.take_selection();
        } else {
            return EditOutcome::Ignored;
        }
        EditOutcome::Edited
    }

    /// Puts the selected text, where there is any, on the clipboard.
    fn copy_selection(&self, clipboard: &mut Clipboard)
        requires
            self.wf(),
        ensures
            final(clipboard).offered == old(clipboard).offered,
            self@.selected() is None ==> *final(clipboard) == *old(clipboard),
            self@.selected() is Some ==> final(clipboard).copy() == self@.selected(),
    {
        if let Some((a, b)) = self.selection {
            let ghost s = self.text@;
            proof {
                self.lemma_wf();
                lemma_boundary(s, a as int);
                lemma_boundary(s, b as int);
            }
            let (head, _rest) = cut_at(self.text.as_str(), b);
            proof {
                let k = chars_before(s, a as int);
                assert(head@.take(k) =~= s.take(k));
                lemma_bytes_before(head@, k);
            }
            let (_start, chosen) = cut_at(head.as_str(), a);
            assert(chosen@ =~= s.subrange(
                chars_before(s, a as int),
                chars_before(s, b as int),
            ));
            clipboard.copied = Some(chosen);
        }
    }
}

/// What a field draws.
pub open spec fn shown(line: LineView) -> Seq<char> {
    if line.masked {
        Seq::new(line.text.len(), |k: int| '\u{2022}')
    } else {
        line.text
    }
}

// ---------------------------------------------------------------------------------------------
// What holds of every field
// ---------------------------------------------------------------------------------------------

/// No keystroke puts the caret or the selection outside the text, and none unmasks a field.
pub proof fn step_keeps_places(line: LineView, event: KeyEvent, offer: Option<Seq<char>>)
    requires
        line.wf(),
    ensures
        line.step(event, offer).0.wf(),
        line.step(event, offer).0.masked == line.masked,
{
    reveal(LineView::step);
}

/// Only a keystroke that edits changes anything.
pub proof fn only_edits_change(line: LineView, event: KeyEvent, offer: Option<Seq<char>>)
    ensures
        line.step(event, offer).1 != EditOutcome::Edited ==> line.step(event, offer).0 == line
            && line.step(event, offer).2 is None,
{
    reveal(LineView::step);
}

/// A masked field gives nothing to the clipboard, whatever is typed.
pub proof fn masked_never_copies(line: LineView, event: KeyEvent, offer: Option<Seq<char>>)
    requires
        line.masked,
    ensures
        line.step(event, offer).2 is None,
{
    reveal(LineView::step);
}

/// What a masked field draws depends on the length of its text alone.
pub proof fn masked_shows_length_alone(a: LineView, b: LineView)
    requires
        a.masked,
        b.masked,
        a.text.len() == b.text.len(),
    ensures
        shown(a) == shown(b),
        shown(a).len() == a.text.len(),
{
    assert(shown(a) =~= shown(b));
}

/// Typing over a field that is all selected leaves what was typed and nothing else.
pub proof fn typing_over_all_replaces(line: LineView, t: Seq<char>)
    ensures
        line.all_selected().typed(t) == (LineView {
            text: t,
            caret: t.len() as int,
            selection: None,
            masked: line.masked,
        }),
{
    assert(line.all_selected().typed(t).text =~= t);
}

/// Backspace takes back a character just typed.
pub proof fn backspace_takes_back(line: LineView, c: char, back: KeyEvent, offer: Option<Seq<char>>)
    requires
        line.wf(),
        line.selection is None,
        back.state == ElementState::Pressed,
        back.is_named(NamedKey::Backspace),
    ensures
        line.typed(seq![c]).step(back, offer).0 == line,
{
    reveal(LineView::step);
    let t = line.typed(seq![c]);
    assert(t.text.take(line.caret) =~= line.text.take(line.caret));
    assert(t.text.skip(line.caret + 1) =~= line.text.skip(line.caret));
    assert(line.text.take(line.caret) + line.text.skip(line.caret) =~= line.text);
}

/// What was cut and is pasted again stands where it stood, with the caret after it.
pub proof fn paste_restores_cut(line: LineView)
    requires
        line.wf(),
        line.selection is Some,
    ensures
        line.unselected().typed(line.selected()->0).text == line.text,
        line.unselected().typed(line.selected()->0).caret == (line.selection->0).1,
{
    let (a, b) = line.selection->0;
    let w = line.unselected();
    assert(w.text.take(a) =~= line.text.take(a));
    assert(w.text.skip(a) =~= line.text.skip(b));
    assert(line.text.take(a) + line.text.subrange(a, b) + line.text.skip(b) =~= line.text);
}

} // verus!
