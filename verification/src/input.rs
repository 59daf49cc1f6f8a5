//! Keys, buttons and the clipboard, as the window hands them over.

use vstd::prelude::*;

verus! {

/// Whether a key or a button went down or came up.
#[derive(Clone, Copy, Debug, PartialEq, Eq, Structural)]
pub enum ElementState {
    Pressed,
    Released,
}

/// The keys that are known by name.
#[derive(Clone, Copy, Debug, PartialEq, Eq, Structural)]
pub enum NamedKey {
    ArrowDown,
    ArrowLeft,
    ArrowRight,
    ArrowUp,
    Backspace,
    Delete,
    End,
    Enter,
    Escape,
    F5,
    Home,
    Space,
    Tab,
    /// A key with a name that nothing here asks for.
    Other,
}

/// What a key stands for.
#[derive(Clone, Debug)]
pub enum Key {
    Named(NamedKey),
    Character(String),
}

/// One key going down or coming up.
#[derive(Clone, Debug)]
pub struct KeyEvent {
    pub state: ElementState,
    pub logical_key: Key,
    /// What the key types, where it types anything.
    pub text: Option<String>,
    pub repeat: bool,
    pub ctrl: bool,
    pub shift: bool,
    pub alt: bool,
}

/// The buttons of a mouse.
#[derive(Clone, Copy, Debug, PartialEq, Eq, Structural)]
pub enum MouseButton {
    Left,
    Right,
    Middle,
    Back,
    Forward,
    Other,
}

/// The clipboard for the length of one event: what it offered before, and what is to be put there.
#[derive(Clone, Debug)]
pub struct Clipboard {
    pub offered: Option<String>,
    pub copied: Option<String>,
}

impl Clipboard {
    /// A clipboard that offers `text`, with nothing copied yet.
    pub fn offering(text: Option<String>) -> (r: Clipboard)
        ensures
            r.offered == text,
            r.copied is None,
    {
        Clipboard { offered: text, copied: None }
    }

    /// The text on offer.
    pub open spec fn offer(self) -> Option<Seq<char>> {
        match self.offered {
            Some(t) => Some(t@),
            None => None,
        }
    }

    /// The text to be put on the clipboard.
    pub open spec fn copy(self) -> Option<Seq<char>> {
        match self.copied {
            Some(t) => Some(t@),
            None => None,
        }
    }
}

impl KeyEvent {
    /// Whether the key is the character `c`.
    pub open spec fn is_char(self, c: Seq<char>) -> bool {
        self.logical_key matches Key::Character(k) && k@ == c
    }

    /// Whether the key is the named key `n`.
    pub open spec fn is_named(self, n: NamedKey) -> bool {
        self.logical_key == Key::Named(n)
    }

    /// What the key types, as a text.
    pub open spec fn typed(self) -> Option<Seq<char>> {
        match self.text {
            Some(t) => Some(t@),
            None => None,
        }
    }
}

} // verus!
