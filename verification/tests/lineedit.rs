use cce_browser::input::{Clipboard, ElementState, Key, KeyEvent, NamedKey};
use cce_browser::lineedit::{holds_ctrl, without_ctrl, EditOutcome, LineEdit};

fn ev(key: Key, ctrl: bool) -> KeyEvent {
    let text = match &key {
        Key::Character(c) if !ctrl => Some(c.clone()),
        _ => None,
    };
    KeyEvent {
        state: ElementState::Pressed,
        logical_key: key,
        text,
        repeat: false,
        ctrl,
        shift: false,
        alt: false,
    }
}

fn ch(c: &str) -> KeyEvent {
    ev(Key::Character(c.into()), false)
}

fn ctrl(c: &str) -> KeyEvent {
    ev(Key::Character(c.into()), true)
}

fn named(n: NamedKey) -> KeyEvent {
    ev(Key::Named(n), false)
}

fn key(e: &mut LineEdit, event: &KeyEvent) -> EditOutcome {
    e.handle_key(event, &mut Clipboard::offering(None))
}

fn typed(e: &mut LineEdit, s: &str) {
    for c in s.chars() {
        key(e, &ch(&c.to_string()));
    }
}

fn line(s: &str) -> LineEdit {
    LineEdit::with_text(s.to_string())
}

#[test]
fn typing_inserts_at_the_caret() {
    let mut e = LineEdit::new();
    typed(&mut e, "abc");
    assert_eq!(e.text, "abc");
    assert_eq!(e.cursor, 3);
}

/// The URL bar's defining behaviour: entering it selects everything, so the next keystroke replaces
/// the address rather than appending to it.
#[test]
fn typing_over_a_selection_replaces_it() {
    let mut e = line("https://example.com");
    e.select_all();
    typed(&mut e, "x");
    assert_eq!(e.text, "x");
    assert_eq!(e.selection, None);
}

#[test]
fn ctrl_a_selects_all_and_ctrl_u_clears() {
    let mut e = line("abc");
    key(&mut e, &ctrl("a"));
    assert_eq!(e.selection, Some((0, 3)));
    key(&mut e, &ctrl("u"));
    assert_eq!(e.text, "");
    assert_eq!(e.selection, None);
}

#[test]
fn backspace_deletes_a_selection_whole_or_one_char() {
    let mut e = line("abc");
    e.select_all();
    key(&mut e, &named(NamedKey::Backspace));
    assert_eq!(e.text, "");

    let mut e = line("abc");
    key(&mut e, &named(NamedKey::Backspace));
    assert_eq!(e.text, "ab");
}

/// Arrows collapse to the edge they move toward rather than stepping from the caret — otherwise Left
/// after a select-all lands in the wrong place.
#[test]
fn arrows_collapse_a_selection_to_its_edge() {
    let mut e = line("abc");
    e.select_all();
    key(&mut e, &named(NamedKey::ArrowLeft));
    assert_eq!((e.cursor, e.selection), (0, None));

    e.select_all();
    key(&mut e, &named(NamedKey::ArrowRight));
    assert_eq!((e.cursor, e.selection), (3, None));
}

#[test]
fn enter_and_escape_are_reported_not_swallowed() {
    let mut e = line("x");
    assert_eq!(key(&mut e, &named(NamedKey::Enter)), EditOutcome::Submit);
    assert_eq!(key(&mut e, &named(NamedKey::Escape)), EditOutcome::Cancel);
}

/// Multi-byte text must not be split mid-character.
#[test]
fn caret_moves_by_character_not_byte() {
    let mut e = line("é1");
    key(&mut e, &named(NamedKey::Home));
    key(&mut e, &named(NamedKey::ArrowRight));
    assert_eq!(e.cursor, 2, "é is two bytes");
    key(&mut e, &named(NamedKey::Backspace));
    assert_eq!(e.text, "1");
}

/// A password must not leave through a chord the user may not have meant.
#[test]
fn a_masked_field_hides_its_text_and_refuses_copy() {
    let mut e = LineEdit::masked();
    typed(&mut e, "hunter2");
    assert_eq!(e.display(), "•".repeat(7));
    assert_ne!(e.display(), e.text);
    e.select_all();
    let mut clipboard = Clipboard::offering(None);
    assert_eq!(e.handle_key(&ctrl("c"), &mut clipboard), EditOutcome::Ignored);
    assert_eq!(e.handle_key(&ctrl("x"), &mut clipboard), EditOutcome::Ignored);
    assert_eq!(e.text, "hunter2", "cut must not have removed it");
    assert_eq!(clipboard.copied, None);
}

#[test]
fn what_is_cut_can_be_pasted_back() {
    let mut e = line("añb");
    e.select_all();
    let mut clipboard = Clipboard::offering(None);
    assert_eq!(e.handle_key(&ctrl("x"), &mut clipboard), EditOutcome::Edited);
    assert_eq!(e.text, "");
    assert_eq!(clipboard.copied.as_deref(), Some("añb"));
    let mut offer = Clipboard::offering(clipboard.copied);
    assert_eq!(e.handle_key(&ctrl("v"), &mut offer), EditOutcome::Edited);
    assert_eq!(e.text, "añb");
    assert_eq!(e.cursor, 4);
}

#[test]
fn a_paste_is_flattened() {
    let mut e = line("");
    e.handle_key(&ctrl("v"), &mut Clipboard::offering(Some("a\nb\tc\u{7f}".to_string())));
    assert_eq!(e.text, "abc");
    assert!(holds_ctrl("a\nb"));
    assert!(!holds_ctrl("ab"));
    assert_eq!(without_ctrl("\u{0}x\u{85}y"), "xy");
}

#[test]
fn a_selection_is_copied_as_it_stands() {
    let mut e = line("copy me");
    e.select_all();
    let mut clipboard = Clipboard::offering(None);
    e.handle_key(&ctrl("c"), &mut clipboard);
    assert_eq!(clipboard.copied.as_deref(), Some("copy me"));
    assert_eq!(e.text, "copy me");
}

#[test]
fn a_key_coming_up_does_nothing() {
    let mut e = line("abc");
    let mut up = ch("x");
    up.state = ElementState::Released;
    assert_eq!(key(&mut e, &up), EditOutcome::Ignored);
    assert_eq!(e.text, "abc");
}

#[test]
fn delete_takes_what_is_after_the_caret() {
    let mut e = line("aé");
    key(&mut e, &named(NamedKey::Home));
    key(&mut e, &named(NamedKey::Delete));
    assert_eq!((e.text.as_str(), e.cursor), ("é", 0));
    key(&mut e, &named(NamedKey::Delete));
    key(&mut e, &named(NamedKey::Delete));
    assert_eq!(e.text, "");
    key(&mut e, &named(NamedKey::Backspace));
    key(&mut e, &named(NamedKey::ArrowLeft));
    key(&mut e, &named(NamedKey::ArrowRight));
    assert_eq!((e.text.as_str(), e.cursor), ("", 0));
}

#[test]
fn selecting_nothing_is_no_selection() {
    let mut e = line("");
    e.select_all();
    assert_eq!(e.selection, None);
}

#[test]
fn home_and_end_go_to_the_ends() {
    let mut e = line("añb");
    key(&mut e, &named(NamedKey::Home));
    assert_eq!(e.cursor, 0);
    key(&mut e, &named(NamedKey::End));
    assert_eq!(e.cursor, 4);
    typed(&mut e, "!");
    key(&mut e, &named(NamedKey::ArrowLeft));
    key(&mut e, &named(NamedKey::ArrowLeft));
    typed(&mut e, "-");
    assert_eq!(e.text, "añ-b!");
}
