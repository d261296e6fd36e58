//! Keyboard input: what a key press sends to the shell and which tab
//! shortcuts it triggers.

use vstd::prelude::*;
use vstd::utf8::encode_utf8;

verus! {

/// Physical keys the terminal distinguishes; `Other` stands for the rest.
#[derive(Debug, Clone, Copy, PartialEq, Eq, Structural)]
pub enum Key {
    KeyA,
    KeyB,
    KeyC,
    KeyD,
    KeyE,
    KeyF,
    KeyG,
    KeyH,
    KeyI,
    KeyJ,
    KeyK,
    KeyL,
    KeyM,
    KeyN,
    KeyO,
    KeyP,
    KeyQ,
    KeyR,
    KeyS,
    KeyT,
    KeyU,
    KeyV,
    KeyW,
    KeyX,
    KeyY,
    KeyZ,
    Digit0,
    Digit1,
    Digit2,
    Digit3,
    Digit4,
    Digit5,
    Digit6,
    Digit7,
    Digit8,
    Digit9,
    Space,
    Minus,
    Equal,
    BracketLeft,
    BracketRight,
    Semicolon,
    Quote,
    Comma,
    Period,
    Slash,
    Backslash,
    Backquote,
    IntlBackslash,
    Escape,
    Enter,
    NumpadEnter,
    Tab,
    Backspace,
    Delete,
    Insert,
    Home,
    End,
    PageUp,
    PageDown,
    ArrowUp,
    ArrowDown,
    ArrowRight,
    ArrowLeft,
    F1,
    F2,
    F3,
    F4,
    F5,
    F6,
    F7,
    F8,
    F9,
    F10,
    F11,
    F12,
    ControlLeft,
    ControlRight,
    AltLeft,
    AltRight,
    Other,
}

/// The character byte a printable key types, upper or `shift`ed form.
pub open spec fn key_char(key: Key, shift: bool) -> Option<u8> {
    match key {
        Key::KeyA => Some(if shift { 0x41 } else { 0x61 }),
        Key::KeyB => Some(if shift { 0x42 } else { 0x62 }),
        Key::KeyC => Some(if shift { 0x43 } else { 0x63 }),
        Key::KeyD => Some(if shift { 0x44 } else { 0x64 }),
        Key::KeyE => Some(if shift { 0x45 } else { 0x65 }),
        Key::KeyF => Some(if shift { 0x46 } else { 0x66 }),
        Key::KeyG => Some(if shift { 0x47 } else { 0x67 }),
        Key::KeyH => Some(if shift { 0x48 } else { 0x68 }),
        Key::KeyI => Some(if shift { 0x49 } else { 0x69 }),
        Key::KeyJ => Some(if shift { 0x4A } else { 0x6A }),
        Key::KeyK => Some(if shift { 0x4B } else { 0x6B }),
        Key::KeyL => Some(if shift { 0x4C } else { 0x6C }),
        Key::KeyM => Some(if shift { 0x4D } else { 0x6D }),
        Key::KeyN => Some(if shift { 0x4E } else { 0x6E }),
        Key::KeyO => Some(if shift { 0x4F } else { 0x6F }),
        Key::KeyP => Some(if shift { 0x50 } else { 0x70 }),
        Key::KeyQ => Some(if shift { 0x51 } else { 0x71 }),
        Key::KeyR => Some(if shift { 0x52 } else { 0x72 }),
        Key::KeyS => Some(if shift { 0x53 } else { 0x73 }),
        Key::KeyT => Some(if shift { 0x54 } else { 0x74 }),
        Key::KeyU => Some(if shift { 0x55 } else { 0x75 }),
        Key::KeyV => Some(if shift { 0x56 } else { 0x76 }),
        Key::KeyW => Some(if shift { 0x57 } else { 0x77 }),
        Key::KeyX => Some(if shift { 0x58 } else { 0x78 }),
        Key::KeyY => Some(if shift { 0x59 } else { 0x79 }),
        Key::KeyZ => Some(if shift { 0x5A } else { 0x7A }),
        Key::Digit0 => Some(if shift { 0x29 } else { 0x30 }),
        Key::Digit1 => Some(if shift { 0x21 } else { 0x31 }),
        Key::Digit2 => Some(if shift { 0x40 } else { 0x32 }),
        Key::Digit3 => Some(if shift { 0x23 } else { 0x33 }),
        Key::Digit4 => Some(if shift { 0x24 } else { 0x34 }),
        Key::Digit5 => Some(if shift { 0x25 } else { 0x35 }),
        Key::Digit6 => Some(if shift { 0x5E } else { 0x36 }),
        Key::Digit7 => Some(if shift { 0x26 } else { 0x37 }),
        Key::Digit8 => Some(if shift { 0x2A } else { 0x38 }),
        Key::Digit9 => Some(if shift { 0x28 } else { 0x39 }),
        Key::Space => Some(0x20),
        Key::Minus => Some(if shift { 0x5F } else { 0x2D }),
        Key::Equal => Some(if shift { 0x2B } else { 0x3D }),
        Key::BracketLeft => Some(if shift { 0x7B } else { 0x5B }),
        Key::BracketRight => Some(if shift { 0x7D } else { 0x5D }),
        Key::Semicolon => Some(if shift { 0x3A } else { 0x3B }),
        Key::Quote => Some(if shift { 0x22 } else { 0x27 }),
        Key::Comma => Some(if shift { 0x3C } else { 0x2C }),
        Key::Period => Some(if shift { 0x3E } else { 0x2E }),
        Key::Slash => Some(if shift { 0x3F } else { 0x2F }),
        Key::Backslash => Some(if shift { 0x7C } else { 0x5C }),
        Key::Backquote => Some(if shift { 0x7E } else { 0x60 }),
        Key::IntlBackslash => Some(if shift { 0x7C } else { 0x5C }),
        _ => None,
    }
}

/// The character byte a printable key types (see [`key_char`]).
fn key_to_char(key: Key, shift: bool) -> (c: Option<u8>)
    ensures
        c == key_char(key, shift),
{
    match key {
        Key::KeyA => Some(if shift { 0x41 } else { 0x61 }),
        Key::KeyB => Some(if shift { 0x42 } else { 0x62 }),
        Key::KeyC => Some(if shift { 0x43 } else { 0x63 }),
        Key::KeyD => Some(if shift { 0x44 } else { 0x64 }),
        Key::KeyE => Some(if shift { 0x45 } else { 0x65 }),
        Key::KeyF => Some(if shift { 0x46 } else { 0x66 }),
        Key::KeyG => Some(if shift { 0x47 } else { 0x67 }),
        Key::KeyH => Some(if shift { 0x48 } else { 0x68 }),
        Key::KeyI => Some(if shift { 0x49 } else { 0x69 }),
        Key::KeyJ => Some(if shift { 0x4A } else { 0x6A }),
        Key::KeyK => Some(if shift { 0x4B } else { 0x6B }),
        Key::KeyL => Some(if shift { 0x4C } else { 0x6C }),
        Key::KeyM => Some(if shift { 0x4D } else { 0x6D }),
        Key::KeyN => Some(if shift { 0x4E } else { 0x6E }),
        Key::KeyO => Some(if shift { 0x4F } else { 0x6F }),
        Key::KeyP => Some(if shift { 0x50 } else { 0x70 }),
        Key::KeyQ => Some(if shift { 0x51 } else { 0x71 }),
        Key::KeyR => Some(if shift { 0x52 } else { 0x72 }),
        Key::KeyS => Some(if shift { 0x53 } else { 0x73 }),
        Key::KeyT => Some(if shift { 0x54 } else { 0x74 }),
        Key::KeyU => Some(if shift { 0x55 } else { 0x75 }),
        Key::KeyV => Some(if shift { 0x56 } else { 0x76 }),
        Key::KeyW => Some(if shift { 0x57 } else { 0x77 }),
        Key::KeyX => Some(if shift { 0x58 } else { 0x78 }),
        Key::KeyY => Some(if shift { 0x59 } else { 0x79 }),
        Key::KeyZ => Some(if shift { 0x5A } else { 0x7A }),
        Key::Digit0 => Some(if shift { 0x29 } else { 0x30 }),
        Key::Digit1 => Some(if shift { 0x21 } else { 0x31 }),
        Key::Digit2 => Some(if shift { 0x40 } else { 0x32 }),
        Key::Digit3 => Some(if shift { 0x23 } else { 0x33 }),
        Key::Digit4 => Some(if shift { 0x24 } else { 0x34 }),
        Key::Digit5 => Some(if shift { 0x25 } else { 0x35 }),
        Key::Digit6 => Some(if shift { 0x5E } else { 0x36 }),
        Key::Digit7 => Some(if shift { 0x26 } else { 0x37 }),
        Key::Digit8 => Some(if shift { 0x2A } else { 0x38 }),
        Key::Digit9 => Some(if shift { 0x28 } else { 0x39 }),
        Key::Space => Some(0x20),
        Key::Minus => Some(if shift { 0x5F } else { 0x2D }),
        Key::Equal => Some(if shift { 0x2B } else { 0x3D }),
        Key::BracketLeft => Some(if shift { 0x7B } else { 0x5B }),
        Key::BracketRight => Some(if shift { 0x7D } else { 0x5D }),
        Key::Semicolon => Some(if shift { 0x3A } else { 0x3B }),
        Key::Quote => Some(if shift { 0x22 } else { 0x27 }),
        Key::Comma => Some(if shift { 0x3C } else { 0x2C }),
        Key::Period => Some(if shift { 0x3E } else { 0x2E }),
        Key::Slash => Some(if shift { 0x3F } else { 0x2F }),
        Key::Backslash => Some(if shift { 0x7C } else { 0x5C }),
        Key::Backquote => Some(if shift { 0x7E } else { 0x60 }),
        Key::IntlBackslash => Some(if shift { 0x7C } else { 0x5C }),
        _ => None,
    }
}

/// The bytes held by an optional buffer.
pub open spec fn bytes_view(b: &Option<Vec<u8>>) -> Option<Seq<u8>> {
    match b {
        Some(v) => Some(v@),
        None => None,
    }
}

/// Escape sequences of the non-character keys handled by [`process_key`].
pub open spec fn shell_special_keys(key: Key) -> Option<Seq<u8>> {
    match key {
        Key::Escape => Some(seq![0x1Bu8]),
        Key::Enter => Some(seq![0x0Du8]),
        Key::NumpadEnter => Some(seq![0x0Du8]),
        Key::Tab => Some(seq![0x09u8]),
        Key::Backspace => Some(seq![0x7Fu8]),
        Key::Delete => Some(seq![0x1Bu8, 0x5Bu8, 0x33u8, 0x7Eu8]),
        Key::Home => Some(seq![0x1Bu8, 0x5Bu8, 0x48u8]),
        Key::End => Some(seq![0x1Bu8, 0x5Bu8, 0x46u8]),
        Key::PageUp => Some(seq![0x1Bu8, 0x5Bu8, 0x35u8, 0x7Eu8]),
        Key::PageDown => Some(seq![0x1Bu8, 0x5Bu8, 0x36u8, 0x7Eu8]),
        Key::ArrowUp => Some(seq![0x1Bu8, 0x5Bu8, 0x41u8]),
        Key::ArrowDown => Some(seq![0x1Bu8, 0x5Bu8, 0x42u8]),
        Key::ArrowRight => Some(seq![0x1Bu8, 0x5Bu8, 0x43u8]),
        Key::ArrowLeft => Some(seq![0x1Bu8, 0x5Bu8, 0x44u8]),
        Key::F1 => Some(seq![0x1Bu8, 0x4Fu8, 0x50u8]),
        Key::F2 => Some(seq![0x1Bu8, 0x4Fu8, 0x51u8]),
        Key::F3 => Some(seq![0x1Bu8, 0x4Fu8, 0x52u8]),
        Key::F4 => Some(seq![0x1Bu8, 0x4Fu8, 0x53u8]),
        _ => None,
    }
}

/// Escape sequences of the non-character keys handled by [`key_event_to_ansi`].
pub open spec fn pty_special_keys(key: Key) -> Option<Seq<u8>> {
    match key {
        Key::Enter => Some(seq![0x0Du8]),
        Key::Backspace => Some(seq![0x7Fu8]),
        Key::Tab => Some(seq![0x09u8]),
        Key::Escape => Some(seq![0x1Bu8]),
        Key::ArrowUp => Some(seq![0x1Bu8, 0x5Bu8, 0x41u8]),
        Key::ArrowDown => Some(seq![0x1Bu8, 0x5Bu8, 0x42u8]),
        Key::ArrowRight => Some(seq![0x1Bu8, 0x5Bu8, 0x43u8]),
        Key::ArrowLeft => Some(seq![0x1Bu8, 0x5Bu8, 0x44u8]),
        Key::Home => Some(seq![0x1Bu8, 0x5Bu8, 0x48u8]),
        Key::End => Some(seq![0x1Bu8, 0x5Bu8, 0x46u8]),
        Key::PageUp => Some(seq![0x1Bu8, 0x5Bu8, 0x35u8, 0x7Eu8]),
        Key::PageDown => Some(seq![0x1Bu8, 0x5Bu8, 0x36u8, 0x7Eu8]),
        Key::Insert => Some(seq![0x1Bu8, 0x5Bu8, 0x32u8, 0x7Eu8]),
        Key::Delete => Some(seq![0x1Bu8, 0x5Bu8, 0x33u8, 0x7Eu8]),
        Key::F1 => Some(seq![0x1Bu8, 0x4Fu8, 0x50u8]),
        Key::F2 => Some(seq![0x1Bu8, 0x4Fu8, 0x51u8]),
        Key::F3 => Some(seq![0x1Bu8, 0x4Fu8, 0x52u8]),
        Key::F4 => Some(seq![0x1Bu8, 0x4Fu8, 0x53u8]),
        Key::F5 => Some(seq![0x1Bu8, 0x5Bu8, 0x31u8, 0x35u8, 0x7Eu8]),
        Key::F6 => Some(seq![0x1Bu8, 0x5Bu8, 0x31u8, 0x37u8, 0x7Eu8]),
        Key::F7 => Some(seq![0x1Bu8, 0x5Bu8, 0x31u8, 0x38u8, 0x7Eu8]),
        Key::F8 => Some(seq![0x1Bu8, 0x5Bu8, 0x31u8, 0x39u8, 0x7Eu8]),
        Key::F9 => Some(seq![0x1Bu8, 0x5Bu8, 0x32u8, 0x30u8, 0x7Eu8]),
        Key::F10 => Some(seq![0x1Bu8, 0x5Bu8, 0x32u8, 0x31u8, 0x7Eu8]),
        Key::F11 => Some(seq![0x1Bu8, 0x5Bu8, 0x32u8, 0x33u8, 0x7Eu8]),
        Key::F12 => Some(seq![0x1Bu8, 0x5Bu8, 0x32u8, 0x34u8, 0x7Eu8]),
        _ => None,
    }
}

/// The escape sequence of a non-character key (see [`shell_special_keys`]).
fn shell_special_bytes(key: Key) -> (r: Option<Vec<u8>>)
    ensures
        bytes_view(&r) == shell_special_keys(key),
{
    let r = match key {
        Key::Escape => Some(vec![0x1Bu8]),
        Key::Enter => Some(vec![0x0Du8]),
        Key::NumpadEnter => Some(vec![0x0Du8]),
        Key::Tab => Some(vec![0x09u8]),
        Key::Backspace => Some(vec![0x7Fu8]),
        Key::Delete => Some(vec![0x1Bu8, 0x5Bu8, 0x33u8, 0x7Eu8]),
        Key::Home => Some(vec![0x1Bu8, 0x5Bu8, 0x48u8]),
        Key::End => Some(vec![0x1Bu8, 0x5Bu8, 0x46u8]),
        Key::PageUp => Some(vec![0x1Bu8, 0x5Bu8, 0x35u8, 0x7Eu8]),
        Key::PageDown => Some(vec![0x1Bu8, 0x5Bu8, 0x36u8, 0x7Eu8]),
        Key::ArrowUp => Some(vec![0x1Bu8, 0x5Bu8, 0x41u8]),
        Key::ArrowDown => Some(vec![0x1Bu8, 0x5Bu8, 0x42u8]),
        Key::ArrowRight => Some(vec![0x1Bu8, 0x5Bu8, 0x43u8]),
        Key::ArrowLeft => Some(vec![0x1Bu8, 0x5Bu8, 0x44u8]),
        Key::F1 => Some(vec![0x1Bu8, 0x4Fu8, 0x50u8]),
        Key::F2 => Some(vec![0x1Bu8, 0x4Fu8, 0x51u8]),
        Key::F3 => Some(vec![0x1Bu8, 0x4Fu8, 0x52u8]),
        Key::F4 => Some(vec![0x1Bu8, 0x4Fu8, 0x53u8]),
        _ => None,
    };
    assert(bytes_view(&r) =~~= shell_special_keys(key));
    r
}

/// The escape sequence of a non-character key (see [`pty_special_keys`]).
fn pty_special_bytes(key: Key) -> (r: Option<Vec<u8>>)
    ensures
        bytes_view(&r) == pty_special_keys(key),
{
    let r = match key {
        Key::Enter => Some(vec![0x0Du8]),
        Key::Backspace => Some(vec![0x7Fu8]),
        Key::Tab => Some(vec![0x09u8]),
        Key::Escape => Some(vec![0x1Bu8]),
        Key::ArrowUp => Some(vec![0x1Bu8, 0x5Bu8, 0x41u8]),
        Key::ArrowDown => Some(vec![0x1Bu8, 0x5Bu8, 0x42u8]),
        Key::ArrowRight => Some(vec![0x1Bu8, 0x5Bu8, 0x43u8]),
        Key::ArrowLeft => Some(vec![0x1Bu8, 0x5Bu8, 0x44u8]),
        Key::Home => Some(vec![0x1Bu8, 0x5Bu8, 0x48u8]),
        Key::End => Some(vec![0x1Bu8, 0x5Bu8, 0x46u8]),
        Key::PageUp => Some(vec![0x1Bu8, 0x5Bu8, 0x35u8, 0x7Eu8]),
        Key::PageDown => Some(vec![0x1Bu8, 0x5Bu8, 0x36u8, 0x7Eu8]),
        Key::Insert => Some(vec![0x1Bu8, 0x5Bu8, 0x32u8, 0x7Eu8]),
        Key::Delete => Some(vec![0x1Bu8, 0x5Bu8, 0x33u8, 0x7Eu8]),
        Key::F1 => Some(vec![0x1Bu8, 0x4Fu8, 0x50u8]),
        Key::F2 => Some(vec![0x1Bu8, 0x4Fu8, 0x51u8]),
        Key::F3 => Some(vec![0x1Bu8, 0x4Fu8, 0x52u8]),
        Key::F4 => Some(vec![0x1Bu8, 0x4Fu8, 0x53u8]),
        Key::F5 => Some(vec![0x1Bu8, 0x5Bu8, 0x31u8, 0x35u8, 0x7Eu8]),
        Key::F6 => Some(vec![0x1Bu8, 0x5Bu8, 0x31u8, 0x37u8, 0x7Eu8]),
        Key::F7 => Some(vec![0x1Bu8, 0x5Bu8, 0x31u8, 0x38u8, 0x7Eu8]),
        Key::F8 => Some(vec![0x1Bu8, 0x5Bu8, 0x31u8, 0x39u8, 0x7Eu8]),
        Key::F9 => Some(vec![0x1Bu8, 0x5Bu8, 0x32u8, 0x30u8, 0x7Eu8]),
        Key::F10 => Some(vec![0x1Bu8, 0x5Bu8, 0x32u8, 0x31u8, 0x7Eu8]),
        Key::F11 => Some(vec![0x1Bu8, 0x5Bu8, 0x32u8, 0x33u8, 0x7Eu8]),
        Key::F12 => Some(vec![0x1Bu8, 0x5Bu8, 0x32u8, 0x34u8, 0x7Eu8]),
        _ => None,
    };
    assert(bytes_view(&r) =~~= pty_special_keys(key));
    r
}

/// Control code of Ctrl with a letter key (Ctrl-A is 1, ..., Ctrl-Z is 26).
pub open spec fn ctrl_letter_code(key: Key) -> Option<u8> {
    match key {
        Key::KeyA => Some(1),
        Key::KeyB => Some(2),
        Key::KeyC => Some(3),
        Key::KeyD => Some(4),
        Key::KeyE => Some(5),
        Key::KeyF => Some(6),
        Key::KeyG => Some(7),
        Key::KeyH => Some(8),
        Key::KeyI => Some(9),
        Key::KeyJ => Some(10),
        Key::KeyK => Some(11),
        Key::KeyL => Some(12),
        Key::KeyM => Some(13),
        Key::KeyN => Some(14),
        Key::KeyO => Some(15),
        Key::KeyP => Some(16),
        Key::KeyQ => Some(17),
        Key::KeyR => Some(18),
        Key::KeyS => Some(19),
        Key::KeyT => Some(20),
        Key::KeyU => Some(21),
        Key::KeyV => Some(22),
        Key::KeyW => Some(23),
        Key::KeyX => Some(24),
        Key::KeyY => Some(25),
        Key::KeyZ => Some(26),
        _ => None,
    }
}

/// Control code of Ctrl with a letter key (see [`ctrl_letter_code`]).
fn ctrl_letter(key: Key) -> (c: Option<u8>)
    ensures
        c == ctrl_letter_code(key),
{
    match key {
        Key::KeyA => Some(1),
        Key::KeyB => Some(2),
        Key::KeyC => Some(3),
        Key::KeyD => Some(4),
        Key::KeyE => Some(5),
        Key::KeyF => Some(6),
        Key::KeyG => Some(7),
        Key::KeyH => Some(8),
        Key::KeyI => Some(9),
        Key::KeyJ => Some(10),
        Key::KeyK => Some(11),
        Key::KeyL => Some(12),
        Key::KeyM => Some(13),
        Key::KeyN => Some(14),
        Key::KeyO => Some(15),
        Key::KeyP => Some(16),
        Key::KeyQ => Some(17),
        Key::KeyR => Some(18),
        Key::KeyS => Some(19),
        Key::KeyT => Some(20),
        Key::KeyU => Some(21),
        Key::KeyV => Some(22),
        Key::KeyW => Some(23),
        Key::KeyX => Some(24),
        Key::KeyY => Some(25),
        Key::KeyZ => Some(26),
        _ => None,
    }
}

/// Tab-management shortcuts.
#[derive(Debug, Clone, Copy, PartialEq, Eq, Structural)]
pub enum TabAction {
    NewTab,
    CloseTab,
    NextTab,
    PrevTab,
    NoAction,
}

/// The bytes a key sends when no text came with it: its escape sequence,
/// or its character (a control code with Ctrl on a lower-case letter, `ESC`
/// first with Alt).
pub open spec fn key_bytes(key: Key, ctrl: bool, alt: bool, shift: bool) -> Option<Seq<u8>> {
    match shell_special_keys(key) {
        Some(s) => Some(s),
        None => match key_char(key, shift) {
            None => None,
            Some(c) => if ctrl && 0x61 <= c <= 0x7A {
                Some(seq![(c - 0x61 + 1) as u8])
            } else if alt {
                Some(seq![0x1Bu8, c])
            } else {
                Some(seq![c])
            },
        },
    }
}

/// The text's UTF-8 bytes when it is non-empty.
pub open spec fn text_bytes(text: Option<Seq<char>>) -> Option<Seq<u8>> {
    match text {
        Some(t) => if t.len() > 0 {
            Some(encode_utf8(t))
        } else {
            None
        },
        None => None,
    }
}

/// What a key press with modifiers does (`key` is `None` for an
/// unidentified key): Ctrl+Shift (without Alt) with T or W opens or closes a
/// tab, Ctrl with Tab moves to the next tab (previous with Shift); otherwise the
/// typed text, or else the key's own bytes, go to the shell.
pub open spec fn key_outcome(key: Option<Key>, ctrl: bool, alt: bool, shift: bool, text: Option<Seq<char>>) -> (
    TabAction,
    Option<Seq<u8>>,
) {
    if ctrl && !alt && key is None {
        (TabAction::NoAction, text_bytes(text))
    } else if ctrl && !alt && key == Some(Key::KeyT) && shift {
        (TabAction::NewTab, None)
    } else if ctrl && !alt && key == Some(Key::KeyW) && shift {
        (TabAction::CloseTab, None)
    } else if ctrl && !alt && key == Some(Key::Tab) {
        (if shift { TabAction::PrevTab } else { TabAction::NextTab }, None)
    } else if text_bytes(text) is Some {
        (TabAction::NoAction, text_bytes(text))
    } else {
        match key {
            None => (TabAction::NoAction, None),
            Some(k) => (TabAction::NoAction, key_bytes(k, ctrl, alt, shift)),
        }
    }
}

/// The UTF-8 bytes of `text`.
fn utf8_bytes(text: &str) -> (v: Vec<u8>)
    ensures
        v@ == encode_utf8(text@),
{
    let b = text.as_bytes();
    let mut v: Vec<u8> = Vec::new();
    let mut i: usize = 0;
    while i < b.len()
        invariant
            i <= b@.len(),
            b@ == encode_utf8(text@),
            v@ == b@.subrange(0, i as int),
        decreases b.len() - i,
    {
        v.push(b[i]);
        i += 1;
        assert(v@ =~= b@.subrange(0, i as int));
    }
    assert(b@.subrange(0, b@.len() as int) =~= b@);
    v
}

/// The text's bytes when it is non-empty (see [`text_bytes`]).
fn nonempty_text_bytes(text: Option<&str>) -> (r: Option<Vec<u8>>)
    ensures
        bytes_view(&r) == text_bytes(
            match text {
                Some(t) => Some(t@),
                None => None,
            },
        ),
{
    match text {
        Some(t) => if !t.is_empty() {
            Some(utf8_bytes(t))
        } else {
            None
        },
        None => None,
    }
}

/// The bytes a key sends (see [`key_bytes`]).
fn key_to_ansi(key: Key, ctrl: bool, alt: bool, shift: bool) -> (r: Option<Vec<u8>>)
    ensures
        bytes_view(&r) == key_bytes(key, ctrl, alt, shift),
{
    match shell_special_bytes(key) {
        Some(s) => return Some(s),
        None => {},
    }
    let c = match key_to_char(key, shift) {
        Some(c) => c,
        None => return None,
    };
    if ctrl && c >= 0x61 && c <= 0x7A {
        let r = Some(vec![c - 0x61 + 1]);
        assert(bytes_view(&r) =~~= key_bytes(key, ctrl, alt, shift));
        return r;
    }
    if alt {
        let r = Some(vec![0x1B, c]);
        assert(bytes_view(&r) =~~= key_bytes(key, ctrl, alt, shift));
        return r;
    }
    let r = Some(vec![c]);
    assert(bytes_view(&r) =~~= key_bytes(key, ctrl, alt, shift));
    r
}

/// What a key press does (see [`key_outcome`]).
pub fn process_key(key: Option<Key>, ctrl: bool, alt: bool, shift: bool, text: Option<&str>) -> (r: (
    TabAction,
    Option<Vec<u8>>,
))
    ensures
        (r.0, bytes_view(&r.1)) == key_outcome(
            key,
            ctrl,
            alt,
            shift,
            match text {
                Some(t) => Some(t@),
                None => None,
            },
        ),
{
    if ctrl && !alt {
        match key {
            None => {
                return (TabAction::NoAction, nonempty_text_bytes(text));
            },
            Some(Key::KeyT) => if shift {
                return (TabAction::NewTab, None);
            },
            Some(Key::KeyW) => if shift {
                return (TabAction::CloseTab, None);
            },
            Some(Key::Tab) => {
                return if shift {
                    (TabAction::PrevTab, None)
                } else {
                    (TabAction::NextTab, None)
                };
            },
            _ => {},
        }
    }
    let typed = nonempty_text_bytes(text);
    if typed.is_some() {
        return (TabAction::NoAction, typed);
    }
    match key {
        None => (TabAction::NoAction, None),
        Some(code) => (TabAction::NoAction, key_to_ansi(code, ctrl, alt, shift)),
    }
}

/// `s` with `ESC` in front when `alt` is held.
pub open spec fn alt_prefixed(s: Seq<u8>, alt: bool) -> Seq<u8> {
    if alt {
        seq![0x1Bu8] + s
    } else {
        s
    }
}

/// The bytes a key event sends to the PTY: nothing on release; a control
/// code for Ctrl with a letter; else the typed text, or the key's escape
/// sequence, with `ESC` in front when Alt is held.
pub open spec fn key_event_bytes(pressed: bool, key: Option<Key>, text: Option<Seq<char>>, ctrl: bool, alt: bool) -> Option<
    Seq<u8>,
> {
    if !pressed {
        None
    } else if ctrl && key is Some && ctrl_letter_code(key->0) is Some {
        Some(seq![ctrl_letter_code(key->0)->0])
    } else if text_bytes(text) is Some {
        Some(alt_prefixed(text_bytes(text)->0, alt))
    } else {
        match key {
            Some(k) => match pty_special_keys(k) {
                Some(s) => Some(alt_prefixed(s, alt)),
                None => None,
            },
            None => None,
        }
    }
}

/// `ESC` followed by the bytes of `v`.
fn with_escape(v: Vec<u8>) -> (r: Vec<u8>)
    ensures
        r@ == seq![0x1Bu8] + v@,
{
    let mut r: Vec<u8> = vec![0x1B];
    let mut i: usize = 0;
    while i < v.len()
        invariant
            i <= v@.len(),
            r@ == seq![0x1Bu8] + v@.subrange(0, i as int),
        decreases v.len() - i,
    {
        r.push(v[i]);
        i += 1;
        assert(r@ =~= seq![0x1Bu8] + v@.subrange(0, i as int));
    }
    assert(v@.subrange(0, v@.len() as int) =~= v@);
    r
}

/// The bytes a key event sends to the PTY (see [`key_event_bytes`]);
/// `pressed` tells a press from a release, `key` is `None` for an
/// unidentified key.
pub fn key_event_to_ansi(pressed: bool, key: Option<Key>, text: Option<&str>, ctrl: bool, alt: bool) -> (r: Option<
    Vec<u8>,
>)
    ensures
        bytes_view(&r) == key_event_bytes(
            pressed,
            key,
            match text {
                Some(t) => Some(t@),
                None => None,
            },
            ctrl,
            alt,
        ),
{
    if !pressed {
        return None;
    }
    if ctrl {
        match key {
            Some(code) => match ctrl_letter(code) {
                Some(byte) => {
                    let r = Some(vec![byte]);
                    assert(bytes_view(&r) =~~= Some(seq![byte]));
                    return r;
                },
                None => {},
            },
            None => {},
        }
    }
    match nonempty_text_bytes(text) {
        Some(bytes) => {
            return if alt {
                Some(with_escape(bytes))
            } else {
                Some(bytes)
            };
        },
        None => {},
    }
    let result = match key {
        Some(code) => pty_special_bytes(code),
        None => None,
    };
    match result {
        Some(seq) => if alt {
            Some(with_escape(seq))
        } else {
            Some(seq)
        },
        None => None,
    }
}

/// Updates the tracked Ctrl and Alt state from a key event (`pressed`
/// telling press from release); other keys leave it as it is.
pub fn update_modifiers(key: Option<Key>, pressed: bool, ctrl: &mut bool, alt: &mut bool)
    ensures
        *final(ctrl) == (if key == Some(Key::ControlLeft) || key == Some(Key::ControlRight) {
            pressed
        } else {
            *old(ctrl)
        }),
        *final(alt) == (if key == Some(Key::AltLeft) || key == Some(Key::AltRight) {
            pressed
        } else {
            *old(alt)
        }),
{
    match key {
        Some(Key::ControlLeft) | Some(Key::ControlRight) => {
            *ctrl = pressed;
        },
        Some(Key::AltLeft) | Some(Key::AltRight) => {
            *alt = pressed;
        },
        _ => {},
    }
}

/// What a key press asks of the terminal window.
#[derive(Debug, Clone, PartialEq, Eq)]
pub enum KeyCommand {
    /// Nothing (a release, or a key that sends nothing).
    Ignore,
    /// Copy the selection (Ctrl+Shift+C).
    Copy,
    /// Paste the clipboard (Ctrl+Shift+V).
    Paste,
    /// Open the search (Ctrl+Shift+F).
    Search,
    /// Scroll the viewport by pages: back for positive counts (Page Up),
    /// forward for negative ones (Page Down).
    ScrollPages(isize),
    /// Scroll to the oldest history (Home).
    ScrollToTop,
    /// Scroll to the live output (End).
    ScrollToBottom,
    /// Send these bytes to the shell.
    Send(Vec<u8>),
}

/// The command of a key event: when pressed, Ctrl+Shift with C, V or F
/// copies, pastes or searches; without Ctrl, Page Up, Page Down, Home and
/// End scroll the viewport; anything else sends the bytes of
/// [`key_event_bytes`], if any.
pub open spec fn key_command_matches(
    r: KeyCommand,
    pressed: bool,
    key: Option<Key>,
    text: Option<Seq<char>>,
    ctrl: bool,
    shift: bool,
    alt: bool,
) -> bool {
    if !pressed {
        r == KeyCommand::Ignore
    } else if ctrl && shift && key == Some(Key::KeyC) {
        r == KeyCommand::Copy
    } else if ctrl && shift && key == Some(Key::KeyV) {
        r == KeyCommand::Paste
    } else if ctrl && shift && key == Some(Key::KeyF) {
        r == KeyCommand::Search
    } else if !ctrl && key == Some(Key::PageUp) {
        r == KeyCommand::ScrollPages(1isize)
    } else if !ctrl && key == Some(Key::PageDown) {
        r == KeyCommand::ScrollPages(-1isize)
    } else if !ctrl && key == Some(Key::Home) {
        r == KeyCommand::ScrollToTop
    } else if !ctrl && key == Some(Key::End) {
        r == KeyCommand::ScrollToBottom
    } else {
        match key_event_bytes(true, key, text, ctrl, alt) {
            Some(b) => r matches KeyCommand::Send(v) && v@ == b,
            None => r == KeyCommand::Ignore,
        }
    }
}

/// Decides what a key event does (see [`key_command_matches`]); `key` is
/// `None` for an unidentified key, `text` what the key typed.
pub fn key_command(
    pressed: bool,
    key: Option<Key>,
    text: Option<&str>,
    ctrl: bool,
    shift: bool,
    alt: bool,
) -> (r: KeyCommand)
    ensures
        key_command_matches(
            r,
            pressed,
            key,
            match text {
                Some(t) => Some(t@),
                None => None,
            },
            ctrl,
            shift,
            alt,
        ),
{
    if !pressed {
        return KeyCommand::Ignore;
    }
    match key {
        Some(k) => {
            if ctrl && shift {
                match k {
                    Key::KeyC => {
                        return KeyCommand::Copy;
                    },
                    Key::KeyV => {
                        return KeyCommand::Paste;
                    },
                    Key::KeyF => {
                        return KeyCommand::Search;
                    },
                    _ => {},
                }
            }
            if !ctrl {
                match k {
                    Key::PageUp => {
                        return KeyCommand::ScrollPages(1);
                    },
                    Key::PageDown => {
                        return KeyCommand::ScrollPages(-1);
                    },
                    Key::Home => {
                        return KeyCommand::ScrollToTop;
                    },
                    Key::End => {
                        return KeyCommand::ScrollToBottom;
                    },
                    _ => {},
                }
            }
        },
        None => {},
    }
    match key_event_to_ansi(true, key, text, ctrl, alt) {
        Some(bytes) => KeyCommand::Send(bytes),
        None => KeyCommand::Ignore,
    }
}

/// The arrow keys send `ESC [` and a final letter: `A` up, `B` down, `C`
/// right, `D` left. To the PTY (with or without Ctrl, when no text came
/// with the key) Alt puts one more `ESC` in front, and the key command sends
/// the same bytes; through the tab-aware handler they go out without a
/// prefix whatever the modifiers.
pub proof fn lemma_arrow_keys(k: Key, ctrl: bool, alt: bool, shift: bool, r: KeyCommand)
    requires
        k == Key::ArrowUp || k == Key::ArrowDown || k == Key::ArrowRight || k == Key::ArrowLeft,
    ensures
        ({
            let l: u8 = if k == Key::ArrowUp {
                0x41
            } else if k == Key::ArrowDown {
                0x42
            } else if k == Key::ArrowRight {
                0x43
            } else {
                0x44
            };
            let sent = if alt {
                seq![0x1Bu8, 0x1Bu8, 0x5Bu8, l]
            } else {
                seq![0x1Bu8, 0x5Bu8, l]
            };
            &&& key_event_bytes(true, Some(k), None, ctrl, alt) == Some(sent)
            &&& (key_command_matches(r, true, Some(k), None, ctrl, shift, alt) ==> (r matches KeyCommand::Send(v)
                && v@ == sent))
            &&& key_outcome(Some(k), ctrl, alt, shift, None) == (TabAction::NoAction, Some(seq![0x1Bu8, 0x5Bu8, l]))
        }),
{
    assert(seq![0x1Bu8] + seq![0x1Bu8, 0x5Bu8, 0x41u8] =~= seq![0x1Bu8, 0x1Bu8, 0x5Bu8, 0x41u8]);
    assert(seq![0x1Bu8] + seq![0x1Bu8, 0x5Bu8, 0x42u8] =~= seq![0x1Bu8, 0x1Bu8, 0x5Bu8, 0x42u8]);
    assert(seq![0x1Bu8] + seq![0x1Bu8, 0x5Bu8, 0x43u8] =~= seq![0x1Bu8, 0x1Bu8, 0x5Bu8, 0x43u8]);
    assert(seq![0x1Bu8] + seq![0x1Bu8, 0x5Bu8, 0x44u8] =~= seq![0x1Bu8, 0x1Bu8, 0x5Bu8, 0x44u8]);
}

} // verus!
