//! From key events to chords, and from key presses to what the shell is sent.
//!
//! The window system's keys come in as plain values, so the mapping needs no window.

use vstd::prelude::*;
use vstd::string::*;

use crate::strings::{chars_of, is_control};

verus! {

/// Which modifiers are held.
#[derive(Debug, Clone, Copy, PartialEq, Eq, Structural)]
pub struct Modifiers {
    pub ctrl: bool,
    pub shift: bool,
    pub alt: bool,
    pub logo: bool,
}

impl Modifiers {
    /// None held.
    pub fn none() -> (m: Modifiers)
        ensures
            m == (Modifiers { ctrl: false, shift: false, alt: false, logo: false }),
    {
        Modifiers { ctrl: false, shift: false, alt: false, logo: false }
    }
}

/// Convert a window system's modifier state.
pub fn modifiers_from(control: bool, shift: bool, alt: bool, logo: bool) -> (m: Modifiers)
    ensures
        m == (Modifiers { ctrl: control, shift, alt, logo }),
{
    Modifiers { ctrl: control, shift, alt, logo }
}

/// A key without a character of its own.
#[derive(Debug, Clone, Copy, PartialEq, Eq, Structural)]
pub enum NamedKey {
    Enter,
    Tab,
    Backspace,
    Escape,
    Space,
    Insert,
    Delete,
    Home,
    End,
    PageUp,
    PageDown,
    Left,
    Right,
    Up,
    Down,
    Menu,
    PrintScreen,
    Pause,
    ScrollLock,
    NumLock,
    CapsLock,
    Function(u8),
}

/// A key that can take part in a binding.
#[derive(Debug, Clone, Copy, PartialEq, Eq, Structural)]
pub enum Key {
    Char(char),
    Named(NamedKey),
}

/// A named key as a window system reports it.
#[derive(Debug, Clone, Copy, PartialEq, Eq, Structural)]
pub enum WindowKey {
    Enter,
    Tab,
    Backspace,
    Escape,
    Space,
    Insert,
    Delete,
    Home,
    End,
    PageUp,
    PageDown,
    ArrowLeft,
    ArrowRight,
    ArrowUp,
    ArrowDown,
    ContextMenu,
    PrintScreen,
    Pause,
    ScrollLock,
    NumLock,
    CapsLock,
    /// F1 and up, by its number.
    F(u8),
    Control,
    Shift,
    Alt,
    Super,
    Meta,
    /// One with no part in a binding.
    Other,
}

/// A key as a window system reports it.
#[derive(Debug, PartialEq, Eq)]
pub enum LogicalKey {
    Character(String),
    Named(WindowKey),
    /// A dead key, which only takes part in a composition.
    Dead,
    Unidentified,
}

impl WindowKey {
    /// A modifier pressed on its own: a state change, not a chord.
    pub open spec fn is_modifier(self) -> bool {
        ||| self is Control
        ||| self is Shift
        ||| self is Alt
        ||| self is Super
        ||| self is Meta
    }

    /// The key it stands for in a binding.
    pub open spec fn bound(self) -> Option<NamedKey> {
        match self {
            WindowKey::Enter => Some(NamedKey::Enter),
            WindowKey::Tab => Some(NamedKey::Tab),
            WindowKey::Backspace => Some(NamedKey::Backspace),
            WindowKey::Escape => Some(NamedKey::Escape),
            WindowKey::Space => Some(NamedKey::Space),
            WindowKey::Insert => Some(NamedKey::Insert),
            WindowKey::Delete => Some(NamedKey::Delete),
            WindowKey::Home => Some(NamedKey::Home),
            WindowKey::End => Some(NamedKey::End),
            WindowKey::PageUp => Some(NamedKey::PageUp),
            WindowKey::PageDown => Some(NamedKey::PageDown),
            WindowKey::ArrowLeft => Some(NamedKey::Left),
            WindowKey::ArrowRight => Some(NamedKey::Right),
            WindowKey::ArrowUp => Some(NamedKey::Up),
            WindowKey::ArrowDown => Some(NamedKey::Down),
            WindowKey::ContextMenu => Some(NamedKey::Menu),
            WindowKey::PrintScreen => Some(NamedKey::PrintScreen),
            WindowKey::Pause => Some(NamedKey::Pause),
            WindowKey::ScrollLock => Some(NamedKey::ScrollLock),
            WindowKey::NumLock => Some(NamedKey::NumLock),
            WindowKey::CapsLock => Some(NamedKey::CapsLock),
            WindowKey::F(n) => if 1 <= n <= 24 {
                Some(NamedKey::Function(n))
            } else {
                None
            },
            _ => None,
        }
    }
}

/// The key a window system's named key stands for: none for bare modifiers and for keys
/// that cannot be bound. The function keys go up to F24.
pub fn named_from(named: WindowKey) -> (key: Option<NamedKey>)
    ensures
        key == named.bound(),
        named.is_modifier() ==> key is None,
{
    match named {
        WindowKey::Enter => Some(NamedKey::Enter),
        WindowKey::Tab => Some(NamedKey::Tab),
        WindowKey::Backspace => Some(NamedKey::Backspace),
        WindowKey::Escape => Some(NamedKey::Escape),
        WindowKey::Space => Some(NamedKey::Space),
        WindowKey::Insert => Some(NamedKey::Insert),
        WindowKey::Delete => Some(NamedKey::Delete),
        WindowKey::Home => Some(NamedKey::Home),
        WindowKey::End => Some(NamedKey::End),
        WindowKey::PageUp => Some(NamedKey::PageUp),
        WindowKey::PageDown => Some(NamedKey::PageDown),
        WindowKey::ArrowLeft => Some(NamedKey::Left),
        WindowKey::ArrowRight => Some(NamedKey::Right),
        WindowKey::ArrowUp => Some(NamedKey::Up),
        WindowKey::ArrowDown => Some(NamedKey::Down),
        WindowKey::ContextMenu => Some(NamedKey::Menu),
        WindowKey::PrintScreen => Some(NamedKey::PrintScreen),
        WindowKey::Pause => Some(NamedKey::Pause),
        WindowKey::ScrollLock => Some(NamedKey::ScrollLock),
        WindowKey::NumLock => Some(NamedKey::NumLock),
        WindowKey::CapsLock => Some(NamedKey::CapsLock),
        WindowKey::F(n) => {
            if 1 <= n && n <= 24 {
                Some(NamedKey::Function(n))
            } else {
                None
            }
        },
        WindowKey::Control
        | WindowKey::Shift
        | WindowKey::Alt
        | WindowKey::Super
        | WindowKey::Meta => None,
        WindowKey::Other => None,
    }
}

impl LogicalKey {
    /// The key it stands for in a binding. Text of several characters comes from a
    /// composition: it is text to insert, not a chord to match.
    pub open spec fn bound(self) -> Option<Key> {
        match self {
            LogicalKey::Character(s) => if s@.len() == 1 {
                Some(Key::Char(s@[0]))
            } else {
                None
            },
            LogicalKey::Named(named) => match named.bound() {
                Some(key) => Some(Key::Named(key)),
                None => None,
            },
            _ => None,
        }
    }
}

/// Convert a window system's key into a key that can be bound.
pub fn key_from(logical: &LogicalKey) -> (key: Option<Key>)
    ensures
        key == logical.bound(),
{
    match logical {
        LogicalKey::Character(s) => {
            let chars = chars_of(s.as_str());
            if chars.len() == 1 {
                Some(Key::Char(chars[0]))
            } else {
                None
            }
        },
        LogicalKey::Named(named) => match named_from(*named) {
            Some(key) => Some(Key::Named(key)),
            None => None,
        },
        LogicalKey::Dead => None,
        LogicalKey::Unidentified => None,
    }
}

/// A key together with the modifiers held.
#[derive(Debug, Clone, Copy, PartialEq, Eq, Structural)]
pub struct KeyChord {
    pub mods: Modifiers,
    pub key: Key,
}

/// The small letter of an ASCII capital.
pub open spec fn small_letter(c: char) -> Option<char> {
    if 'A' <= c <= 'Z' {
        Some((c as u32 + 32) as char)
    } else {
        None
    }
}

impl KeyChord {
    /// A capital letter is the small letter with shift: the platform reports the
    /// shifted character, and a binding is written with the small one.
    pub open spec fn normal(self) -> KeyChord {
        match self.key {
            Key::Char(c) => match small_letter(c) {
                Some(small) => KeyChord {
                    mods: Modifiers { shift: true, ..self.mods },
                    key: Key::Char(small),
                },
                None => self,
            },
            Key::Named(_) => self,
        }
    }

    /// The form in which chords are compared.
    pub fn normalized(self) -> (chord: KeyChord)
        ensures
            chord == self.normal(),
    {
        match self.key {
            Key::Char(c) => {
                if 'A' <= c && c <= 'Z' {
                    let small: char = ((c as u8) + 32) as char;
                    assert(small_letter(c) == Some(small)) by {
                        assert(c as u32 <= 90);
                        assert((c as u8) as u32 == c as u32);
                    }
                    KeyChord {
                        mods: Modifiers {
                            ctrl: self.mods.ctrl,
                            shift: true,
                            alt: self.mods.alt,
                            logo: self.mods.logo,
                        },
                        key: Key::Char(small),
                    }
                } else {
                    self
                }
            },
            Key::Named(_) => self,
        }
    }
}

/// Build a chord from a key event, in the form in which chords are compared.
pub fn chord_from(logical: &LogicalKey, mods: Modifiers) -> (chord: Option<KeyChord>)
    ensures
        chord == (match logical.bound() {
            Some(key) => Some((KeyChord { mods, key }).normal()),
            None => None,
        }),
{
    match key_from(logical) {
        Some(key) => Some(KeyChord { mods, key }.normalized()),
        None => None,
    }
}

/// What a key press sends to the shell.
#[derive(Debug, PartialEq, Eq)]
pub enum KeySend {
    /// These bytes.
    Bytes(Vec<u8>),
    /// The escape sequence of this key, with the modifiers held.
    Encode(Key),
    Nothing,
}

/// What a key press sends, as a mathematical value.
#[verifier::ext_equal]
pub enum SendModel {
    Bytes(Seq<u8>),
    Encode(Key),
    Nothing,
}

impl View for KeySend {
    type V = SendModel;

    open spec fn view(&self) -> SendModel {
        match *self {
            KeySend::Bytes(bytes) => SendModel::Bytes(bytes@),
            KeySend::Encode(key) => SendModel::Encode(key),
            KeySend::Nothing => SendModel::Nothing,
        }
    }
}

impl SendModel {
    /// What a key press sends: the typed text, else the key, else nothing.
    pub open spec fn of(logical: LogicalKey, text: Option<&str>, mods: Modifiers) -> SendModel {
        match (typed(text, mods), logical.bound()) {
            (Some(t), _) => SendModel::Bytes(vstd::utf8::encode_utf8(t)),
            (None, Some(key)) => SendModel::Encode(key),
            (None, None) => SendModel::Nothing,
        }
    }
}

/// Text that is sent as it is: there is some, and no control character in it. Enter and
/// Tab come with one and get their own sequences.
pub open spec fn sendable(text: Seq<char>) -> bool {
    text.len() > 0 && forall|i: int|
        0 <= i < text.len() ==> !crate::strings::is_control_char(#[trigger] text[i])
}

/// The text typed, when the key press is typing: no modifier but shift is held and the
/// platform composed some.
pub open spec fn typed(text: Option<&str>, mods: Modifiers) -> Option<Seq<char>> {
    match text {
        Some(t) => if !mods.ctrl && !mods.alt && !mods.logo && sendable(t@) {
            Some(t@)
        } else {
            None
        },
        None => None,
    }
}

fn is_sendable(text: &str) -> (b: bool)
    ensures
        b == sendable(text@),
{
    let chars = chars_of(text);
    if chars.len() == 0 {
        return false;
    }
    let mut i: usize = 0;
    while i < chars.len()
        invariant
            i <= chars.len(),
            chars@ == text@,
            forall|j: int|
                0 <= j < i ==> !crate::strings::is_control_char(#[trigger] text@[j]),
        decreases chars.len() - i,
    {
        if is_control(chars[i]) {
            assert(crate::strings::is_control_char(text@[i as int]));
            return false;
        }
        i += 1;
    }
    true
}

/// Decide what a key press sends to the shell.
///
/// Typing sends the platform's composed text, which accounts for the keyboard layout and
/// for dead keys. Anything else is encoded from the raw key, never from the normalized
/// chord: that would send every capital as a small letter.
pub fn bytes_for_key(logical: &LogicalKey, text: Option<&str>, mods: Modifiers) -> (send: KeySend)
    ensures
        send@ == SendModel::of(*logical, text, mods),
{
    if !mods.ctrl && !mods.alt && !mods.logo {
        if let Some(t) = text {
            if is_sendable(t) {
                return KeySend::Bytes(t.as_bytes_vec());
            }
        }
    }
    match key_from(logical) {
        Some(key) => KeySend::Encode(key),
        None => KeySend::Nothing,
    }
}

/// A shifted capital and the small letter a binding is written with are one chord, and
/// comparing in that form loses nothing more: doing it twice changes nothing.
pub proof fn law_normal_form(chord: KeyChord)
    ensures
        chord.normal().normal() == chord.normal(),
        chord.key matches Key::Char(c) ==> small_letter(c) is Some ==> chord.normal() == (KeyChord {
            mods: Modifiers { shift: true, ..chord.mods },
            key: Key::Char(small_letter(c)->0),
        }).normal(),
{
    if let Key::Char(c) = chord.key {
        if 'A' <= c <= 'Z' {
            let small = (c as u32 + 32) as char;
            assert(small as u32 == c as u32 + 32);
        }
    }
}

} // verus!
