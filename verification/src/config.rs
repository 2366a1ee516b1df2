//! The keys of the editor: which key asks for which action in which mode,
//! and how long lines are shown.

use vstd::prelude::*;
use crate::editor::Mode;

verus! {

/// A key of the keyboard.
#[derive(Debug, Clone, Copy, PartialEq, Eq, Structural)]
pub enum KeyCode {
    Backspace,
    Enter,
    Left,
    Right,
    Up,
    Down,
    Home,
    End,
    PageUp,
    PageDown,
    Tab,
    BackTab,
    Delete,
    Insert,
    /// A function key, with its number.
    F(u8),
    /// A key that stands for a character.
    Char(char),
    Null,
    Esc,
    CapsLock,
    ScrollLock,
    NumLock,
    PrintScreen,
    Pause,
    Menu,
    KeypadBegin,
    /// One of the media keys.
    Media,
    /// One of the modifier keys, pressed alone.
    Modifier,
}

/// No modifier key.
pub const NONE: u8 = 0x00;

/// The bit of the shift key.
pub const SHIFT: u8 = 0x01;

/// The bit of the control key.
pub const CONTROL: u8 = 0x02;

/// The bit of the alt key.
pub const ALT: u8 = 0x04;

/// The bit of the super key.
pub const SUPER: u8 = 0x08;

/// The bit of the hyper key.
pub const HYPER: u8 = 0x10;

/// The bit of the meta key.
pub const META: u8 = 0x20;

/// The modifier keys that are held while a key is pressed, one bit for
/// each.
#[derive(Debug, Clone, Copy, PartialEq, Eq, Structural)]
pub struct KeyModifiers {
    /// The bits of the modifier keys that are held.
    pub bits: u8,
}

/// A key press: the key, and the modifier keys held with it.
#[derive(Debug, Clone, Copy, PartialEq, Eq, Structural)]
pub struct Key {
    /// Which key was pressed.
    pub code: KeyCode,
    /// Any modifiers on the pressed key.
    pub modifiers: KeyModifiers,
}

/// The actions that a key can ask of the editor.
#[derive(Debug, Clone, Copy, PartialEq, Eq, Structural)]
pub enum Message {
    /// Quit the editor.
    Quit,
    /// Write the current buffer to its file.
    Write,
    /// Enter a newline.
    Enter,
    /// Delete the character behind the cursor.
    Backspace,
    /// Move the cursor left.
    Left,
    /// Move the cursor right.
    Right,
    /// Move the cursor up.
    Up,
    /// Move the cursor down.
    Down,
    /// Insert a character.
    Char(char),
    /// Enter a given [`Mode`].
    Mode(Mode),
    /// Do nothing.
    Nothing,
}

/// How lines that are longer than the editor is wide are shown.
#[derive(Debug, Clone, Copy, PartialEq, Eq, Structural)]
pub enum WrapMode {
    /// Long lines continue on the next row of the screen. This is a matter
    /// of display only: no line break is put into the text.
    Wrap,
    /// Long lines are cut off at the edge of the screen, and the given
    /// character, if there is one, is shown in the last column to say that
    /// the line goes on.
    NoWrap(Option<char>),
}

/// The wrap mode that the editor is configured with.
pub fn wrap_mode() -> (r: WrapMode)
    ensures
        r == WrapMode::NoWrap(Some('>')),
{
    WrapMode::NoWrap(Some('>'))
}

impl Key {
    /// The press of `code` with no modifier key held.
    pub open spec fn plain(code: KeyCode) -> Key {
        Key { code, modifiers: KeyModifiers { bits: NONE } }
    }

    /// The press of `code` with the control key held, and no other
    /// modifier key.
    pub open spec fn control(code: KeyCode) -> Key {
        Key { code, modifiers: KeyModifiers { bits: CONTROL } }
    }

    /// The press of `code` with the modifier keys of `bits` held.
    pub fn new(code: KeyCode, bits: u8) -> (r: Key)
        ensures
            r == (Key { code, modifiers: KeyModifiers { bits } }),
    {
        Key { code, modifiers: KeyModifiers { bits } }
    }
}

/// What a key asks for in normal mode: control with `q` quits and control
/// with `w` writes; the arrow keys and `h`, `l`, `k`, `j`, pressed alone,
/// move the cursor; `i` alone goes to insert mode; every other key asks for
/// nothing.
pub open spec fn normal_message(key: Key) -> Message {
    if key == Key::control(KeyCode::Char('q')) {
        Message::Quit
    } else if key == Key::control(KeyCode::Char('w')) {
        Message::Write
    } else if key == Key::plain(KeyCode::Left) || key == Key::plain(KeyCode::Char('h')) {
        Message::Left
    } else if key == Key::plain(KeyCode::Right) || key == Key::plain(KeyCode::Char('l')) {
        Message::Right
    } else if key == Key::plain(KeyCode::Up) || key == Key::plain(KeyCode::Char('k')) {
        Message::Up
    } else if key == Key::plain(KeyCode::Down) || key == Key::plain(KeyCode::Char('j')) {
        Message::Down
    } else if key == Key::plain(KeyCode::Char('i')) {
        Message::Mode(Mode::Insert)
    } else {
        Message::Nothing
    }
}

/// What a key asks for in insert mode, where only keys pressed alone ask
/// for anything: enter, backspace and the arrow keys do what they are named
/// for, escape goes to normal mode, and a character key puts its character
/// into the text.
pub open spec fn insert_message(key: Key) -> Message {
    if key.modifiers.bits != NONE {
        Message::Nothing
    } else {
        match key.code {
            KeyCode::Enter => Message::Enter,
            KeyCode::Backspace => Message::Backspace,
            KeyCode::Left => Message::Left,
            KeyCode::Right => Message::Right,
            KeyCode::Up => Message::Up,
            KeyCode::Down => Message::Down,
            KeyCode::Esc => Message::Mode(Mode::Normal),
            KeyCode::Char(c) => Message::Char(c),
            _ => Message::Nothing,
        }
    }
}

/// What a key asks for in a mode.
pub open spec fn message_for(mode: Mode, key: Key) -> Message {
    match mode {
        Mode::Normal => normal_message(key),
        Mode::Insert => insert_message(key),
    }
}

/// The [`Message`] that a key press stands for in the given mode.
pub fn translate_event(mode: Mode, key: Key) -> (r: Message)
    ensures
        r == message_for(mode, key),
{
    match mode {
        Mode::Normal => normal_mode_event(key),
        Mode::Insert => insert_mode_event(key),
    }
}

/// The [`Message`] that a key press stands for in normal mode.
pub fn normal_mode_event(key: Key) -> (r: Message)
    ensures
        r == normal_message(key),
{
    if key.modifiers.bits == CONTROL {
        match key.code {
            KeyCode::Char('q') => Message::Quit,
            KeyCode::Char('w') => Message::Write,
            _ => Message::Nothing,
        }
    } else if key.modifiers.bits == NONE {
        match key.code {
            KeyCode::Left | KeyCode::Char('h') => Message::Left,
            KeyCode::Right | KeyCode::Char('l') => Message::Right,
            KeyCode::Up | KeyCode::Char('k') => Message::Up,
            KeyCode::Down | KeyCode::Char('j') => Message::Down,
            KeyCode::Char('i') => Message::Mode(Mode::Insert),
            _ => Message::Nothing,
        }
    } else {
        Message::Nothing
    }
}

/// The [`Message`] that a key press stands for in insert mode.
pub fn insert_mode_event(key: Key) -> (r: Message)
    ensures
        r == insert_message(key),
{
    if key.modifiers.bits != NONE {
        return Message::Nothing;
    }
    match key.code {
        KeyCode::Enter => Message::Enter,
        KeyCode::Backspace => Message::Backspace,
        KeyCode::Left => Message::Left,
        KeyCode::Right => Message::Right,
        KeyCode::Up => Message::Up,
        KeyCode::Down => Message::Down,
        KeyCode::Esc => Message::Mode(Mode::Normal),
        KeyCode::Char(c) => Message::Char(c),
        _ => Message::Nothing,
    }
}

/// The two modes have two transitions: `i` alone leads from normal to insert
/// mode, escape alone leads back, and no other key changes the mode. Text
/// comes only from insert mode, and a request to quit or to write only
/// from normal mode.
pub proof fn lemma_transitions(mode: Mode, key: Key)
    ensures
        message_for(mode, key) is Mode <==> (mode == Mode::Normal && key == Key::plain(
            KeyCode::Char('i'),
        )) || (mode == Mode::Insert && key == Key::plain(KeyCode::Esc)),
        message_for(mode, key) is Mode ==> message_for(mode, key)->Mode_0 != mode,
        message_for(mode, key) is Char ==> mode == Mode::Insert,
        message_for(mode, key) is Quit || message_for(mode, key) is Write ==> mode == Mode::Normal,
        message_for(mode, key) is Enter || message_for(mode, key) is Backspace ==> mode
            == Mode::Insert,
{
}

} // verus!
