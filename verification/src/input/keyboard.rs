//! Keyboard scan codes: the Set 1 decoder of the outside crate, and the layout-neutral key codes
//! its physical keys map to.
use vstd::prelude::*;

use pc_keyboard::{ScancodeSet, ScancodeSet1};

verus! {

#[verifier::external_type_specification]
#[verifier::external_body]
pub struct ExScancodeSet1(ScancodeSet1);

// Discriminants of the outside crate's physical key codes (`#[repr(u8)]`, declared in this order).
pub const PC_ESCAPE: u8 = 0;
pub const PC_F1: u8 = 1;
pub const PC_F2: u8 = 2;
pub const PC_F3: u8 = 3;
pub const PC_F4: u8 = 4;
pub const PC_F5: u8 = 5;
pub const PC_F6: u8 = 6;
pub const PC_F7: u8 = 7;
pub const PC_F8: u8 = 8;
pub const PC_F9: u8 = 9;
pub const PC_F10: u8 = 10;
pub const PC_F11: u8 = 11;
pub const PC_F12: u8 = 12;
pub const PC_PRINT_SCREEN: u8 = 13;
pub const PC_SCROLL_LOCK: u8 = 15;
pub const PC_PAUSE_BREAK: u8 = 16;
pub const PC_OEM8: u8 = 17;
pub const PC_KEY1: u8 = 18;
pub const PC_KEY2: u8 = 19;
pub const PC_KEY3: u8 = 20;
pub const PC_KEY4: u8 = 21;
pub const PC_KEY5: u8 = 22;
pub const PC_KEY6: u8 = 23;
pub const PC_KEY7: u8 = 24;
pub const PC_KEY8: u8 = 25;
pub const PC_KEY9: u8 = 26;
pub const PC_KEY0: u8 = 27;
pub const PC_OEM_MINUS: u8 = 28;
pub const PC_OEM_PLUS: u8 = 29;
pub const PC_BACKSPACE: u8 = 30;
pub const PC_INSERT: u8 = 31;
pub const PC_HOME: u8 = 32;
pub const PC_PAGE_UP: u8 = 33;
pub const PC_NUMPAD_LOCK: u8 = 34;
pub const PC_NUMPAD_DIVIDE: u8 = 35;
pub const PC_NUMPAD_MULTIPLY: u8 = 36;
pub const PC_NUMPAD_SUBTRACT: u8 = 37;
pub const PC_TAB: u8 = 38;
pub const PC_Q: u8 = 39;
pub const PC_W: u8 = 40;
pub const PC_E: u8 = 41;
pub const PC_R: u8 = 42;
pub const PC_T: u8 = 43;
pub const PC_Y: u8 = 44;
pub const PC_U: u8 = 45;
pub const PC_I: u8 = 46;
pub const PC_O: u8 = 47;
pub const PC_P: u8 = 48;
pub const PC_OEM4: u8 = 49;
pub const PC_OEM6: u8 = 50;
pub const PC_OEM5: u8 = 51;
pub const PC_DELETE: u8 = 53;
pub const PC_END: u8 = 54;
pub const PC_PAGE_DOWN: u8 = 55;
pub const PC_NUMPAD7: u8 = 56;
pub const PC_NUMPAD8: u8 = 57;
pub const PC_NUMPAD9: u8 = 58;
pub const PC_NUMPAD_ADD: u8 = 59;
pub const PC_CAPS_LOCK: u8 = 60;
pub const PC_A: u8 = 61;
pub const PC_S: u8 = 62;
pub const PC_D: u8 = 63;
pub const PC_F: u8 = 64;
pub const PC_G: u8 = 65;
pub const PC_H: u8 = 66;
pub const PC_J: u8 = 67;
pub const PC_K: u8 = 68;
pub const PC_L: u8 = 69;
pub const PC_OEM1: u8 = 70;
pub const PC_OEM3: u8 = 71;
pub const PC_RETURN: u8 = 72;
pub const PC_NUMPAD4: u8 = 73;
pub const PC_NUMPAD5: u8 = 74;
pub const PC_NUMPAD6: u8 = 75;
pub const PC_L_SHIFT: u8 = 76;
pub const PC_Z: u8 = 77;
pub const PC_X: u8 = 78;
pub const PC_C: u8 = 79;
pub const PC_V: u8 = 80;
pub const PC_B: u8 = 81;
pub const PC_N: u8 = 82;
pub const PC_M: u8 = 83;
pub const PC_OEM_COMMA: u8 = 84;
pub const PC_OEM_PERIOD: u8 = 85;
pub const PC_OEM2: u8 = 86;
pub const PC_R_SHIFT: u8 = 87;
pub const PC_ARROW_UP: u8 = 88;
pub const PC_NUMPAD1: u8 = 89;
pub const PC_NUMPAD2: u8 = 90;
pub const PC_NUMPAD3: u8 = 91;
pub const PC_NUMPAD_ENTER: u8 = 92;
pub const PC_L_CONTROL: u8 = 93;
pub const PC_L_WIN: u8 = 94;
pub const PC_L_ALT: u8 = 95;
pub const PC_SPACEBAR: u8 = 96;
pub const PC_R_ALT_GR: u8 = 97;
pub const PC_R_WIN: u8 = 98;
pub const PC_APPS: u8 = 99;
pub const PC_R_CONTROL: u8 = 100;
pub const PC_ARROW_LEFT: u8 = 101;
pub const PC_ARROW_DOWN: u8 = 102;
pub const PC_ARROW_RIGHT: u8 = 103;
pub const PC_NUMPAD0: u8 = 104;
pub const PC_NUMPAD_PERIOD: u8 = 105;

/// A physical key of a US 104-key keyboard, independent of any layout.
#[derive(Clone, Copy, Debug, PartialEq, Eq, Structural)]
pub enum KeyCode {
    Escape,
    F1,
    F2,
    F3,
    F4,
    F5,
    F6,
    F7,
    F8,
    F9,
    F10,
    F11,
    F12,
    PrintScreen,
    ScrollLock,
    PauseBreak,
    Backquote,
    Digit1,
    Digit2,
    Digit3,
    Digit4,
    Digit5,
    Digit6,
    Digit7,
    Digit8,
    Digit9,
    Digit0,
    Minus,
    Equals,
    Backspace,
    Tab,
    Q,
    W,
    E,
    R,
    T,
    Y,
    U,
    I,
    O,
    P,
    BracketLeft,
    BracketRight,
    Backslash,
    CapsLock,
    A,
    S,
    D,
    F,
    G,
    H,
    J,
    K,
    L,
    Semicolon,
    Apostrophe,
    Return,
    LeftShift,
    Z,
    X,
    C,
    V,
    B,
    N,
    M,
    Comma,
    Period,
    Slash,
    RightShift,
    LeftCtrl,
    LeftSuper,
    LeftAlt,
    Space,
    RightAlt,
    RightSuper,
    Menu,
    RightCtrl,
    Insert,
    Home,
    PageUp,
    Delete,
    End,
    PageDown,
    ArrowUp,
    ArrowDown,
    ArrowLeft,
    ArrowRight,
    NumpadLock,
    NumpadDivide,
    NumpadMultiply,
    NumpadSubtract,
    NumpadAdd,
    NumpadEnter,
    NumpadDecimal,
    Numpad0,
    Numpad1,
    Numpad2,
    Numpad3,
    Numpad4,
    Numpad5,
    Numpad6,
    Numpad7,
    Numpad8,
    Numpad9,
}

/// Whether a key went down or up.
#[derive(Clone, Copy, Debug, PartialEq, Eq, Structural)]
pub enum KeyState {
    Pressed,
    Released,
}

/// One physical key transition.
#[derive(Clone, Copy, Debug, PartialEq, Eq, Structural)]
pub struct KeyEvent {
    pub code: KeyCode,
    pub state: KeyState,
}

/// The state the outside decoder reports with a key.
#[derive(Clone, Copy, Debug, PartialEq, Eq, Structural)]
pub enum DecodedState {
    Up,
    Down,
    SingleShot,
}

/// The outside decoder's code for `key`.
pub open spec fn pc_code(key: KeyCode) -> u8 {
    match key {
        KeyCode::Escape => PC_ESCAPE,
        KeyCode::F1 => PC_F1,
        KeyCode::F2 => PC_F2,
        KeyCode::F3 => PC_F3,
        KeyCode::F4 => PC_F4,
        KeyCode::F5 => PC_F5,
        KeyCode::F6 => PC_F6,
        KeyCode::F7 => PC_F7,
        KeyCode::F8 => PC_F8,
        KeyCode::F9 => PC_F9,
        KeyCode::F10 => PC_F10,
        KeyCode::F11 => PC_F11,
        KeyCode::F12 => PC_F12,
        KeyCode::PrintScreen => PC_PRINT_SCREEN,
        KeyCode::ScrollLock => PC_SCROLL_LOCK,
        KeyCode::PauseBreak => PC_PAUSE_BREAK,
        KeyCode::Backquote => PC_OEM8,
        KeyCode::Digit1 => PC_KEY1,
        KeyCode::Digit2 => PC_KEY2,
        KeyCode::Digit3 => PC_KEY3,
        KeyCode::Digit4 => PC_KEY4,
        KeyCode::Digit5 => PC_KEY5,
        KeyCode::Digit6 => PC_KEY6,
        KeyCode::Digit7 => PC_KEY7,
        KeyCode::Digit8 => PC_KEY8,
        KeyCode::Digit9 => PC_KEY9,
        KeyCode::Digit0 => PC_KEY0,
        KeyCode::Minus => PC_OEM_MINUS,
        KeyCode::Equals => PC_OEM_PLUS,
        KeyCode::Backspace => PC_BACKSPACE,
        KeyCode::Tab => PC_TAB,
        KeyCode::Q => PC_Q,
        KeyCode::W => PC_W,
        KeyCode::E => PC_E,
        KeyCode::R => PC_R,
        KeyCode::T => PC_T,
        KeyCode::Y => PC_Y,
        KeyCode::U => PC_U,
        KeyCode::I => PC_I,
        KeyCode::O => PC_O,
        KeyCode::P => PC_P,
        KeyCode::BracketLeft => PC_OEM4,
        KeyCode::BracketRight => PC_OEM6,
        KeyCode::Backslash => PC_OEM5,
        KeyCode::CapsLock => PC_CAPS_LOCK,
        KeyCode::A => PC_A,
        KeyCode::S => PC_S,
        KeyCode::D => PC_D,
        KeyCode::F => PC_F,
        KeyCode::G => PC_G,
        KeyCode::H => PC_H,
        KeyCode::J => PC_J,
        KeyCode::K => PC_K,
        KeyCode::L => PC_L,
        KeyCode::Semicolon => PC_OEM1,
        KeyCode::Apostrophe => PC_OEM3,
        KeyCode::Return => PC_RETURN,
        KeyCode::LeftShift => PC_L_SHIFT,
        KeyCode::Z => PC_Z,
        KeyCode::X => PC_X,
        KeyCode::C => PC_C,
        KeyCode::V => PC_V,
        KeyCode::B => PC_B,
        KeyCode::N => PC_N,
        KeyCode::M => PC_M,
        KeyCode::Comma => PC_OEM_COMMA,
        KeyCode::Period => PC_OEM_PERIOD,
        KeyCode::Slash => PC_OEM2,
        KeyCode::RightShift => PC_R_SHIFT,
        KeyCode::LeftCtrl => PC_L_CONTROL,
        KeyCode::LeftSuper => PC_L_WIN,
        KeyCode::LeftAlt => PC_L_ALT,
        KeyCode::Space => PC_SPACEBAR,
        KeyCode::RightAlt => PC_R_ALT_GR,
        KeyCode::RightSuper => PC_R_WIN,
        KeyCode::Menu => PC_APPS,
        KeyCode::RightCtrl => PC_R_CONTROL,
        KeyCode::Insert => PC_INSERT,
        KeyCode::Home => PC_HOME,
        KeyCode::PageUp => PC_PAGE_UP,
        KeyCode::Delete => PC_DELETE,
        KeyCode::End => PC_END,
        KeyCode::PageDown => PC_PAGE_DOWN,
        KeyCode::ArrowUp => PC_ARROW_UP,
        KeyCode::ArrowDown => PC_ARROW_DOWN,
        KeyCode::ArrowLeft => PC_ARROW_LEFT,
        KeyCode::ArrowRight => PC_ARROW_RIGHT,
        KeyCode::NumpadLock => PC_NUMPAD_LOCK,
        KeyCode::NumpadDivide => PC_NUMPAD_DIVIDE,
        KeyCode::NumpadMultiply => PC_NUMPAD_MULTIPLY,
        KeyCode::NumpadSubtract => PC_NUMPAD_SUBTRACT,
        KeyCode::NumpadAdd => PC_NUMPAD_ADD,
        KeyCode::NumpadEnter => PC_NUMPAD_ENTER,
        KeyCode::NumpadDecimal => PC_NUMPAD_PERIOD,
        KeyCode::Numpad0 => PC_NUMPAD0,
        KeyCode::Numpad1 => PC_NUMPAD1,
        KeyCode::Numpad2 => PC_NUMPAD2,
        KeyCode::Numpad3 => PC_NUMPAD3,
        KeyCode::Numpad4 => PC_NUMPAD4,
        KeyCode::Numpad5 => PC_NUMPAD5,
        KeyCode::Numpad6 => PC_NUMPAD6,
        KeyCode::Numpad7 => PC_NUMPAD7,
        KeyCode::Numpad8 => PC_NUMPAD8,
        KeyCode::Numpad9 => PC_NUMPAD9,
    }
}

/// Whether `key` belongs to escape, the function keys, and the keys beside them.
pub open spec fn in_function_row(key: KeyCode) -> bool {
    match key {
        KeyCode::Escape
        | KeyCode::F1
        | KeyCode::F2
        | KeyCode::F3
        | KeyCode::F4
        | KeyCode::F5
        | KeyCode::F6
        | KeyCode::F7
        | KeyCode::F8
        | KeyCode::F9
        | KeyCode::F10
        | KeyCode::F11
        | KeyCode::F12
        | KeyCode::PrintScreen
        | KeyCode::ScrollLock
        | KeyCode::PauseBreak
        => true,
        _ => false,
    }
}

/// Whether `key` belongs to the number row.
pub open spec fn in_number_row(key: KeyCode) -> bool {
    match key {
        KeyCode::Backquote
        | KeyCode::Digit1
        | KeyCode::Digit2
        | KeyCode::Digit3
        | KeyCode::Digit4
        | KeyCode::Digit5
        | KeyCode::Digit6
        | KeyCode::Digit7
        | KeyCode::Digit8
        | KeyCode::Digit9
        | KeyCode::Digit0
        | KeyCode::Minus
        | KeyCode::Equals
        | KeyCode::Backspace
        => true,
        _ => false,
    }
}

/// Whether `key` belongs to the three letter rows with their edge keys.
pub open spec fn in_letter_rows(key: KeyCode) -> bool {
    match key {
        KeyCode::Tab
        | KeyCode::Q
        | KeyCode::W
        | KeyCode::E
        | KeyCode::R
        | KeyCode::T
        | KeyCode::Y
        | KeyCode::U
        | KeyCode::I
        | KeyCode::O
        | KeyCode::P
        | KeyCode::BracketLeft
        | KeyCode::BracketRight
        | KeyCode::Backslash
        | KeyCode::CapsLock
        | KeyCode::A
        | KeyCode::S
        | KeyCode::D
        | KeyCode::F
        | KeyCode::G
        | KeyCode::H
        | KeyCode::J
        | KeyCode::K
        | KeyCode::L
        | KeyCode::Semicolon
        | KeyCode::Apostrophe
        | KeyCode::Return
        | KeyCode::LeftShift
        | KeyCode::Z
        | KeyCode::X
        | KeyCode::C
        | KeyCode::V
        | KeyCode::B
        | KeyCode::N
        | KeyCode::M
        | KeyCode::Comma
        | KeyCode::Period
        | KeyCode::Slash
        | KeyCode::RightShift
        => true,
        _ => false,
    }
}

/// Whether `key` belongs to the bottom row: modifiers, the space bar and the menu key.
pub open spec fn in_modifier_row(key: KeyCode) -> bool {
    match key {
        KeyCode::LeftCtrl
        | KeyCode::LeftSuper
        | KeyCode::LeftAlt
        | KeyCode::Space
        | KeyCode::RightAlt
        | KeyCode::RightSuper
        | KeyCode::Menu
        | KeyCode::RightCtrl
        => true,
        _ => false,
    }
}

/// Whether `key` belongs to the editing block, the arrows and the numeric keypad.
pub open spec fn in_editing_and_numpad(key: KeyCode) -> bool {
    match key {
        KeyCode::Insert
        | KeyCode::Home
        | KeyCode::PageUp
        | KeyCode::Delete
        | KeyCode::End
        | KeyCode::PageDown
        | KeyCode::ArrowUp
        | KeyCode::ArrowDown
        | KeyCode::ArrowLeft
        | KeyCode::ArrowRight
        | KeyCode::NumpadLock
        | KeyCode::NumpadDivide
        | KeyCode::NumpadMultiply
        | KeyCode::NumpadSubtract
        | KeyCode::NumpadAdd
        | KeyCode::NumpadEnter
        | KeyCode::NumpadDecimal
        | KeyCode::Numpad0
        | KeyCode::Numpad1
        | KeyCode::Numpad2
        | KeyCode::Numpad3
        | KeyCode::Numpad4
        | KeyCode::Numpad5
        | KeyCode::Numpad6
        | KeyCode::Numpad7
        | KeyCode::Numpad8
        | KeyCode::Numpad9
        => true,
        _ => false,
    }
}

/// Maps a key of escape, the function keys, and the keys beside them; `None` for any other code.
fn map_function_row(code: u8) -> (key: Option<KeyCode>)
    ensures
        key matches Some(k) ==> in_function_row(k) && pc_code(k) == code,
        key is None ==> forall|k: KeyCode| in_function_row(k) ==> #[trigger] pc_code(k) != code,
{
    match code {
        PC_ESCAPE => Some(KeyCode::Escape),
        PC_F1 => Some(KeyCode::F1),
        PC_F2 => Some(KeyCode::F2),
        PC_F3 => Some(KeyCode::F3),
        PC_F4 => Some(KeyCode::F4),
        PC_F5 => Some(KeyCode::F5),
        PC_F6 => Some(KeyCode::F6),
        PC_F7 => Some(KeyCode::F7),
        PC_F8 => Some(KeyCode::F8),
        PC_F9 => Some(KeyCode::F9),
        PC_F10 => Some(KeyCode::F10),
        PC_F11 => Some(KeyCode::F11),
        PC_F12 => Some(KeyCode::F12),
        PC_PRINT_SCREEN => Some(KeyCode::PrintScreen),
        PC_SCROLL_LOCK => Some(KeyCode::ScrollLock),
        PC_PAUSE_BREAK => Some(KeyCode::PauseBreak),
        _ => None,
    }
}

/// Maps a key of the number row; `None` for any other code.
fn map_number_row(code: u8) -> (key: Option<KeyCode>)
    ensures
        key matches Some(k) ==> in_number_row(k) && pc_code(k) == code,
        key is None ==> forall|k: KeyCode| in_number_row(k) ==> #[trigger] pc_code(k) != code,
{
    match code {
        PC_OEM8 => Some(KeyCode::Backquote),
        PC_KEY1 => Some(KeyCode::Digit1),
        PC_KEY2 => Some(KeyCode::Digit2),
        PC_KEY3 => Some(KeyCode::Digit3),
        PC_KEY4 => Some(KeyCode::Digit4),
        PC_KEY5 => Some(KeyCode::Digit5),
        PC_KEY6 => Some(KeyCode::Digit6),
        PC_KEY7 => Some(KeyCode::Digit7),
        PC_KEY8 => Some(KeyCode::Digit8),
        PC_KEY9 => Some(KeyCode::Digit9),
        PC_KEY0 => Some(KeyCode::Digit0),
        PC_OEM_MINUS => Some(KeyCode::Minus),
        PC_OEM_PLUS => Some(KeyCode::Equals),
        PC_BACKSPACE => Some(KeyCode::Backspace),
        _ => None,
    }
}

/// Maps a key of the three letter rows with their edge keys; `None` for any other code.
fn map_letter_rows(code: u8) -> (key: Option<KeyCode>)
    ensures
        key matches Some(k) ==> in_letter_rows(k) && pc_code(k) == code,
        key is None ==> forall|k: KeyCode| in_letter_rows(k) ==> #[trigger] pc_code(k) != code,
{
    match code {
        PC_TAB => Some(KeyCode::Tab),
        PC_Q => Some(KeyCode::Q),
        PC_W => Some(KeyCode::W),
        PC_E => Some(KeyCode::E),
        PC_R => Some(KeyCode::R),
        PC_T => Some(KeyCode::T),
        PC_Y => Some(KeyCode::Y),
        PC_U => Some(KeyCode::U),
        PC_I => Some(KeyCode::I),
        PC_O => Some(KeyCode::O),
        PC_P => Some(KeyCode::P),
        PC_OEM4 => Some(KeyCode::BracketLeft),
        PC_OEM6 => Some(KeyCode::BracketRight),
        PC_OEM5 => Some(KeyCode::Backslash),
        PC_CAPS_LOCK => Some(KeyCode::CapsLock),
        PC_A => Some(KeyCode::A),
        PC_S => Some(KeyCode::S),
        PC_D => Some(KeyCode::D),
        PC_F => Some(KeyCode::F),
        PC_G => Some(KeyCode::G),
        PC_H => Some(KeyCode::H),
        PC_J => Some(KeyCode::J),
        PC_K => Some(KeyCode::K),
        PC_L => Some(KeyCode::L),
        PC_OEM1 => Some(KeyCode::Semicolon),
        PC_OEM3 => Some(KeyCode::Apostrophe),
        PC_RETURN => Some(KeyCode::Return),
        PC_L_SHIFT => Some(KeyCode::LeftShift),
        PC_Z => Some(KeyCode::Z),
        PC_X => Some(KeyCode::X),
        PC_C => Some(KeyCode::C),
        PC_V => Some(KeyCode::V),
        PC_B => Some(KeyCode::B),
        PC_N => Some(KeyCode::N),
        PC_M => Some(KeyCode::M),
        PC_OEM_COMMA => Some(KeyCode::Comma),
        PC_OEM_PERIOD => Some(KeyCode::Period),
        PC_OEM2 => Some(KeyCode::Slash),
        PC_R_SHIFT => Some(KeyCode::RightShift),
        _ => None,
    }
}

/// Maps a key of the bottom row: modifiers, the space bar and the menu key; `None` for any other code.
fn map_modifier_row(code: u8) -> (key: Option<KeyCode>)
    ensures
        key matches Some(k) ==> in_modifier_row(k) && pc_code(k) == code,
        key is None ==> forall|k: KeyCode| in_modifier_row(k) ==> #[trigger] pc_code(k) != code,
{
    match code {
        PC_L_CONTROL => Some(KeyCode::LeftCtrl),
        PC_L_WIN => Some(KeyCode::LeftSuper),
        PC_L_ALT => Some(KeyCode::LeftAlt),
        PC_SPACEBAR => Some(KeyCode::Space),
        PC_R_ALT_GR => Some(KeyCode::RightAlt),
        PC_R_WIN => Some(KeyCode::RightSuper),
        PC_APPS => Some(KeyCode::Menu),
        PC_R_CONTROL => Some(KeyCode::RightCtrl),
        _ => None,
    }
}

/// Maps a key of the editing block, the arrows and the numeric keypad; `None` for any other code.
fn map_editing_and_numpad(code: u8) -> (key: Option<KeyCode>)
    ensures
        key matches Some(k) ==> in_editing_and_numpad(k) && pc_code(k) == code,
        key is None ==> forall|k: KeyCode| in_editing_and_numpad(k) ==> #[trigger] pc_code(k) != code,
{
    match code {
        PC_INSERT => Some(KeyCode::Insert),
        PC_HOME => Some(KeyCode::Home),
        PC_PAGE_UP => Some(KeyCode::PageUp),
        PC_DELETE => Some(KeyCode::Delete),
        PC_END => Some(KeyCode::End),
        PC_PAGE_DOWN => Some(KeyCode::PageDown),
        PC_ARROW_UP => Some(KeyCode::ArrowUp),
        PC_ARROW_DOWN => Some(KeyCode::ArrowDown),
        PC_ARROW_LEFT => Some(KeyCode::ArrowLeft),
        PC_ARROW_RIGHT => Some(KeyCode::ArrowRight),
        PC_NUMPAD_LOCK => Some(KeyCode::NumpadLock),
        PC_NUMPAD_DIVIDE => Some(KeyCode::NumpadDivide),
        PC_NUMPAD_MULTIPLY => Some(KeyCode::NumpadMultiply),
        PC_NUMPAD_SUBTRACT => Some(KeyCode::NumpadSubtract),
        PC_NUMPAD_ADD => Some(KeyCode::NumpadAdd),
        PC_NUMPAD_ENTER => Some(KeyCode::NumpadEnter),
        PC_NUMPAD_PERIOD => Some(KeyCode::NumpadDecimal),
        PC_NUMPAD0 => Some(KeyCode::Numpad0),
        PC_NUMPAD1 => Some(KeyCode::Numpad1),
        PC_NUMPAD2 => Some(KeyCode::Numpad2),
        PC_NUMPAD3 => Some(KeyCode::Numpad3),
        PC_NUMPAD4 => Some(KeyCode::Numpad4),
        PC_NUMPAD5 => Some(KeyCode::Numpad5),
        PC_NUMPAD6 => Some(KeyCode::Numpad6),
        PC_NUMPAD7 => Some(KeyCode::Numpad7),
        PC_NUMPAD8 => Some(KeyCode::Numpad8),
        PC_NUMPAD9 => Some(KeyCode::Numpad9),
        _ => None,
    }
}

/// No two keys share a code of the outside decoder, so a code maps to at most one key.
pub proof fn lemma_pc_code_injective(a: KeyCode, b: KeyCode)
    ensures
        pc_code(a) == pc_code(b) ==> a == b,
{
}

/// Every key belongs to one of the rows.
proof fn lemma_rows_cover(key: KeyCode)
    ensures
        in_function_row(key) || in_number_row(key) || in_letter_rows(key) || in_modifier_row(key)
            || in_editing_and_numpad(key),
{
}

/// Maps a physical key code of the outside decoder to the layout-neutral key code; keys that a
/// US 104-key keyboard lacks (ISO-only and media keys, protocol states) map to `None`.
pub fn map_key(code: u8) -> (key: Option<KeyCode>)
    ensures
        key matches Some(k) ==> pc_code(k) == code,
        key is None ==> forall|k: KeyCode| #[trigger] pc_code(k) != code,
{
    let key = match map_function_row(code) {
        Some(key) => Some(key),
        None => match map_number_row(code) {
            Some(key) => Some(key),
            None => match map_letter_rows(code) {
                Some(key) => Some(key),
                None => match map_modifier_row(code) {
                    Some(key) => Some(key),
                    None => map_editing_and_numpad(code),
                },
            },
        },
    };
    proof {
        if key is None {
            assert forall|k: KeyCode| #[trigger] pc_code(k) != code by {
                lemma_rows_cover(k);
            }
        }
    }
    key
}

/// The key whose decoder code is `code`, if any.
pub open spec fn key_with_code(code: u8) -> Option<KeyCode> {
    if exists|k: KeyCode| pc_code(k) == code {
        Some(choose|k: KeyCode| pc_code(k) == code)
    } else {
        None
    }
}

/// The key event a decoder report stands for: the key with the reported code, pressed unless it
/// went up; `None` for no report or a code without a key.
pub open spec fn key_event_of(report: Option<(u8, DecodedState)>) -> Option<KeyEvent> {
    match report {
        Some((code, state)) => match key_with_code(code) {
            Some(key) => Some(
                KeyEvent {
                    code: key,
                    state: if state is Up {
                        KeyState::Released
                    } else {
                        KeyState::Pressed
                    },
                },
            ),
            None => None,
        },
        None => None,
    }
}

/// The key event for a key the outside decoder reported: the mapped key, pressed unless it went
/// up; `None` for a key without a mapping.
pub fn key_event_from(code: u8, state: DecodedState) -> (event: Option<KeyEvent>)
    ensures
        event == key_event_of(Some((code, state))),
        event matches Some(e) ==> pc_code(e.code) == code && e.state == (if state is Up {
            KeyState::Released
        } else {
            KeyState::Pressed
        }),
        event is None ==> forall|k: KeyCode| #[trigger] pc_code(k) != code,
{
    let state = match state {
        DecodedState::Up => KeyState::Released,
        DecodedState::Down | DecodedState::SingleShot => KeyState::Pressed,
    };
    match map_key(code) {
        Some(key) => {
            proof {
                let chosen = choose|k: KeyCode| pc_code(k) == code;
                lemma_pc_code_injective(key, chosen);
            }
            Some(KeyEvent { code: key, state })
        },
        None => None,
    }
}

/// Whether `set` is the decoder that a fresh Set 1 decoder becomes once fed the bytes of
/// `history` in turn.
pub uninterp spec fn set1_after(set: ScancodeSet1, history: Seq<u8>) -> bool;

/// What a fresh Set 1 decoder, fed the bytes of `history` in turn, reports for the last of them:
/// the completed key's code discriminant and state, or `None` when that byte only advances the
/// decoder or is rejected.
pub uninterp spec fn set1_report(history: Seq<u8>) -> Option<(u8, DecodedState)>;

/// A fresh Set 1 decoder (`ScancodeSet1::new`), which has been fed nothing.
#[verifier::external_body]
fn new_scancode_set() -> (set: ScancodeSet1)
    ensures
        set1_after(set, Seq::<u8>::empty()),
{
    ScancodeSet1::new()
}

/// Feeds one byte to the Set 1 decoder (`ScancodeSet::advance_state`) and reports the completed
/// key, if any, as the key code's discriminant and its state; a byte that only advances the
/// decoder, or that it rejects, gives `None`. What it reports, and what it becomes, depend only
/// on the bytes it was fed since it was made; in every decoder state a completed key is up
/// exactly when the byte is a break code (0x80 and above) and down otherwise.
#[verifier::external_body]
fn advance_scancode(set: &mut ScancodeSet1, byte: u8) -> (completed: Option<(u8, DecodedState)>)
    ensures
        forall|history: Seq<u8>|
            #[trigger] set1_after(*old(set), history) ==> set1_after(*final(set), history.push(byte))
                && completed == set1_report(history.push(byte)),
        completed matches Some((_, state)) ==> (state is Up) == (byte >= 0x80) && !(state is SingleShot),
{
    match set.advance_state(byte) {
        Ok(Some(event)) => Some((event.code as u8, match event.state {
            pc_keyboard::KeyState::Up => DecodedState::Up,
            pc_keyboard::KeyState::Down => DecodedState::Down,
            pc_keyboard::KeyState::SingleShot => DecodedState::SingleShot,
        })),
        Ok(None) | Err(_) => None,
    }
}

/// Turns Set 1 scan-code bytes into physical key events: no layout, modifier or character
/// decoding is applied, and every press and release of a mapped key is reported.
pub struct ScancodeParser {
    set: ScancodeSet1,
    fed: Ghost<Seq<u8>>,
}

impl ScancodeParser {
    /// The bytes parsed since the parser was made, oldest first.
    pub closed spec fn history(self) -> Seq<u8> {
        self.fed@
    }

    #[verifier::type_invariant]
    closed spec fn inv(self) -> bool {
        set1_after(self.set, self.fed@)
    }

    /// A parser that has parsed nothing.
    pub fn new() -> (parser: Self)
        ensures
            parser.history() == Seq::<u8>::empty(),
    {
        ScancodeParser { set: new_scancode_set(), fed: Ghost(Seq::empty()) }
    }

    /// Parses one scan-code byte: the key the decoder completes with it, given every byte parsed
    /// before, mapped to its key and press or release. A reported key is released exactly when
    /// the byte is a break code.
    pub fn parse(&mut self, scancode: u8) -> (event: Option<KeyEvent>)
        ensures
            final(self).history() == old(self).history().push(scancode),
            event == key_event_of(set1_report(old(self).history().push(scancode))),
            event matches Some(e) ==> (e.state == KeyState::Released) == (scancode >= 0x80),
    {
        let mut current = ScancodeParser::new();
        std::mem::swap(&mut current, self);
        proof {
            use_type_invariant(&current);
        }
        let ScancodeParser { mut set, fed } = current;
        let report = advance_scancode(&mut set, scancode);
        *self = ScancodeParser { set, fed: Ghost(fed@.push(scancode)) };
        match report {
            Some((code, state)) => key_event_from(code, state),
            None => None,
        }
    }
}

} // verus!
