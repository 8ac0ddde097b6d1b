use vstd::prelude::*;
use crate::registry::key_segment_code;
use crate::structs::{InternalMessage, VK_ALT, VK_CONTROL, VK_META, VK_SHIFT};

verus! {

/// A physical key as the X11 input listener reports it (a US QWERTY position, not
/// a character). `Unknown` carries the platform's own code for a key without a name.
#[derive(Debug, Clone, Copy, PartialEq, Eq)]
pub enum Key {
    Alt,
    AltGr,
    Backspace,
    CapsLock,
    ControlLeft,
    ControlRight,
    Delete,
    DownArrow,
    End,
    Escape,
    F1,
    F10,
    F11,
    F12,
    F2,
    F3,
    F4,
    F5,
    F6,
    F7,
    F8,
    F9,
    Home,
    LeftArrow,
    MetaLeft,
    MetaRight,
    PageDown,
    PageUp,
    Return,
    RightArrow,
    ShiftLeft,
    ShiftRight,
    Space,
    Tab,
    UpArrow,
    PrintScreen,
    ScrollLock,
    Pause,
    NumLock,
    BackQuote,
    Num1,
    Num2,
    Num3,
    Num4,
    Num5,
    Num6,
    Num7,
    Num8,
    Num9,
    Num0,
    Minus,
    Equal,
    KeyQ,
    KeyW,
    KeyE,
    KeyR,
    KeyT,
    KeyY,
    KeyU,
    KeyI,
    KeyO,
    KeyP,
    LeftBracket,
    RightBracket,
    KeyA,
    KeyS,
    KeyD,
    KeyF,
    KeyG,
    KeyH,
    KeyJ,
    KeyK,
    KeyL,
    SemiColon,
    Quote,
    BackSlash,
    IntlBackslash,
    KeyZ,
    KeyX,
    KeyC,
    KeyV,
    KeyB,
    KeyN,
    KeyM,
    Comma,
    Dot,
    Slash,
    Insert,
    KpReturn,
    KpMinus,
    KpPlus,
    KpMultiply,
    KpDivide,
    Kp0,
    Kp1,
    Kp2,
    Kp3,
    Kp4,
    Kp5,
    Kp6,
    Kp7,
    Kp8,
    Kp9,
    KpDelete,
    Function,
    Unknown(u32),
}

/// The virtual-key code of a key, as the key engine and the Windows backend
/// number keys; `None` for a key that has no code here.
pub open spec fn vk_of(key: Key) -> Option<u32> {
    match key {
        Key::Alt | Key::AltGr => Some(18u32),
        Key::Backspace => Some(8u32),
        Key::CapsLock => Some(20u32),
        Key::ControlLeft | Key::ControlRight => Some(17u32),
        Key::Delete => Some(46u32),
        Key::DownArrow => Some(40u32),
        Key::End => Some(35u32),
        Key::Escape => Some(27u32),
        Key::F1 => Some(112u32),
        Key::F10 => Some(121u32),
        Key::F11 => Some(122u32),
        Key::F12 => Some(123u32),
        Key::F2 => Some(113u32),
        Key::F3 => Some(114u32),
        Key::F4 => Some(115u32),
        Key::F5 => Some(116u32),
        Key::F6 => Some(117u32),
        Key::F7 => Some(118u32),
        Key::F8 => Some(119u32),
        Key::F9 => Some(120u32),
        Key::Home => Some(36u32),
        Key::LeftArrow => Some(37u32),
        Key::MetaLeft | Key::MetaRight => Some(91u32),
        Key::PageDown => Some(34u32),
        Key::PageUp => Some(33u32),
        Key::Return | Key::KpReturn => Some(13u32),
        Key::RightArrow => Some(39u32),
        Key::ShiftLeft | Key::ShiftRight => Some(16u32),
        Key::Space => Some(32u32),
        Key::Tab => Some(9u32),
        Key::UpArrow => Some(38u32),
        Key::PrintScreen => Some(44u32),
        Key::ScrollLock => Some(145u32),
        Key::Pause => Some(19u32),
        Key::NumLock => Some(144u32),
        Key::BackQuote => Some(192u32),
        Key::Num1 => Some(49u32),
        Key::Num2 => Some(50u32),
        Key::Num3 => Some(51u32),
        Key::Num4 => Some(52u32),
        Key::Num5 => Some(53u32),
        Key::Num6 => Some(54u32),
        Key::Num7 => Some(55u32),
        Key::Num8 => Some(56u32),
        Key::Num9 => Some(57u32),
        Key::Num0 => Some(48u32),
        Key::Minus => Some(189u32),
        Key::Equal => Some(187u32),
        Key::KeyQ => Some(81u32),
        Key::KeyW => Some(87u32),
        Key::KeyE => Some(69u32),
        Key::KeyR => Some(82u32),
        Key::KeyT => Some(84u32),
        Key::KeyY => Some(89u32),
        Key::KeyU => Some(85u32),
        Key::KeyI => Some(73u32),
        Key::KeyO => Some(79u32),
        Key::KeyP => Some(80u32),
        Key::LeftBracket => Some(219u32),
        Key::RightBracket => Some(221u32),
        Key::KeyA => Some(65u32),
        Key::KeyS => Some(83u32),
        Key::KeyD => Some(68u32),
        Key::KeyF => Some(70u32),
        Key::KeyG => Some(71u32),
        Key::KeyH => Some(72u32),
        Key::KeyJ => Some(74u32),
        Key::KeyK => Some(75u32),
        Key::KeyL => Some(76u32),
        Key::SemiColon => Some(186u32),
        Key::Quote => Some(222u32),
        Key::BackSlash => Some(220u32),
        Key::KeyZ => Some(90u32),
        Key::KeyX => Some(88u32),
        Key::KeyC => Some(67u32),
        Key::KeyV => Some(86u32),
        Key::KeyB => Some(66u32),
        Key::KeyN => Some(78u32),
        Key::KeyM => Some(77u32),
        Key::Comma => Some(188u32),
        Key::Dot => Some(190u32),
        Key::Slash => Some(191u32),
        Key::Insert => Some(45u32),
        Key::KpMinus => Some(109u32),
        Key::KpPlus => Some(107u32),
        Key::KpMultiply => Some(106u32),
        Key::KpDivide => Some(111u32),
        Key::Kp0 => Some(96u32),
        Key::Kp1 => Some(97u32),
        Key::Kp2 => Some(98u32),
        Key::Kp3 => Some(99u32),
        Key::Kp4 => Some(100u32),
        Key::Kp5 => Some(101u32),
        Key::Kp6 => Some(102u32),
        Key::Kp7 => Some(103u32),
        Key::Kp8 => Some(104u32),
        Key::Kp9 => Some(105u32),
        _ => None,
    }
}

/// Maps a key reported by the X11 listener to its virtual-key code, or `None` for
/// a key the engine does not handle. Left and right modifier keys share the code of
/// their modifier, as do Return and keypad Return.
pub fn rdev_key_to_vk(key: Key) -> (code: Option<u32>)
    ensures
        code == vk_of(key),
{
    match key {
        Key::Alt | Key::AltGr => Some(18),
        Key::Backspace => Some(8),
        Key::CapsLock => Some(20),
        Key::ControlLeft | Key::ControlRight => Some(17),
        Key::Delete => Some(46),
        Key::DownArrow => Some(40),
        Key::End => Some(35),
        Key::Escape => Some(27),
        Key::F1 => Some(112),
        Key::F10 => Some(121),
        Key::F11 => Some(122),
        Key::F12 => Some(123),
        Key::F2 => Some(113),
        Key::F3 => Some(114),
        Key::F4 => Some(115),
        Key::F5 => Some(116),
        Key::F6 => Some(117),
        Key::F7 => Some(118),
        Key::F8 => Some(119),
        Key::F9 => Some(120),
        Key::Home => Some(36),
        Key::LeftArrow => Some(37),
        Key::MetaLeft | Key::MetaRight => Some(91),
        Key::PageDown => Some(34),
        Key::PageUp => Some(33),
        Key::Return | Key::KpReturn => Some(13),
        Key::RightArrow => Some(39),
        Key::ShiftLeft | Key::ShiftRight => Some(16),
        Key::Space => Some(32),
        Key::Tab => Some(9),
        Key::UpArrow => Some(38),
        Key::PrintScreen => Some(44),
        Key::ScrollLock => Some(145),
        Key::Pause => Some(19),
        Key::NumLock => Some(144),
        Key::BackQuote => Some(192),
        Key::Num1 => Some(49),
        Key::Num2 => Some(50),
        Key::Num3 => Some(51),
        Key::Num4 => Some(52),
        Key::Num5 => Some(53),
        Key::Num6 => Some(54),
        Key::Num7 => Some(55),
        Key::Num8 => Some(56),
        Key::Num9 => Some(57),
        Key::Num0 => Some(48),
        Key::Minus => Some(189),
        Key::Equal => Some(187),
        Key::KeyQ => Some(81),
        Key::KeyW => Some(87),
        Key::KeyE => Some(69),
        Key::KeyR => Some(82),
        Key::KeyT => Some(84),
        Key::KeyY => Some(89),
        Key::KeyU => Some(85),
        Key::KeyI => Some(73),
        Key::KeyO => Some(79),
        Key::KeyP => Some(80),
        Key::LeftBracket => Some(219),
        Key::RightBracket => Some(221),
        Key::KeyA => Some(65),
        Key::KeyS => Some(83),
        Key::KeyD => Some(68),
        Key::KeyF => Some(70),
        Key::KeyG => Some(71),
        Key::KeyH => Some(72),
        Key::KeyJ => Some(74),
        Key::KeyK => Some(75),
        Key::KeyL => Some(76),
        Key::SemiColon => Some(186),
        Key::Quote => Some(222),
        Key::BackSlash => Some(220),
        Key::KeyZ => Some(90),
        Key::KeyX => Some(88),
        Key::KeyC => Some(67),
        Key::KeyV => Some(86),
        Key::KeyB => Some(66),
        Key::KeyN => Some(78),
        Key::KeyM => Some(77),
        Key::Comma => Some(188),
        Key::Dot => Some(190),
        Key::Slash => Some(191),
        Key::Insert => Some(45),
        Key::KpMinus => Some(109),
        Key::KpPlus => Some(107),
        Key::KpMultiply => Some(106),
        Key::KpDivide => Some(111),
        Key::Kp0 => Some(96),
        Key::Kp1 => Some(97),
        Key::Kp2 => Some(98),
        Key::Kp3 => Some(99),
        Key::Kp4 => Some(100),
        Key::Kp5 => Some(101),
        Key::Kp6 => Some(102),
        Key::Kp7 => Some(103),
        Key::Kp8 => Some(104),
        Key::Kp9 => Some(105),
        _ => None,
    }
}

/// The message the X11 backend sends for a key going down (`is_pressed`) or up:
/// a raw key event with the key's virtual-key code, or nothing for a key without one.
pub fn x11_key_message(key: Key, is_pressed: bool) -> (message: Option<InternalMessage>)
    ensures
        message == match vk_of(key) {
            Some(vk) => Some(InternalMessage::RawKey { keycode: vk, pressed: is_pressed }),
            None => None,
        },
{
    match rdev_key_to_vk(key) {
        Some(vk) => Some(InternalMessage::RawKey { keycode: vk, pressed: is_pressed }),
        None => None,
    }
}

/// The hook code with which Windows passes a keyboard event that the hook may act on.
pub const HC_ACTION: i32 = 0;
/// Windows message: a key went down.
pub const WM_KEYDOWN: u32 = 0x0100;
/// Windows message: a key went up.
pub const WM_KEYUP: u32 = 0x0101;
/// Windows message: a key went down while Alt was held (or F10).
pub const WM_SYSKEYDOWN: u32 = 0x0104;
/// Windows message: a key went up while Alt was held (or F10).
pub const WM_SYSKEYUP: u32 = 0x0105;

/// The code under which the engine knows a Windows virtual key: the left and right
/// variants of Shift (160, 161), Control (162, 163), Alt (164, 165) and the right
/// Windows key (92) become the generic modifier codes; every other code stays.
pub open spec fn canonical_vk(vk: u32) -> u32 {
    if vk == 160 || vk == 161 {
        VK_SHIFT
    } else if vk == 162 || vk == 163 {
        VK_CONTROL
    } else if vk == 164 || vk == 165 {
        VK_ALT
    } else if vk == 92 {
        VK_META
    } else {
        vk
    }
}

/// Folds the side-specific modifier codes of Windows into the generic ones.
pub fn normalize_vk(vk: u32) -> (code: u32)
    ensures
        code == canonical_vk(vk),
{
    match vk {
        160 | 161 => VK_SHIFT,
        162 | 163 => VK_CONTROL,
        164 | 165 => VK_ALT,
        92 => VK_META,
        _ => vk,
    }
}

/// Whether a Windows keyboard message is a key going down.
pub open spec fn is_key_down(msg: u32) -> bool {
    msg == WM_KEYDOWN || msg == WM_SYSKEYDOWN
}

/// Whether a Windows keyboard message is a key going up.
pub open spec fn is_key_up(msg: u32) -> bool {
    msg == WM_KEYUP || msg == WM_SYSKEYUP
}

/// The message the Windows low-level keyboard hook sends for one call: a raw key
/// event with the normalized code when the hook code is `HC_ACTION` and the message
/// is a key going down or up; nothing otherwise.
pub fn hook_key_message(ncode: i32, msg: u32, vk: u32) -> (message: Option<InternalMessage>)
    ensures
        message == if ncode == HC_ACTION && (is_key_down(msg) || is_key_up(msg)) {
            Some(InternalMessage::RawKey { keycode: canonical_vk(vk), pressed: is_key_down(msg) })
        } else {
            None
        },
{
    if ncode != HC_ACTION {
        return None;
    }
    let is_pressed = msg == WM_KEYDOWN || msg == WM_SYSKEYDOWN;
    let is_released = msg == WM_KEYUP || msg == WM_SYSKEYUP;
    if is_pressed || is_released {
        Some(InternalMessage::RawKey { keycode: normalize_vk(vk), pressed: is_pressed })
    } else {
        None
    }
}

/// Whether a code is one of the modifier codes that the key engine watches.
pub open spec fn is_modifier_code(code: u32) -> bool {
    code == VK_SHIFT || code == VK_CONTROL || code == VK_ALT || code == VK_META
}

/// Whether a key is a modifier key.
pub open spec fn is_modifier_key(key: Key) -> bool {
    match key {
        Key::ShiftLeft | Key::ShiftRight | Key::ControlLeft | Key::ControlRight | Key::Alt | Key::AltGr
        | Key::MetaLeft | Key::MetaRight => true,
        _ => false,
    }
}

/// Both backends number keys alike: every code that the X11 keymap produces is
/// already in the form to which the Windows backend normalizes its codes.
pub proof fn law_x11_codes_are_canonical(key: Key)
    ensures
        vk_of(key) matches Some(code) ==> canonical_vk(code) == code,
{
}

/// Normalizing a Windows code twice gives what normalizing once gives.
pub proof fn law_normalize_idempotent(vk: u32)
    ensures
        canonical_vk(canonical_vk(vk)) == canonical_vk(vk),
{
}

/// The modifier codes that the key engine watches are produced by exactly the
/// modifier keys of the X11 keymap, and by the Windows normalization only from
/// modifier codes.
pub proof fn law_modifier_keys_give_modifier_codes(key: Key, vk: u32)
    ensures
        is_modifier_key(key) <==> (vk_of(key) matches Some(code) && is_modifier_code(code)),
        is_modifier_code(canonical_vk(vk)) <==> (is_modifier_code(vk) || (160 <= vk <= 165) || vk == 92),
{
}

/// Two keys that the keymap deliberately gives one code: the left and right keys
/// of a modifier, and Return with keypad Return.
pub open spec fn same_key_aliases(a: Key, b: Key) -> bool {
    ||| (a == Key::ShiftLeft || a == Key::ShiftRight) && (b == Key::ShiftLeft || b == Key::ShiftRight)
    ||| (a == Key::ControlLeft || a == Key::ControlRight) && (b == Key::ControlLeft || b == Key::ControlRight)
    ||| (a == Key::Alt || a == Key::AltGr) && (b == Key::Alt || b == Key::AltGr)
    ||| (a == Key::MetaLeft || a == Key::MetaRight) && (b == Key::MetaLeft || b == Key::MetaRight)
    ||| (a == Key::Return || a == Key::KpReturn) && (b == Key::Return || b == Key::KpReturn)
}

/// The X11 keymap loses no key: two different keys get the same code only when
/// they are aliases of one key.
pub proof fn law_keymap_injective_up_to_aliases(a: Key, b: Key)
    ensures
        vk_of(a) is Some && vk_of(a) == vk_of(b) && a != b ==> same_key_aliases(a, b),
{
}

/// Letter and digit keys use the codes of their characters: each letter key gives
/// the ASCII code of its upper-case letter and so the code that the keybind text of
/// that letter gives (`registry::key_segment_code`); each digit key on the main
/// block gives the ASCII code of its digit; keypad digit `d` gives 96 + `d`; and
/// function key F`n` gives 111 + `n`.
pub proof fn law_character_keys_use_character_codes()
    ensures
        vk_of(Key::KeyA) == Some('A' as u32),
        vk_of(Key::KeyA) == key_segment_code(seq!['a']),
        vk_of(Key::KeyB) == Some('B' as u32),
        vk_of(Key::KeyB) == key_segment_code(seq!['b']),
        vk_of(Key::KeyC) == Some('C' as u32),
        vk_of(Key::KeyC) == key_segment_code(seq!['c']),
        vk_of(Key::KeyD) == Some('D' as u32),
        vk_of(Key::KeyD) == key_segment_code(seq!['d']),
        vk_of(Key::KeyE) == Some('E' as u32),
        vk_of(Key::KeyE) == key_segment_code(seq!['e']),
        vk_of(Key::KeyF) == Some('F' as u32),
        vk_of(Key::KeyF) == key_segment_code(seq!['f']),
        vk_of(Key::KeyG) == Some('G' as u32),
        vk_of(Key::KeyG) == key_segment_code(seq!['g']),
        vk_of(Key::KeyH) == Some('H' as u32),
        vk_of(Key::KeyH) == key_segment_code(seq!['h']),
        vk_of(Key::KeyI) == Some('I' as u32),
        vk_of(Key::KeyI) == key_segment_code(seq!['i']),
        vk_of(Key::KeyJ) == Some('J' as u32),
        vk_of(Key::KeyJ) == key_segment_code(seq!['j']),
        vk_of(Key::KeyK) == Some('K' as u32),
        vk_of(Key::KeyK) == key_segment_code(seq!['k']),
        vk_of(Key::KeyL) == Some('L' as u32),
        vk_of(Key::KeyL) == key_segment_code(seq!['l']),
        vk_of(Key::KeyM) == Some('M' as u32),
        vk_of(Key::KeyM) == key_segment_code(seq!['m']),
        vk_of(Key::KeyN) == Some('N' as u32),
        vk_of(Key::KeyN) == key_segment_code(seq!['n']),
        vk_of(Key::KeyO) == Some('O' as u32),
        vk_of(Key::KeyO) == key_segment_code(seq!['o']),
        vk_of(Key::KeyP) == Some('P' as u32),
        vk_of(Key::KeyP) == key_segment_code(seq!['p']),
        vk_of(Key::KeyQ) == Some('Q' as u32),
        vk_of(Key::KeyQ) == key_segment_code(seq!['q']),
        vk_of(Key::KeyR) == Some('R' as u32),
        vk_of(Key::KeyR) == key_segment_code(seq!['r']),
        vk_of(Key::KeyS) == Some('S' as u32),
        vk_of(Key::KeyS) == key_segment_code(seq!['s']),
        vk_of(Key::KeyT) == Some('T' as u32),
        vk_of(Key::KeyT) == key_segment_code(seq!['t']),
        vk_of(Key::KeyU) == Some('U' as u32),
        vk_of(Key::KeyU) == key_segment_code(seq!['u']),
        vk_of(Key::KeyV) == Some('V' as u32),
        vk_of(Key::KeyV) == key_segment_code(seq!['v']),
        vk_of(Key::KeyW) == Some('W' as u32),
        vk_of(Key::KeyW) == key_segment_code(seq!['w']),
        vk_of(Key::KeyX) == Some('X' as u32),
        vk_of(Key::KeyX) == key_segment_code(seq!['x']),
        vk_of(Key::KeyY) == Some('Y' as u32),
        vk_of(Key::KeyY) == key_segment_code(seq!['y']),
        vk_of(Key::KeyZ) == Some('Z' as u32),
        vk_of(Key::KeyZ) == key_segment_code(seq!['z']),
        vk_of(Key::Num0) == Some('0' as u32),
        vk_of(Key::Num0) == key_segment_code(seq!['0']),
        vk_of(Key::Kp0) == Some((96 + ('0' as u32) - ('0' as u32)) as u32),
        vk_of(Key::Num1) == Some('1' as u32),
        vk_of(Key::Num1) == key_segment_code(seq!['1']),
        vk_of(Key::Kp1) == Some((96 + ('1' as u32) - ('0' as u32)) as u32),
        vk_of(Key::Num2) == Some('2' as u32),
        vk_of(Key::Num2) == key_segment_code(seq!['2']),
        vk_of(Key::Kp2) == Some((96 + ('2' as u32) - ('0' as u32)) as u32),
        vk_of(Key::Num3) == Some('3' as u32),
        vk_of(Key::Num3) == key_segment_code(seq!['3']),
        vk_of(Key::Kp3) == Some((96 + ('3' as u32) - ('0' as u32)) as u32),
        vk_of(Key::Num4) == Some('4' as u32),
        vk_of(Key::Num4) == key_segment_code(seq!['4']),
        vk_of(Key::Kp4) == Some((96 + ('4' as u32) - ('0' as u32)) as u32),
        vk_of(Key::Num5) == Some('5' as u32),
        vk_of(Key::Num5) == key_segment_code(seq!['5']),
        vk_of(Key::Kp5) == Some((96 + ('5' as u32) - ('0' as u32)) as u32),
        vk_of(Key::Num6) == Some('6' as u32),
        vk_of(Key::Num6) == key_segment_code(seq!['6']),
        vk_of(Key::Kp6) == Some((96 + ('6' as u32) - ('0' as u32)) as u32),
        vk_of(Key::Num7) == Some('7' as u32),
        vk_of(Key::Num7) == key_segment_code(seq!['7']),
        vk_of(Key::Kp7) == Some((96 + ('7' as u32) - ('0' as u32)) as u32),
        vk_of(Key::Num8) == Some('8' as u32),
        vk_of(Key::Num8) == key_segment_code(seq!['8']),
        vk_of(Key::Kp8) == Some((96 + ('8' as u32) - ('0' as u32)) as u32),
        vk_of(Key::Num9) == Some('9' as u32),
        vk_of(Key::Num9) == key_segment_code(seq!['9']),
        vk_of(Key::Kp9) == Some((96 + ('9' as u32) - ('0' as u32)) as u32),
        vk_of(Key::F1) == Some((111 + 1) as u32),
        vk_of(Key::F2) == Some((111 + 2) as u32),
        vk_of(Key::F3) == Some((111 + 3) as u32),
        vk_of(Key::F4) == Some((111 + 4) as u32),
        vk_of(Key::F5) == Some((111 + 5) as u32),
        vk_of(Key::F6) == Some((111 + 6) as u32),
        vk_of(Key::F7) == Some((111 + 7) as u32),
        vk_of(Key::F8) == Some((111 + 8) as u32),
        vk_of(Key::F9) == Some((111 + 9) as u32),
        vk_of(Key::F10) == Some((111 + 10) as u32),
        vk_of(Key::F11) == Some((111 + 11) as u32),
        vk_of(Key::F12) == Some((111 + 12) as u32),
{
}

/// The Windows hook reports a key going down for the messages WM_KEYDOWN (0x100)
/// and WM_SYSKEYDOWN (0x104), a key going up for WM_KEYUP (0x101) and WM_SYSKEYUP
/// (0x105), and nothing for any other message or when the hook code is not
/// HC_ACTION (0); the left and right Shift (160, 161), Control (162, 163) and Alt
/// (164, 165) keys and the right Windows key (92) are reported as Shift (16),
/// Control (17), Alt (18) and Meta (91), every other key by its own code.
pub proof fn law_hook_reports_key_transitions(ncode: i32, msg: u32, vk: u32)
    ensures
        ({
            let reported = if ncode == HC_ACTION && (is_key_down(msg) || is_key_up(msg)) {
                Some(InternalMessage::RawKey { keycode: canonical_vk(vk), pressed: is_key_down(msg) })
            } else {
                None
            };
            let code = if vk == 160 || vk == 161 {
                16u32
            } else if vk == 162 || vk == 163 {
                17u32
            } else if vk == 164 || vk == 165 {
                18u32
            } else if vk == 92 {
                91u32
            } else {
                vk
            };
            &&& (ncode == 0 && (msg == 0x100 || msg == 0x104)) ==> reported == Some(
                InternalMessage::RawKey { keycode: code, pressed: true },
            )
            &&& (ncode == 0 && (msg == 0x101 || msg == 0x105)) ==> reported == Some(
                InternalMessage::RawKey { keycode: code, pressed: false },
            )
            &&& (ncode != 0 || !(msg == 0x100 || msg == 0x104 || msg == 0x101 || msg == 0x105)) ==> reported
                is None
        }),
{
}

} // verus!
