//! A minimal US-QWERTY table from Linux evdev key codes to greeter keys.
//!
//! A greeter only needs a username and a password, not locale-aware text
//! input, so the table is deliberately small. The codes are the kernel's
//! `input-event-codes.h` numbers that evdev reports.

use vstd::prelude::*;

verus! {

/// A decoded key press.
#[derive(Clone, Copy, PartialEq, Eq, Debug)]
pub enum Key {
    Char(char),
    Backspace,
    Delete,
    Enter,
    Tab,
    Escape,
    Left,
    Right,
    Up,
    Down,
    Shutdown,
    Reboot,
}

pub const KEY_A: u16 = 30;
pub const KEY_B: u16 = 48;
pub const KEY_C: u16 = 46;
pub const KEY_D: u16 = 32;
pub const KEY_E: u16 = 18;
pub const KEY_F: u16 = 33;
pub const KEY_G: u16 = 34;
pub const KEY_H: u16 = 35;
pub const KEY_I: u16 = 23;
pub const KEY_J: u16 = 36;
pub const KEY_K: u16 = 37;
pub const KEY_L: u16 = 38;
pub const KEY_M: u16 = 50;
pub const KEY_N: u16 = 49;
pub const KEY_O: u16 = 24;
pub const KEY_P: u16 = 25;
pub const KEY_Q: u16 = 16;
pub const KEY_R: u16 = 19;
pub const KEY_S: u16 = 31;
pub const KEY_T: u16 = 20;
pub const KEY_U: u16 = 22;
pub const KEY_V: u16 = 47;
pub const KEY_W: u16 = 17;
pub const KEY_X: u16 = 45;
pub const KEY_Y: u16 = 21;
pub const KEY_Z: u16 = 44;
pub const KEY_1: u16 = 2;
pub const KEY_2: u16 = 3;
pub const KEY_3: u16 = 4;
pub const KEY_4: u16 = 5;
pub const KEY_5: u16 = 6;
pub const KEY_6: u16 = 7;
pub const KEY_7: u16 = 8;
pub const KEY_8: u16 = 9;
pub const KEY_9: u16 = 10;
pub const KEY_0: u16 = 11;
pub const KEY_MINUS: u16 = 12;
pub const KEY_EQUAL: u16 = 13;
pub const KEY_LEFTBRACE: u16 = 26;
pub const KEY_RIGHTBRACE: u16 = 27;
pub const KEY_BACKSLASH: u16 = 43;
pub const KEY_SEMICOLON: u16 = 39;
pub const KEY_APOSTROPHE: u16 = 40;
pub const KEY_GRAVE: u16 = 41;
pub const KEY_COMMA: u16 = 51;
pub const KEY_DOT: u16 = 52;
pub const KEY_SLASH: u16 = 53;
pub const KEY_SPACE: u16 = 57;
pub const KEY_BACKSPACE: u16 = 14;
pub const KEY_DELETE: u16 = 111;
pub const KEY_ENTER: u16 = 28;
pub const KEY_KPENTER: u16 = 96;
pub const KEY_TAB: u16 = 15;
pub const KEY_ESC: u16 = 1;
pub const KEY_LEFT: u16 = 105;
pub const KEY_RIGHT: u16 = 106;
pub const KEY_UP: u16 = 103;
pub const KEY_DOWN: u16 = 108;
pub const KEY_F1: u16 = 59;
pub const KEY_F2: u16 = 60;
pub const KEY_LEFTSHIFT: u16 = 42;
pub const KEY_RIGHTSHIFT: u16 = 54;

/// The character pair (unshifted, shifted) a printable key produces.
pub open spec fn printable(code: u16) -> Option<(char, char)> {
    if code == KEY_SPACE {
        Some((' ', ' '))
    } else if code == KEY_A {
        Some(('a', 'A'))
    } else if code == KEY_B {
        Some(('b', 'B'))
    } else if code == KEY_C {
        Some(('c', 'C'))
    } else if code == KEY_D {
        Some(('d', 'D'))
    } else if code == KEY_E {
        Some(('e', 'E'))
    } else if code == KEY_F {
        Some(('f', 'F'))
    } else if code == KEY_G {
        Some(('g', 'G'))
    } else if code == KEY_H {
        Some(('h', 'H'))
    } else if code == KEY_I {
        Some(('i', 'I'))
    } else if code == KEY_J {
        Some(('j', 'J'))
    } else if code == KEY_K {
        Some(('k', 'K'))
    } else if code == KEY_L {
        Some(('l', 'L'))
    } else if code == KEY_M {
        Some(('m', 'M'))
    } else if code == KEY_N {
        Some(('n', 'N'))
    } else if code == KEY_O {
        Some(('o', 'O'))
    } else if code == KEY_P {
        Some(('p', 'P'))
    } else if code == KEY_Q {
        Some(('q', 'Q'))
    } else if code == KEY_R {
        Some(('r', 'R'))
    } else if code == KEY_S {
        Some(('s', 'S'))
    } else if code == KEY_T {
        Some(('t', 'T'))
    } else if code == KEY_U {
        Some(('u', 'U'))
    } else if code == KEY_V {
        Some(('v', 'V'))
    } else if code == KEY_W {
        Some(('w', 'W'))
    } else if code == KEY_X {
        Some(('x', 'X'))
    } else if code == KEY_Y {
        Some(('y', 'Y'))
    } else if code == KEY_Z {
        Some(('z', 'Z'))
    } else if code == KEY_1 {
        Some(('1', '!'))
    } else if code == KEY_2 {
        Some(('2', '@'))
    } else if code == KEY_3 {
        Some(('3', '#'))
    } else if code == KEY_4 {
        Some(('4', '$'))
    } else if code == KEY_5 {
        Some(('5', '%'))
    } else if code == KEY_6 {
        Some(('6', '^'))
    } else if code == KEY_7 {
        Some(('7', '&'))
    } else if code == KEY_8 {
        Some(('8', '*'))
    } else if code == KEY_9 {
        Some(('9', '('))
    } else if code == KEY_0 {
        Some(('0', ')'))
    } else if code == KEY_MINUS {
        Some(('-', '_'))
    } else if code == KEY_EQUAL {
        Some(('=', '+'))
    } else if code == KEY_LEFTBRACE {
        Some(('[', '{'))
    } else if code == KEY_RIGHTBRACE {
        Some((']', '}'))
    } else if code == KEY_BACKSLASH {
        Some(('\\', '|'))
    } else if code == KEY_SEMICOLON {
        Some((';', ':'))
    } else if code == KEY_APOSTROPHE {
        Some(('\'', '"'))
    } else if code == KEY_GRAVE {
        Some(('`', '~'))
    } else if code == KEY_COMMA {
        Some((',', '<'))
    } else if code == KEY_DOT {
        Some(('.', '>'))
    } else if code == KEY_SLASH {
        Some(('/', '?'))
    } else {
        None
    }
}

/// The non-character key a code stands for.
pub open spec fn special(code: u16) -> Option<Key> {
    if code == KEY_BACKSPACE {
        Some(Key::Backspace)
    } else if code == KEY_DELETE {
        Some(Key::Delete)
    } else if code == KEY_ENTER {
        Some(Key::Enter)
    } else if code == KEY_KPENTER {
        Some(Key::Enter)
    } else if code == KEY_TAB {
        Some(Key::Tab)
    } else if code == KEY_ESC {
        Some(Key::Escape)
    } else if code == KEY_LEFT {
        Some(Key::Left)
    } else if code == KEY_RIGHT {
        Some(Key::Right)
    } else if code == KEY_UP {
        Some(Key::Up)
    } else if code == KEY_DOWN {
        Some(Key::Down)
    } else if code == KEY_F1 {
        Some(Key::Shutdown)
    } else if code == KEY_F2 {
        Some(Key::Reboot)
    } else {
        None
    }
}

/// The key that `code` gives with the shift state `shift`.
pub open spec fn spec_map_key(code: u16, shift: bool) -> Option<Key> {
    match printable(code) {
        Some((lo, hi)) => Some(Key::Char(if shift { hi } else { lo })),
        None => special(code),
    }
}

/// Maps an evdev key code and the shift state to a key, or `None` for keys
/// the greeter ignores.
pub fn map_key(code: u16, shift: bool) -> (r: Option<Key>)
    ensures
        r == spec_map_key(code, shift),
{
    let pair: Option<(char, char)> = match code {
        30 => Some(('a', 'A')),
        48 => Some(('b', 'B')),
        46 => Some(('c', 'C')),
        32 => Some(('d', 'D')),
        18 => Some(('e', 'E')),
        33 => Some(('f', 'F')),
        34 => Some(('g', 'G')),
        35 => Some(('h', 'H')),
        23 => Some(('i', 'I')),
        36 => Some(('j', 'J')),
        37 => Some(('k', 'K')),
        38 => Some(('l', 'L')),
        50 => Some(('m', 'M')),
        49 => Some(('n', 'N')),
        24 => Some(('o', 'O')),
        25 => Some(('p', 'P')),
        16 => Some(('q', 'Q')),
        19 => Some(('r', 'R')),
        31 => Some(('s', 'S')),
        20 => Some(('t', 'T')),
        22 => Some(('u', 'U')),
        47 => Some(('v', 'V')),
        17 => Some(('w', 'W')),
        45 => Some(('x', 'X')),
        21 => Some(('y', 'Y')),
        44 => Some(('z', 'Z')),
        2 => Some(('1', '!')),
        3 => Some(('2', '@')),
        4 => Some(('3', '#')),
        5 => Some(('4', '$')),
        6 => Some(('5', '%')),
        7 => Some(('6', '^')),
        8 => Some(('7', '&')),
        9 => Some(('8', '*')),
        10 => Some(('9', '(')),
        11 => Some(('0', ')')),
        12 => Some(('-', '_')),
        13 => Some(('=', '+')),
        26 => Some(('[', '{')),
        27 => Some((']', '}')),
        43 => Some(('\\', '|')),
        39 => Some((';', ':')),
        40 => Some(('\'', '"')),
        41 => Some(('`', '~')),
        51 => Some((',', '<')),
        52 => Some(('.', '>')),
        53 => Some(('/', '?')),
        57 => Some((' ', ' ')),
        _ => None,
    };
    match pair {
        Some((lo, hi)) => Some(Key::Char(if shift { hi } else { lo })),
        None => match code {
            14 => Some(Key::Backspace),
            111 => Some(Key::Delete),
            28 => Some(Key::Enter),
            96 => Some(Key::Enter),
            15 => Some(Key::Tab),
            1 => Some(Key::Escape),
            105 => Some(Key::Left),
            106 => Some(Key::Right),
            103 => Some(Key::Up),
            108 => Some(Key::Down),
            59 => Some(Key::Shutdown),
            60 => Some(Key::Reboot),
            _ => None,
        },
    }
}

/// Whether `code` is one of the two shift keys.
pub open spec fn spec_is_shift(code: u16) -> bool {
    code == KEY_LEFTSHIFT || code == KEY_RIGHTSHIFT
}

/// Whether `code` is one of the two shift keys.
pub fn is_shift(code: u16) -> (r: bool)
    ensures
        r == spec_is_shift(code),
{
    code == KEY_LEFTSHIFT || code == KEY_RIGHTSHIFT
}

/// The ASCII uppercase of a lowercase letter; any other character as is.
pub open spec fn ascii_upper(c: char) -> char {
    if 'a' <= c <= 'z' {
        ((c as u32) - 32) as char
    } else {
        c
    }
}

/// Holding shift turns a letter into its uppercase form; for every key that
/// is not a character, shift makes no difference.
pub proof fn lemma_shift_uppercases_letters(code: u16)
    ensures
        spec_map_key(code, false) matches Some(Key::Char(lo)) ==> ('a' <= lo <= 'z' ==>
            spec_map_key(code, true) == Some(Key::Char(ascii_upper(lo)))),
        !(spec_map_key(code, false) matches Some(Key::Char(_))) ==>
            spec_map_key(code, true) == spec_map_key(code, false),
{
}

/// Shift keys produce no key of their own.
pub proof fn lemma_shift_keys_unmapped(code: u16, shift: bool)
    requires
        spec_is_shift(code),
    ensures
        spec_map_key(code, shift) is None,
{
}

/// The letter keys give the letters printed on them in US-QWERTY, row by
/// row along the keyboard (evdev numbers each row's keys left to right):
/// lowercase, or uppercase with shift.
pub proof fn lemma_letter_rows()
    ensures
        spec_map_key(16, false) == Some(Key::Char('q')) && spec_map_key(16, true) == Some(Key::Char('Q')),
        spec_map_key(17, false) == Some(Key::Char('w')) && spec_map_key(17, true) == Some(Key::Char('W')),
        spec_map_key(18, false) == Some(Key::Char('e')) && spec_map_key(18, true) == Some(Key::Char('E')),
        spec_map_key(19, false) == Some(Key::Char('r')) && spec_map_key(19, true) == Some(Key::Char('R')),
        spec_map_key(20, false) == Some(Key::Char('t')) && spec_map_key(20, true) == Some(Key::Char('T')),
        spec_map_key(21, false) == Some(Key::Char('y')) && spec_map_key(21, true) == Some(Key::Char('Y')),
        spec_map_key(22, false) == Some(Key::Char('u')) && spec_map_key(22, true) == Some(Key::Char('U')),
        spec_map_key(23, false) == Some(Key::Char('i')) && spec_map_key(23, true) == Some(Key::Char('I')),
        spec_map_key(24, false) == Some(Key::Char('o')) && spec_map_key(24, true) == Some(Key::Char('O')),
        spec_map_key(25, false) == Some(Key::Char('p')) && spec_map_key(25, true) == Some(Key::Char('P')),
        spec_map_key(30, false) == Some(Key::Char('a')) && spec_map_key(30, true) == Some(Key::Char('A')),
        spec_map_key(31, false) == Some(Key::Char('s')) && spec_map_key(31, true) == Some(Key::Char('S')),
        spec_map_key(32, false) == Some(Key::Char('d')) && spec_map_key(32, true) == Some(Key::Char('D')),
        spec_map_key(33, false) == Some(Key::Char('f')) && spec_map_key(33, true) == Some(Key::Char('F')),
        spec_map_key(34, false) == Some(Key::Char('g')) && spec_map_key(34, true) == Some(Key::Char('G')),
        spec_map_key(35, false) == Some(Key::Char('h')) && spec_map_key(35, true) == Some(Key::Char('H')),
        spec_map_key(36, false) == Some(Key::Char('j')) && spec_map_key(36, true) == Some(Key::Char('J')),
        spec_map_key(37, false) == Some(Key::Char('k')) && spec_map_key(37, true) == Some(Key::Char('K')),
        spec_map_key(38, false) == Some(Key::Char('l')) && spec_map_key(38, true) == Some(Key::Char('L')),
        spec_map_key(44, false) == Some(Key::Char('z')) && spec_map_key(44, true) == Some(Key::Char('Z')),
        spec_map_key(45, false) == Some(Key::Char('x')) && spec_map_key(45, true) == Some(Key::Char('X')),
        spec_map_key(46, false) == Some(Key::Char('c')) && spec_map_key(46, true) == Some(Key::Char('C')),
        spec_map_key(47, false) == Some(Key::Char('v')) && spec_map_key(47, true) == Some(Key::Char('V')),
        spec_map_key(48, false) == Some(Key::Char('b')) && spec_map_key(48, true) == Some(Key::Char('B')),
        spec_map_key(49, false) == Some(Key::Char('n')) && spec_map_key(49, true) == Some(Key::Char('N')),
        spec_map_key(50, false) == Some(Key::Char('m')) && spec_map_key(50, true) == Some(Key::Char('M')),
{
}

/// The digit row and the punctuation keys give the US-QWERTY characters
/// printed on them, the lower one without shift and the upper one with it;
/// the space bar gives a space either way.
pub proof fn lemma_digit_and_punctuation_keys()
    ensures
        spec_map_key(2, false) == Some(Key::Char('1')) && spec_map_key(2, true) == Some(Key::Char('!')),
        spec_map_key(3, false) == Some(Key::Char('2')) && spec_map_key(3, true) == Some(Key::Char('@')),
        spec_map_key(4, false) == Some(Key::Char('3')) && spec_map_key(4, true) == Some(Key::Char('#')),
        spec_map_key(5, false) == Some(Key::Char('4')) && spec_map_key(5, true) == Some(Key::Char('$')),
        spec_map_key(6, false) == Some(Key::Char('5')) && spec_map_key(6, true) == Some(Key::Char('%')),
        spec_map_key(7, false) == Some(Key::Char('6')) && spec_map_key(7, true) == Some(Key::Char('^')),
        spec_map_key(8, false) == Some(Key::Char('7')) && spec_map_key(8, true) == Some(Key::Char('&')),
        spec_map_key(9, false) == Some(Key::Char('8')) && spec_map_key(9, true) == Some(Key::Char('*')),
        spec_map_key(10, false) == Some(Key::Char('9')) && spec_map_key(10, true) == Some(Key::Char('(')),
        spec_map_key(11, false) == Some(Key::Char('0')) && spec_map_key(11, true) == Some(Key::Char(')')),
        spec_map_key(12, false) == Some(Key::Char('-')) && spec_map_key(12, true) == Some(Key::Char('_')),
        spec_map_key(13, false) == Some(Key::Char('=')) && spec_map_key(13, true) == Some(Key::Char('+')),
        spec_map_key(26, false) == Some(Key::Char('[')) && spec_map_key(26, true) == Some(Key::Char('{')),
        spec_map_key(27, false) == Some(Key::Char(']')) && spec_map_key(27, true) == Some(Key::Char('}')),
        spec_map_key(43, false) == Some(Key::Char('\\')) && spec_map_key(43, true) == Some(Key::Char('|')),
        spec_map_key(39, false) == Some(Key::Char(';')) && spec_map_key(39, true) == Some(Key::Char(':')),
        spec_map_key(40, false) == Some(Key::Char('\'')) && spec_map_key(40, true) == Some(Key::Char('"')),
        spec_map_key(41, false) == Some(Key::Char('`')) && spec_map_key(41, true) == Some(Key::Char('~')),
        spec_map_key(51, false) == Some(Key::Char(',')) && spec_map_key(51, true) == Some(Key::Char('<')),
        spec_map_key(52, false) == Some(Key::Char('.')) && spec_map_key(52, true) == Some(Key::Char('>')),
        spec_map_key(53, false) == Some(Key::Char('/')) && spec_map_key(53, true) == Some(Key::Char('?')),
        spec_map_key(57, false) == Some(Key::Char(' ')) && spec_map_key(57, true) == Some(Key::Char(' ')),
{
}

/// The editing, navigation and function keys give their own keys whatever
/// the shift state: both Enter keys give Enter, F1 asks for shutdown and F2
/// for a reboot.
pub proof fn lemma_special_keys(shift: bool)
    ensures
        spec_map_key(14, shift) == Some(Key::Backspace),
        spec_map_key(111, shift) == Some(Key::Delete),
        spec_map_key(28, shift) == Some(Key::Enter),
        spec_map_key(96, shift) == Some(Key::Enter),
        spec_map_key(15, shift) == Some(Key::Tab),
        spec_map_key(1, shift) == Some(Key::Escape),
        spec_map_key(105, shift) == Some(Key::Left),
        spec_map_key(106, shift) == Some(Key::Right),
        spec_map_key(103, shift) == Some(Key::Up),
        spec_map_key(108, shift) == Some(Key::Down),
        spec_map_key(59, shift) == Some(Key::Shutdown),
        spec_map_key(60, shift) == Some(Key::Reboot),
{
}

/// A code outside the table gives no key.
pub proof fn lemma_unmapped_codes(code: u16, shift: bool)
    requires
        !(16 <= code <= 25 || 30 <= code <= 38 || 44 <= code <= 50 || 2 <= code <= 13 || 26 <= code <= 27
            || 39 <= code <= 41 || code == 43 || 51 <= code <= 53 || code == 57 || code == 14
            || code == 111 || code == 28 || code == 96 || code == 15 || code == 1 || code == 103
            || code == 105 || code == 106 || code == 108 || code == 59 || code == 60),
    ensures
        spec_map_key(code, shift) is None,
{
}

} // verus!
