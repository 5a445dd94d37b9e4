use evdev::KeyCode;
use ferum_greet::input::{InputEvent, KeyReader};
use ferum_greet::keymap::{self, is_shift, map_key, Key};

#[test]
fn key_code_constants_match_evdev() {
    let pairs = [
        (keymap::KEY_A, KeyCode::KEY_A), (keymap::KEY_B, KeyCode::KEY_B), (keymap::KEY_C, KeyCode::KEY_C),
        (keymap::KEY_D, KeyCode::KEY_D), (keymap::KEY_E, KeyCode::KEY_E), (keymap::KEY_F, KeyCode::KEY_F),
        (keymap::KEY_G, KeyCode::KEY_G), (keymap::KEY_H, KeyCode::KEY_H), (keymap::KEY_I, KeyCode::KEY_I),
        (keymap::KEY_J, KeyCode::KEY_J), (keymap::KEY_K, KeyCode::KEY_K), (keymap::KEY_L, KeyCode::KEY_L),
        (keymap::KEY_M, KeyCode::KEY_M), (keymap::KEY_N, KeyCode::KEY_N), (keymap::KEY_O, KeyCode::KEY_O),
        (keymap::KEY_P, KeyCode::KEY_P), (keymap::KEY_Q, KeyCode::KEY_Q), (keymap::KEY_R, KeyCode::KEY_R),
        (keymap::KEY_S, KeyCode::KEY_S), (keymap::KEY_T, KeyCode::KEY_T), (keymap::KEY_U, KeyCode::KEY_U),
        (keymap::KEY_V, KeyCode::KEY_V), (keymap::KEY_W, KeyCode::KEY_W), (keymap::KEY_X, KeyCode::KEY_X),
        (keymap::KEY_Y, KeyCode::KEY_Y), (keymap::KEY_Z, KeyCode::KEY_Z),
        (keymap::KEY_1, KeyCode::KEY_1), (keymap::KEY_2, KeyCode::KEY_2), (keymap::KEY_3, KeyCode::KEY_3),
        (keymap::KEY_4, KeyCode::KEY_4), (keymap::KEY_5, KeyCode::KEY_5), (keymap::KEY_6, KeyCode::KEY_6),
        (keymap::KEY_7, KeyCode::KEY_7), (keymap::KEY_8, KeyCode::KEY_8), (keymap::KEY_9, KeyCode::KEY_9),
        (keymap::KEY_0, KeyCode::KEY_0),
        (keymap::KEY_MINUS, KeyCode::KEY_MINUS), (keymap::KEY_EQUAL, KeyCode::KEY_EQUAL),
        (keymap::KEY_LEFTBRACE, KeyCode::KEY_LEFTBRACE), (keymap::KEY_RIGHTBRACE, KeyCode::KEY_RIGHTBRACE),
        (keymap::KEY_BACKSLASH, KeyCode::KEY_BACKSLASH), (keymap::KEY_SEMICOLON, KeyCode::KEY_SEMICOLON),
        (keymap::KEY_APOSTROPHE, KeyCode::KEY_APOSTROPHE), (keymap::KEY_GRAVE, KeyCode::KEY_GRAVE),
        (keymap::KEY_COMMA, KeyCode::KEY_COMMA), (keymap::KEY_DOT, KeyCode::KEY_DOT),
        (keymap::KEY_SLASH, KeyCode::KEY_SLASH), (keymap::KEY_SPACE, KeyCode::KEY_SPACE),
        (keymap::KEY_BACKSPACE, KeyCode::KEY_BACKSPACE), (keymap::KEY_DELETE, KeyCode::KEY_DELETE),
        (keymap::KEY_ENTER, KeyCode::KEY_ENTER), (keymap::KEY_KPENTER, KeyCode::KEY_KPENTER),
        (keymap::KEY_TAB, KeyCode::KEY_TAB), (keymap::KEY_ESC, KeyCode::KEY_ESC),
        (keymap::KEY_LEFT, KeyCode::KEY_LEFT), (keymap::KEY_RIGHT, KeyCode::KEY_RIGHT),
        (keymap::KEY_UP, KeyCode::KEY_UP), (keymap::KEY_DOWN, KeyCode::KEY_DOWN),
        (keymap::KEY_F1, KeyCode::KEY_F1), (keymap::KEY_F2, KeyCode::KEY_F2),
        (keymap::KEY_LEFTSHIFT, KeyCode::KEY_LEFTSHIFT), (keymap::KEY_RIGHTSHIFT, KeyCode::KEY_RIGHTSHIFT),
    ];
    for (ours, theirs) in pairs {
        assert_eq!(ours, theirs.code());
    }
}

#[test]
fn letters_follow_shift() {
    assert_eq!(map_key(KeyCode::KEY_A.code(), false), Some(Key::Char('a')));
    assert_eq!(map_key(KeyCode::KEY_A.code(), true), Some(Key::Char('A')));
    assert_eq!(map_key(KeyCode::KEY_Z.code(), true), Some(Key::Char('Z')));
    assert_eq!(map_key(KeyCode::KEY_Q.code(), false), Some(Key::Char('q')));
}

#[test]
fn digits_and_punctuation_follow_shift() {
    assert_eq!(map_key(KeyCode::KEY_1.code(), false), Some(Key::Char('1')));
    assert_eq!(map_key(KeyCode::KEY_1.code(), true), Some(Key::Char('!')));
    assert_eq!(map_key(KeyCode::KEY_0.code(), true), Some(Key::Char(')')));
    assert_eq!(map_key(KeyCode::KEY_BACKSLASH.code(), false), Some(Key::Char('\\')));
    assert_eq!(map_key(KeyCode::KEY_BACKSLASH.code(), true), Some(Key::Char('|')));
    assert_eq!(map_key(KeyCode::KEY_APOSTROPHE.code(), false), Some(Key::Char('\'')));
    assert_eq!(map_key(KeyCode::KEY_APOSTROPHE.code(), true), Some(Key::Char('"')));
    assert_eq!(map_key(KeyCode::KEY_SPACE.code(), true), Some(Key::Char(' ')));
    assert_eq!(map_key(KeyCode::KEY_GRAVE.code(), true), Some(Key::Char('~')));
}

#[test]
fn special_keys_ignore_shift() {
    for shift in [false, true] {
        assert_eq!(map_key(KeyCode::KEY_ENTER.code(), shift), Some(Key::Enter));
        assert_eq!(map_key(KeyCode::KEY_KPENTER.code(), shift), Some(Key::Enter));
        assert_eq!(map_key(KeyCode::KEY_BACKSPACE.code(), shift), Some(Key::Backspace));
        assert_eq!(map_key(KeyCode::KEY_DELETE.code(), shift), Some(Key::Delete));
        assert_eq!(map_key(KeyCode::KEY_TAB.code(), shift), Some(Key::Tab));
        assert_eq!(map_key(KeyCode::KEY_ESC.code(), shift), Some(Key::Escape));
        assert_eq!(map_key(KeyCode::KEY_UP.code(), shift), Some(Key::Up));
        assert_eq!(map_key(KeyCode::KEY_DOWN.code(), shift), Some(Key::Down));
        assert_eq!(map_key(KeyCode::KEY_LEFT.code(), shift), Some(Key::Left));
        assert_eq!(map_key(KeyCode::KEY_RIGHT.code(), shift), Some(Key::Right));
        assert_eq!(map_key(KeyCode::KEY_F1.code(), shift), Some(Key::Shutdown));
        assert_eq!(map_key(KeyCode::KEY_F2.code(), shift), Some(Key::Reboot));
    }
}

#[test]
fn unmapped_keys_give_nothing() {
    assert_eq!(map_key(KeyCode::KEY_LEFTSHIFT.code(), false), None);
    assert_eq!(map_key(KeyCode::KEY_CAPSLOCK.code(), false), None);
    assert_eq!(map_key(KeyCode::KEY_F3.code(), true), None);
    assert_eq!(map_key(0, false), None);
}

#[test]
fn shift_keys_detected() {
    assert!(is_shift(KeyCode::KEY_LEFTSHIFT.code()));
    assert!(is_shift(KeyCode::KEY_RIGHTSHIFT.code()));
    assert!(!is_shift(KeyCode::KEY_LEFTCTRL.code()));
    assert!(!is_shift(KeyCode::KEY_A.code()));
}

#[test]
fn reader_tracks_shift_and_skips_releases() {
    let mut reader = KeyReader::new();
    let a = KeyCode::KEY_A.code();
    let shift = KeyCode::KEY_LEFTSHIFT.code();
    assert_eq!(reader.on_key_event(a, 1), Some(InputEvent::Key(Key::Char('a'))));
    assert_eq!(reader.on_key_event(a, 0), None);
    assert_eq!(reader.on_key_event(shift, 1), None);
    assert!(reader.shift_held);
    assert_eq!(reader.on_key_event(a, 1), Some(InputEvent::Key(Key::Char('A'))));
    assert_eq!(reader.on_key_event(a, 2), Some(InputEvent::Key(Key::Char('A'))));
    assert_eq!(reader.on_key_event(shift, 2), None);
    assert!(reader.shift_held);
    assert_eq!(reader.on_key_event(shift, 0), None);
    assert!(!reader.shift_held);
    assert_eq!(reader.on_key_event(a, 1), Some(InputEvent::Key(Key::Char('a'))));
    assert_eq!(reader.on_key_event(KeyCode::KEY_CAPSLOCK.code(), 1), None);
}
