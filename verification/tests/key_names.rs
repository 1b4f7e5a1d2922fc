use evdev::KeyCode;
use pind::binding::ConfigError;
use pind::keymap::{key_code, key_to_keycode};

fn table() -> Vec<(&'static str, KeyCode)> {
    vec![
        ("meta_left", KeyCode::KEY_LEFTMETA),
        ("meta", KeyCode::KEY_LEFTMETA),
        ("ctrl_left", KeyCode::KEY_LEFTCTRL),
        ("ctrl", KeyCode::KEY_LEFTCTRL),
        ("shift_left", KeyCode::KEY_LEFTSHIFT),
        ("shift", KeyCode::KEY_LEFTSHIFT),
        ("alt_left", KeyCode::KEY_LEFTALT),
        ("alt", KeyCode::KEY_LEFTALT),
        ("back_slash", KeyCode::KEY_BACKSLASH),
        ("\\", KeyCode::KEY_BACKSLASH),
        ("slash", KeyCode::KEY_SLASH),
        ("/", KeyCode::KEY_SLASH),
        ("enter", KeyCode::KEY_ENTER),
        ("return", KeyCode::KEY_ENTER),
        ("ctrl_right", KeyCode::KEY_RIGHTCTRL),
        ("shift_right", KeyCode::KEY_RIGHTSHIFT),
        ("meta_right", KeyCode::KEY_RIGHTMETA),
        ("alt_right", KeyCode::KEY_RIGHTALT),
        ("capslock", KeyCode::KEY_CAPSLOCK),
        ("tab", KeyCode::KEY_TAB),
        ("0", KeyCode::KEY_0),
        ("1", KeyCode::KEY_1),
        ("2", KeyCode::KEY_2),
        ("3", KeyCode::KEY_3),
        ("4", KeyCode::KEY_4),
        ("5", KeyCode::KEY_5),
        ("6", KeyCode::KEY_6),
        ("7", KeyCode::KEY_7),
        ("8", KeyCode::KEY_8),
        ("9", KeyCode::KEY_9),
        ("a", KeyCode::KEY_A),
        ("b", KeyCode::KEY_B),
        ("c", KeyCode::KEY_C),
        ("d", KeyCode::KEY_D),
        ("e", KeyCode::KEY_E),
        ("f", KeyCode::KEY_F),
        ("g", KeyCode::KEY_G),
        ("h", KeyCode::KEY_H),
        ("i", KeyCode::KEY_I),
        ("j", KeyCode::KEY_J),
        ("k", KeyCode::KEY_K),
        ("l", KeyCode::KEY_L),
        ("m", KeyCode::KEY_M),
        ("n", KeyCode::KEY_N),
        ("o", KeyCode::KEY_O),
        ("p", KeyCode::KEY_P),
        ("q", KeyCode::KEY_Q),
        ("r", KeyCode::KEY_R),
        ("s", KeyCode::KEY_S),
        ("t", KeyCode::KEY_T),
        ("u", KeyCode::KEY_U),
        ("v", KeyCode::KEY_V),
        ("w", KeyCode::KEY_W),
        ("x", KeyCode::KEY_X),
        ("y", KeyCode::KEY_Y),
        ("z", KeyCode::KEY_Z),
        ("up", KeyCode::KEY_UP),
        ("down", KeyCode::KEY_DOWN),
        ("right", KeyCode::KEY_RIGHT),
        ("left", KeyCode::KEY_LEFT),
        ("dot", KeyCode::KEY_DOT),
        (".", KeyCode::KEY_DOT),
        ("comma", KeyCode::KEY_COMMA),
        (",", KeyCode::KEY_COMMA),
        ("semicolon", KeyCode::KEY_SEMICOLON),
        (";", KeyCode::KEY_SEMICOLON),
        ("apostrophe", KeyCode::KEY_APOSTROPHE),
        ("\"", KeyCode::KEY_APOSTROPHE),
        ("leftbrace", KeyCode::KEY_LEFTBRACE),
        ("[", KeyCode::KEY_LEFTBRACE),
        ("rightbrace", KeyCode::KEY_RIGHTBRACE),
        ("]", KeyCode::KEY_RIGHTBRACE),
        ("numlock", KeyCode::KEY_NUMLOCK),
        ("scroll_lock", KeyCode::KEY_SCROLLLOCK),
        ("minus", KeyCode::KEY_MINUS),
        ("-", KeyCode::KEY_MINUS),
        ("equal", KeyCode::KEY_EQUAL),
        ("=", KeyCode::KEY_EQUAL),
        ("plus", KeyCode::KEY_KPPLUS),
        ("grave", KeyCode::KEY_GRAVE),
        ("`", KeyCode::KEY_GRAVE),
        ("space", KeyCode::KEY_SPACE),
        ("esc", KeyCode::KEY_ESC),
        ("f1", KeyCode::KEY_F1),
        ("f2", KeyCode::KEY_F2),
        ("f3", KeyCode::KEY_F3),
        ("f4", KeyCode::KEY_F4),
        ("f5", KeyCode::KEY_F5),
        ("f6", KeyCode::KEY_F6),
        ("f7", KeyCode::KEY_F7),
        ("f8", KeyCode::KEY_F8),
        ("f9", KeyCode::KEY_F9),
        ("f10", KeyCode::KEY_F10),
        ("f11", KeyCode::KEY_F11),
        ("f12", KeyCode::KEY_F12),
        ("kp0", KeyCode::KEY_KP0),
        ("keypad_0", KeyCode::KEY_KP0),
        ("kp1", KeyCode::KEY_KP1),
        ("keypad_1", KeyCode::KEY_KP1),
        ("kp2", KeyCode::KEY_KP2),
        ("keypad_2", KeyCode::KEY_KP2),
        ("kp3", KeyCode::KEY_KP3),
        ("keypad_3", KeyCode::KEY_KP3),
        ("kp4", KeyCode::KEY_KP4),
        ("keypad_4", KeyCode::KEY_KP4),
        ("kp5", KeyCode::KEY_KP5),
        ("keypad_5", KeyCode::KEY_KP5),
        ("kp6", KeyCode::KEY_KP6),
        ("keypad_6", KeyCode::KEY_KP6),
        ("kp7", KeyCode::KEY_KP7),
        ("keypad_7", KeyCode::KEY_KP7),
        ("kp8", KeyCode::KEY_KP8),
        ("keypad_8", KeyCode::KEY_KP8),
        ("kp9", KeyCode::KEY_KP9),
        ("keypad_9", KeyCode::KEY_KP9),
        ("kpdot", KeyCode::KEY_KPDOT),
        ("keypad_dot", KeyCode::KEY_KPDOT),
        ("kpplus", KeyCode::KEY_KPPLUS),
        ("keypad_plus", KeyCode::KEY_KPPLUS),
        ("kpminus", KeyCode::KEY_KPMINUS),
        ("keypad_minus", KeyCode::KEY_KPMINUS),
    ]
}

fn codes_of(text: &str) -> Vec<u16> {
    key_to_keycode(text).expect("a valid combination").codes()
}

fn unknown_token(text: &str) -> String {
    match key_to_keycode(text) {
        Err(ConfigError::UnknownKey(t)) => t,
        Err(other) => panic!("unexpected error {:?}", other),
        Ok(_) => panic!("{:?} was accepted", text),
    }
}

#[test]
fn every_name_maps_to_its_evdev_key() {
    let rows = table();
    assert_eq!(rows.len(), 121);
    for (name, key) in rows {
        assert_eq!(key_code(name), Some(key.code()), "name {:?}", name);
        assert_eq!(codes_of(name), vec![key.code()], "name {:?}", name);
    }
}

#[test]
fn some_exact_codes() {
    assert_eq!(key_code("ctrl"), Some(29));
    assert_eq!(key_code("enter"), Some(28));
    assert_eq!(key_code("return"), Some(28));
    assert_eq!(key_code("a"), Some(30));
    assert_eq!(key_code("meta"), Some(125));
    assert_eq!(key_code("plus"), Some(78));
    assert_eq!(key_code("kpplus"), Some(78));
    assert_eq!(key_code("\""), Some(40));
    assert_eq!(key_code("\\"), Some(43));
    assert_eq!(key_code("f12"), Some(88));
}

#[test]
fn unknown_names_have_no_code() {
    assert_eq!(key_code(""), None);
    assert_eq!(key_code("Ctrl"), None);
    assert_eq!(key_code("ctrl "), None);
    assert_eq!(key_code("control"), None);
    assert_eq!(key_code("f13"), None);
    assert_eq!(key_code("+"), None);
    assert_eq!(key_code("met"), None);
    assert_eq!(key_code("metaa"), None);
}

#[test]
fn combination_of_two_keys() {
    assert_eq!(codes_of("ctrl+enter"), vec![28, 29]);
    assert_eq!(codes_of("enter+ctrl"), vec![28, 29]);
}

#[test]
fn combination_ignores_blanks_and_case() {
    assert_eq!(codes_of(" Ctrl + Enter "), vec![28, 29]);
    assert_eq!(codes_of("META + Shift_Left + A"), vec![30, 42, 125]);
    assert_eq!(codes_of("c t r l"), vec![29]);
}

#[test]
fn combination_lowercases_beyond_ascii() {
    assert_eq!(codes_of("\u{212A}"), vec![KeyCode::KEY_K.code()]);
    assert_eq!(codes_of("ctrl+\u{212A}"), vec![29, 37]);
}

#[test]
fn repeated_keys_collapse() {
    assert_eq!(codes_of("a+a+A"), vec![30]);
    assert_eq!(codes_of("enter+return"), vec![28]);
    assert_eq!(codes_of("plus+kpplus+keypad_plus"), vec![78]);
}

#[test]
fn empty_text_is_rejected() {
    assert_eq!(unknown_token(""), "");
    assert_eq!(unknown_token("   "), "");
}

#[test]
fn empty_token_is_rejected() {
    assert_eq!(unknown_token("ctrl+"), "");
    assert_eq!(unknown_token("+ctrl"), "");
    assert_eq!(unknown_token("ctrl++a"), "");
}

#[test]
fn unknown_token_is_reported_as_written() {
    assert_eq!(unknown_token("ctrl+foo"), "foo");
    assert_eq!(unknown_token("ctrl + Foo Bar + a"), "FooBar");
    assert_eq!(unknown_token("ctrl\t+a"), "ctrl\t");
}

#[test]
fn first_unknown_token_is_the_one_reported() {
    assert_eq!(unknown_token("x1+ctrl+y1"), "x1");
    assert_eq!(unknown_token("ctrl+y1+x1"), "y1");
}
