use chip8::keyboard::Keyboard;

#[test]
fn keyboard_starts_released() {
    let keyboard = Keyboard::new();
    for key in 0..16u8 {
        assert!(!keyboard.is_key_pressed(key));
    }
    assert_eq!(keyboard.wait_for_key_press(), None);
}

#[test]
fn keyboard_set_and_query() {
    let mut keyboard = Keyboard::new();
    keyboard.set_key(0xC, true);
    keyboard.set_key(0x3, true);
    assert!(keyboard.is_key_pressed(0xC));
    assert!(keyboard.is_key_pressed(0x3));
    assert!(!keyboard.is_key_pressed(0x4));
    assert_eq!(keyboard.wait_for_key_press(), Some(0x3));
    keyboard.set_key(0x3, false);
    assert_eq!(keyboard.wait_for_key_press(), Some(0xC));
}

#[test]
fn keyboard_ignores_unknown_keys() {
    let mut keyboard = Keyboard::new();
    keyboard.set_key(20, true);
    assert!(!keyboard.is_key_pressed(20));
    assert_eq!(keyboard.wait_for_key_press(), None);
}
