use chip8::keyboard::Keyboard;
use chip8::screen::Screen;

#[test]
fn test_screen_set_get_normalizes() {
    let mut s = Screen::new();
    assert_eq!(s.get(0, 0), 0);
    s.set(3, 5, 1);
    assert_eq!(s.get(3, 5), 1);
    // any nonzero stored byte reads back as 1
    s.set(3, 5, 7);
    assert_eq!(s.get(3, 5), 1);
    s.set(3, 5, 0);
    assert_eq!(s.get(3, 5), 0);
    // corners are addressable
    s.set(63, 31, 1);
    assert_eq!(s.get(63, 31), 1);
}

#[test]
fn test_screen_clear() {
    let mut s = Screen::new();
    s.set(0, 0, 1);
    s.set(63, 31, 1);
    s.set(10, 20, 5);
    s.clear();
    for y in 0..32 {
        for x in 0..64 {
            assert_eq!(s.get(x, y), 0);
        }
    }
}

#[test]
fn test_keyboard_press_release() {
    let mut k = Keyboard::new();
    for n in 0..16 {
        assert!(!k.is_pressed(n));
    }
    k.press(7);
    assert!(k.is_pressed(7));
    assert!(!k.is_pressed(6));
    k.release(7);
    assert!(!k.is_pressed(7));
}

#[test]
fn test_keyboard_get_pressed_lowest() {
    let mut k = Keyboard::new();
    assert_eq!(k.get_pressed(), None);
    k.press(9);
    assert_eq!(k.get_pressed(), Some(9));
    k.press(4);
    // the scan reports the lowest-numbered pressed key
    assert_eq!(k.get_pressed(), Some(4));
    k.release(4);
    assert_eq!(k.get_pressed(), Some(9));
    k.release(9);
    assert_eq!(k.get_pressed(), None);
}
