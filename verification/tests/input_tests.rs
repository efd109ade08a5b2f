use std::collections::HashSet;
use khudium::input::{
    apply_key_event, apply_mouse_input, expire_scroll, MouseButtons, MouseEffect, MouseInput,
    BTN_EXTRA, BTN_LEFT, BTN_MIDDLE, BTN_RIGHT, BTN_SIDE, REL_WHEEL, REL_X, REL_Y,
    SCROLL_EXPIRE_NANOS,
};
use khudium::stats::TypingStats;

#[test]
fn key_press_and_release() {
    let mut keys = HashSet::new();
    let mut stats = TypingStats::default();
    apply_key_event(&mut keys, &mut stats, 30, 1);
    assert!(keys.contains(&30));
    assert_eq!(stats.chars, 1);
    apply_key_event(&mut keys, &mut stats, 30, 2);
    assert_eq!(stats.chars, 2);
    apply_key_event(&mut keys, &mut stats, 42, 1);
    assert_eq!(keys.len(), 2);
    apply_key_event(&mut keys, &mut stats, 30, 0);
    assert!(!keys.contains(&30));
    assert!(keys.contains(&42));
    assert_eq!(stats.chars, 2);
    apply_key_event(&mut keys, &mut stats, 57, 1);
    assert_eq!(stats.words, 1);
}

#[test]
fn mouse_buttons_light_while_held() {
    let mut b = MouseButtons::default();
    assert_eq!(apply_mouse_input(&mut b, MouseInput::Key { code: BTN_LEFT, value: 1 }), MouseEffect::Button);
    assert!(b.lmb);
    apply_mouse_input(&mut b, MouseInput::Key { code: BTN_RIGHT, value: 1 });
    apply_mouse_input(&mut b, MouseInput::Key { code: BTN_MIDDLE, value: 1 });
    apply_mouse_input(&mut b, MouseInput::Key { code: BTN_SIDE, value: 1 });
    apply_mouse_input(&mut b, MouseInput::Key { code: BTN_EXTRA, value: 1 });
    assert!(b.rmb && b.mmb && b.side_forward && b.side_back);
    apply_mouse_input(&mut b, MouseInput::Key { code: BTN_LEFT, value: 0 });
    assert!(!b.lmb && b.rmb);
    assert_eq!(apply_mouse_input(&mut b, MouseInput::Key { code: 30, value: 1 }), MouseEffect::Unchanged);
}

#[test]
fn mouse_motion_and_wheel() {
    let mut b = MouseButtons::new();
    assert_eq!(apply_mouse_input(&mut b, MouseInput::Relative { axis: REL_X, value: -16 }), MouseEffect::MoveX(-16));
    assert_eq!(apply_mouse_input(&mut b, MouseInput::Relative { axis: REL_Y, value: 8 }), MouseEffect::MoveY(8));
    assert_eq!(b, MouseButtons::new());
    assert_eq!(apply_mouse_input(&mut b, MouseInput::Relative { axis: REL_WHEEL, value: 0 }), MouseEffect::Unchanged);
    assert_eq!(apply_mouse_input(&mut b, MouseInput::Relative { axis: REL_WHEEL, value: 1 }), MouseEffect::ScrolledUp);
    assert!(b.scroll_up && !b.scroll_down);
    assert_eq!(apply_mouse_input(&mut b, MouseInput::Relative { axis: REL_WHEEL, value: -1 }), MouseEffect::ScrolledDown);
    assert!(b.scroll_down);
    assert_eq!(apply_mouse_input(&mut b, MouseInput::Relative { axis: 6, value: 3 }), MouseEffect::Unchanged);
    assert_eq!(apply_mouse_input(&mut b, MouseInput::Other), MouseEffect::Unchanged);
}

#[test]
fn key_event_sequence() {
    let mut keys: HashSet<u16> = HashSet::new();
    keys.insert(42);
    let mut stats = TypingStats::default();
    let events: [(u16, i32); 8] = [(30, 1), (31, 1), (30, 0), (57, 1), (57, 0), (42, 0), (31, 2), (28, 1)];
    for (code, value) in events {
        apply_key_event(&mut keys, &mut stats, code, value);
    }
    let mut held: Vec<u16> = keys.into_iter().collect();
    held.sort();
    assert_eq!(held, vec![28, 31]);
    assert_eq!((stats.chars, stats.words, stats.pending_word()), (3, 2, false));
}

#[test]
fn scroll_highlight_expires() {
    let mut b = MouseButtons::new();
    b.scroll_up = true;
    b.scroll_down = true;
    b.lmb = true;
    assert_eq!(expire_scroll(&mut b, Some(SCROLL_EXPIRE_NANOS), Some(SCROLL_EXPIRE_NANOS + 1)), (false, true));
    assert!(b.scroll_up && !b.scroll_down && b.lmb);
    assert_eq!(expire_scroll(&mut b, Some(1_000_000_000), None), (true, false));
    assert!(!b.scroll_up && !b.scroll_down && b.lmb);
    assert_eq!(expire_scroll(&mut b, None, None), (false, false));
    assert_eq!(SCROLL_EXPIRE_NANOS, 400_000_000);
}
