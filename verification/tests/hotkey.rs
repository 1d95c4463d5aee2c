use redlight::hotkey::{
    hook_step, is_pressed, wants_alt_state, HookDecision, MSG_TOGGLE, VK_F11, WM_KEYDOWN,
    WM_KEYUP, WM_SYSKEYDOWN, WM_SYSKEYUP,
};

const WINDOW: isize = 0x1234;
const VK_A: u32 = 0x41;

#[test]
fn message_constants() {
    assert_eq!(WM_KEYDOWN, 0x0100);
    assert_eq!(WM_KEYUP, 0x0101);
    assert_eq!(WM_SYSKEYDOWN, 0x0104);
    assert_eq!(WM_SYSKEYUP, 0x0105);
    assert_eq!(VK_F11, 0x7A);
    assert_eq!(MSG_TOGGLE, 0x0401);
}

#[test]
fn alt_f11_down_posts_and_is_consumed() {
    let d = hook_step(0, VK_F11, WM_SYSKEYDOWN, true, false, WINDOW);
    assert_eq!(d, HookDecision { post_toggle: true, consume: true, held: true });
    let d = hook_step(0, VK_F11, WM_KEYDOWN, true, false, WINDOW);
    assert_eq!(d, HookDecision { post_toggle: true, consume: true, held: true });
}

#[test]
fn auto_repeat_posts_nothing_more() {
    let d = hook_step(0, VK_F11, WM_SYSKEYDOWN, true, true, WINDOW);
    assert_eq!(d, HookDecision { post_toggle: false, consume: true, held: true });
}

#[test]
fn alt_f11_up_rearms_and_is_consumed() {
    let d = hook_step(0, VK_F11, WM_SYSKEYUP, true, true, WINDOW);
    assert_eq!(d, HookDecision { post_toggle: false, consume: true, held: false });
}

#[test]
fn plain_f11_passes_through() {
    let d = hook_step(0, VK_F11, WM_KEYDOWN, false, false, WINDOW);
    assert_eq!(d, HookDecision { post_toggle: false, consume: false, held: false });
    // Releasing F11 after Alt was let go clears the held press but passes on.
    let d = hook_step(0, VK_F11, WM_KEYUP, false, true, WINDOW);
    assert_eq!(d, HookDecision { post_toggle: false, consume: false, held: false });
}

#[test]
fn other_keys_pass_through_unchanged() {
    for held in [false, true] {
        let d = hook_step(0, VK_A, WM_SYSKEYDOWN, true, held, WINDOW);
        assert_eq!(d, HookDecision { post_toggle: false, consume: false, held });
        let d = hook_step(0, VK_A, WM_KEYUP, false, held, WINDOW);
        assert_eq!(d, HookDecision { post_toggle: false, consume: false, held });
    }
}

#[test]
fn negative_code_is_ignored() {
    let d = hook_step(-1, VK_F11, WM_SYSKEYDOWN, true, false, WINDOW);
    assert_eq!(d, HookDecision { post_toggle: false, consume: false, held: false });
    let d = hook_step(-1, VK_F11, WM_SYSKEYUP, true, true, WINDOW);
    assert_eq!(d, HookDecision { post_toggle: false, consume: false, held: true });
}

#[test]
fn no_window_consumes_without_posting() {
    let d = hook_step(0, VK_F11, WM_SYSKEYDOWN, true, false, 0);
    assert_eq!(d, HookDecision { post_toggle: false, consume: true, held: true });
}

#[test]
fn other_f11_message_passes_through() {
    // WM_CHAR (0x102) is neither a key-down nor a key-up.
    let d = hook_step(0, VK_F11, 0x0102, true, true, WINDOW);
    assert_eq!(d, HookDecision { post_toggle: false, consume: false, held: true });
}

#[test]
fn one_toggle_per_press() {
    // Two presses of Alt+F11, each with auto-repeat, then a plain F11.
    let events = [
        (VK_F11, WM_SYSKEYDOWN, true),
        (VK_F11, WM_SYSKEYDOWN, true),
        (VK_F11, WM_SYSKEYDOWN, true),
        (VK_A, WM_SYSKEYDOWN, true),
        (VK_F11, WM_SYSKEYUP, true),
        (VK_F11, WM_SYSKEYDOWN, true),
        (VK_F11, WM_SYSKEYUP, true),
        (VK_F11, WM_KEYDOWN, false),
        (VK_F11, WM_KEYUP, false),
    ];
    let mut held = false;
    let mut posts = 0;
    let mut consumed = 0;
    for (vk, msg, alt) in events {
        let d = hook_step(0, vk, msg, alt, held, WINDOW);
        held = d.held;
        posts += d.post_toggle as u32;
        consumed += d.consume as u32;
    }
    assert_eq!(posts, 2);
    assert_eq!(consumed, 6);
    assert!(!held);
}

#[test]
fn key_state_high_bit() {
    assert!(is_pressed(-32768));
    assert!(is_pressed(-32767));
    assert!(is_pressed(-1));
    assert!(!is_pressed(0));
    assert!(!is_pressed(1));
    assert!(!is_pressed(32767));
}

#[test]
fn alt_state_only_for_f11() {
    assert!(wants_alt_state(0, VK_F11));
    assert!(!wants_alt_state(-1, VK_F11));
    assert!(!wants_alt_state(0, VK_A));
}

#[test]
fn first_press_after_release_with_other_keys() {
    // Held from an earlier press; released; other keys and plain F11 follow;
    // then Alt+F11 is pressed and auto-repeats.
    let events = [
        (VK_F11, WM_KEYUP, false),
        (VK_A, WM_KEYDOWN, false),
        (VK_F11, WM_KEYDOWN, false),
        (VK_A, WM_SYSKEYDOWN, true),
        (VK_F11, WM_SYSKEYDOWN, true),
        (VK_A, WM_SYSKEYDOWN, true),
        (VK_F11, WM_SYSKEYDOWN, true),
    ];
    let mut held = true;
    let mut posts = Vec::new();
    for (vk, msg, alt) in events {
        let d = hook_step(0, vk, msg, alt, held, WINDOW);
        held = d.held;
        posts.push(d.post_toggle);
    }
    assert_eq!(posts, vec![false, false, false, false, true, false, false]);
    assert!(held);
}
