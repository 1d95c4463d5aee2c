//! The global Alt+F11 trigger: what the low-level keyboard hook decides for
//! each keyboard event.
//!
//! The hook consumes Alt+F11 and posts one toggle message per press to the
//! tray window; plain F11 and every other key pass through untouched, so
//! applications keep their own F11 shortcuts.

use vstd::prelude::*;

verus! {

/// The message posted to the tray window when Alt+F11 is pressed (`WM_USER + 1`).
pub const MSG_TOGGLE: u32 = 0x0400 + 1;

/// Virtual-key code of F11.
pub const VK_F11: u32 = 0x7A;

/// Keyboard messages a low-level keyboard hook receives.
pub const WM_KEYDOWN: u32 = 0x0100;

pub const WM_KEYUP: u32 = 0x0101;

pub const WM_SYSKEYDOWN: u32 = 0x0104;

pub const WM_SYSKEYUP: u32 = 0x0105;

/// The message reports a key going down (also sent for auto-repeat).
pub open spec fn is_down_msg(msg: u32) -> bool {
    msg == WM_KEYDOWN || msg == WM_SYSKEYDOWN
}

/// The message reports a key being released.
pub open spec fn is_up_msg(msg: u32) -> bool {
    msg == WM_KEYUP || msg == WM_SYSKEYUP
}

/// The event is one the hook must look at: a processable code for F11.
pub open spec fn is_f11_event(code: i32, vk: u32) -> bool {
    code >= 0 && vk == VK_F11
}

/// The hook swallows the event: Alt+F11 going down or up.
pub open spec fn consumes(code: i32, vk: u32, msg: u32, alt: bool) -> bool {
    is_f11_event(code, vk) && alt && (is_down_msg(msg) || is_up_msg(msg))
}

/// The hook posts a toggle: Alt+F11 goes down while no press is being held,
/// and there is a window to post to.
pub open spec fn posts_toggle(
    code: i32,
    vk: u32,
    msg: u32,
    alt: bool,
    held: bool,
    target: isize,
) -> bool {
    is_f11_event(code, vk) && alt && is_down_msg(msg) && !held && target != 0
}

/// Whether a press is being held after the event: set by Alt+F11 going down,
/// cleared by F11 being released (with or without Alt), kept otherwise.
pub open spec fn next_held(code: i32, vk: u32, msg: u32, alt: bool, held: bool) -> bool {
    if is_f11_event(code, vk) && is_up_msg(msg) {
        false
    } else if is_f11_event(code, vk) && alt && is_down_msg(msg) {
        true
    } else {
        held
    }
}

/// What the hook does with one keyboard event.
#[derive(Clone, Copy, Debug, PartialEq, Eq, Structural)]
pub struct HookDecision {
    /// Post `MSG_TOGGLE` to the tray window.
    pub post_toggle: bool,
    /// Swallow the event instead of passing it to the next hook.
    pub consume: bool,
    /// Whether an Alt+F11 press is held after this event.
    pub held: bool,
}

/// Whether a key-state word from `GetAsyncKeyState` reports the key as down:
/// its most significant bit is set.
pub fn is_pressed(state: i16) -> (down: bool)
    ensures
        down == (state < 0),
{
    let bits = state as u16;
    assert(((state as u16) & 0x8000u16 != 0u16) == (state < 0i16)) by (bit_vector);
    (bits & 0x8000u16) != 0
}

/// Whether deciding on this event needs the state of the Alt key: only
/// processable F11 events do.
pub fn wants_alt_state(code: i32, vk: u32) -> (wants: bool)
    ensures
        wants == is_f11_event(code, vk),
{
    code >= 0 && vk == VK_F11
}

/// Decides one keyboard event: `code`, `vk` and `msg` come from the hook call,
/// `alt` is whether Alt is down (only read for F11 events), `held` whether an
/// Alt+F11 press is already being held, and `target` the tray window (0 when
/// there is none).
pub fn hook_step(code: i32, vk: u32, msg: u32, alt: bool, held: bool, target: isize) -> (d:
    HookDecision)
    ensures
        d.post_toggle == posts_toggle(code, vk, msg, alt, held, target),
        d.consume == consumes(code, vk, msg, alt),
        d.held == next_held(code, vk, msg, alt, held),
{
    let pass = HookDecision { post_toggle: false, consume: false, held };
    if code >= 0 {
        let is_down = msg == WM_KEYDOWN || msg == WM_SYSKEYDOWN;
        let is_up = msg == WM_KEYUP || msg == WM_SYSKEYUP;
        if vk == VK_F11 && alt {
            if is_down {
                return HookDecision { post_toggle: !held && target != 0, consume: true, held: true };
            } else if is_up {
                return HookDecision { post_toggle: false, consume: true, held: false };
            }
        } else if vk == VK_F11 && is_up {
            return HookDecision { post_toggle: false, consume: false, held: false };
        }
    }
    pass
}

/// The state of Alt matters only for processable F11 events, so the hook
/// needs to query it for no other event.
pub proof fn lemma_alt_only_matters_for_f11(
    code: i32,
    vk: u32,
    msg: u32,
    held: bool,
    target: isize,
)
    requires
        !is_f11_event(code, vk),
    ensures
        posts_toggle(code, vk, msg, true, held, target) == posts_toggle(
            code,
            vk,
            msg,
            false,
            held,
            target,
        ),
        consumes(code, vk, msg, true) == consumes(code, vk, msg, false),
        next_held(code, vk, msg, true, held) == next_held(code, vk, msg, false, held),
        next_held(code, vk, msg, true, held) == held,
        !consumes(code, vk, msg, true),
        !posts_toggle(code, vk, msg, true, held, target),
{
}

/// One keyboard event as the hook sees it.
#[derive(Clone, Copy, Debug, PartialEq, Eq, Structural)]
pub struct KeyEvent {
    pub code: i32,
    pub vk: u32,
    pub msg: u32,
    /// Whether Alt was down.
    pub alt: bool,
}

/// How many toggles the hook posts over a run of events, starting from `held`.
pub open spec fn toggles_posted(events: Seq<KeyEvent>, held: bool, target: isize) -> nat
    decreases events.len(),
{
    if events.len() == 0 {
        0
    } else {
        let e = events[0];
        (if posts_toggle(e.code, e.vk, e.msg, e.alt, held, target) {
            1nat
        } else {
            0nat
        }) + toggles_posted(
            events.drop_first(),
            next_held(e.code, e.vk, e.msg, e.alt, held),
            target,
        )
    }
}

/// Whether a press is held at the end of a run of events, starting from `held`.
pub open spec fn held_after(events: Seq<KeyEvent>, held: bool) -> bool
    decreases events.len(),
{
    if events.len() == 0 {
        held
    } else {
        let e = events[0];
        held_after(events.drop_first(), next_held(e.code, e.vk, e.msg, e.alt, held))
    }
}

/// The event releases F11 (a processable key-up of F11).
pub open spec fn releases_f11(e: KeyEvent) -> bool {
    is_f11_event(e.code, e.vk) && is_up_msg(e.msg)
}

/// Holding Alt+F11 posts at most one toggle, however many auto-repeat
/// key-downs and other keys arrive: until F11 is released the hook posts at
/// most once, and not at all if a press was already held.
pub proof fn lemma_one_toggle_until_release(events: Seq<KeyEvent>, held: bool, target: isize)
    requires
        forall|i: int| 0 <= i < events.len() ==> !releases_f11(#[trigger] events[i]),
    ensures
        toggles_posted(events, held, target) <= 1,
        held ==> toggles_posted(events, held, target) == 0,
        held ==> held_after(events, held),
    decreases events.len(),
{
    if events.len() > 0 {
        let e = events[0];
        let rest = events.drop_first();
        assert(!releases_f11(events[0]));
        assert forall|i: int| 0 <= i < rest.len() implies !releases_f11(#[trigger] rest[i]) by {
            assert(rest[i] == events[i + 1]);
        }
        let h = next_held(e.code, e.vk, e.msg, e.alt, held);
        lemma_one_toggle_until_release(rest, h, target);
        if posts_toggle(e.code, e.vk, e.msg, e.alt, held, target) {
            assert(h);
        }
    }
}

/// A press of Alt+F11, `n` key-downs (the first and its auto-repeats) while Alt
/// is held.
pub open spec fn alt_f11_downs(n: nat) -> Seq<KeyEvent> {
    Seq::new(n, |i: int| KeyEvent { code: 0, vk: VK_F11, msg: WM_KEYDOWN, alt: true })
}

/// Each complete Alt+F11 press (key-downs, then the release) posts exactly one
/// toggle when no press is held at the start and has a window to
/// post to, and leaves the hook ready for the next press.
pub proof fn lemma_each_press_toggles_once(n: nat, release: KeyEvent, target: isize)
    requires
        n >= 1,
        releases_f11(release),
        target != 0,
    ensures
        toggles_posted(alt_f11_downs(n).push(release), false, target) == 1,
        !held_after(alt_f11_downs(n).push(release), false),
{
    lemma_press_from(n, release, false, target);
}

proof fn lemma_press_from(n: nat, release: KeyEvent, held: bool, target: isize)
    requires
        releases_f11(release),
        target != 0,
        n >= 1 || held,
    ensures
        toggles_posted(alt_f11_downs(n).push(release), held, target) == (if held {
            0nat
        } else {
            1nat
        }),
        !held_after(alt_f11_downs(n).push(release), held),
    decreases n,
{
    let s = alt_f11_downs(n).push(release);
    if n == 0 {
        assert(s.drop_first() =~= Seq::<KeyEvent>::empty());
        assert(s[0] == release);
        assert(!next_held(release.code, release.vk, release.msg, release.alt, held));
        assert(toggles_posted(s.drop_first(), false, target) == 0);
        assert(held_after(s.drop_first(), false) == false);
    } else {
        assert(s.drop_first() =~= alt_f11_downs((n - 1) as nat).push(release));
        assert(s[0] == KeyEvent { code: 0, vk: VK_F11, msg: WM_KEYDOWN, alt: true });
        assert(next_held(0, VK_F11, WM_KEYDOWN, true, held));
        lemma_press_from((n - 1) as nat, release, true, target);
        assert(toggles_posted(s.drop_first(), true, target) == 0);
        assert(!held_after(s.drop_first(), true));
    }
}


/// The event is Alt+F11 going down (a first key-down or an auto-repeat).
pub open spec fn presses_alt_f11(e: KeyEvent) -> bool {
    is_f11_event(e.code, e.vk) && e.alt && is_down_msg(e.msg)
}

/// From an unheld start, events that are not Alt+F11 key-downs post nothing,
/// and the first Alt+F11 key-down after them posts exactly one toggle and
/// leaves the press held.
pub proof fn lemma_first_press_toggles(events: Seq<KeyEvent>, k: int, target: isize)
    requires
        0 <= k < events.len(),
        presses_alt_f11(events[k]),
        forall|i: int| 0 <= i < k ==> !presses_alt_f11(#[trigger] events[i]),
        target != 0,
    ensures
        toggles_posted(events.take(k + 1), false, target) == 1,
        held_after(events.take(k + 1), false),
    decreases k,
{
    let s = events.take(k + 1);
    let e = events[0];
    assert(s[0] == e);
    if k == 0 {
        assert(s.drop_first() =~= Seq::<KeyEvent>::empty());
        assert(posts_toggle(e.code, e.vk, e.msg, e.alt, false, target));
        assert(next_held(e.code, e.vk, e.msg, e.alt, false));
        assert(toggles_posted(s.drop_first(), true, target) == 0);
        assert(held_after(s.drop_first(), true));
    } else {
        let rest = events.drop_first();
        assert(!presses_alt_f11(events[0]));
        assert forall|i: int| 0 <= i < k - 1 implies !presses_alt_f11(#[trigger] rest[i]) by {
            assert(rest[i] == events[i + 1]);
        }
        assert(rest[k - 1] == events[k]);
        lemma_first_press_toggles(rest, k - 1, target);
        assert(s.drop_first() =~= rest.take(k));
        assert(!posts_toggle(e.code, e.vk, e.msg, e.alt, false, target));
        assert(!next_held(e.code, e.vk, e.msg, e.alt, false));
    }
}

/// Whether a press is held after a run of events is decided by its last event.
proof fn lemma_held_after_last(events: Seq<KeyEvent>, held: bool)
    requires
        events.len() > 0,
    ensures
        held_after(events, held) == ({
            let e = events.last();
            next_held(e.code, e.vk, e.msg, e.alt, held_after(events.drop_last(), held))
        }),
    decreases events.len(),
{
    let e = events[0];
    let rest = events.drop_first();
    if events.len() == 1 {
        assert(rest =~= Seq::<KeyEvent>::empty());
        assert(events.drop_last() =~= Seq::<KeyEvent>::empty());
        assert(events.last() == e);
        assert(held_after(rest, next_held(e.code, e.vk, e.msg, e.alt, held)) == next_held(
            e.code,
            e.vk,
            e.msg,
            e.alt,
            held,
        ));
        assert(held_after(events.drop_last(), held) == held);
    } else {
        lemma_held_after_last(rest, next_held(e.code, e.vk, e.msg, e.alt, held));
        assert(rest.last() == events.last());
        assert(rest.drop_last() =~= events.drop_last().drop_first());
        assert(events.drop_last()[0] == e);
        assert(held_after(events.drop_last(), held) == held_after(
            events.drop_last().drop_first(),
            next_held(e.code, e.vk, e.msg, e.alt, held),
        ));
    }
}

/// One toggle per press, with any other keys interleaved: after F11 is
/// released (at event `r`), the hook posts nothing until the next Alt+F11
/// key-down (at event `k`), which posts exactly one toggle; whatever was held
/// before the release does not matter.
pub proof fn lemma_press_after_release_toggles_once(
    events: Seq<KeyEvent>,
    held: bool,
    r: int,
    k: int,
    target: isize,
)
    requires
        0 <= r < k < events.len(),
        releases_f11(events[r]),
        presses_alt_f11(events[k]),
        forall|i: int| r < i < k ==> !presses_alt_f11(#[trigger] events[i]),
        target != 0,
    ensures
        !held_after(events.take(r + 1), held),
        toggles_posted(events.subrange(r + 1, k + 1), held_after(events.take(r + 1), held), target)
            == 1,
        held_after(events.subrange(r + 1, k + 1), held_after(events.take(r + 1), held)),
{
    let pre = events.take(r + 1);
    lemma_held_after_last(pre, held);
    assert(pre.last() == events[r]);
    let tail = events.subrange(r + 1, events.len() as int);
    assert forall|i: int| 0 <= i < k - r - 1 implies !presses_alt_f11(#[trigger] tail[i]) by {
        assert(tail[i] == events[i + r + 1]);
    }
    assert(tail[k - r - 1] == events[k]);
    lemma_first_press_toggles(tail, k - r - 1, target);
    assert(tail.take(k - r) =~= events.subrange(r + 1, k + 1));
}


/// The hook's rules in terms of the raw message numbers (key-down 0x100 and
/// 0x104, key-up 0x101 and 0x105, F11 is virtual key 0x7A): it swallows
/// exactly Alt+F11 key-downs and key-ups; it posts exactly on an Alt+F11
/// key-down while no press is held and a window exists; a release of F11
/// clears the held press, an Alt+F11 key-down sets it, and nothing else
/// touches it. Plain F11 is never swallowed and never posts.
pub proof fn lemma_hook_rules(code: i32, vk: u32, msg: u32, alt: bool, held: bool, target: isize)
    ensures
        consumes(code, vk, msg, alt) <==> (code >= 0 && vk == 0x7A && alt && (msg == 0x100 || msg
            == 0x104 || msg == 0x101 || msg == 0x105)),
        posts_toggle(code, vk, msg, alt, held, target) <==> (code >= 0 && vk == 0x7A && alt && (msg
            == 0x100 || msg == 0x104) && !held && target != 0),
        next_held(code, vk, msg, alt, held) == (if code >= 0 && vk == 0x7A && (msg == 0x101 || msg
            == 0x105) {
            false
        } else if code >= 0 && vk == 0x7A && alt && (msg == 0x100 || msg == 0x104) {
            true
        } else {
            held
        }),
        !consumes(code, vk, msg, false),
        !posts_toggle(code, vk, msg, false, held, target),
        posts_toggle(code, vk, msg, alt, held, target) ==> consumes(code, vk, msg, alt) && next_held(
            code,
            vk,
            msg,
            alt,
            held,
        ),
{
}

} // verus!
