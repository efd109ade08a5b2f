//! What keyboard and mouse events do to the overlay's state.
//!
//! The device reading stays outside; each event, reduced to its kind, code
//! and value, is handed to these functions, which update the state and say
//! whether the overlay must be drawn again.

use vstd::prelude::*;
use std::collections::HashSet;
use crate::stats::{TypingStats, count_presses, count_step, spec_is_word_end, counts_as_char};

verus! {

broadcast use vstd::std_specs::hash::group_hash_axioms;

/// Records a key event of `code` with the device's `value` (1 press,
/// 2 auto-repeat, 0 release): a press or repeat marks the key as held and
/// counts it in the statistics; a release unmarks it.
pub fn apply_key_event(
    pressed_keys: &mut HashSet<u16>,
    stats: &mut TypingStats,
    code: u16,
    value: i32,
)
    requires
        value > 0 && spec_is_word_end(code) && old(stats).counts().2 ==> old(stats).counts().1
            < u64::MAX,
        value > 0 && counts_as_char(code) ==> old(stats).counts().0 < u64::MAX,
    ensures
        (final(pressed_keys)@, final(stats).counts()) == key_event_step(
            (old(pressed_keys)@, old(stats).counts()),
            code,
            value,
        ),
        value > 0 && counts_as_char(code) ==> final(stats).started_at() is Some,
        value > 0 && (old(stats).started_at() is Some || !counts_as_char(code))
            ==> final(stats).started_at() == old(stats).started_at(),
        value > 0 ==> (old(stats).wf() ==> final(stats).wf()),
        value <= 0 ==> *final(stats) == *old(stats),
{
    if value > 0 {
        pressed_keys.insert(code);
        stats.on_key_press(code);
    } else {
        pressed_keys.remove(&code);
    }
}

/// The held keys and the counters `(characters, words, whether a word is
/// in progress)` after a key event of `code` with the device's `value`.
pub open spec fn key_event_step(
    state: (Set<u16>, (nat, nat, bool)),
    code: u16,
    value: i32,
) -> (Set<u16>, (nat, nat, bool)) {
    if value > 0 {
        (state.0.insert(code), count_step(state.1, code))
    } else {
        (state.0.remove(code), state.1)
    }
}

/// The held keys and the counters after the key events `events`, each a
/// code and a value, starting from `state`.
pub open spec fn key_events_after(
    state: (Set<u16>, (nat, nat, bool)),
    events: Seq<(u16, i32)>,
) -> (Set<u16>, (nat, nat, bool))
    decreases events.len(),
{
    if events.len() == 0 {
        state
    } else {
        let e = events.last();
        key_event_step(key_events_after(state, events.drop_last()), e.0, e.1)
    }
}

/// The value of the last of `events` with code `code`, if any.
pub open spec fn last_value_of(events: Seq<(u16, i32)>, code: u16) -> Option<i32>
    decreases events.len(),
{
    if events.len() == 0 {
        None
    } else if events.last().0 == code {
        Some(events.last().1)
    } else {
        last_value_of(events.drop_last(), code)
    }
}

/// The codes of the presses and repeats among `events`, in order.
pub open spec fn pressed_codes(events: Seq<(u16, i32)>) -> Seq<u16>
    decreases events.len(),
{
    if events.len() == 0 {
        Seq::empty()
    } else if events.last().1 > 0 {
        pressed_codes(events.drop_last()).push(events.last().0)
    } else {
        pressed_codes(events.drop_last())
    }
}

/// After any sequence of key events, a key is held exactly when its last
/// event was a press or repeat, or, when it had no event, it was held
/// before; and the counters are those of the presses and repeats alone, in
/// order.
pub proof fn lemma_key_events(
    held: Set<u16>,
    counts: (nat, nat, bool),
    events: Seq<(u16, i32)>,
    code: u16,
)
    ensures
        key_events_after((held, counts), events).0.contains(code) == match last_value_of(
            events,
            code,
        ) {
            Some(v) => v > 0,
            None => held.contains(code),
        },
        key_events_after((held, counts), events).1 == count_presses(counts, pressed_codes(events)),
    decreases events.len(),
{
    if events.len() > 0 {
        let p = events.drop_last();
        lemma_key_events(held, counts, p, code);
        if events.last().1 > 0 {
            let pc = pressed_codes(p).push(events.last().0);
            assert(pc.drop_last() =~= pressed_codes(p));
        }
    }
}

/// A key held down and then released is no longer held, and the other held
/// keys are as before: releasing undoes pressing for a key that was not
/// held.
pub proof fn lemma_press_release(held: Set<u16>, code: u16)
    requires
        !held.contains(code),
    ensures
        held.insert(code).remove(code) == held,
{
    assert(held.insert(code).remove(code) =~= held);
}

// ---------------------------------------------------------------------------
// Mouse
// ---------------------------------------------------------------------------

/// Relative axis codes (Linux `REL_*`).
pub const REL_X: u16 = 0;
pub const REL_Y: u16 = 1;
pub const REL_WHEEL: u16 = 8;

/// Mouse button codes (Linux `BTN_*`).
pub const BTN_LEFT: u16 = 272;
pub const BTN_RIGHT: u16 = 273;
pub const BTN_MIDDLE: u16 = 274;
pub const BTN_SIDE: u16 = 275;
pub const BTN_EXTRA: u16 = 276;

/// The buttons and wheel directions the mouse widget lights up.
#[derive(Debug, Clone, Copy, PartialEq, Eq, Structural)]
pub struct MouseButtons {
    pub lmb: bool,
    pub rmb: bool,
    pub mmb: bool,
    pub scroll_up: bool,
    pub scroll_down: bool,
    pub side_back: bool,
    pub side_forward: bool,
}

impl MouseButtons {
    /// Nothing held, no scrolling.
    pub fn new() -> (r: Self)
        ensures
            !r.lmb && !r.rmb && !r.mmb && !r.scroll_up && !r.scroll_down && !r.side_back
                && !r.side_forward,
    {
        MouseButtons {
            lmb: false,
            rmb: false,
            mmb: false,
            scroll_up: false,
            scroll_down: false,
            side_back: false,
            side_forward: false,
        }
    }
}

impl Default for MouseButtons {
    fn default() -> (r: Self)
        ensures
            !r.lmb && !r.rmb && !r.mmb && !r.scroll_up && !r.scroll_down && !r.side_back
                && !r.side_forward,
    {
        MouseButtons::new()
    }
}

/// A mouse event, reduced to what the widget reads.
#[derive(Debug, Clone, Copy, PartialEq, Eq, Structural)]
pub enum MouseInput {
    /// Relative motion on `axis` (a `REL_*` code) by `value`.
    Relative { axis: u16, value: i32 },
    /// A button event: `value` above 0 is a press, otherwise a release.
    Key { code: u16, value: i32 },
    /// Any other event.
    Other,
}

/// What the caller has to do after a mouse event, besides the button state
/// already updated.
#[derive(Debug, Clone, Copy, PartialEq, Eq, Structural)]
pub enum MouseEffect {
    /// Nothing changed.
    Unchanged,
    /// Move the cursor dot horizontally by an eighth of the value.
    MoveX(i32),
    /// Move the cursor dot vertically by an eighth of the value.
    MoveY(i32),
    /// The wheel turned up: note when, for the highlight to expire.
    ScrolledUp,
    /// The wheel turned down: note when, for the highlight to expire.
    ScrolledDown,
    /// A button's state changed.
    Button,
}

/// The buttons after a button event of `code`.
pub open spec fn button_update(b: MouseButtons, code: u16, pressed: bool) -> MouseButtons {
    if code == BTN_LEFT {
        MouseButtons { lmb: pressed, ..b }
    } else if code == BTN_RIGHT {
        MouseButtons { rmb: pressed, ..b }
    } else if code == BTN_MIDDLE {
        MouseButtons { mmb: pressed, ..b }
    } else if code == BTN_SIDE {
        MouseButtons { side_forward: pressed, ..b }
    } else if code == BTN_EXTRA {
        MouseButtons { side_back: pressed, ..b }
    } else {
        b
    }
}

/// Whether `code` is one of the five mouse buttons the widget shows.
pub open spec fn is_mouse_button(code: u16) -> bool {
    BTN_LEFT <= code <= BTN_EXTRA
}

/// The buttons and the effect after one mouse event.
pub open spec fn mouse_step(b: MouseButtons, input: MouseInput) -> (MouseButtons, MouseEffect) {
    match input {
        MouseInput::Relative { axis, value } => {
            if axis == REL_X {
                (b, MouseEffect::MoveX(value))
            } else if axis == REL_Y {
                (b, MouseEffect::MoveY(value))
            } else if axis == REL_WHEEL && value > 0 {
                (MouseButtons { scroll_up: true, ..b }, MouseEffect::ScrolledUp)
            } else if axis == REL_WHEEL && value < 0 {
                (MouseButtons { scroll_down: true, ..b }, MouseEffect::ScrolledDown)
            } else {
                (b, MouseEffect::Unchanged)
            }
        },
        MouseInput::Key { code, value } => {
            if is_mouse_button(code) {
                (button_update(b, code, value > 0), MouseEffect::Button)
            } else {
                (b, MouseEffect::Unchanged)
            }
        },
        MouseInput::Other => (b, MouseEffect::Unchanged),
    }
}

/// Applies one mouse event to the button state and says what else to do:
/// horizontal and vertical motion move the cursor dot, the wheel lights the
/// up or down half of the scroll button, and the left, right, middle, side
/// (forward) and extra (back) buttons light while held.
pub fn apply_mouse_input(buttons: &mut MouseButtons, input: MouseInput) -> (effect: MouseEffect)
    ensures
        (*final(buttons), effect) == mouse_step(*old(buttons), input),
{
    match input {
        MouseInput::Relative { axis, value } => {
            if axis == REL_X {
                MouseEffect::MoveX(value)
            } else if axis == REL_Y {
                MouseEffect::MoveY(value)
            } else if axis == REL_WHEEL && value > 0 {
                buttons.scroll_up = true;
                MouseEffect::ScrolledUp
            } else if axis == REL_WHEEL && value < 0 {
                buttons.scroll_down = true;
                MouseEffect::ScrolledDown
            } else {
                MouseEffect::Unchanged
            }
        },
        MouseInput::Key { code, value } => {
            let pressed = value > 0;
            if code == BTN_LEFT {
                buttons.lmb = pressed;
            } else if code == BTN_RIGHT {
                buttons.rmb = pressed;
            } else if code == BTN_MIDDLE {
                buttons.mmb = pressed;
            } else if code == BTN_SIDE {
                buttons.side_forward = pressed;
            } else if code == BTN_EXTRA {
                buttons.side_back = pressed;
            } else {
                return MouseEffect::Unchanged;
            }
            MouseEffect::Button
        },
        MouseInput::Other => MouseEffect::Unchanged,
    }
}

/// How long a wheel highlight stays lit after the wheel turned, in
/// nanoseconds.
pub const SCROLL_EXPIRE_NANOS: u128 = 400_000_000;

/// Whether a wheel highlight timed `elapsed` nanoseconds ago has expired.
pub open spec fn scroll_expired(elapsed: Option<u128>) -> bool {
    elapsed matches Some(e) && e > SCROLL_EXPIRE_NANOS
}

/// A wheel highlight expires exactly when more than 400 ms (400,000,000
/// nanoseconds) have passed since the wheel turned; an untimed highlight
/// never expires.
pub proof fn lemma_scroll_expiry(elapsed: u128)
    ensures
        scroll_expired(Some(elapsed)) <==> elapsed > 400_000_000,
        !scroll_expired(None),
{
}

/// Turns off the wheel highlights whose time is up, given how many
/// nanoseconds ago the wheel last turned up and down (`None` where no
/// highlight is timed): a highlight expires once more than
/// `SCROLL_EXPIRE_NANOS` have passed. Returns which of the two timers
/// expired, for the caller to clear them.
pub fn expire_scroll(
    buttons: &mut MouseButtons,
    up_elapsed: Option<u128>,
    down_elapsed: Option<u128>,
) -> (r: (bool, bool))
    ensures
        r == (scroll_expired(up_elapsed), scroll_expired(down_elapsed)),
        *final(buttons) == (MouseButtons {
            scroll_up: old(buttons).scroll_up && !r.0,
            scroll_down: old(buttons).scroll_down && !r.1,
            ..*old(buttons)
        }),
{
    let up = match up_elapsed {
        Some(e) => e > SCROLL_EXPIRE_NANOS,
        None => false,
    };
    let down = match down_elapsed {
        Some(e) => e > SCROLL_EXPIRE_NANOS,
        None => false,
    };
    if up {
        buttons.scroll_up = false;
    }
    if down {
        buttons.scroll_down = false;
    }
    (up, down)
}

/// Each mouse button lights exactly its own box: a press (value above 0)
/// lights it and a release turns it off, leaving every other light as it
/// was; the left (272), right (273), middle (274), side (275, forward) and
/// extra (276, back) buttons each have their own box, and any other key
/// code changes nothing.
pub proof fn lemma_each_button_lights_its_own(b: MouseButtons, value: i32)
    ensures
        mouse_step(b, MouseInput::Key { code: 272, value }) == (
            MouseButtons { lmb: value > 0, ..b },
            MouseEffect::Button,
        ),
        mouse_step(b, MouseInput::Key { code: 273, value }) == (
            MouseButtons { rmb: value > 0, ..b },
            MouseEffect::Button,
        ),
        mouse_step(b, MouseInput::Key { code: 274, value }) == (
            MouseButtons { mmb: value > 0, ..b },
            MouseEffect::Button,
        ),
        mouse_step(b, MouseInput::Key { code: 275, value }) == (
            MouseButtons { side_forward: value > 0, ..b },
            MouseEffect::Button,
        ),
        mouse_step(b, MouseInput::Key { code: 276, value }) == (
            MouseButtons { side_back: value > 0, ..b },
            MouseEffect::Button,
        ),
        forall|code: u16|
            (code < 272 || code > 276) ==> #[trigger] mouse_step(
                b,
                MouseInput::Key { code, value },
            ) == (b, MouseEffect::Unchanged),
{
}

/// Motion moves the cursor dot along its own axis, the wheel lights only
/// the half it turned towards, and nothing else changes a light:
/// horizontal motion is axis 0, vertical motion axis 1, the wheel axis 8.
pub proof fn lemma_motion_and_wheel(b: MouseButtons, value: i32)
    ensures
        mouse_step(b, MouseInput::Relative { axis: 0, value }) == (b, MouseEffect::MoveX(value)),
        mouse_step(b, MouseInput::Relative { axis: 1, value }) == (b, MouseEffect::MoveY(value)),
        value > 0 ==> mouse_step(b, MouseInput::Relative { axis: 8, value }) == (
            MouseButtons { scroll_up: true, ..b },
            MouseEffect::ScrolledUp,
        ),
        value < 0 ==> mouse_step(b, MouseInput::Relative { axis: 8, value }) == (
            MouseButtons { scroll_down: true, ..b },
            MouseEffect::ScrolledDown,
        ),
        value == 0 ==> mouse_step(b, MouseInput::Relative { axis: 8, value }) == (
            b,
            MouseEffect::Unchanged,
        ),
        mouse_step(b, MouseInput::Other) == (b, MouseEffect::Unchanged),
{
}

/// A button pressed and then released is no longer lit, and every other
/// light is as it was before the press.
pub proof fn lemma_mouse_button_press_release(b: MouseButtons, code: u16, press: i32, release: i32)
    requires
        press > 0,
        release <= 0,
        is_mouse_button(code),
    ensures
        mouse_step(mouse_step(b, MouseInput::Key { code, value: press }).0, MouseInput::Key {
            code,
            value: release,
        }).0 == button_update(b, code, false),
        mouse_step(b, MouseInput::Key { code, value: press }).1 == MouseEffect::Button,
{
}

} // verus!
