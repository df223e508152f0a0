use vstd::prelude::*;

use crate::keys::{key_step, Key, KeySet};
use crate::motion::{move_step, MoveStep};

verus! {

/// Look angles are held in microradians, and mouse motion in thousandths of
/// a device count; one such thousandth turns the view by this much, so a whole
/// count turns it by 0.005 rad.
pub const MOUSE_SENSITIVITY: i64 = 5;

/// Largest pitch, up or down, in microradians (1.57 rad, just inside a quarter turn).
pub const PITCH_LIMIT: i64 = 1_570_000;

/// Least time between two fires of the action while the button is held, in milliseconds.
pub const CLICK_DELAY_MS: u64 = 500;

/// One device event, as the host's event loop hands it on.
#[derive(Clone, Copy, Debug, PartialEq, Eq)]
pub enum InputEvent {
    /// A key went down (`pressed`) or up.
    Key { key: Key, pressed: bool },
    /// A mouse button went down (`pressed`) or up; `left` tells the primary button.
    MouseButton { left: bool, pressed: bool },
    /// Relative mouse motion, in thousandths of a device count.
    MouseMotion { dx: i64, dy: i64 },
}

/// What the controller holds between events.
pub struct InputState {
    pub keys: Set<Key>,
    pub mouse_held: bool,
    pub last_click_ms: u64,
}

/// Held keys, the state of the primary button, and the baseline of the
/// action's delay: the time the action last fired, the button last went down,
/// or the button was last seen up.
pub struct Input {
    pressed_keys: KeySet,
    mouse_clicked: bool,
    last_click_time: u64,
}

impl View for Input {
    type V = InputState;

    closed spec fn view(&self) -> InputState {
        InputState {
            keys: self.pressed_keys@,
            mouse_held: self.mouse_clicked,
            last_click_ms: self.last_click_time,
        }
    }
}

/// The value `lo..=hi` holds that is nearest to `x`.
pub open spec fn clamp(x: int, lo: int, hi: int) -> int {
    if x < lo {
        lo
    } else if x > hi {
        hi
    } else {
        x
    }
}

/// Yaw after a horizontal motion of `dx`; it is unbounded, save that it
/// saturates at the ends of `i64`.
pub open spec fn yaw_after(yaw: i64, dx: i64) -> i64 {
    clamp(yaw + dx * MOUSE_SENSITIVITY, i64::MIN as int, i64::MAX as int) as i64
}

/// Pitch after a vertical motion of `dy`: moving the mouse up (negative `dy`)
/// raises the view, and the result is held within the pitch limit.
pub open spec fn pitch_after(pitch: i64, dy: i64) -> i64 {
    clamp(pitch - dy * MOUSE_SENSITIVITY, -PITCH_LIMIT, PITCH_LIMIT as int) as i64
}

/// Milliseconds from `since` to `now`, or zero where `now` is earlier.
pub open spec fn elapsed_ms(since: u64, now: u64) -> int {
    if now >= since {
        now - since
    } else {
        0
    }
}

/// Whether a poll at `now` fires the action.
pub open spec fn fires(s: InputState, now: u64) -> bool {
    s.mouse_held && elapsed_ms(s.last_click_ms, now) >= CLICK_DELAY_MS
}

/// The state after a poll at `now`: the baseline moves to `now` when the action
/// fires and whenever the button is up.
pub open spec fn poll_step(s: InputState, now: u64) -> InputState {
    if !s.mouse_held || fires(s, now) {
        InputState { last_click_ms: now, ..s }
    } else {
        s
    }
}

/// The state after a change of a mouse button at `now`; only the primary one
/// counts, and pressing it while it is up moves the baseline to `now`.
pub open spec fn button_step(s: InputState, left: bool, pressed: bool, now: u64) -> InputState {
    if !left {
        s
    } else if pressed && !s.mouse_held {
        InputState { mouse_held: true, last_click_ms: now, ..s }
    } else {
        InputState { mouse_held: pressed, ..s }
    }
}

/// State, yaw and pitch after one event at time `now`.
pub open spec fn event_step(s: InputState, yaw: i64, pitch: i64, e: InputEvent, now: u64) -> (InputState, i64, i64) {
    match e {
        InputEvent::Key { key, pressed } => (InputState { keys: key_step(s.keys, key, pressed), ..s }, yaw, pitch),
        InputEvent::MouseButton { left, pressed } => (button_step(s, left, pressed, now), yaw, pitch),
        InputEvent::MouseMotion { dx, dy } => (s, yaw_after(yaw, dx), pitch_after(pitch, dy)),
    }
}

impl Input {
    pub closed spec fn wf(&self) -> bool {
        self.pressed_keys.wf()
    }

    /// A controller with no key and no button held; `now_ms` is the baseline
    /// of the action's delay.
    pub fn new(now_ms: u64) -> (r: Input)
        ensures
            r.wf(),
            r@.keys == Set::<Key>::empty(),
            !r@.mouse_held,
            r@.last_click_ms == now_ms,
    {
        Input { pressed_keys: KeySet::new(), mouse_clicked: false, last_click_time: now_ms }
    }

    /// Whether `key` is held.
    pub fn is_pressed(&self, key: Key) -> (r: bool)
        ensures
            r == self@.keys.contains(key),
    {
        self.pressed_keys.contains(key)
    }

    /// Whether the primary button is held.
    pub fn mouse_held(&self) -> (r: bool)
        ensures
            r == self@.mouse_held,
    {
        self.mouse_clicked
    }

    /// Polls the action at time `now_ms`: it fires while the button is held and
    /// a full delay has passed since the last fire, or since the button was
    /// last seen up.
    pub fn can_remove_cube(&mut self, now_ms: u64) -> (r: bool)
        ensures
            r == fires(old(self)@, now_ms),
            final(self)@ == poll_step(old(self)@, now_ms),
            final(self).wf() == old(self).wf(),
    {
        if self.mouse_clicked {
            let elapsed: u64 = if now_ms >= self.last_click_time { now_ms - self.last_click_time } else { 0 };
            if elapsed >= CLICK_DELAY_MS {
                self.last_click_time = now_ms;
                return true;
            }
        } else {
            self.last_click_time = now_ms;
        }
        false
    }

    /// Records a key going down (`pressed`) or up.
    pub fn record_key(&mut self, key: Key, pressed: bool)
        requires
            old(self).wf(),
        ensures
            final(self).wf(),
            final(self)@ == (InputState { keys: key_step(old(self)@.keys, key, pressed), ..old(self)@ }),
    {
        self.pressed_keys.record(key, pressed);
    }

    /// Records a change of a mouse button at `now_ms`; any but the primary one
    /// is ignored, and pressing it starts a full delay before the action fires.
    pub fn record_mouse_button(&mut self, left: bool, pressed: bool, now_ms: u64)
        ensures
            final(self)@ == button_step(old(self)@, left, pressed, now_ms),
            final(self).wf() == old(self).wf(),
    {
        if left {
            if pressed && !self.mouse_clicked {
                self.last_click_time = now_ms;
            }
            self.mouse_clicked = pressed;
        }
    }

    /// Turns the view by a relative mouse motion; the pitch that results is
    /// always within the limit.
    pub fn record_mouse_motion(&self, dx: i64, dy: i64, yaw: &mut i64, pitch: &mut i64)
        ensures
            *final(yaw) == yaw_after(*old(yaw), dx),
            *final(pitch) == pitch_after(*old(pitch), dy),
            -PITCH_LIMIT <= *final(pitch) <= PITCH_LIMIT,
    {
        let turn: i128 = *yaw as i128 + dx as i128 * MOUSE_SENSITIVITY as i128;
        *yaw = if turn < i64::MIN as i128 {
            i64::MIN
        } else if turn > i64::MAX as i128 {
            i64::MAX
        } else {
            turn as i64
        };
        let tilt: i128 = *pitch as i128 - dy as i128 * MOUSE_SENSITIVITY as i128;
        *pitch = if tilt < -PITCH_LIMIT as i128 {
            -PITCH_LIMIT
        } else if tilt > PITCH_LIMIT as i128 {
            PITCH_LIMIT
        } else {
            tilt as i64
        };
    }

    /// Applies one device event, which came at `now_ms`, to the controller and
    /// to the look angles.
    pub fn process_event(&mut self, event: &InputEvent, now_ms: u64, yaw: &mut i64, pitch: &mut i64)
        requires
            old(self).wf(),
        ensures
            final(self).wf(),
            (final(self)@, *final(yaw), *final(pitch)) == event_step(old(self)@, *old(yaw), *old(pitch), *event, now_ms),
    {
        match *event {
            InputEvent::Key { key, pressed } => self.record_key(key, pressed),
            InputEvent::MouseButton { left, pressed } => self.record_mouse_button(left, pressed, now_ms),
            InputEvent::MouseMotion { dx, dy } => self.record_mouse_motion(dx, dy, yaw, pitch),
        }
    }

    /// The movement that the held keys give over `elapsed_us` microseconds.
    pub fn process_input(&self, elapsed_us: i64) -> (r: MoveStep)
        requires
            self.wf(),
        ensures
            r == move_step(self@.keys, elapsed_us),
            elapsed_us <= 0 ==> r == (MoveStep { forward: 0, right: 0, up: 0 }),
            self@.keys == Set::<Key>::empty() ==> r == (MoveStep { forward: 0, right: 0, up: 0 }),
    {
        MoveStep::integrate(&self.pressed_keys, elapsed_us)
    }
}

/// State, yaw and pitch after a run of events, each with its time, taken in order.
pub open spec fn run_events(s: InputState, yaw: i64, pitch: i64, events: Seq<(InputEvent, u64)>) -> (InputState, i64, i64)
    decreases events.len(),
{
    if events.len() == 0 {
        (s, yaw, pitch)
    } else {
        let (s1, yaw1, pitch1) = run_events(s, yaw, pitch, events.drop_last());
        event_step(s1, yaw1, pitch1, events.last().0, events.last().1)
    }
}

/// After any run of events that ends with a mouse motion, however large, the
/// pitch is within the limit; and a pitch within the limit stays within it
/// whatever events follow.
pub proof fn lemma_pitch_bounded(s: InputState, yaw: i64, pitch: i64, events: Seq<(InputEvent, u64)>)
    ensures
        events.len() > 0 && events.last().0 is MouseMotion ==> -PITCH_LIMIT <= run_events(s, yaw, pitch, events).2 <= PITCH_LIMIT,
        -PITCH_LIMIT <= pitch <= PITCH_LIMIT ==> -PITCH_LIMIT <= run_events(s, yaw, pitch, events).2 <= PITCH_LIMIT,
    decreases events.len(),
{
    if events.len() > 0 {
        lemma_pitch_bounded(s, yaw, pitch, events.drop_last());
    }
}

/// The state before the poll at `times[j]`, when the action is polled at each
/// of `times` in order, starting from `s`.
pub open spec fn state_before_poll(s: InputState, times: Seq<u64>, j: nat) -> InputState
    decreases j,
{
    if j == 0 {
        s
    } else {
        poll_step(state_before_poll(s, times, (j - 1) as nat), times[j - 1])
    }
}

/// Whether the poll at `times[j]` fires, in that run of polls.
pub open spec fn poll_fires(s: InputState, times: Seq<u64>, j: nat) -> bool {
    fires(state_before_poll(s, times, j), times[j as int])
}

/// While the button stays held, polls change the baseline alone; it never
/// moves back, it stands at or after the time of every earlier fire, and
/// polls that do not fire leave the state as it was.
proof fn lemma_held_polls(s: InputState, times: Seq<u64>, i: nat, j: nat)
    requires
        s.mouse_held,
        i <= j <= times.len(),
    ensures
        state_before_poll(s, times, j) == (InputState { last_click_ms: state_before_poll(s, times, j).last_click_ms, ..s }),
        state_before_poll(s, times, i).last_click_ms <= state_before_poll(s, times, j).last_click_ms,
        i < j && poll_fires(s, times, i) ==> times[i as int] <= state_before_poll(s, times, j).last_click_ms,
        (forall|k: nat| i <= k < j ==> !#[trigger] poll_fires(s, times, k)) ==> state_before_poll(s, times, j) == state_before_poll(s, times, i),
    decreases j,
{
    if j > 0 {
        if i < j {
            lemma_held_polls(s, times, i, (j - 1) as nat);
            if (forall|k: nat| i <= k < j ==> !#[trigger] poll_fires(s, times, k)) {
                assert(!poll_fires(s, times, (j - 1) as nat));
            }
        } else {
            lemma_held_polls(s, times, 0, (j - 1) as nat);
        }
    }
}

/// While the button stays held, two polls that both fire are at least a full
/// delay apart.
pub proof fn lemma_held_fires_at_most_once_per_delay(s: InputState, times: Seq<u64>, i: nat, j: nat)
    requires
        s.mouse_held,
        i < j < times.len(),
        poll_fires(s, times, i),
        poll_fires(s, times, j),
    ensures
        times[j as int] >= times[i as int] + CLICK_DELAY_MS,
{
    lemma_held_polls(s, times, i, j);
}

/// While the button stays held, after a fire at `times[i]` and polls that do
/// not fire, a poll a full delay after that fire fires.
pub proof fn lemma_held_fires_after_full_delay(s: InputState, times: Seq<u64>, i: nat, j: nat)
    requires
        s.mouse_held,
        i < j < times.len(),
        poll_fires(s, times, i),
        forall|k: nat| i < k < j ==> !#[trigger] poll_fires(s, times, k),
        times[j as int] >= times[i as int] + CLICK_DELAY_MS,
    ensures
        poll_fires(s, times, j),
{
    lemma_held_polls(s, times, (i + 1) as nat, j);
}

/// Releasing the button at `released_at` and pressing it again at
/// `pressed_at` starts a full delay, whatever fired before and whether or not
/// a poll came in between: no poll fires before `pressed_at` plus the delay,
/// and the first poll from then on fires.
pub proof fn lemma_release_resets_baseline(s: InputState, released_at: u64, pressed_at: u64, times: Seq<u64>, j: nat)
    requires
        j < times.len(),
    ensures
        ({
            let pressed = button_step(button_step(s, true, false, released_at), true, true, pressed_at);
            &&& poll_fires(pressed, times, j) ==> times[j as int] >= pressed_at + CLICK_DELAY_MS
            &&& (forall|k: nat| k < j ==> !#[trigger] poll_fires(pressed, times, k)) ==> (poll_fires(pressed, times, j)
                <==> times[j as int] >= pressed_at + CLICK_DELAY_MS)
        }),
{
    let pressed = button_step(button_step(s, true, false, released_at), true, true, pressed_at);
    assert(pressed.mouse_held && pressed.last_click_ms == pressed_at);
    lemma_held_polls(pressed, times, 0, j);
}

} // verus!
