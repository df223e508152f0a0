use vstd::prelude::*;

use crate::keys::{Key, KeySet};

verus! {

/// Player speed, in world units per second; a distance in micro-units over a
/// time in microseconds has the same factor.
pub const MOVE_SPEED: i64 = 2;

/// A movement over one frame, in micro-units of world distance, along the
/// horizontal forward and right directions that the yaw gives, and straight up.
///
/// Key `A` moves along `forward` and `D` against it; `S` moves along `right`
/// and `W` against it; `Space` rises and `LShift` sinks. Keys held together
/// add up, so a diagonal is longer than a straight move.
#[derive(Clone, Copy, Debug, PartialEq, Eq, Structural)]
pub struct MoveStep {
    pub forward: i64,
    pub right: i64,
    pub up: i64,
}

/// The distance covered in `elapsed_us` microseconds; no time passes for a
/// negative one, and the result saturates at the end of `i64`.
pub open spec fn move_distance(elapsed_us: i64) -> int {
    if elapsed_us <= 0 {
        0
    } else if elapsed_us > i64::MAX / MOVE_SPEED {
        i64::MAX as int
    } else {
        MOVE_SPEED * elapsed_us
    }
}

/// +1 for the `plus` key alone, -1 for the `minus` key alone, else 0.
pub open spec fn axis(keys: Set<Key>, plus: Key, minus: Key) -> int {
    (if keys.contains(plus) { 1int } else { 0int }) - (if keys.contains(minus) { 1int } else { 0int })
}

/// The movement that the keys `keys` give over `elapsed_us` microseconds.
pub open spec fn move_step(keys: Set<Key>, elapsed_us: i64) -> MoveStep {
    let d = move_distance(elapsed_us);
    MoveStep {
        forward: (axis(keys, Key::A, Key::D) * d) as i64,
        right: (axis(keys, Key::S, Key::W) * d) as i64,
        up: (axis(keys, Key::Space, Key::LShift) * d) as i64,
    }
}

/// The squared length of a movement, the three directions being orthogonal units.
pub open spec fn length_sq(m: MoveStep) -> int {
    m.forward * m.forward + m.right * m.right + m.up * m.up
}

impl MoveStep {
    fn along(keys: &KeySet, plus: Key, minus: Key, distance: i64) -> (r: i64)
        requires
            0 <= distance,
        ensures
            r == axis(keys@, plus, minus) * distance,
    {
        let p = keys.contains(plus);
        let m = keys.contains(minus);
        if p && !m {
            assert(axis(keys@, plus, minus) == 1);
            distance
        } else if m && !p {
            assert(axis(keys@, plus, minus) == -1);
            -distance
        } else {
            assert(axis(keys@, plus, minus) == 0);
            0
        }
    }

    /// The movement that the held keys give over `elapsed_us` microseconds.
    pub fn integrate(keys: &KeySet, elapsed_us: i64) -> (r: MoveStep)
        ensures
            r == move_step(keys@, elapsed_us),
            elapsed_us <= 0 ==> r == (MoveStep { forward: 0, right: 0, up: 0 }),
            keys@ == Set::<Key>::empty() ==> r == (MoveStep { forward: 0, right: 0, up: 0 }),
    {
        let distance: i64 = if elapsed_us <= 0 {
            0
        } else if elapsed_us > i64::MAX / MOVE_SPEED {
            i64::MAX
        } else {
            MOVE_SPEED * elapsed_us
        };
        MoveStep {
            forward: Self::along(keys, Key::A, Key::D, distance),
            right: Self::along(keys, Key::S, Key::W, distance),
            up: Self::along(keys, Key::Space, Key::LShift, distance),
        }
    }
}

/// Whether exactly one of the two keys `a` and `b` is held.
pub open spec fn one_of(keys: Set<Key>, a: Key, b: Key) -> bool {
    keys.contains(a) != keys.contains(b)
}

/// Whether neither of the two keys `a` and `b` is held.
pub open spec fn none_of(keys: Set<Key>, a: Key, b: Key) -> bool {
    !keys.contains(a) && !keys.contains(b)
}

/// Keys compose without normalising. With no vertical key and a time whose
/// distance fits, one horizontal direction moves the full distance, and two at
/// a right angle move a diagonal whose squared length is twice the squared
/// distance.
pub proof fn lemma_diagonal_not_normalized(keys: Set<Key>, elapsed_us: i64)
    requires
        0 <= elapsed_us <= i64::MAX / MOVE_SPEED,
        none_of(keys, Key::Space, Key::LShift),
    ensures
        one_of(keys, Key::A, Key::D) && none_of(keys, Key::W, Key::S) ==> length_sq(move_step(keys, elapsed_us))
            == (MOVE_SPEED * elapsed_us) * (MOVE_SPEED * elapsed_us),
        none_of(keys, Key::A, Key::D) && one_of(keys, Key::W, Key::S) ==> length_sq(move_step(keys, elapsed_us))
            == (MOVE_SPEED * elapsed_us) * (MOVE_SPEED * elapsed_us),
        one_of(keys, Key::A, Key::D) && one_of(keys, Key::W, Key::S) ==> length_sq(move_step(keys, elapsed_us))
            == 2 * ((MOVE_SPEED * elapsed_us) * (MOVE_SPEED * elapsed_us)),
{
    let d = MOVE_SPEED * elapsed_us;
    assert(move_distance(elapsed_us) == d);
    assert(0 <= d <= i64::MAX);
    let f = axis(keys, Key::A, Key::D);
    let r = axis(keys, Key::S, Key::W);
    assert(axis(keys, Key::Space, Key::LShift) == 0);
    assert(f == 0 || f == 1 || f == -1);
    assert(r == 0 || r == 1 || r == -1);
    assert(one_of(keys, Key::A, Key::D) <==> f * f == 1);
    assert(none_of(keys, Key::A, Key::D) ==> f == 0);
    assert(one_of(keys, Key::W, Key::S) <==> r * r == 1);
    assert(none_of(keys, Key::W, Key::S) ==> r == 0);
    let m = move_step(keys, elapsed_us);
    assert(m.forward == f * d && m.right == r * d && m.up == 0) by (nonlinear_arith)
        requires
            m == (MoveStep { forward: (f * d) as i64, right: (r * d) as i64, up: (0 * d) as i64 }),
            f == 0 || f == 1 || f == -1,
            r == 0 || r == 1 || r == -1,
            0 <= d <= i64::MAX,
    ;
    assert(length_sq(m) == (f * f + r * r) * (d * d)) by (nonlinear_arith)
        requires
            m.forward == f * d,
            m.right == r * d,
            m.up == 0,
    ;
}

} // verus!
