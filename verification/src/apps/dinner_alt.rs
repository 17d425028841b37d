//! The dining philosophers who take their chopsticks in one global order.

use vstd::prelude::*;

use crate::apps::dinner::{
    init_calls, jitter_fits, jitter_with_steps, left_chopstick, remove_calls, right_chopstick, spec_jitter,
    PHILOSOPHER_COUNT,
};
use crate::sync::{SemCall, SemOp, Semaphore};

verus! {

/// The smaller of two numbers.
pub fn min(a: usize, b: usize) -> (r: usize)
    ensures
        r == (if a < b { a } else { b }),
{
    if a < b {
        a
    } else {
        b
    }
}

/// The larger of two numbers.
pub fn max(a: usize, b: usize) -> (r: usize)
    ensures
        r == (if a > b { a } else { b }),
{
    if a > b {
        a
    } else {
        b
    }
}

/// The chopsticks that philosopher `id` takes, lower-numbered first: taking
/// them in one global order means no ring of philosophers can each hold one
/// and wait for the next.
pub fn ordered_chopsticks(id: usize) -> (r: (usize, usize))
    requires
        id < PHILOSOPHER_COUNT,
    ensures
        r.0 < r.1 < PHILOSOPHER_COUNT,
        (r.0 == id && r.1 == (id + 1) % PHILOSOPHER_COUNT as int) || (r.1 == id && r.0 == (id
            + 1) % PHILOSOPHER_COUNT as int),
{
    let left = left_chopstick(id);
    let right = right_chopstick(id);
    (min(left, right), max(left, right))
}

/// Every philosopher takes the lower-numbered of its two chopsticks first,
/// and its two chopsticks are distinct.
pub proof fn lemma_ordered_pickup(id: int)
    requires
        0 <= id < PHILOSOPHER_COUNT,
    ensures
        id != (id + 1) % PHILOSOPHER_COUNT as int,
        (if id < (id + 1) % 5 { id } else { (id + 1) % 5 }) < (if id < (id + 1) % 5 {
            (id + 1) % 5
        } else {
            id
        }),
{
}

/// The pause of philosopher `id` in round `round`, at time `now` in ms, with
/// the steps 19 per philosopher and 37 per round.
pub fn jitter_ms(now: i64, id: usize, round: usize, salt: i64) -> (r: i64)
    requires
        jitter_fits(now as int, id as int, round as int, salt as int, 19, 37),
    ensures
        r == spec_jitter(now as int, id as int, round as int, salt as int, 19, 37),
        20 <= r < 50,
{
    jitter_with_steps(now, id, round, salt, 19, 37)
}

/// The first key of the ordered dinner's chopsticks.
pub const CHOPSTICK_BASE: u32 = 0x500;
/// The key of the ordered dinner's print lock.
pub const PRINT_LOCK_KEY: u32 = 0x505;

/// The calls that set the ordered dinner up: five free chopsticks and a free
/// print lock.
pub fn init_sync() -> (r: Vec<SemCall>)
    ensures
        r@.len() == PHILOSOPHER_COUNT + 1,
        forall|i: int|
            0 <= i < PHILOSOPHER_COUNT ==> #[trigger] r@[i] == (SemCall {
                op: SemOp::New,
                key: (CHOPSTICK_BASE + i) as u32,
                value: 1,
            }),
        r@[5] == (SemCall { op: SemOp::New, key: PRINT_LOCK_KEY, value: 1 }),
{
    let extra = [(Semaphore::new(PRINT_LOCK_KEY), 1usize)];
    let r = init_calls(CHOPSTICK_BASE, &extra);
    assert(r@[PHILOSOPHER_COUNT + 0] == r@[5]);
    r
}

/// The calls that tear the ordered dinner down.
pub fn remove_sync() -> (r: Vec<SemCall>)
    ensures
        r@.len() == PHILOSOPHER_COUNT + 1,
        forall|i: int|
            0 <= i < PHILOSOPHER_COUNT ==> #[trigger] r@[i] == (SemCall {
                op: SemOp::Remove,
                key: (CHOPSTICK_BASE + i) as u32,
                value: 0,
            }),
        r@[5] == (SemCall { op: SemOp::Remove, key: PRINT_LOCK_KEY, value: 0 }),
{
    let extra = [Semaphore::new(PRINT_LOCK_KEY)];
    let r = remove_calls(CHOPSTICK_BASE, &extra);
    assert(r@[PHILOSOPHER_COUNT + 0] == r@[5]);
    r
}

} // verus!
