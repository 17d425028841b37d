//! The dining philosophers: which chopsticks a philosopher takes, in what
//! order, the semaphores that stand for them and the thinking and eating
//! times.

use vstd::prelude::*;

use crate::sync::{SemCall, SemOp, Semaphore};

verus! {

/// The number of philosophers, and of chopsticks.
pub const PHILOSOPHER_COUNT: usize = 5;

/// The chopstick on the left of philosopher `id`.
pub fn left_chopstick(id: usize) -> (r: usize)
    requires
        id < PHILOSOPHER_COUNT,
    ensures
        r == id,
{
    id
}

/// The chopstick on the right of philosopher `id`: the next one round the
/// table.
pub fn right_chopstick(id: usize) -> (r: usize)
    requires
        id < PHILOSOPHER_COUNT,
    ensures
        r == (id + 1) % PHILOSOPHER_COUNT as int,
        r < PHILOSOPHER_COUNT,
{
    (id + 1) % PHILOSOPHER_COUNT
}

/// A pause of 20 to 49 ms: 20 plus the seed `now + id * id_step + round *
/// round_step + salt` taken modulo 30 (the remainder being never negative).
pub open spec fn spec_jitter(now: int, id: int, round: int, salt: int, id_step: int, round_step: int) -> int {
    20 + (now + id * id_step + round * round_step + salt) % 30
}

/// The seed of a pause can be computed in `i64`: the numbers and each partial
/// sum fit.
pub open spec fn jitter_fits(now: int, id: int, round: int, salt: int, id_step: int, round_step: int) -> bool {
    &&& id <= i64::MAX
    &&& round <= i64::MAX
    &&& id * id_step <= i64::MAX
    &&& round * round_step <= i64::MAX
    &&& i64::MIN <= now + id * id_step <= i64::MAX
    &&& i64::MIN <= now + id * id_step + round * round_step <= i64::MAX
    &&& i64::MIN <= now + id * id_step + round * round_step + salt <= i64::MAX
}

/// The pause of philosopher `id` in round `round`, at time `now` in ms, with
/// the steps 17 per philosopher and 31 per round.
pub fn jitter_ms(now: i64, id: usize, round: usize, salt: i64) -> (r: i64)
    requires
        jitter_fits(now as int, id as int, round as int, salt as int, 17, 31),
    ensures
        r == spec_jitter(now as int, id as int, round as int, salt as int, 17, 31),
        20 <= r < 50,
{
    jitter_with_steps(now, id, round, salt, 17, 31)
}

/// The pause of philosopher `id` in round `round`, with the seed's steps
/// `id_step` and `round_step`.
pub fn jitter_with_steps(now: i64, id: usize, round: usize, salt: i64, id_step: i64, round_step: i64) -> (r: i64)
    requires
        0 <= id_step,
        0 <= round_step,
        jitter_fits(now as int, id as int, round as int, salt as int, id_step as int, round_step as int),
    ensures
        r == spec_jitter(now as int, id as int, round as int, salt as int, id_step as int, round_step as int),
        20 <= r < 50,
{
    let i = id as i64;
    let k = round as i64;
    assert(0 <= i * id_step) by (nonlinear_arith)
        requires
            0 <= i,
            0 <= id_step,
    ;
    assert(0 <= k * round_step) by (nonlinear_arith)
        requires
            0 <= k,
            0 <= round_step,
    ;
    let seed = now + i * id_step + k * round_step + salt;
    let m = seed % 30;
    let e = if m < 0 {
        m + 30
    } else {
        m
    };
    assert(e == seed as int % 30);
    20 + e
}

/// The semaphore that stands for chopstick `i` of the dinner whose first
/// chopstick key is `base`.
pub fn chopstick_sem(base: u32, i: usize) -> (r: Semaphore)
    requires
        i < PHILOSOPHER_COUNT,
        base + PHILOSOPHER_COUNT <= u32::MAX,
    ensures
        r.spec_key() == base + i,
{
    Semaphore::new(base + i as u32)
}

/// The calls that set a dinner up: each chopstick of the dinner whose keys
/// start at `base` made free (count 1), then each of `extra` with its count.
pub fn init_calls(base: u32, extra: &[(Semaphore, usize)]) -> (r: Vec<SemCall>)
    requires
        base + PHILOSOPHER_COUNT <= u32::MAX,
    ensures
        r@.len() == PHILOSOPHER_COUNT + extra@.len(),
        forall|i: int|
            0 <= i < PHILOSOPHER_COUNT ==> #[trigger] r@[i] == (SemCall {
                op: SemOp::New,
                key: (base + i) as u32,
                value: 1,
            }),
        forall|j: int|
            0 <= j < extra@.len() ==> #[trigger] r@[PHILOSOPHER_COUNT + j] == (SemCall {
                op: SemOp::New,
                key: extra@[j].0.spec_key(),
                value: extra@[j].1,
            }),
{
    let mut calls: Vec<SemCall> = Vec::new();
    let mut i: usize = 0;
    while i < PHILOSOPHER_COUNT
        invariant
            i <= PHILOSOPHER_COUNT,
            base + PHILOSOPHER_COUNT <= u32::MAX,
            calls@.len() == i,
            forall|k: int|
                0 <= k < i ==> #[trigger] calls@[k] == (SemCall {
                    op: SemOp::New,
                    key: (base + k) as u32,
                    value: 1,
                }),
        decreases PHILOSOPHER_COUNT - i,
    {
        calls.push(chopstick_sem(base, i).init(1));
        i = i + 1;
    }
    let mut j: usize = 0;
    while j < extra.len()
        invariant
            j <= extra@.len(),
            calls@.len() == PHILOSOPHER_COUNT + j,
            forall|k: int|
                0 <= k < PHILOSOPHER_COUNT ==> #[trigger] calls@[k] == (SemCall {
                    op: SemOp::New,
                    key: (base + k) as u32,
                    value: 1,
                }),
            forall|k: int|
                0 <= k < j ==> #[trigger] calls@[PHILOSOPHER_COUNT + k] == (SemCall {
                    op: SemOp::New,
                    key: extra@[k].0.spec_key(),
                    value: extra@[k].1,
                }),
        decreases extra.len() - j,
    {
        let (sem, value) = extra[j];
        calls.push(sem.init(value));
        j = j + 1;
    }
    calls
}

/// The calls that tear a dinner down: each chopstick of the dinner whose keys
/// start at `base` removed, then each of `extra`.
pub fn remove_calls(base: u32, extra: &[Semaphore]) -> (r: Vec<SemCall>)
    requires
        base + PHILOSOPHER_COUNT <= u32::MAX,
    ensures
        r@.len() == PHILOSOPHER_COUNT + extra@.len(),
        forall|i: int|
            0 <= i < PHILOSOPHER_COUNT ==> #[trigger] r@[i] == (SemCall {
                op: SemOp::Remove,
                key: (base + i) as u32,
                value: 0,
            }),
        forall|j: int|
            0 <= j < extra@.len() ==> #[trigger] r@[PHILOSOPHER_COUNT + j] == (SemCall {
                op: SemOp::Remove,
                key: extra@[j].spec_key(),
                value: 0,
            }),
{
    let mut calls: Vec<SemCall> = Vec::new();
    let mut i: usize = 0;
    while i < PHILOSOPHER_COUNT
        invariant
            i <= PHILOSOPHER_COUNT,
            base + PHILOSOPHER_COUNT <= u32::MAX,
            calls@.len() == i,
            forall|k: int|
                0 <= k < i ==> #[trigger] calls@[k] == (SemCall {
                    op: SemOp::Remove,
                    key: (base + k) as u32,
                    value: 0,
                }),
        decreases PHILOSOPHER_COUNT - i,
    {
        calls.push(chopstick_sem(base, i).remove());
        i = i + 1;
    }
    let mut j: usize = 0;
    while j < extra.len()
        invariant
            j <= extra@.len(),
            calls@.len() == PHILOSOPHER_COUNT + j,
            forall|k: int|
                0 <= k < PHILOSOPHER_COUNT ==> #[trigger] calls@[k] == (SemCall {
                    op: SemOp::Remove,
                    key: (base + k) as u32,
                    value: 0,
                }),
            forall|k: int|
                0 <= k < j ==> #[trigger] calls@[PHILOSOPHER_COUNT + k] == (SemCall {
                    op: SemOp::Remove,
                    key: extra@[k].spec_key(),
                    value: 0,
                }),
        decreases extra.len() - j,
    {
        calls.push(extra[j].remove());
        j = j + 1;
    }
    calls
}

/// The first key of the safe dinner's chopsticks.
pub const SAFE_CHOPSTICK_BASE: u32 = 0x300;
/// The key of the safe dinner's waiter, who lets at most four sit at once.
pub const SAFE_WAITER_KEY: u32 = 0x305;
/// The key of the safe dinner's print lock.
pub const SAFE_PRINT_LOCK_KEY: u32 = 0x306;

/// The calls that set up the dinner with a waiter: five free chopsticks, a
/// waiter who admits four philosophers at a time and a free print lock.
pub fn init_safe_sync() -> (r: Vec<SemCall>)
    ensures
        r@.len() == PHILOSOPHER_COUNT + 2,
        forall|i: int|
            0 <= i < PHILOSOPHER_COUNT ==> #[trigger] r@[i] == (SemCall {
                op: SemOp::New,
                key: (SAFE_CHOPSTICK_BASE + i) as u32,
                value: 1,
            }),
        r@[5] == (SemCall { op: SemOp::New, key: SAFE_WAITER_KEY, value: 4 }),
        r@[6] == (SemCall { op: SemOp::New, key: SAFE_PRINT_LOCK_KEY, value: 1 }),
{
    let extra = [(Semaphore::new(SAFE_WAITER_KEY), PHILOSOPHER_COUNT - 1), (Semaphore::new(
        SAFE_PRINT_LOCK_KEY,
    ), 1)];
    let r = init_calls(SAFE_CHOPSTICK_BASE, &extra);
    assert(r@[PHILOSOPHER_COUNT + 0] == r@[5]);
    assert(r@[PHILOSOPHER_COUNT + 1] == r@[6]);
    r
}

/// The calls that tear the dinner with a waiter down.
pub fn remove_safe_sync() -> (r: Vec<SemCall>)
    ensures
        r@.len() == PHILOSOPHER_COUNT + 2,
        forall|i: int|
            0 <= i < PHILOSOPHER_COUNT ==> #[trigger] r@[i] == (SemCall {
                op: SemOp::Remove,
                key: (SAFE_CHOPSTICK_BASE + i) as u32,
                value: 0,
            }),
        r@[5] == (SemCall { op: SemOp::Remove, key: SAFE_WAITER_KEY, value: 0 }),
        r@[6] == (SemCall { op: SemOp::Remove, key: SAFE_PRINT_LOCK_KEY, value: 0 }),
{
    let extra = [Semaphore::new(SAFE_WAITER_KEY), Semaphore::new(SAFE_PRINT_LOCK_KEY)];
    let r = remove_calls(SAFE_CHOPSTICK_BASE, &extra);
    assert(r@[PHILOSOPHER_COUNT + 0] == r@[5]);
    assert(r@[PHILOSOPHER_COUNT + 1] == r@[6]);
    r
}

/// The role a philosopher plays in the starvation attempt.
#[derive(Clone, Copy, Debug, PartialEq, Eq, Structural)]
pub enum StarveRole {
    /// Philosopher 0, who asks late for chopstick 0.
    Starved,
    /// Philosopher 4, who holds chopsticks 4 and 0 for long.
    Neighbor,
    /// The others, who eat once.
    ShortGuest,
}

/// The role of philosopher `id` in the starvation attempt.
pub fn starve_philosopher(id: usize) -> (r: StarveRole)
    ensures
        id == 0 ==> r == StarveRole::Starved,
        id == 4 ==> r == StarveRole::Neighbor,
        id != 0 && id != 4 ==> r == StarveRole::ShortGuest,
{
    if id == 0 {
        StarveRole::Starved
    } else if id == 4 {
        StarveRole::Neighbor
    } else {
        StarveRole::ShortGuest
    }
}

/// The first key of the starvation attempt's chopsticks.
pub const STARVE_CHOPSTICK_BASE: u32 = 0x310;
/// The key of the starvation attempt's print lock.
pub const STARVE_PRINT_LOCK_KEY: u32 = 0x315;
/// The first key of the deadlock attempt's chopsticks.
pub const DEADLOCK_CHOPSTICK_BASE: u32 = 0x320;
/// The key of the deadlock attempt's print lock.
pub const DEADLOCK_PRINT_LOCK_KEY: u32 = 0x325;

/// The calls that set up the starvation attempt: five free chopsticks and a
/// free print lock.
pub fn init_starve_sync() -> (r: Vec<SemCall>)
    ensures
        r@.len() == PHILOSOPHER_COUNT + 1,
        forall|i: int|
            0 <= i < PHILOSOPHER_COUNT ==> #[trigger] r@[i] == (SemCall {
                op: SemOp::New,
                key: (STARVE_CHOPSTICK_BASE + i) as u32,
                value: 1,
            }),
        r@[5] == (SemCall { op: SemOp::New, key: STARVE_PRINT_LOCK_KEY, value: 1 }),
{
    let extra = [(Semaphore::new(STARVE_PRINT_LOCK_KEY), 1usize)];
    let r = init_calls(STARVE_CHOPSTICK_BASE, &extra);
    assert(r@[PHILOSOPHER_COUNT + 0] == r@[5]);
    r
}

/// The calls that tear the starvation attempt down.
pub fn remove_starve_sync() -> (r: Vec<SemCall>)
    ensures
        r@.len() == PHILOSOPHER_COUNT + 1,
        forall|i: int|
            0 <= i < PHILOSOPHER_COUNT ==> #[trigger] r@[i] == (SemCall {
                op: SemOp::Remove,
                key: (STARVE_CHOPSTICK_BASE + i) as u32,
                value: 0,
            }),
        r@[5] == (SemCall { op: SemOp::Remove, key: STARVE_PRINT_LOCK_KEY, value: 0 }),
{
    let extra = [Semaphore::new(STARVE_PRINT_LOCK_KEY)];
    let r = remove_calls(STARVE_CHOPSTICK_BASE, &extra);
    assert(r@[PHILOSOPHER_COUNT + 0] == r@[5]);
    r
}

/// The calls that set up the deadlock attempt: five free chopsticks and a
/// free print lock.
pub fn init_deadlock_sync() -> (r: Vec<SemCall>)
    ensures
        r@.len() == PHILOSOPHER_COUNT + 1,
        forall|i: int|
            0 <= i < PHILOSOPHER_COUNT ==> #[trigger] r@[i] == (SemCall {
                op: SemOp::New,
                key: (DEADLOCK_CHOPSTICK_BASE + i) as u32,
                value: 1,
            }),
        r@[5] == (SemCall { op: SemOp::New, key: DEADLOCK_PRINT_LOCK_KEY, value: 1 }),
{
    let extra = [(Semaphore::new(DEADLOCK_PRINT_LOCK_KEY), 1usize)];
    let r = init_calls(DEADLOCK_CHOPSTICK_BASE, &extra);
    assert(r@[PHILOSOPHER_COUNT + 0] == r@[5]);
    r
}

} // verus!
