//! The "fish" printer: three children print `<`, `>` and `_` when signalled,
//! and the parent signals them in an order that draws fish, `<><_><>_...`.

use vstd::prelude::*;

use crate::sync::{SemCall, SemOp, Semaphore};

verus! {

/// The number of rounds the parent signals.
pub const FISH_ROUNDS: usize = 8;
/// How often the `<` child prints.
pub const LT_PRINTS: usize = 12;
/// How often the `>` child prints.
pub const GT_PRINTS: usize = 12;
/// How often the `_` child prints.
pub const UNDERSCORE_PRINTS: usize = 8;

pub const LT_KEY: u32 = 0x400;
pub const GT_KEY: u32 = 0x401;
pub const UNDERSCORE_KEY: u32 = 0x402;
/// The semaphore each child signals once it has printed.
pub const ACK_KEY: u32 = 0x403;

/// One of the printed tokens.
#[derive(Clone, Copy, Debug, PartialEq, Eq, Structural)]
pub enum Fish {
    Lt,
    Gt,
    Underscore,
}

/// The tokens of round `round`: `<><_` in even rounds, `><>_` in odd ones.
pub open spec fn round_tokens(round: int) -> Seq<Fish> {
    if round % 2 == 0 {
        seq![Fish::Lt, Fish::Gt, Fish::Lt, Fish::Underscore]
    } else {
        seq![Fish::Gt, Fish::Lt, Fish::Gt, Fish::Underscore]
    }
}

/// The tokens of the first `rounds` rounds, in the order they are signalled.
pub open spec fn fish_schedule(rounds: nat) -> Seq<Fish>
    decreases rounds,
{
    if rounds == 0 {
        Seq::empty()
    } else {
        fish_schedule((rounds - 1) as nat) + round_tokens(rounds - 1)
    }
}

/// How often `t` occurs in `s`.
pub open spec fn count_of(s: Seq<Fish>, t: Fish) -> nat
    decreases s.len(),
{
    if s.len() == 0 {
        0
    } else {
        count_of(s.drop_last(), t) + if s.last() == t {
            1nat
        } else {
            0nat
        }
    }
}

/// Counting over two sequences one after the other adds up.
pub proof fn lemma_count_of_add(a: Seq<Fish>, b: Seq<Fish>, t: Fish)
    ensures
        count_of(a + b, t) == count_of(a, t) + count_of(b, t),
    decreases b.len(),
{
    if b.len() > 0 {
        assert((a + b).drop_last() =~= a + b.drop_last());
        lemma_count_of_add(a, b.drop_last(), t);
    } else {
        assert(a + b =~= a);
    }
}

/// Round `round` signals `<` twice and `>` once when even, the other way round
/// when odd, and `_` once.
pub proof fn lemma_round_counts(round: int)
    ensures
        count_of(round_tokens(round), Fish::Lt) == if round % 2 == 0 { 2nat } else { 1nat },
        count_of(round_tokens(round), Fish::Gt) == if round % 2 == 0 { 1nat } else { 2nat },
        count_of(round_tokens(round), Fish::Underscore) == 1,
{
    let s = round_tokens(round);
    let s3 = s.drop_last();
    let s2 = s3.drop_last();
    let s1 = s2.drop_last();
    let s0 = s1.drop_last();
    assert(s0.len() == 0);
    assert(count_of(s0, Fish::Lt) == 0 && count_of(s0, Fish::Gt) == 0 && count_of(
        s0,
        Fish::Underscore,
    ) == 0);
    assert(count_of(s1, Fish::Lt) == count_of(s0, Fish::Lt) + if s1.last() == Fish::Lt { 1nat } else { 0nat });
    assert(count_of(s1, Fish::Gt) == count_of(s0, Fish::Gt) + if s1.last() == Fish::Gt { 1nat } else { 0nat });
    assert(count_of(s1, Fish::Underscore) == count_of(s0, Fish::Underscore) + if s1.last() == Fish::Underscore { 1nat } else { 0nat });
    assert(count_of(s2, Fish::Lt) == count_of(s1, Fish::Lt) + if s2.last() == Fish::Lt { 1nat } else { 0nat });
    assert(count_of(s2, Fish::Gt) == count_of(s1, Fish::Gt) + if s2.last() == Fish::Gt { 1nat } else { 0nat });
    assert(count_of(s2, Fish::Underscore) == count_of(s1, Fish::Underscore) + if s2.last() == Fish::Underscore { 1nat } else { 0nat });
    assert(count_of(s3, Fish::Lt) == count_of(s2, Fish::Lt) + if s3.last() == Fish::Lt { 1nat } else { 0nat });
    assert(count_of(s3, Fish::Gt) == count_of(s2, Fish::Gt) + if s3.last() == Fish::Gt { 1nat } else { 0nat });
    assert(count_of(s3, Fish::Underscore) == count_of(s2, Fish::Underscore) + if s3.last() == Fish::Underscore { 1nat } else { 0nat });
    assert(count_of(s, Fish::Lt) == count_of(s3, Fish::Lt) + if s.last() == Fish::Lt { 1nat } else { 0nat });
    assert(count_of(s, Fish::Gt) == count_of(s3, Fish::Gt) + if s.last() == Fish::Gt { 1nat } else { 0nat });
    assert(count_of(s, Fish::Underscore) == count_of(s3, Fish::Underscore) + if s.last() == Fish::Underscore { 1nat } else { 0nat });
}

/// Over `n` rounds the parent signals `<` n + (n + 1) / 2 times, `>` n + n / 2
/// times and `_` n times.
pub proof fn lemma_fish_counts(n: nat)
    ensures
        count_of(fish_schedule(n), Fish::Lt) == n + (n + 1) / 2,
        count_of(fish_schedule(n), Fish::Gt) == n + n / 2,
        count_of(fish_schedule(n), Fish::Underscore) == n,
    decreases n,
{
    if n > 0 {
        lemma_fish_counts((n - 1) as nat);
        let r = round_tokens(n - 1);
        lemma_count_of_add(fish_schedule((n - 1) as nat), r, Fish::Lt);
        lemma_count_of_add(fish_schedule((n - 1) as nat), r, Fish::Gt);
        lemma_count_of_add(fish_schedule((n - 1) as nat), r, Fish::Underscore);
        lemma_round_counts(n - 1);
    }
}

/// The parent signals each child exactly as often as that child prints, so
/// that every child ends and none waits for ever.
pub proof fn lemma_schedule_matches_children()
    ensures
        count_of(fish_schedule(FISH_ROUNDS as nat), Fish::Lt) == LT_PRINTS,
        count_of(fish_schedule(FISH_ROUNDS as nat), Fish::Gt) == GT_PRINTS,
        count_of(fish_schedule(FISH_ROUNDS as nat), Fish::Underscore) == UNDERSCORE_PRINTS,
{
    lemma_fish_counts(FISH_ROUNDS as nat);
}

/// The text a token prints.
pub fn fish_text(t: Fish) -> (r: &'static str)
    ensures
        t == Fish::Lt ==> r@ == "<"@,
        t == Fish::Gt ==> r@ == ">"@,
        t == Fish::Underscore ==> r@ == "_"@,
{
    match t {
        Fish::Lt => "<",
        Fish::Gt => ">",
        Fish::Underscore => "_",
    }
}

/// The key of the semaphore that lets a token's child print.
pub fn fish_key(t: Fish) -> (r: u32)
    ensures
        t == Fish::Lt ==> r == LT_KEY,
        t == Fish::Gt ==> r == GT_KEY,
        t == Fish::Underscore ==> r == UNDERSCORE_KEY,
{
    match t {
        Fish::Lt => LT_KEY,
        Fish::Gt => GT_KEY,
        Fish::Underscore => UNDERSCORE_KEY,
    }
}

/// The tokens the parent signals, in order: `FISH_ROUNDS` rounds.
pub fn emit_sequence() -> (r: Vec<Fish>)
    ensures
        r@ == fish_schedule(FISH_ROUNDS as nat),
{
    let mut out: Vec<Fish> = Vec::new();
    let mut round: usize = 0;
    while round < FISH_ROUNDS
        invariant
            round <= FISH_ROUNDS,
            out@ == fish_schedule(round as nat),
        decreases FISH_ROUNDS - round,
    {
        let ghost before = out@;
        if round % 2 == 0 {
            out.push(Fish::Lt);
            out.push(Fish::Gt);
            out.push(Fish::Lt);
        } else {
            out.push(Fish::Gt);
            out.push(Fish::Lt);
            out.push(Fish::Gt);
        }
        out.push(Fish::Underscore);
        assert(out@ =~= before + round_tokens(round as int));
        round = round + 1;
    }
    out
}

/// The two calls that emit one token: signal the token's child, then wait for
/// its acknowledgement.
pub fn emit_once(sem: &Semaphore) -> (r: (SemCall, SemCall))
    ensures
        r.0 == (SemCall { op: SemOp::Signal, key: sem.spec_key(), value: 0 }),
        r.1 == (SemCall { op: SemOp::Wait, key: ACK_KEY, value: 0 }),
{
    (sem.signal(), Semaphore::new(ACK_KEY).wait())
}

} // verus!
