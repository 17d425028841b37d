//! User-space synchronisation: a spin lock over an atomic flag, and the handle
//! by which a program names one of the kernel's semaphores.

use vstd::prelude::*;

use core::sync::atomic::AtomicBool;
use core::sync::atomic::Ordering;

verus! {

/// A lock that a thread takes by turning a flag from `false` to `true`.
pub struct SpinLock {
    bolt: AtomicBool,
}

impl SpinLock {
    /// A lock that nobody holds.
    pub fn new() -> (r: SpinLock) {
        SpinLock { bolt: AtomicBool::new(false) }
    }

    /// One attempt to take the lock: turns the flag from `false` to `true`
    /// and says whether that succeeded. A caller that must hold the lock
    /// retries, waiting meanwhile until `is_locked` reads `false`.
    pub fn try_acquire(&self) -> (r: bool) {
        let res = self.bolt.compare_exchange(false, true, Ordering::Acquire, Ordering::Relaxed);
        res.is_ok()
    }

    /// Whether the flag reads as taken.
    pub fn is_locked(&self) -> (r: bool) {
        self.bolt.load(Ordering::Relaxed)
    }

    /// Gives the lock up.
    pub fn release(&self) {
        self.bolt.store(false, Ordering::Release);
    }
}

/// What a semaphore system call asks of the kernel.
#[derive(Clone, Copy, Debug, PartialEq, Eq, Structural)]
pub enum SemOp {
    /// Make a semaphore with a starting count.
    New,
    /// Remove a semaphore.
    Remove,
    /// Signal (V) a semaphore.
    Signal,
    /// Wait on (P) a semaphore.
    Wait,
}

impl SemOp {
    /// The number that the system call carries for the operation.
    pub open spec fn spec_code(self) -> usize {
        match self {
            SemOp::New => 0,
            SemOp::Remove => 1,
            SemOp::Signal => 2,
            SemOp::Wait => 3,
        }
    }

    /// The number that the system call carries for the operation.
    pub fn code(&self) -> (r: usize)
        ensures
            r == self.spec_code(),
    {
        match self {
            SemOp::New => 0,
            SemOp::Remove => 1,
            SemOp::Signal => 2,
            SemOp::Wait => 3,
        }
    }

    /// The operation that a number names, if any.
    pub fn from_code(code: usize) -> (r: Option<SemOp>)
        ensures
            r matches Some(op) ==> op.spec_code() == code,
            r is None <==> code > 3,
    {
        match code {
            0 => Some(SemOp::New),
            1 => Some(SemOp::Remove),
            2 => Some(SemOp::Signal),
            3 => Some(SemOp::Wait),
            _ => None,
        }
    }
}

/// A semaphore system call: the operation, the semaphore's key and, for
/// `New`, the starting count (0 for the others).
#[derive(Clone, Copy, Debug, PartialEq, Eq, Structural)]
pub struct SemCall {
    pub op: SemOp,
    pub key: u32,
    pub value: usize,
}

impl SemCall {
    /// The three arguments that carry the call: operation, key, value.
    pub fn args(&self) -> (r: (usize, usize, usize))
        ensures
            r == (self.op.spec_code(), self.key as usize, self.value),
    {
        (self.op.code(), self.key as usize, self.value)
    }
}

/// Whether the kernel's reply to a semaphore call says it succeeded: it
/// answers 0 for success.
pub fn sem_reply_ok(reply: usize) -> (r: bool)
    ensures
        r == (reply == 0),
{
    reply == 0
}

/// A program's handle on a kernel semaphore, which it names by a key.
#[derive(Clone, Copy, Debug, PartialEq, Eq, Structural, PartialOrd, Ord)]
pub struct Semaphore {
    key: u32,
}

impl Semaphore {
    /// The key that names the semaphore.
    pub closed spec fn spec_key(&self) -> u32 {
        self.key
    }

    /// The handle on the semaphore named `key`.
    pub fn new(key: u32) -> (r: Semaphore)
        ensures
            r.spec_key() == key,
    {
        Semaphore { key }
    }

    /// The key that names the semaphore.
    pub fn key(&self) -> (r: u32)
        ensures
            r == self.spec_key(),
    {
        self.key
    }

    /// The call that makes the semaphore with the count `value`.
    pub fn init(&self, value: usize) -> (r: SemCall)
        ensures
            r == (SemCall { op: SemOp::New, key: self.spec_key(), value }),
    {
        SemCall { op: SemOp::New, key: self.key, value }
    }

    /// The call that removes the semaphore.
    pub fn remove(&self) -> (r: SemCall)
        ensures
            r == (SemCall { op: SemOp::Remove, key: self.spec_key(), value: 0 }),
    {
        SemCall { op: SemOp::Remove, key: self.key, value: 0 }
    }

    /// The call that signals the semaphore.
    pub fn signal(&self) -> (r: SemCall)
        ensures
            r == (SemCall { op: SemOp::Signal, key: self.spec_key(), value: 0 }),
    {
        SemCall { op: SemOp::Signal, key: self.key, value: 0 }
    }

    /// The call that waits on the semaphore.
    pub fn wait(&self) -> (r: SemCall)
        ensures
            r == (SemCall { op: SemOp::Wait, key: self.spec_key(), value: 0 }),
    {
        SemCall { op: SemOp::Wait, key: self.key, value: 0 }
    }
}

/// A number names at most one operation, and names again the operation whose
/// number it is.
pub proof fn lemma_sem_code_round_trip(op: SemOp)
    ensures
        op.spec_code() <= 3,
        forall|other: SemOp| other.spec_code() == op.spec_code() ==> other == op,
{
}

} // verus!
