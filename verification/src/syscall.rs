//! The kernel's system-call service: what a call's arguments ask for and what
//! the caller is answered, around the work that the process manager does.

use vstd::prelude::*;

use crate::sync::{SemCall, SemOp};

verus! {

/// The arguments that a system call carries in registers.
#[derive(Clone, Copy, Debug, PartialEq, Eq, Structural)]
pub struct SyscallArgs {
    pub arg0: usize,
    pub arg1: usize,
    pub arg2: usize,
}

/// The reply that tells a caller its call failed: -1 as an unsigned word.
pub open spec fn spec_reply_failed() -> usize {
    usize::MAX
}

/// The file descriptor that a `close` call names.
pub fn close_fd(args: &SyscallArgs) -> (r: u8)
    ensures
        r == args.arg0 as u8,
{
    args.arg0 as u8
}

/// The reply to a `close` call: 0 where the descriptor was closed, else -1.
pub fn sys_close(closed: bool) -> (r: usize)
    ensures
        closed ==> r == 0,
        !closed ==> r == spec_reply_failed(),
{
    if closed {
        0
    } else {
        usize::MAX
    }
}

/// The reply to making a semaphore: 0 where it was made, 1 where its key was
/// taken.
pub fn new_sem(inserted: bool) -> (r: usize)
    ensures
        r == (if inserted { 0usize } else { 1usize }),
{
    if inserted {
        0
    } else {
        1
    }
}

/// The reply to removing a semaphore: 0 where it was removed, 1 where no
/// semaphore had its key.
pub fn remove_sem(removed: bool) -> (r: usize)
    ensures
        r == (if removed { 0usize } else { 1usize }),
{
    if removed {
        0
    } else {
        1
    }
}

/// The semaphore call that the arguments of a `sem` system call carry: the
/// operation in the first, the key (its low 32 bits) in the second and the
/// count in the third. `None` for an unknown operation.
pub open spec fn sem_call_of(args: SyscallArgs) -> Option<SemCall> {
    if args.arg0 == 0 {
        Some(SemCall { op: SemOp::New, key: args.arg1 as u32, value: args.arg2 })
    } else if args.arg0 == 1 {
        Some(SemCall { op: SemOp::Remove, key: args.arg1 as u32, value: args.arg2 })
    } else if args.arg0 == 2 {
        Some(SemCall { op: SemOp::Signal, key: args.arg1 as u32, value: args.arg2 })
    } else if args.arg0 == 3 {
        Some(SemCall { op: SemOp::Wait, key: args.arg1 as u32, value: args.arg2 })
    } else {
        None
    }
}

/// The arguments that carry a semaphore call.
pub open spec fn args_of_sem_call(c: SemCall) -> SyscallArgs {
    SyscallArgs { arg0: c.op.spec_code(), arg1: c.key as usize, arg2: c.value }
}

/// The semaphore call that a `sem` system call carries; `None` for an unknown
/// operation, which is answered -1.
pub fn sys_sem(args: &SyscallArgs) -> (r: Option<SemCall>)
    ensures
        r == sem_call_of(*args),
{
    match SemOp::from_code(args.arg0) {
        Some(op) => Some(SemCall { op, key: args.arg1 as u32, value: args.arg2 }),
        None => None,
    }
}

/// What the kernel's semaphore set answers an operation.
#[derive(Clone, Copy, Debug, PartialEq, Eq, Structural)]
pub enum SemaphoreResult {
    /// Done.
    Success,
    /// No semaphore has the key.
    NotExist,
    /// The waiting process must block.
    Block(u16),
    /// The signal wakes up this waiting process.
    WakeUp(u16),
}

/// What the kernel does with the caller after a semaphore operation.
#[derive(Clone, Copy, Debug, PartialEq, Eq, Structural)]
pub enum SemAction {
    /// Answer the caller with this value and go on.
    Reply(usize),
    /// Answer 0, save the caller's context, block this process and switch to
    /// the next ready one.
    BlockAndSwitch(u16),
    /// Wake this process up (with no return value) and answer the caller 0.
    WakeUpAndReply(u16),
}

/// What follows a wait on a semaphore. The set never answers a wait by waking
/// a process up.
pub fn sem_wait(result: SemaphoreResult) -> (r: SemAction)
    requires
        !(result is WakeUp),
    ensures
        r == (match result {
            SemaphoreResult::Success => SemAction::Reply(0),
            SemaphoreResult::NotExist => SemAction::Reply(1),
            SemaphoreResult::Block(pid) => SemAction::BlockAndSwitch(pid),
            SemaphoreResult::WakeUp(pid) => SemAction::Reply(0),
        }),
{
    match result {
        SemaphoreResult::Success => SemAction::Reply(0),
        SemaphoreResult::NotExist => SemAction::Reply(1),
        SemaphoreResult::Block(pid) => SemAction::BlockAndSwitch(pid),
        SemaphoreResult::WakeUp(_) => SemAction::Reply(0),
    }
}

/// What follows a signal of a semaphore. The set never answers a signal by
/// blocking.
pub fn sem_signal(result: SemaphoreResult) -> (r: SemAction)
    requires
        !(result is Block),
    ensures
        r == (match result {
            SemaphoreResult::Success => SemAction::Reply(0),
            SemaphoreResult::NotExist => SemAction::Reply(1),
            SemaphoreResult::WakeUp(pid) => SemAction::WakeUpAndReply(pid),
            SemaphoreResult::Block(pid) => SemAction::Reply(0),
        }),
{
    match result {
        SemaphoreResult::Success => SemAction::Reply(0),
        SemaphoreResult::NotExist => SemAction::Reply(1),
        SemaphoreResult::WakeUp(pid) => SemAction::WakeUpAndReply(pid),
        SemaphoreResult::Block(_) => SemAction::Reply(0),
    }
}

/// Whether an address is canonical on x86-64: bits 48 to 63 repeat bit 47.
pub open spec fn is_canonical(addr: u64) -> bool {
    addr < 0x0000_8000_0000_0000 || addr >= 0xffff_8000_0000_0000
}

/// The heap end that a `brk` call asks for: none (a query) where the argument
/// is 0.
pub fn brk_request(args: &SyscallArgs) -> (r: Option<u64>)
    requires
        args.arg0 == 0 || is_canonical(args.arg0 as u64),
    ensures
        args.arg0 == 0 ==> r is None,
        args.arg0 != 0 ==> r == Some(args.arg0 as u64),
{
    if args.arg0 == 0 {
        None
    } else {
        Some(args.arg0 as u64)
    }
}

/// The reply to a `brk` call: the heap's end, or all ones where the request
/// was refused.
pub fn brk_reply(end: Option<u64>) -> (r: usize)
    ensures
        end matches Some(e) ==> r == e as usize,
        end is None ==> r == usize::MAX,
{
    match end {
        Some(e) => e as usize,
        None => usize::MAX,
    }
}

/// Decoding the arguments that carry a semaphore call gives back the call.
pub proof fn lemma_sem_call_round_trip(c: SemCall)
    ensures
        sem_call_of(args_of_sem_call(c)) == Some(c),
{
    let k = c.key;
    assert((k as usize) as u32 == k) by (bit_vector);
}

} // verus!
