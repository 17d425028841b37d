//! Process-level decisions of the kernel: the status of a process, what a
//! `wait_pid` call does, the name under which a program is spawned and how a
//! forked child's stack is moved.

use vstd::prelude::*;

use crate::fat16::impls::{spec_path_components, split_components};
use crate::fat16::direntry::{FileType, Metadata};
use crate::syscall::is_canonical;

verus! {

/// The scheduling status of a process.
#[derive(Debug, Copy, Clone, Eq, PartialEq, Structural)]
pub enum ProgramStatus {
    Running,
    Ready,
    Blocked,
    Dead,
}

/// What a `wait_pid` call does with its caller.
#[derive(Debug, Copy, Clone, Eq, PartialEq, Structural)]
pub enum WaitAction {
    /// Answer the caller with this value at once.
    Reply(usize),
    /// Record the caller as a waiter of the process, save its context, block
    /// it and switch to the next ready process.
    Block,
}

/// What a `wait_pid` call on `target`, made by `current`, does: where the
/// target has exited its exit code is the answer; where the caller waits on
/// itself or on a process that is gone the answer is -1; otherwise the caller
/// blocks until the target exits.
pub fn wait_pid(target: u16, current: u16, exit_code: Option<isize>, alive: bool) -> (r:
    WaitAction)
    ensures
        exit_code matches Some(code) ==> r == WaitAction::Reply(code as usize),
        exit_code is None && (target == current || !alive) ==> r == WaitAction::Reply(usize::MAX),
        exit_code is None && target != current && alive ==> r == WaitAction::Block,
{
    match exit_code {
        Some(code) => WaitAction::Reply(code as usize),
        None => {
            if target == current || !alive {
                WaitAction::Reply(usize::MAX)
            } else {
                WaitAction::Block
            }
        },
    }
}

/// The name under which the program at `path` is spawned: the last non-empty
/// part of the path, `None` where there is none.
pub fn spawn_name<'a>(path: &'a str) -> (r: Option<&'a str>)
    ensures
        spec_path_components(path@).len() == 0 ==> r is None,
        spec_path_components(path@).len() > 0 ==> (r matches Some(n) && n@
            == spec_path_components(path@).last()),
{
    let parts = split_components(path);
    let n = parts.len();
    if n == 0 {
        None
    } else {
        Some(parts[n - 1])
    }
}

/// The stack pointer and frame pointer of a context whose stack is moved
/// `offset` bytes down: the stack pointer moves by `offset`; the frame pointer
/// moves too where it is at least `offset`, and stays otherwise. The stack
/// pointer must stay a canonical address.
pub fn move_stack_down(stack_pointer: u64, rbp: usize, offset: u64) -> (r: (u64, usize))
    requires
        stack_pointer >= offset,
        is_canonical((stack_pointer - offset) as u64),
    ensures
        r.0 == stack_pointer - offset,
        rbp >= offset as usize ==> r.1 == rbp - offset as usize,
        rbp < offset as usize ==> r.1 == rbp,
{
    let sp = stack_pointer - offset;
    let off = offset as usize;
    if rbp >= off {
        (sp, rbp - off)
    } else {
        (sp, rbp)
    }
}

/// The names of the files among `metas`, in their order: the programs that a
/// directory of programs offers.
pub open spec fn file_names(metas: Seq<Metadata>) -> Seq<Seq<char>>
    decreases metas.len(),
{
    if metas.len() == 0 {
        Seq::empty()
    } else {
        let rest = file_names(metas.drop_last());
        if metas.last().entry_type == FileType::File {
            rest.push(metas.last().name@)
        } else {
            rest
        }
    }
}

/// The names of the programs that a directory listing offers: its files.
pub fn app_names(metas: &Vec<Metadata>) -> (r: Vec<String>)
    ensures
        r@.len() == file_names(metas@).len(),
        forall|i: int| 0 <= i < r@.len() ==> (#[trigger] r@[i])@ == file_names(metas@)[i],
{
    let mut names: Vec<String> = Vec::new();
    let mut i: usize = 0;
    while i < metas.len()
        invariant
            i <= metas@.len(),
            names@.len() == file_names(metas@.take(i as int)).len(),
            forall|k: int|
                0 <= k < names@.len() ==> (#[trigger] names@[k])@ == file_names(
                    metas@.take(i as int),
                )[k],
        decreases metas.len() - i,
    {
        assert(metas@.take(i + 1).drop_last() =~= metas@.take(i as int));
        assert(metas@.take(i + 1).last() == metas@[i as int]);
        if metas[i].is_file() {
            let ghost before = names@;
            names.push(metas[i].name.clone());
            assert forall|k: int| 0 <= k < names@.len() implies (#[trigger] names@[k])@ == file_names(
                metas@.take(i + 1),
            )[k] by {
                if k < before.len() {
                    assert(names@[k] == before[k]);
                }
            }
        }
        i = i + 1;
    }
    assert(metas@.take(metas@.len() as int) =~= metas@);
    names
}

} // verus!
