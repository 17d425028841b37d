//! The kernel's semaphores, each named by a key: a count and the queue of the
//! processes that wait on it.

use vstd::prelude::*;

use crate::syscall::SemaphoreResult;
use std::collections::BTreeMap;

verus! {

/// What a semaphore holds: its count and the processes that wait on it,
/// first come first.
pub struct SemaphoreState {
    pub count: usize,
    pub waiters: Seq<u16>,
}

/// A wait by `pid`: with a positive count it goes on and the count drops by
/// one; else it joins the end of the queue and must block.
pub open spec fn wait_step(s: SemaphoreState, pid: u16) -> (SemaphoreResult, SemaphoreState) {
    if s.count > 0 {
        (SemaphoreResult::Success, SemaphoreState { count: (s.count - 1) as usize, waiters: s.waiters })
    } else {
        (SemaphoreResult::Block(pid), SemaphoreState { count: s.count, waiters: s.waiters.push(pid) })
    }
}

/// A signal: the first waiting process is woken up and leaves the queue; with
/// none waiting the count grows by one.
pub open spec fn signal_step(s: SemaphoreState) -> (SemaphoreResult, SemaphoreState) {
    if s.waiters.len() > 0 {
        (SemaphoreResult::WakeUp(s.waiters[0]), SemaphoreState { count: s.count, waiters: s.waiters.drop_first() })
    } else {
        (SemaphoreResult::Success, SemaphoreState { count: (s.count + 1) as usize, waiters: s.waiters })
    }
}

/// A signal undoes a wait on a semaphore that nobody waits on: the semaphore
/// is as before, and a process that had to block is the one woken up.
pub proof fn lemma_signal_undoes_wait(s: SemaphoreState, pid: u16)
    requires
        s.waiters.len() == 0,
    ensures
        signal_step(wait_step(s, pid).1).1 == s,
        wait_step(s, pid).0 == SemaphoreResult::Block(pid) ==> signal_step(wait_step(s, pid).1).0
            == SemaphoreResult::WakeUp(pid),
{
    if s.count == 0 {
        assert(s.waiters.push(pid).drop_first() =~= s.waiters);
    }
}

/// One semaphore of the set.
struct SemEntry {
    count: usize,
    waiters: Vec<u16>,
}

impl SemEntry {
    spec fn state(&self) -> SemaphoreState {
        SemaphoreState { count: self.count, waiters: self.waiters@ }
    }
}

/// The kernel's semaphores, each under a key of its own.
pub struct SemaphoreSet {
    sems: BTreeMap<u32, SemEntry>,
}

impl SemaphoreSet {
    /// The semaphore under `key`, if there is one.
    pub closed spec fn sem(&self, key: u32) -> Option<SemaphoreState> {
        if self.sems@.contains_key(key) {
            Some(self.sems@[key].state())
        } else {
            None
        }
    }

    /// An empty set.
    pub fn new() -> (r: SemaphoreSet)
        ensures
            forall|k: u32| r.sem(k) is None,
    {
        SemaphoreSet { sems: BTreeMap::new() }
    }

    /// Creates a semaphore under `key` with count `value`, unless `key`
    /// already names one; says whether it did.
    pub fn insert(&mut self, key: u32, value: usize) -> (r: bool)
        ensures
            r == (old(self).sem(key) is None),
            r ==> final(self).sem(key) == Some(SemaphoreState { count: value, waiters: Seq::empty() }),
            !r ==> final(self).sem(key) == old(self).sem(key),
            forall|k: u32| k != key ==> #[trigger] final(self).sem(k) == old(self).sem(k),
    {
        broadcast use vstd::std_specs::btree::group_btree_axioms, vstd::laws_cmp::group_laws_cmp;

        if self.sems.contains_key(&key) {
            false
        } else {
            self.sems.insert(key, SemEntry { count: value, waiters: Vec::new() });
            true
        }
    }

    /// Removes the semaphore under `key`; says whether there was one.
    pub fn remove(&mut self, key: u32) -> (r: bool)
        ensures
            r == (old(self).sem(key) is Some),
            final(self).sem(key) is None,
            forall|k: u32| k != key ==> #[trigger] final(self).sem(k) == old(self).sem(k),
    {
        broadcast use vstd::std_specs::btree::group_btree_axioms, vstd::laws_cmp::group_laws_cmp;

        self.sems.remove(&key).is_some()
    }

    /// Process `pid` waits on the semaphore under `key`: with a positive
    /// count it goes on and the count drops by one; else it joins the end of
    /// the queue and must block.
    pub fn wait(&mut self, key: u32, pid: u16) -> (r: SemaphoreResult)
        ensures
            forall|k: u32| k != key ==> #[trigger] final(self).sem(k) == old(self).sem(k),
            old(self).sem(key) is None ==> (r == SemaphoreResult::NotExist && final(self).sem(key)
                is None),
            old(self).sem(key) matches Some(s) ==> (r == wait_step(s, pid).0 && final(self).sem(key)
                == Some(wait_step(s, pid).1)),
    {
        broadcast use vstd::std_specs::btree::group_btree_axioms, vstd::laws_cmp::group_laws_cmp;

        let mut e = match self.sems.remove(&key) {
            Some(e) => e,
            None => {
                return SemaphoreResult::NotExist;
            },
        };
        let r = if e.count > 0 {
            e.count = e.count - 1;
            SemaphoreResult::Success
        } else {
            e.waiters.push(pid);
            SemaphoreResult::Block(pid)
        };
        self.sems.insert(key, e);
        r
    }

    /// The semaphore under `key` is signalled: the first waiting process is
    /// woken up and leaves the queue; with none waiting the count grows by one.
    pub fn signal(&mut self, key: u32) -> (r: SemaphoreResult)
        requires
            old(self).sem(key) matches Some(s) ==> (s.waiters.len() == 0 ==> s.count < usize::MAX),
        ensures
            forall|k: u32| k != key ==> #[trigger] final(self).sem(k) == old(self).sem(k),
            old(self).sem(key) is None ==> (r == SemaphoreResult::NotExist && final(self).sem(key)
                is None),
            old(self).sem(key) matches Some(s) ==> (r == signal_step(s).0 && final(self).sem(key)
                == Some(signal_step(s).1)),
    {
        broadcast use vstd::std_specs::btree::group_btree_axioms, vstd::laws_cmp::group_laws_cmp;

        let mut e = match self.sems.remove(&key) {
            Some(e) => e,
            None => {
                return SemaphoreResult::NotExist;
            },
        };
        let r = if e.waiters.len() > 0 {
            let pid = e.waiters.remove(0);
            SemaphoreResult::WakeUp(pid)
        } else {
            e.count = e.count + 1;
            SemaphoreResult::Success
        };
        self.sems.insert(key, e);
        r
    }

    /// The count of the semaphore under `key`, if there is one.
    pub fn count(&self, key: u32) -> (r: Option<usize>)
        ensures
            r == (match self.sem(key) {
                Some(s) => Some(s.count),
                None => None::<usize>,
            }),
    {
        broadcast use vstd::std_specs::btree::group_btree_axioms, vstd::laws_cmp::group_laws_cmp;

        match self.sems.get(&key) {
            Some(e) => Some(e.count),
            None => None,
        }
    }
}

} // verus!
