//! The kernel's process manager: the table of processes, the queue of ready
//! ones and who waits for whom, and how these change when processes are
//! scheduled, blocked, woken up and killed.

use vstd::prelude::*;

use ahash::RandomState;
use hashbrown::HashMap as HbMap;
use std::collections::BTreeSet;
use std::collections::VecDeque;

use crate::proc::ProgramStatus;

verus! {

/// What the process manager knows of a process.
#[derive(Clone, Copy, Debug, PartialEq, Eq, Structural)]
pub struct ProcInfo {
    /// Its scheduling status.
    pub status: ProgramStatus,
    /// Its exit code, once it has been killed.
    pub exit_code: Option<isize>,
    /// The value a system call of it is to be answered when it runs again.
    pub ret: Option<isize>,
    /// The timer ticks it has run for.
    pub ticks: u64,
}

/// The table of processes by id, in a hashbrown map hashed with ahash.
#[verifier::external_body]
pub struct ProcTable {
    map: HbMap<u16, ProcInfo, RandomState>,
}

/// The processes that a table holds, by id.
pub uninterp spec fn proc_table_view(t: ProcTable) -> Map<u16, ProcInfo>;

/// Calls hashbrown's `HashMap::default` (ahash's `RandomState` as hasher),
/// which makes an empty map.
#[verifier::external_body]
fn proc_table_new() -> (r: ProcTable)
    ensures
        proc_table_view(r).dom() == Set::<u16>::empty(),
{
    ProcTable { map: HbMap::default() }
}

/// Calls `HashMap::get`, which finds the value stored under `pid`, if any,
/// and copies it out.
#[verifier::external_body]
fn proc_table_get(t: &ProcTable, pid: u16) -> (r: Option<ProcInfo>)
    ensures
        proc_table_view(*t).contains_key(pid) ==> r == Some(proc_table_view(*t)[pid]),
        !proc_table_view(*t).contains_key(pid) ==> r is None,
{
    t.map.get(&pid).copied()
}

/// Calls `HashMap::insert`, which stores `info` under `pid`, in place of any
/// value stored there before.
#[verifier::external_body]
fn proc_table_insert(t: &mut ProcTable, pid: u16, info: ProcInfo)
    ensures
        proc_table_view(*final(t)) == proc_table_view(*old(t)).insert(pid, info),
{
    t.map.insert(pid, info);
}

/// Who waits for whom: for each process, the set of processes waiting for it
/// to exit, in a hashbrown map (hashed with ahash) of ordered sets.
#[verifier::external_body]
pub struct WaitTable {
    map: HbMap<u16, BTreeSet<u16>, RandomState>,
}

/// The waiters that a table holds, by the process they wait for.
pub uninterp spec fn wait_table_view(t: WaitTable) -> Map<u16, Set<u16>>;

/// Calls hashbrown's `HashMap::default`, which makes an empty map.
#[verifier::external_body]
fn wait_table_new() -> (r: WaitTable)
    ensures
        wait_table_view(r).dom() == Set::<u16>::empty(),
{
    WaitTable { map: HbMap::default() }
}

/// Calls `HashMap::entry(pid).or_default()` and `BTreeSet::insert`, which add
/// `waiter` to the set stored under `pid`, starting from an empty set.
#[verifier::external_body]
fn wait_table_add(t: &mut WaitTable, pid: u16, waiter: u16)
    ensures
        wait_table_view(*final(t)) == wait_table_view(*old(t)).insert(
            pid,
            if wait_table_view(*old(t)).contains_key(pid) {
                wait_table_view(*old(t))[pid].insert(waiter)
            } else {
                Set::<u16>::empty().insert(waiter)
            },
        ),
{
    t.map.entry(pid).or_default().insert(waiter);
}

/// Calls `HashMap::remove`, which takes the set stored under `pid` out (an
/// empty one where there is none), and hands its items out in the ascending
/// order in which a `BTreeSet` yields them.
#[verifier::external_body]
fn wait_table_take(t: &mut WaitTable, pid: u16) -> (r: Vec<u16>)
    ensures
        wait_table_view(*final(t)) == wait_table_view(*old(t)).remove(pid),
        ascending(r@),
        wait_table_view(*old(t)).contains_key(pid) ==> forall|x: u16|
            r@.contains(x) <==> wait_table_view(*old(t))[pid].contains(x),
        !wait_table_view(*old(t)).contains_key(pid) ==> r@.len() == 0,
{
    t.map.remove(&pid).unwrap_or_default().into_iter().collect()
}

/// Whether `s` is strictly ascending.
pub open spec fn ascending(s: Seq<u16>) -> bool {
    forall|i: int, j: int| 0 <= i < j < s.len() ==> s[i] < s[j]
}

/// The items below `n` of a set of process ids, in ascending order.
pub open spec fn ids_below(set: Set<u16>, n: nat) -> Seq<u16>
    decreases n,
{
    if n == 0 {
        Seq::empty()
    } else {
        let p = ids_below(set, (n - 1) as nat);
        if set.contains((n - 1) as u16) {
            p.push((n - 1) as u16)
        } else {
            p
        }
    }
}

/// The items of a set of process ids in ascending order.
pub open spec fn sorted_ids(set: Set<u16>) -> Seq<u16> {
    ids_below(set, 0x10000)
}

/// `ids_below` is ascending and holds exactly the set's items below `n`.
pub proof fn lemma_ids_below(set: Set<u16>, n: nat)
    requires
        n <= 0x10000,
    ensures
        ascending(ids_below(set, n)),
        forall|x: u16| ids_below(set, n).contains(x) <==> (set.contains(x) && x < n),
        forall|i: int| 0 <= i < ids_below(set, n).len() ==> ids_below(set, n)[i] < n,
    decreases n,
{
    if n > 0 {
        let m = (n - 1) as nat;
        lemma_ids_below(set, m);
        let p = ids_below(set, m);
        let y = m as u16;
        assert(y == m);
        if set.contains(y) {
            let q = p.push(y);
            assert forall|x: u16| q.contains(x) <==> (set.contains(x) && x < n) by {
                if q.contains(x) {
                    let i = choose|i: int| 0 <= i < q.len() && q[i] == x;
                    if i < p.len() {
                        assert(p[i] == x);
                        assert(p.contains(x));
                    }
                }
                if set.contains(x) && x < n {
                    if x < m {
                        assert(p.contains(x));
                        let i = choose|i: int| 0 <= i < p.len() && p[i] == x;
                        assert(q[i] == x);
                    } else {
                        assert(q[p.len() as int] == x);
                    }
                }
            }
        } else {
            assert forall|x: u16| p.contains(x) <==> (set.contains(x) && x < n) by {
                if set.contains(x) && x < n {
                    assert(x != y);
                    assert(x < m);
                }
            }
        }
    }
}

/// The ascending sequence of a set's items is `sorted_ids`.
pub proof fn lemma_sorted_ids(set: Set<u16>, s: Seq<u16>)
    requires
        ascending(s),
        forall|x: u16| s.contains(x) <==> set.contains(x),
    ensures
        sorted_ids(set) == s,
        forall|x: u16| sorted_ids(set).contains(x) <==> set.contains(x),
{
    lemma_ids_below(set, 0x10000);
    assert forall|x: u16| ids_below(set, 0x10000).contains(x) <==> s.contains(x) by {
        assert(x < 0x10000);
    }
    lemma_ascending_unique(ids_below(set, 0x10000), s);
}

/// Two ascending sequences with the same items are equal.
pub proof fn lemma_ascending_unique(a: Seq<u16>, b: Seq<u16>)
    requires
        ascending(a),
        ascending(b),
        forall|x: u16| a.contains(x) <==> b.contains(x),
    ensures
        a == b,
    decreases a.len(),
{
    if a.len() == 0 {
        if b.len() > 0 {
            assert(b.contains(b[0]));
        }
        assert(a =~= b);
    } else {
        assert(a.contains(a[0]));
        assert(b.contains(a[0]));
        let j = choose|j: int| 0 <= j < b.len() && b[j] == a[0];
        assert(b.contains(b[0]));
        assert(a.contains(b[0]));
        let i = choose|i: int| 0 <= i < a.len() && a[i] == b[0];
        assert(a[0] <= a[i]);
        assert(b[0] <= b[j]);
        assert(a[0] == b[0]);
        let a1 = a.drop_first();
        let b1 = b.drop_first();
        assert forall|x: u16| a1.contains(x) <==> b1.contains(x) by {
            if a1.contains(x) {
                let k = choose|k: int| 0 <= k < a1.len() && a1[k] == x;
                assert(a[k + 1] == x);
                assert(a.contains(x));
                assert(b.contains(x));
                let m = choose|m: int| 0 <= m < b.len() && b[m] == x;
                assert(x != a[0]);
                assert(m != 0);
                assert(b1[m - 1] == x);
            }
            if b1.contains(x) {
                let k = choose|k: int| 0 <= k < b1.len() && b1[k] == x;
                assert(b[k + 1] == x);
                assert(b.contains(x));
                assert(a.contains(x));
                let m = choose|m: int| 0 <= m < a.len() && a[m] == x;
                assert(x != b[0]);
                assert(m != 0);
                assert(a1[m - 1] == x);
            }
        }
        lemma_ascending_unique(a1, b1);
        assert(a.len() == b.len());
        assert forall|k: int| 0 <= k < a.len() implies a[k] == b[k] by {
            if k > 0 {
                assert(a[k] == a1[k - 1]);
                assert(b[k] == b1[k - 1]);
            }
        }
        assert(a =~= b);
    }
}

/// The whole state of the process manager.
pub struct SchedState {
    pub procs: Map<u16, ProcInfo>,
    pub ready: Seq<u16>,
    pub waiting: Map<u16, Set<u16>>,
    pub current: u16,
}

/// `i` with the status `s`.
pub open spec fn with_status(i: ProcInfo, s: ProgramStatus) -> ProcInfo {
    ProcInfo { status: s, exit_code: i.exit_code, ret: i.ret, ticks: i.ticks }
}

/// `i` woken up: ready, answered `ret` where one is given.
pub open spec fn woken(i: ProcInfo, ret: Option<isize>) -> ProcInfo {
    ProcInfo {
        status: ProgramStatus::Ready,
        exit_code: i.exit_code,
        ret: if ret is Some {
            ret
        } else {
            i.ret
        },
        ticks: i.ticks,
    }
}

/// `i` killed with the exit code `code`.
pub open spec fn killed(i: ProcInfo, code: isize) -> ProcInfo {
    ProcInfo { status: ProgramStatus::Dead, exit_code: Some(code), ret: i.ret, ticks: i.ticks }
}

/// The manager that knows only the process `init`, which runs.
pub open spec fn spec_new(init: u16) -> SchedState {
    SchedState {
        procs: map![init => ProcInfo { status: ProgramStatus::Running, exit_code: None, ret: None, ticks: 0 }],
        ready: Seq::empty(),
        waiting: Map::empty(),
        current: init,
    }
}

/// A process added to the table (one spawned or forked), not yet queued.
pub open spec fn spec_add_proc(s: SchedState, pid: u16, info: ProcInfo) -> SchedState {
    SchedState { procs: s.procs.insert(pid, info), ..s }
}

/// `pid` put at the back of the ready queue.
pub open spec fn spec_push_ready(s: SchedState, pid: u16) -> SchedState {
    SchedState { ready: s.ready.push(pid), ..s }
}

/// The running process stopped at a timer tick or a system call: unless dead
/// it has run one more tick, and saving its context turns it from running
/// into ready.
pub open spec fn spec_save_current(s: SchedState) -> SchedState {
    let i = s.procs[s.current];
    let ticks = if i.status != ProgramStatus::Dead {
        (i.ticks + 1) as u64
    } else {
        i.ticks
    };
    let status = if i.status == ProgramStatus::Running {
        ProgramStatus::Ready
    } else {
        i.status
    };
    SchedState {
        procs: s.procs.insert(
            s.current,
            ProcInfo { status, exit_code: i.exit_code, ret: i.ret, ticks },
        ),
        ..s
    }
}

/// Whether `pid` is in the table and ready.
pub open spec fn is_ready_in(procs: Map<u16, ProcInfo>, pid: u16) -> bool {
    procs.contains_key(pid) && procs[pid].status == ProgramStatus::Ready
}

/// Whether the queue holds a process that is ready.
pub open spec fn has_ready(procs: Map<u16, ProcInfo>, q: Seq<u16>) -> bool {
    exists|i: int| 0 <= i < q.len() && is_ready_in(procs, #[trigger] q[i])
}

/// The position of the first process in the queue that is ready.
pub open spec fn first_ready(procs: Map<u16, ProcInfo>, q: Seq<u16>) -> int
    decreases q.len(),
{
    if q.len() == 0 || is_ready_in(procs, q[0]) {
        0
    } else {
        1 + first_ready(procs, q.drop_first())
    }
}

/// The first ready process of a queue that holds one is at `first_ready`, and
/// none before it is ready.
pub proof fn lemma_first_ready(procs: Map<u16, ProcInfo>, q: Seq<u16>)
    requires
        has_ready(procs, q),
    ensures
        0 <= first_ready(procs, q) < q.len(),
        is_ready_in(procs, q[first_ready(procs, q)]),
        forall|j: int| 0 <= j < first_ready(procs, q) ==> !is_ready_in(procs, #[trigger] q[j]),
    decreases q.len(),
{
    if !is_ready_in(procs, q[0]) {
        let i = choose|i: int| 0 <= i < q.len() && is_ready_in(procs, #[trigger] q[i]);
        assert(i > 0);
        assert(q.drop_first()[i - 1] == q[i]);
        lemma_first_ready(procs, q.drop_first());
        assert forall|j: int| 0 <= j < first_ready(procs, q) implies !is_ready_in(
            procs,
            #[trigger] q[j],
        ) by {
            if j > 0 {
                assert(q[j] == q.drop_first()[j - 1]);
            }
        }
    }
}

/// The switch to the next process: processes that are gone or not ready are
/// dropped from the front of the queue; the first ready one is taken out,
/// restoring its context makes it run, and it becomes the current process.
pub open spec fn spec_switch_next(s: SchedState) -> SchedState {
    let k = first_ready(s.procs, s.ready);
    let pid = s.ready[k];
    SchedState {
        procs: s.procs.insert(pid, with_status(s.procs[pid], ProgramStatus::Running)),
        ready: s.ready.skip(k + 1),
        waiting: s.waiting,
        current: pid,
    }
}

/// The current process recorded as waiting for `pid` to exit.
pub open spec fn spec_wait_pid(s: SchedState, pid: u16) -> SchedState {
    SchedState {
        waiting: s.waiting.insert(
            pid,
            if s.waiting.contains_key(pid) {
                s.waiting[pid].insert(s.current)
            } else {
                Set::<u16>::empty().insert(s.current)
            },
        ),
        ..s
    }
}

/// `pid`, where it is in the table, blocked.
pub open spec fn spec_block(s: SchedState, pid: u16) -> SchedState {
    if s.procs.contains_key(pid) {
        SchedState {
            procs: s.procs.insert(pid, with_status(s.procs[pid], ProgramStatus::Blocked)),
            ..s
        }
    } else {
        s
    }
}

/// `pid`, where it is in the table, woken up with the answer `ret` and queued.
pub open spec fn spec_wake_up(s: SchedState, pid: u16, ret: Option<isize>) -> SchedState {
    if s.procs.contains_key(pid) {
        SchedState {
            procs: s.procs.insert(pid, woken(s.procs[pid], ret)),
            ready: s.ready.push(pid),
            ..s
        }
    } else {
        s
    }
}

/// The processes `ws` woken up one after the other with the answer `ret`.
pub open spec fn spec_wake_all(s: SchedState, ws: Seq<u16>, ret: isize) -> SchedState
    decreases ws.len(),
{
    if ws.len() == 0 {
        s
    } else {
        spec_wake_up(spec_wake_all(s, ws.drop_last(), ret), ws.last(), Some(ret))
    }
}

/// The processes waiting for `pid`, in ascending order.
pub open spec fn waiters_of(waiting: Map<u16, Set<u16>>, pid: u16) -> Seq<u16> {
    if waiting.contains_key(pid) {
        sorted_ids(waiting[pid])
    } else {
        Seq::empty()
    }
}

/// `pid` killed with the exit code `ret`: nothing happens to a process that is
/// not in the table or already dead; otherwise it is dead with that exit code,
/// and the processes waiting for it are woken up, in ascending order, each
/// answered `ret`.
pub open spec fn spec_kill(s: SchedState, pid: u16, ret: isize) -> SchedState {
    if !s.procs.contains_key(pid) || s.procs[pid].status == ProgramStatus::Dead {
        s
    } else {
        let s1 = SchedState {
            procs: s.procs.insert(pid, killed(s.procs[pid], ret)),
            waiting: s.waiting.remove(pid),
            ..s
        };
        spec_wake_all(s1, waiters_of(s.waiting, pid), ret)
    }
}

/// The exit code of `pid`, where it is in the table and has one.
pub open spec fn spec_exit_code(s: SchedState, pid: u16) -> Option<isize> {
    if s.procs.contains_key(pid) {
        s.procs[pid].exit_code
    } else {
        None
    }
}

/// Whether `pid` is in the table and not dead.
pub open spec fn spec_is_alive(s: SchedState, pid: u16) -> bool {
    s.procs.contains_key(pid) && s.procs[pid].status != ProgramStatus::Dead
}

/// Only death ends a process's life: a process in the table is alive while it
/// runs, is ready or is blocked, and not once it is dead; one that is not in
/// the table is not alive. Blocking a live process keeps it alive.
pub proof fn lemma_alive_until_dead(s: SchedState, pid: u16)
    ensures
        s.procs.contains_key(pid) && (s.procs[pid].status == ProgramStatus::Running
            || s.procs[pid].status == ProgramStatus::Ready || s.procs[pid].status
            == ProgramStatus::Blocked) ==> spec_is_alive(s, pid),
        s.procs.contains_key(pid) && s.procs[pid].status == ProgramStatus::Dead ==> !spec_is_alive(
            s,
            pid,
        ),
        !s.procs.contains_key(pid) ==> !spec_is_alive(s, pid),
        spec_is_alive(s, pid) ==> spec_is_alive(spec_block(s, pid), pid),
{
}

/// The state after the running process stopped and, if ready, was queued
/// again: what a switch then picks the next process from.
pub open spec fn spec_switch_prepared(s: SchedState) -> SchedState {
    let s1 = spec_save_current(s);
    if s1.procs[s.current].status == ProgramStatus::Ready {
        spec_push_ready(s1, s.current)
    } else {
        s1
    }
}

/// A context switch at a timer tick: the running process stops, is queued
/// again where it is ready, and the next ready process runs.
pub open spec fn spec_switch(s: SchedState) -> SchedState {
    spec_switch_next(spec_switch_prepared(s))
}

/// A fork before the switch: the parent stops, the child joins the table,
/// and the parent and then the child are queued.
pub open spec fn spec_fork_prepared(s: SchedState, child: u16, info: ProcInfo) -> SchedState {
    let s2 = spec_add_proc(spec_save_current(s), child, info);
    spec_push_ready(spec_push_ready(s2, s.current), child)
}

/// The process manager of a CPU.
pub struct ProcessManager {
    processes: ProcTable,
    ready_queue: VecDeque<u16>,
    wait_queue: WaitTable,
    current: u16,
}

impl ProcessManager {
    /// The manager's state.
    pub closed spec fn state(&self) -> SchedState {
        SchedState {
            procs: proc_table_view(self.processes),
            ready: self.ready_queue@,
            waiting: wait_table_view(self.wait_queue),
            current: self.current,
        }
    }

    /// A manager whose only process is `init`, which runs.
    pub fn new(init: u16) -> (r: ProcessManager)
        ensures
            r.state() == spec_new(init),
    {
        let mut processes = proc_table_new();
        assert(proc_table_view(processes) =~= Map::<u16, ProcInfo>::empty());
        proc_table_insert(
            &mut processes,
            init,
            ProcInfo { status: ProgramStatus::Running, exit_code: None, ret: None, ticks: 0 },
        );
        let wait_queue = wait_table_new();
        assert(wait_table_view(wait_queue) =~= Map::<u16, Set<u16>>::empty());
        let r = ProcessManager { processes, ready_queue: VecDeque::new(), wait_queue, current: init };
        assert(r.state().procs =~= spec_new(init).procs);
        r
    }

    /// The id of the process that runs.
    pub fn current(&self) -> (r: u16)
        ensures
            r == self.state().current,
    {
        self.current
    }

    /// Adds a process that was spawned or forked to the table.
    pub fn add_proc(&mut self, pid: u16, info: ProcInfo)
        ensures
            final(self).state() == spec_add_proc(old(self).state(), pid, info),
    {
        proc_table_insert(&mut self.processes, pid, info);
    }

    /// Puts `pid` at the back of the ready queue.
    pub fn push_ready(&mut self, pid: u16)
        ensures
            final(self).state() == spec_push_ready(old(self).state(), pid),
    {
        self.ready_queue.push_back(pid);
    }

    /// What the table holds of `pid`.
    pub fn get_proc(&self, pid: u16) -> (r: Option<ProcInfo>)
        ensures
            self.state().procs.contains_key(pid) ==> r == Some(self.state().procs[pid]),
            !self.state().procs.contains_key(pid) ==> r is None,
    {
        proc_table_get(&self.processes, pid)
    }

    /// Whether the ready queue holds a process that is ready, so that a switch
    /// finds one.
    pub fn has_ready(&self) -> (r: bool)
        ensures
            r == has_ready(self.state().procs, self.state().ready),
    {
        let n = self.ready_queue.len();
        let mut i: usize = 0;
        while i < n
            invariant
                n == self.ready_queue@.len(),
                i <= n,
                forall|j: int| 0 <= j < i ==> !is_ready_in(proc_table_view(self.processes), #[trigger] self.ready_queue@[j]),
            decreases n - i,
        {
            let pid = self.ready_queue[i];
            match proc_table_get(&self.processes, pid) {
                Some(info) => {
                    if info.status == ProgramStatus::Ready {
                        return true;
                    }
                },
                None => {},
            }
            i = i + 1;
        }
        false
    }

    /// Records that the running process stopped: it has run one more tick,
    /// unless dead, and is ready again if it was running. The running process
    /// is in the table.
    pub fn save_current(&mut self)
        requires
            old(self).state().procs.contains_key(old(self).state().current),
            old(self).state().procs[old(self).state().current].ticks < u64::MAX,
        ensures
            final(self).state() == spec_save_current(old(self).state()),
    {
        let cur = self.current;
        let i = match proc_table_get(&self.processes, cur) {
            Some(i) => i,
            None => {
                return;
            },
        };
        let ticks = if i.status != ProgramStatus::Dead {
            i.ticks + 1
        } else {
            i.ticks
        };
        let status = if i.status == ProgramStatus::Running {
            ProgramStatus::Ready
        } else {
            i.status
        };
        proc_table_insert(
            &mut self.processes,
            cur,
            ProcInfo { status, exit_code: i.exit_code, ret: i.ret, ticks },
        );
    }

    /// Switches to the next ready process of the queue and returns its id.
    /// The queue holds a ready process.
    pub fn switch_next(&mut self) -> (r: u16)
        requires
            has_ready(old(self).state().procs, old(self).state().ready),
        ensures
            final(self).state() == spec_switch_next(old(self).state()),
            r == final(self).state().current,
            r == old(self).state().ready[first_ready(old(self).state().procs, old(self).state().ready)],
            is_ready_in(old(self).state().procs, r),
    {
        let ghost s0 = self.state();
        proof {
            lemma_first_ready(s0.procs, s0.ready);
        }
        let ghost k = first_ready(s0.procs, s0.ready);
        let len0 = self.ready_queue.len();
        let mut n: usize = 0;
        loop
            invariant
                s0 == old(self).state(),
                k == first_ready(s0.procs, s0.ready),
                len0 == s0.ready.len(),
                proc_table_view(self.processes) == s0.procs,
                wait_table_view(self.wait_queue) == s0.waiting,
                self.current == s0.current,
                0 <= k < s0.ready.len(),
                is_ready_in(s0.procs, s0.ready[k]),
                forall|j: int| 0 <= j < k ==> !is_ready_in(s0.procs, #[trigger] s0.ready[j]),
                n <= k,
                self.ready_queue@ == s0.ready.skip(n as int),
            decreases s0.ready.len() - n,
        {
            let popped = self.ready_queue.pop_front();
            let pid = match popped {
                Some(p) => p,
                None => {
                    assert(false);
                    return 0;
                },
            };
            assert(pid == s0.ready[n as int]);
            assert(self.ready_queue@ =~= s0.ready.skip(n + 1));
            match proc_table_get(&self.processes, pid) {
                Some(i) => {
                    if i.status == ProgramStatus::Ready {
                        assert(n == k);
                        proc_table_insert(
                            &mut self.processes,
                            pid,
                            ProcInfo {
                                status: ProgramStatus::Running,
                                exit_code: i.exit_code,
                                ret: i.ret,
                                ticks: i.ticks,
                            },
                        );
                        self.current = pid;
                        return pid;
                    }
                },
                None => {},
            }
            assert(n < k);
            n = n + 1;
        }
    }

    /// A context switch: the running process stops and, where it is ready, is
    /// queued again; then the next ready process runs. The running process is
    /// in the table, and a ready process is then in the queue.
    pub fn switch(&mut self) -> (r: u16)
        requires
            old(self).state().procs.contains_key(old(self).state().current),
            old(self).state().procs[old(self).state().current].ticks < u64::MAX,
            has_ready(
                spec_switch_prepared(old(self).state()).procs,
                spec_switch_prepared(old(self).state()).ready,
            ),
        ensures
            final(self).state() == spec_switch(old(self).state()),
            r == final(self).state().current,
    {
        let cur = self.current;
        self.save_current();
        match proc_table_get(&self.processes, cur) {
            Some(i) => {
                if i.status == ProgramStatus::Ready {
                    self.ready_queue.push_back(cur);
                }
            },
            None => {},
        }
        self.switch_next()
    }

    /// A timer tick: as [`ProcessManager::switch`] where a process is then
    /// ready to run; where none is, the running process is stopped (and
    /// queued where it is ready) and `None` tells that nothing can run.
    pub fn tick(&mut self) -> (r: Option<u16>)
        requires
            old(self).state().procs.contains_key(old(self).state().current),
            old(self).state().procs[old(self).state().current].ticks < u64::MAX,
        ensures
            has_ready(
                spec_switch_prepared(old(self).state()).procs,
                spec_switch_prepared(old(self).state()).ready,
            ) ==> (final(self).state() == spec_switch(old(self).state()) && r == Some(
                final(self).state().current,
            )),
            !has_ready(
                spec_switch_prepared(old(self).state()).procs,
                spec_switch_prepared(old(self).state()).ready,
            ) ==> (final(self).state() == spec_switch_prepared(old(self).state()) && r is None),
    {
        let cur = self.current;
        self.save_current();
        match proc_table_get(&self.processes, cur) {
            Some(i) => {
                if i.status == ProgramStatus::Ready {
                    self.ready_queue.push_back(cur);
                }
            },
            None => {},
        }
        if self.has_ready() {
            Some(self.switch_next())
        } else {
            None
        }
    }

    /// Starts a process: it joins the table and the back of the ready queue.
    pub fn spawn(&mut self, pid: u16, info: ProcInfo)
        ensures
            final(self).state() == spec_push_ready(spec_add_proc(old(self).state(), pid, info), pid),
    {
        proc_table_insert(&mut self.processes, pid, info);
        self.ready_queue.push_back(pid);
    }

    /// Forks the running process into the ready process `child`: the parent
    /// stops, both are queued, parent first, and the next ready process runs.
    pub fn fork(&mut self, child: u16, info: ProcInfo) -> (r: u16)
        requires
            old(self).state().procs.contains_key(old(self).state().current),
            old(self).state().procs[old(self).state().current].ticks < u64::MAX,
            child != old(self).state().current,
            info.status == ProgramStatus::Ready,
        ensures
            final(self).state() == spec_switch_next(spec_fork_prepared(old(self).state(), child, info)),
            r == final(self).state().current,
    {
        let parent = self.current;
        self.save_current();
        proc_table_insert(&mut self.processes, child, info);
        self.ready_queue.push_back(parent);
        self.ready_queue.push_back(child);
        let ghost st = self.state();
        proof {
            let i = st.ready.len() - 1;
            assert(st.ready[i] == child);
            assert(is_ready_in(st.procs, st.ready[i]));
        }
        self.switch_next()
    }

    /// Records the running process as waiting for `pid` to exit.
    pub fn wait_pid(&mut self, pid: u16)
        ensures
            final(self).state() == spec_wait_pid(old(self).state(), pid),
    {
        wait_table_add(&mut self.wait_queue, pid, self.current);
    }

    /// Blocks `pid`, where it is in the table.
    pub fn block(&mut self, pid: u16)
        ensures
            final(self).state() == spec_block(old(self).state(), pid),
    {
        match proc_table_get(&self.processes, pid) {
            Some(i) => {
                proc_table_insert(
                    &mut self.processes,
                    pid,
                    ProcInfo {
                        status: ProgramStatus::Blocked,
                        exit_code: i.exit_code,
                        ret: i.ret,
                        ticks: i.ticks,
                    },
                );
            },
            None => {},
        }
    }

    /// Wakes `pid` up, where it is in the table: it is answered `ret` where
    /// one is given, becomes ready and is queued.
    pub fn wake_up(&mut self, pid: u16, ret: Option<isize>)
        ensures
            final(self).state() == spec_wake_up(old(self).state(), pid, ret),
    {
        match proc_table_get(&self.processes, pid) {
            Some(i) => {
                let r = match ret {
                    Some(v) => Some(v),
                    None => i.ret,
                };
                proc_table_insert(
                    &mut self.processes,
                    pid,
                    ProcInfo { status: ProgramStatus::Ready, exit_code: i.exit_code, ret: r, ticks: i.ticks },
                );
                self.ready_queue.push_back(pid);
            },
            None => {},
        }
    }

    /// Kills `pid` with the exit code `ret` and wakes up those waiting for it.
    pub fn kill(&mut self, pid: u16, ret: isize)
        ensures
            final(self).state() == spec_kill(old(self).state(), pid, ret),
    {
        let ghost s0 = self.state();
        let i = match proc_table_get(&self.processes, pid) {
            Some(i) => i,
            None => {
                return;
            },
        };
        if i.status == ProgramStatus::Dead {
            return;
        }
        proc_table_insert(
            &mut self.processes,
            pid,
            ProcInfo { status: ProgramStatus::Dead, exit_code: Some(ret), ret: i.ret, ticks: i.ticks },
        );
        let waiters = wait_table_take(&mut self.wait_queue, pid);
        proof {
            if s0.waiting.contains_key(pid) {
                lemma_sorted_ids(s0.waiting[pid], waiters@);
            } else {
                assert(waiters@ =~= Seq::<u16>::empty());
            }
        }
        let ghost s1 = self.state();
        let mut k: usize = 0;
        while k < waiters.len()
            invariant
                k <= waiters@.len(),
                self.state() == spec_wake_all(s1, waiters@.take(k as int), ret),
            decreases waiters.len() - k,
        {
            assert(waiters@.take(k + 1).drop_last() =~= waiters@.take(k as int));
            self.wake_up(waiters[k], Some(ret));
            k = k + 1;
        }
        assert(waiters@.take(waiters@.len() as int) =~= waiters@);
    }

    /// Kills the running process with the exit code `ret`.
    pub fn kill_current(&mut self, ret: isize)
        ensures
            final(self).state() == spec_kill(old(self).state(), old(self).state().current, ret),
    {
        let cur = self.current;
        self.kill(cur, ret);
    }

    /// The exit code of `pid`, once it has been killed.
    pub fn exit_code(&self, pid: u16) -> (r: Option<isize>)
        ensures
            r == spec_exit_code(self.state(), pid),
    {
        match proc_table_get(&self.processes, pid) {
            Some(i) => i.exit_code,
            None => None,
        }
    }

    /// Whether `pid` is in the table and not dead.
    pub fn is_alive(&self, pid: u16) -> (r: bool)
        ensures
            r == spec_is_alive(self.state(), pid),
    {
        match proc_table_get(&self.processes, pid) {
            Some(i) => i.status != ProgramStatus::Dead,
            None => false,
        }
    }
}

/// Waking up processes one after the other leaves each of them that is in the
/// table ready, answered `ret` and queued; the table keeps its processes.
pub proof fn lemma_wake_all(s: SchedState, ws: Seq<u16>, ret: isize)
    ensures
        spec_wake_all(s, ws, ret).procs.dom() == s.procs.dom(),
        spec_wake_all(s, ws, ret).waiting == s.waiting,
        spec_wake_all(s, ws, ret).current == s.current,
        forall|p: u16|
            #![trigger spec_wake_all(s, ws, ret).procs[p]]
            s.procs.contains_key(p) && !ws.contains(p) ==> spec_wake_all(s, ws, ret).procs[p]
                == s.procs[p],
        forall|w: u16|
            #![trigger ws.contains(w)]
            ws.contains(w) && s.procs.contains_key(w) ==> {
                let t = spec_wake_all(s, ws, ret);
                &&& t.procs[w].status == ProgramStatus::Ready
                &&& t.procs[w].ret == Some(ret)
                &&& t.ready.contains(w)
            },
        spec_wake_all(s, ws, ret).ready.len() >= s.ready.len(),
        forall|i: int|
            0 <= i < s.ready.len() ==> #[trigger] spec_wake_all(s, ws, ret).ready[i] == s.ready[i],
    decreases ws.len(),
{
    if ws.len() > 0 {
        let ws0 = ws.drop_last();
        let last = ws.last();
        lemma_wake_all(s, ws0, ret);
        let u = spec_wake_all(s, ws0, ret);
        let t = spec_wake_all(s, ws, ret);
        assert(t == spec_wake_up(u, last, Some(ret)));
        assert(t.procs.dom() =~= s.procs.dom());
        assert forall|p: u16|
            #![trigger t.procs[p]]
            s.procs.contains_key(p) && !ws.contains(p) implies t.procs[p] == s.procs[p] by {
            assert(p != last);
            if ws0.contains(p) {
                let i = choose|i: int| 0 <= i < ws0.len() && ws0[i] == p;
                assert(ws[i] == p);
            }
        }
        assert forall|w: u16| #![trigger ws.contains(w)] ws.contains(w) && s.procs.contains_key(w) implies {
            &&& t.procs[w].status == ProgramStatus::Ready
            &&& t.procs[w].ret == Some(ret)
            &&& t.ready.contains(w)
        } by {
            if w == last {
                assert(t.ready[t.ready.len() - 1] == w);
            } else {
                let i = choose|i: int| 0 <= i < ws.len() && ws[i] == w;
                assert(i < ws.len() - 1);
                assert(ws0[i] == w);
                assert(ws0.contains(w));
                assert(u.ready.contains(w));
                let j = choose|j: int| 0 <= j < u.ready.len() && u.ready[j] == w;
                assert(t.ready[j] == w);
            }
        }
        assert forall|i: int| 0 <= i < s.ready.len() implies #[trigger] t.ready[i] == s.ready[i] by {
            assert(u.ready[i] == s.ready[i]);
        }
    }
}

/// When a process is killed, it is dead with the exit code it was killed
/// with, nobody waits for it any more, and every process that waited for it
/// is ready again, answered that exit code and queued.
pub proof fn lemma_kill_answers_waiters(s: SchedState, pid: u16, ret: isize, w: u16)
    requires
        spec_is_alive(s, pid),
        s.waiting.contains_key(pid),
        s.waiting[pid].contains(w),
        !s.waiting[pid].contains(pid),
        s.procs.contains_key(w),
    ensures
        ({
            let t = spec_kill(s, pid, ret);
            &&& spec_exit_code(t, pid) == Some(ret)
            &&& !spec_is_alive(t, pid)
            &&& !t.waiting.contains_key(pid)
            &&& t.procs[w].status == ProgramStatus::Ready
            &&& t.procs[w].ret == Some(ret)
            &&& t.ready.contains(w)
        }),
{
    let set = s.waiting[pid];
    lemma_ids_below(set, 0x10000);
    let ws = sorted_ids(set);
    assert(ws.contains(w));
    assert(!ws.contains(pid));
    let s1 = SchedState {
        procs: s.procs.insert(pid, killed(s.procs[pid], ret)),
        waiting: s.waiting.remove(pid),
        ..s
    };
    lemma_wake_all(s1, ws, ret);
    let t = spec_wake_all(s1, ws, ret);
    assert(t.procs[pid] == s1.procs[pid]);
    assert(s1.procs.contains_key(w));
}

/// A process that waits for a live process other than itself is, once that
/// process is killed, ready again, answered the exit code and queued; and
/// the killed process reports that exit code.
pub proof fn lemma_wait_then_kill(s: SchedState, pid: u16, ret: isize)
    requires
        spec_is_alive(s, pid),
        s.procs.contains_key(s.current),
        pid != s.current,
        !(s.waiting.contains_key(pid) && s.waiting[pid].contains(pid)),
    ensures
        ({
            let t = spec_kill(spec_wait_pid(s, pid), pid, ret);
            &&& spec_exit_code(t, pid) == Some(ret)
            &&& !spec_is_alive(t, pid)
            &&& t.procs[s.current].status == ProgramStatus::Ready
            &&& t.procs[s.current].ret == Some(ret)
            &&& t.ready.contains(s.current)
        }),
{
    let s2 = spec_wait_pid(s, pid);
    assert(s2.waiting[pid].contains(s.current));
    lemma_kill_answers_waiters(s2, pid, ret, s.current);
}

/// A blocked process that is woken up is ready again and at the back of the
/// ready queue.
pub proof fn lemma_block_then_wake(s: SchedState, pid: u16, ret: Option<isize>)
    requires
        s.procs.contains_key(pid),
    ensures
        ({
            let t = spec_wake_up(spec_block(s, pid), pid, ret);
            &&& t.procs[pid].status == ProgramStatus::Ready
            &&& t.ready == s.ready.push(pid)
            &&& (ret is Some ==> t.procs[pid].ret == ret)
        }),
{
}

/// Switching runs the first ready process of the queue: it was ready, it runs
/// now and is the current process, and it and those before it have left the
/// queue.
pub proof fn lemma_switch_runs_ready(s: SchedState)
    requires
        has_ready(s.procs, s.ready),
    ensures
        ({
            let t = spec_switch_next(s);
            &&& is_ready_in(s.procs, t.current)
            &&& t.procs[t.current].status == ProgramStatus::Running
            &&& t.ready == s.ready.skip(first_ready(s.procs, s.ready) + 1)
            &&& t.procs.dom() == s.procs.dom()
        }),
{
    lemma_first_ready(s.procs, s.ready);
    let t = spec_switch_next(s);
    assert(t.procs.dom() =~= s.procs.dom());
}

/// A fork loses neither process: afterwards the child is in the table, and
/// the parent (which was running) and the child each either run or wait in
/// the ready queue.
pub proof fn lemma_fork_keeps_both(s: SchedState, child: u16, info: ProcInfo)
    requires
        s.procs.contains_key(s.current),
        s.procs[s.current].status == ProgramStatus::Running,
        child != s.current,
        info.status == ProgramStatus::Ready,
    ensures
        ({
            let t = spec_switch_next(spec_fork_prepared(s, child, info));
            &&& t.procs.contains_key(child)
            &&& t.current == child || t.ready.contains(child)
            &&& t.current == s.current || t.ready.contains(s.current)
        }),
{
    let p = spec_fork_prepared(s, child, info);
    let n = s.ready.len() as int;
    assert(p.ready[n] == s.current);
    assert(p.ready[n + 1] == child);
    assert(is_ready_in(p.procs, p.ready[n]));
    lemma_first_ready(p.procs, p.ready);
    let k = first_ready(p.procs, p.ready);
    assert(k <= n);
    let t = spec_switch_next(p);
    assert(t.procs.dom() =~= p.procs.dom());
    if k < n {
        assert(t.ready[n - k - 1] == s.current);
        assert(t.ready[n - k] == child);
    } else {
        assert(t.ready[0] == child);
    }
}

} // verus!
