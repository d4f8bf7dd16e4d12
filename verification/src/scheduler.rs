//! Cooperative round-robin scheduling over a fixed table of tasks.

use vstd::prelude::*;

verus! {

pub const MAX_TASKS: usize = 16;
pub const STACK_PAGES: usize = 1;
pub const PAGE_SIZE: usize = 4096;

/// Machine words pushed on a new task's stack before its first switch.
pub const INITIAL_FRAME_WORDS: usize = 7;

#[derive(Clone, Copy, PartialEq, Eq, Structural, Debug)]
pub enum TaskState {
    Empty,
    Runnable,
    Running,
    Dead,
}

#[derive(Clone, Copy, PartialEq, Eq, Structural)]
pub struct Task {
    pub id: usize,
    pub state: TaskState,
    pub rsp: usize,
    pub stack_base: usize,
    pub stack_top: usize,
}

pub open spec fn empty_task() -> Task {
    Task { id: 0, state: TaskState::Empty, rsp: 0, stack_base: 0, stack_top: 0 }
}

/// A task that exists and has not exited.
pub open spec fn live(t: Task) -> bool {
    t.state != TaskState::Empty && t.state != TaskState::Dead
}

/// No task but the current one is running.
pub open spec fn only_current_runs(tasks: Seq<Task>, current: int) -> bool {
    forall|i: int| 0 <= i < tasks.len() && i != current ==> #[trigger] tasks[i].state != TaskState::Running
}

/// How many tasks are live.
pub open spec fn count_live(tasks: Seq<Task>) -> nat
    decreases tasks.len(),
{
    if tasks.len() == 0 {
        0
    } else {
        count_live(tasks.drop_last()) + if live(tasks.last()) { 1nat } else { 0nat }
    }
}

/// The first runnable slot after `current`, going round the table, trying
/// offsets from `o` to `MAX_TASKS` (the last one is `current` itself).
pub open spec fn next_runnable_from(tasks: Seq<Task>, current: int, o: int) -> Option<int>
    decreases MAX_TASKS + 1 - o,
{
    if o > MAX_TASKS {
        None
    } else {
        let idx = (current + o) % (MAX_TASKS as int);
        if tasks[idx].state == TaskState::Runnable {
            Some(idx)
        } else {
            next_runnable_from(tasks, current, o + 1)
        }
    }
}

/// The first slot, from `i` on, holding task `id`.
pub open spec fn slot_of(tasks: Seq<Task>, id: usize, i: int) -> Option<int>
    decreases MAX_TASKS - i,
{
    if i >= MAX_TASKS {
        None
    } else if tasks[i].id == id {
        Some(i)
    } else {
        slot_of(tasks, id, i + 1)
    }
}

/// The first slot from 1 up that is empty or dead.
pub open spec fn free_slot_from(tasks: Seq<Task>, i: int) -> Option<int>
    decreases MAX_TASKS - i,
{
    if i >= MAX_TASKS {
        None
    } else if tasks[i].state == TaskState::Empty || tasks[i].state == TaskState::Dead {
        Some(i)
    } else {
        free_slot_from(tasks, i + 1)
    }
}

/// The table of tasks, the next id to give out, and the running slot.
pub struct TaskTable {
    tasks: Vec<Task>,
    next_id: usize,
    current: usize,
}

/// A switch for the caller to make: save the running context in slot
/// `from` and continue from stack pointer `to_rsp`.
#[derive(Clone, Copy, PartialEq, Eq, Structural)]
pub struct Switch {
    pub from: usize,
    pub to: usize,
    pub to_rsp: usize,
}

/// The first runnable slot after `current` in round-robin order (which may
/// be `current` itself, last).
pub fn find_next_runnable(tasks: &[Task], current: usize) -> (r: Option<usize>)
    requires
        tasks@.len() == MAX_TASKS,
        current < MAX_TASKS,
    ensures
        match r {
            Some(i) => next_runnable_from(tasks@, current as int, 1) == Some(i as int) && i < MAX_TASKS,
            None => next_runnable_from(tasks@, current as int, 1) is None,
        },
{
    let mut offset: usize = 1;
    while offset <= MAX_TASKS
        invariant
            1 <= offset <= MAX_TASKS + 1,
            tasks@.len() == MAX_TASKS,
            current < MAX_TASKS,
            next_runnable_from(tasks@, current as int, offset as int) == next_runnable_from(
                tasks@,
                current as int,
                1,
            ),
        decreases MAX_TASKS + 1 - offset,
    {
        let idx = (current + offset) % MAX_TASKS;
        if tasks[idx].state == TaskState::Runnable {
            return Some(idx);
        }
        offset += 1;
    }
    None
}

impl TaskTable {
    pub closed spec fn tasks(&self) -> Seq<Task> {
        self.tasks@
    }

    pub closed spec fn next_id(&self) -> usize {
        self.next_id
    }

    pub closed spec fn current(&self) -> usize {
        self.current
    }

    pub closed spec fn wf(&self) -> bool {
        self.tasks@.len() == MAX_TASKS && self.current < MAX_TASKS
    }

    /// At most one task runs, and it is the current one.
    pub open spec fn one_runs(&self) -> bool {
        only_current_runs(self.tasks(), self.current() as int)
    }

    /// An empty table; ids start at 1.
    pub fn new() -> (r: Self)
        ensures
            r.one_runs(),
            r.wf(),
            forall|i: int| 0 <= i < MAX_TASKS ==> #[trigger] r.tasks()[i] == empty_task(),
            r.next_id() == 1,
            r.current() == 0,
    {
        let mut tasks: Vec<Task> = Vec::new();
        let mut i: usize = 0;
        while i < MAX_TASKS
            invariant
                i <= MAX_TASKS,
                tasks@.len() == i,
                forall|k: int| 0 <= k < i ==> #[trigger] tasks@[k] == empty_task(),
            decreases MAX_TASKS - i,
        {
            tasks.push(Task { id: 0, state: TaskState::Empty, rsp: 0, stack_base: 0, stack_top: 0 });
            i += 1;
        }
        TaskTable { tasks, next_id: 1, current: 0 }
    }

    /// Makes the caller task 0, running.
    pub fn init(&mut self)
        requires
            old(self).wf(),
        ensures
            (forall|i: int| 1 <= i < MAX_TASKS ==> #[trigger] old(self).tasks()[i].state != TaskState::Running) ==> final(self).one_runs(),
            final(self).wf(),
            final(self).tasks() == old(self).tasks().update(
                0,
                Task { id: 0, state: TaskState::Running, rsp: 0, stack_base: 0, stack_top: 0 },
            ),
            final(self).current() == 0,
            final(self).next_id() == old(self).next_id(),
    {
        self.tasks.set(0, Task { id: 0, state: TaskState::Running, rsp: 0, stack_base: 0, stack_top: 0 });
        self.current = 0;
        proof {
            if forall|i: int| 1 <= i < MAX_TASKS ==> #[trigger] old(self).tasks()[i].state != TaskState::Running {
                assert forall|i: int| 0 <= i < self.tasks@.len() && i != 0 implies #[trigger] self.tasks@[i].state
                    != TaskState::Running by {
                    assert(self.tasks@[i] == old(self).tasks()[i]);
                }
            }
        }
    }

    /// Creates a runnable task in the first free slot from 1 up, with the
    /// stack at `stacks_base + slot * PAGE_SIZE`; its stack pointer leaves
    /// room for the initial frame (see `initial_frame`). Returns the new
    /// task's id.
    pub fn spawn(&mut self, entry: usize, stacks_base: usize) -> (r: Result<usize, &'static str>)
        requires
            old(self).wf(),
            stacks_base + MAX_TASKS * PAGE_SIZE <= usize::MAX,
            stacks_base >= PAGE_SIZE,
        ensures
            old(self).one_runs() ==> final(self).one_runs(),
            final(self).wf(),
            final(self).current() == old(self).current(),
            entry == 0 ==> r == Err::<usize, &'static str>("task entry is null") && *final(self) == *old(self),
            entry != 0 && free_slot_from(old(self).tasks(), 1) is None ==> r == Err::<usize, &'static str>(
                "no free task slots",
            ) && *final(self) == *old(self),
            entry != 0 && free_slot_from(old(self).tasks(), 1) is Some ==> {
                let slot = free_slot_from(old(self).tasks(), 1).unwrap();
                let base = stacks_base + slot * PAGE_SIZE;
                let top = (((base + PAGE_SIZE) as usize) & !0xFusize);
                &&& r == Ok::<usize, &'static str>(old(self).next_id())
                &&& final(self).tasks() == old(self).tasks().update(
                    slot,
                    Task {
                        id: old(self).next_id(),
                        state: TaskState::Runnable,
                        rsp: (top - INITIAL_FRAME_WORDS * 8) as usize,
                        stack_base: base as usize,
                        stack_top: top,
                    },
                )
                &&& final(self).next_id() == (if old(self).next_id() == usize::MAX {
                    0
                } else {
                    old(self).next_id() + 1
                })
            },
    {
        if entry == 0 {
            return Err("task entry is null");
        }
        let mut idx: usize = 1;
        while idx < MAX_TASKS
            invariant
                1 <= idx <= MAX_TASKS,
                self.wf(),
                *self == *old(self),
                free_slot_from(self.tasks@, idx as int) == free_slot_from(self.tasks@, 1),
            ensures
                idx <= MAX_TASKS,
                free_slot_from(self.tasks@, 1) == (if idx < MAX_TASKS {
                    Some(idx as int)
                } else {
                    None::<int>
                }),
            decreases MAX_TASKS - idx,
        {
            let st = self.tasks[idx].state;
            if st == TaskState::Empty || st == TaskState::Dead {
                break;
            }
            idx += 1;
        }
        if idx >= MAX_TASKS {
            return Err("no free task slots");
        }
        assert(idx * PAGE_SIZE <= MAX_TASKS * PAGE_SIZE) by (nonlinear_arith)
            requires
                idx < MAX_TASKS,
        ;
        let stack_base = stacks_base + idx * PAGE_SIZE;
        let end = stack_base + PAGE_SIZE;
        let stack_top = end & !0xF;
        assert(stack_top + 15 >= end && stack_top <= end) by (bit_vector)
            requires
                stack_top == end & !0xFusize,
        ;
        let sp = stack_top - INITIAL_FRAME_WORDS * 8;
        let id = self.next_id;
        self.next_id = if self.next_id == usize::MAX {
            0
        } else {
            self.next_id + 1
        };
        self.tasks.set(idx, Task { id, state: TaskState::Runnable, rsp: sp, stack_base, stack_top });
        Ok(id)
    }

    /// Picks the next runnable task after the running one; when it is
    /// another task, marks the running task runnable (if it was running)
    /// and the picked one running, makes it current, and returns the switch
    /// for the caller to perform.
    pub fn schedule(&mut self) -> (r: Option<Switch>)
        requires
            old(self).wf(),
        ensures
            old(self).one_runs() ==> final(self).one_runs(),
            final(self).wf(),
            final(self).next_id() == old(self).next_id(),
            ({
                let cur = old(self).current() as int;
                match next_runnable_from(old(self).tasks(), cur, 1) {
                    Some(n) if n != cur => {
                        let t0 = old(self).tasks();
                        let t1 = if t0[cur].state == TaskState::Running {
                            t0.update(cur, Task { state: TaskState::Runnable, ..t0[cur] })
                        } else {
                            t0
                        };
                        &&& final(self).tasks() == t1.update(n, Task { state: TaskState::Running, ..t1[n] })
                        &&& final(self).current() == n
                        &&& r == Some(Switch { from: cur as usize, to: n as usize, to_rsp: t0[n].rsp })
                    },
                    _ => r is None && *final(self) == *old(self),
                }
            }),
    {
        let current = self.current;
        let next_idx = match find_next_runnable(self.tasks.as_slice(), current) {
            Some(i) => i,
            None => return None,
        };
        if next_idx == current {
            return None;
        }
        let new_rsp = self.tasks[next_idx].rsp;
        let cur_task = self.tasks[current];
        if cur_task.state == TaskState::Running {
            self.tasks.set(current, Task { state: TaskState::Runnable, ..cur_task });
        }
        let next_task = self.tasks[next_idx];
        self.tasks.set(next_idx, Task { state: TaskState::Running, ..next_task });
        self.current = next_idx;
        Some(Switch { from: current, to: next_idx, to_rsp: new_rsp })
    }

    /// Gives the processor to the next runnable task, as `schedule`.
    pub fn yield_now(&mut self) -> (r: Option<Switch>)
        requires
            old(self).wf(),
        ensures
            old(self).one_runs() ==> final(self).one_runs(),
            final(self).wf(),
            final(self).next_id() == old(self).next_id(),
            ({
                let cur = old(self).current() as int;
                match next_runnable_from(old(self).tasks(), cur, 1) {
                    Some(n) if n != cur => {
                        let t0 = old(self).tasks();
                        let t1 = if t0[cur].state == TaskState::Running {
                            t0.update(cur, Task { state: TaskState::Runnable, ..t0[cur] })
                        } else {
                            t0
                        };
                        &&& final(self).tasks() == t1.update(n, Task { state: TaskState::Running, ..t1[n] })
                        &&& final(self).current() == n
                        &&& r == Some(Switch { from: cur as usize, to: n as usize, to_rsp: t0[n].rsp })
                    },
                    _ => r is None && *final(self) == *old(self),
                }
            }),
    {
        self.schedule()
    }

    /// Marks the running task dead and picks another one.
    pub fn exit_current_task(&mut self) -> (r: Option<Switch>)
        requires
            old(self).wf(),
        ensures
            old(self).one_runs() ==> final(self).one_runs(),
            final(self).wf(),
            ({
                let cur = old(self).current() as int;
                let t0 = old(self).tasks().update(cur, Task { state: TaskState::Dead, ..old(self).tasks()[cur] });
                match next_runnable_from(t0, cur, 1) {
                    Some(n) if n != cur => {
                        &&& final(self).tasks() == t0.update(n, Task { state: TaskState::Running, ..t0[n] })
                        &&& final(self).current() == n
                        &&& r == Some(Switch { from: cur as usize, to: n as usize, to_rsp: t0[n].rsp })
                    },
                    _ => r is None && final(self).tasks() == t0 && final(self).current() == cur,
                }
            }),
    {
        let current = self.current;
        let t = self.tasks[current];
        self.tasks.set(current, Task { state: TaskState::Dead, ..t });
        self.schedule()
    }

    /// The id of the running task.
    pub fn current_task_id(&self) -> (r: usize)
        requires
            self.wf(),
        ensures
            r == self.tasks()[self.current() as int].id,
    {
        self.tasks[self.current].id
    }

    /// The slot of the running task.
    pub fn current_task_index(&self) -> (r: usize)
        ensures
            r == self.current(),
    {
        self.current
    }

    /// Kills the task with `id` (the first slot holding that id) if it is
    /// live; false when it is not, or when no slot holds it.
    pub fn kill_task_by_id(&mut self, id: usize) -> (r: bool)
        requires
            old(self).wf(),
        ensures
            old(self).one_runs() ==> final(self).one_runs(),
            final(self).wf(),
            final(self).current() == old(self).current(),
            final(self).next_id() == old(self).next_id(),
            match slot_of(old(self).tasks(), id, 0) {
                Some(i) => if live(old(self).tasks()[i]) {
                    r && final(self).tasks() == old(self).tasks().update(
                        i,
                        Task { state: TaskState::Dead, ..old(self).tasks()[i] },
                    )
                } else {
                    !r && final(self).tasks() == old(self).tasks()
                },
                None => !r && final(self).tasks() == old(self).tasks(),
            },
    {
        let mut i: usize = 0;
        while i < MAX_TASKS
            invariant
                i <= MAX_TASKS,
                self.wf(),
                *self == *old(self),
                slot_of(self.tasks@, id, i as int) == slot_of(self.tasks@, id, 0),
            decreases MAX_TASKS - i,
        {
            let t = self.tasks[i];
            if t.id == id {
                if t.state != TaskState::Empty && t.state != TaskState::Dead {
                    self.tasks.set(i, Task { state: TaskState::Dead, ..t });
                    return true;
                }
                return false;
            }
            i += 1;
        }
        false
    }

    /// No task but the current one is running.
pub open spec fn only_current_runs(tasks: Seq<Task>, current: int) -> bool {
    forall|i: int| 0 <= i < tasks.len() && i != current ==> #[trigger] tasks[i].state != TaskState::Running
}

/// How many tasks are live.
    pub fn task_count(&self) -> (r: usize)
        requires
            self.wf(),
        ensures
            r == count_live(self.tasks()),
    {
        let mut n: usize = 0;
        let mut i: usize = 0;
        while i < MAX_TASKS
            invariant
                i <= MAX_TASKS,
                self.tasks@.len() == MAX_TASKS,
                n == count_live(self.tasks@.subrange(0, i as int)),
                n <= i,
            decreases MAX_TASKS - i,
        {
            assert(self.tasks@.subrange(0, i + 1).drop_last() =~= self.tasks@.subrange(0, i as int));
            let t = self.tasks[i];
            if t.state != TaskState::Empty && t.state != TaskState::Dead {
                n += 1;
            }
            i += 1;
        }
        assert(self.tasks@.subrange(0, MAX_TASKS as int) =~= self.tasks@);
        n
    }
}

/// The words a new task's stack holds above its stack pointer, lowest
/// address first: r15, r14, r13 (the argument), r12 (the entry), rbx,
/// rbp, and the return address `trampoline` that starts the task.
pub fn initial_frame(entry: usize, arg: usize, trampoline: usize) -> (r: Vec<usize>)
    ensures
        r@ == seq![0usize, 0usize, arg, entry, 0usize, 0usize, trampoline],
{
    let mut v: Vec<usize> = Vec::new();
    v.push(0);
    v.push(0);
    v.push(arg);
    v.push(entry);
    v.push(0);
    v.push(0);
    v.push(trampoline);
    v
}

/// Killing a live task leaves one live task fewer.
pub proof fn lemma_kill_count(tasks: Seq<Task>, i: int)
    requires
        0 <= i < tasks.len(),
        live(tasks[i]),
    ensures
        count_live(tasks.update(i, Task { state: TaskState::Dead, ..tasks[i] })) + 1 == count_live(tasks),
    decreases tasks.len(),
{
    let t2 = tasks.update(i, Task { state: TaskState::Dead, ..tasks[i] });
    if i == tasks.len() - 1 {
        assert(t2.drop_last() =~= tasks.drop_last());
    } else {
        lemma_kill_count(tasks.drop_last(), i);
        assert(t2.drop_last() =~= tasks.drop_last().update(i, Task { state: TaskState::Dead, ..tasks[i] }));
    }
}

/// The slot `k` places after `current`, going round the table.
pub open spec fn slot_after(current: int, k: int) -> int {
    (current + k) % (MAX_TASKS as int)
}

/// Round robin: the slot picked after `current` is runnable, and it is the
/// first runnable one going round the table from `current + 1` (wrapping
/// past the last slot, `current` itself tried last): every slot passed
/// over on the way is not runnable. When nothing is picked, no slot is
/// runnable.
pub proof fn lemma_round_robin(tasks: Seq<Task>, current: int)
    requires
        tasks.len() == MAX_TASKS,
        0 <= current < MAX_TASKS,
    ensures
        match next_runnable_from(tasks, current, 1) {
            Some(n) => {
                &&& 0 <= n < MAX_TASKS
                &&& tasks[n].state == TaskState::Runnable
                &&& exists|k: int| #![trigger slot_after(current, k)] 1 <= k <= MAX_TASKS && n == slot_after(current, k) && forall|j: int|
                    1 <= j < k ==> tasks[#[trigger] slot_after(current, j)].state != TaskState::Runnable
            },
            None => forall|i: int| 0 <= i < MAX_TASKS ==> tasks[i].state != TaskState::Runnable,
        },
{
    lemma_round_robin_from(tasks, current, 1);
    match next_runnable_from(tasks, current, 1) {
        Some(n) => {},
        None => {
            assert forall|i: int| 0 <= i < MAX_TASKS implies tasks[i].state != TaskState::Runnable by {
                let k = if i > current { i - current } else { i - current + MAX_TASKS };
                assert(1 <= k <= MAX_TASKS);
                assert(slot_after(current, k) == i);
            }
        },
    }
}

proof fn lemma_round_robin_from(tasks: Seq<Task>, current: int, o: int)
    requires
        tasks.len() == MAX_TASKS,
        0 <= current < MAX_TASKS,
        1 <= o <= MAX_TASKS + 1,
    ensures
        match next_runnable_from(tasks, current, o) {
            Some(n) => {
                &&& 0 <= n < MAX_TASKS
                &&& tasks[n].state == TaskState::Runnable
                &&& exists|k: int| #![trigger slot_after(current, k)] o <= k <= MAX_TASKS && n == slot_after(current, k) && forall|j: int|
                    o <= j < k ==> tasks[#[trigger] slot_after(current, j)].state != TaskState::Runnable
            },
            None => forall|j: int| o <= j <= MAX_TASKS ==> tasks[#[trigger] slot_after(current, j)].state
                != TaskState::Runnable,
        },
    decreases MAX_TASKS + 1 - o,
{
    if o <= MAX_TASKS {
        lemma_round_robin_from(tasks, current, o + 1);
        let idx = slot_after(current, o);
        if tasks[idx].state == TaskState::Runnable {
            assert(o <= o <= MAX_TASKS && idx == slot_after(current, o));
        } else {
            match next_runnable_from(tasks, current, o + 1) {
                Some(n) => {
                    let k = choose|k: int| o + 1 <= k <= MAX_TASKS && n == slot_after(current, k) && forall|j: int|
                        o + 1 <= j < k ==> tasks[#[trigger] slot_after(current, j)].state != TaskState::Runnable;
                    assert(o <= k <= MAX_TASKS && n == slot_after(current, k) && forall|j: int|
                        o <= j < k ==> tasks[#[trigger] slot_after(current, j)].state != TaskState::Runnable);
                },
                None => {},
            }
        }
    }
}

} // verus!
