//! The round-robin scheduler: a queue of tasks, a cursor that goes round it, and
//! a quantum of timer ticks after which the running task gives way.
use vstd::prelude::*;
use std::collections::VecDeque;
use crate::process::{Activation, Process, ProcessState};

verus! {

/// Timer ticks that a task runs before it is preempted.
pub const QUANTUM: u32 = 20;

/// The number of a process.
#[derive(Debug, Clone, Copy, PartialEq, Eq, Structural)]
pub struct PID(pub u64);

/// What a task is doing.
#[derive(Debug, Clone, Copy, PartialEq, Eq, Structural)]
pub enum TaskState {
    READY,
    RUNNING,
    WAITING,
    DONE,
}

/// A process in the scheduler's queue.
pub struct Task {
    pub state: TaskState,
    pub process: Process,
    pub pid: PID,
}

/// Why a task could not be ended.
#[derive(Debug, Clone, Copy, PartialEq, Eq, Structural)]
pub enum TaskKillError {
    DoesNotExist,
}

impl Task {
    /// The task in another state.
    pub open spec fn spec_with_state(self, state: TaskState) -> Task {
        Task { state, process: self.process, pid: self.pid }
    }

    /// The task with the registers of its process saved.
    pub open spec fn spec_saved(self, registers: ProcessState) -> Task {
        Task { state: self.state, process: self.process.spec_deactivate(registers), pid: self.pid }
    }
}

/// The search for the next task to run, from the place `cursor` of the queue on
/// and round it, over at most `fuel` tasks: tasks that are done leave the queue,
/// tasks that wait are passed over, and the first task that is ready ends the
/// search. Gives the queue as the search leaves it, and the place of the task
/// found.
pub open spec fn spec_scan(tasks: Seq<Task>, cursor: int, fuel: nat) -> (Seq<Task>, Option<usize>)
    decreases fuel,
{
    if fuel == 0 || tasks.len() == 0 {
        (tasks, None)
    } else {
        let c = if 0 <= cursor < tasks.len() {
            cursor
        } else {
            0
        };
        match tasks[c].state {
            TaskState::READY => (tasks, Some(c as usize)),
            TaskState::DONE => spec_scan(tasks.remove(c), c, (fuel - 1) as nat),
            _ => spec_scan(tasks, c + 1, (fuel - 1) as nat),
        }
    }
}

/// A scheduler as plain values.
pub struct SchedulerView {
    pub tasks: Seq<Task>,
    pub current_task_ticks: u32,
    pub next_task_id: u64,
    pub current_task: Option<usize>,
    pub is_enabled: bool,
}

impl SchedulerView {
    /// The current task is in the queue, only the current task is running, the
    /// ticks of the current task are below the quantum, and no two tasks have the
    /// same number, all of which were given out already.
    pub open spec fn wf(self) -> bool {
        &&& self.current_task_ticks < QUANTUM
        &&& self.tasks.len() <= usize::MAX
        &&& match self.current_task {
            Some(c) => c < self.tasks.len(),
            None => true,
        }
        &&& forall|i: int|
            0 <= i < self.tasks.len() && (#[trigger] self.tasks[i]).state == TaskState::RUNNING
                ==> self.current_task == Some(i as usize)
        &&& forall|i: int| 0 <= i < self.tasks.len() ==> (#[trigger] self.tasks[i]).pid.0 <= self.next_task_id
        &&& forall|i: int, j: int|
            0 <= i < j < self.tasks.len() ==> (#[trigger] self.tasks[i]).pid != (
            #[trigger] self.tasks[j]).pid
    }

    /// The queue with the current task, where there is one, in another state.
    pub open spec fn spec_mark_current(self, state: TaskState) -> Seq<Task> {
        match self.current_task {
            Some(c) => if c < self.tasks.len() {
                self.tasks.update(c as int, self.tasks[c as int].spec_with_state(state))
            } else {
                self.tasks
            },
            None => self.tasks,
        }
    }

    /// The scheduler after a switch of tasks: the registers are saved with the
    /// current task, its ticks start again at zero, and the next ready task after
    /// it in the queue becomes the running, current task. Where no task is ready,
    /// none is current.
    pub open spec fn spec_swap(self, registers: ProcessState) -> SchedulerView {
        let saved = match self.current_task {
            Some(c) => if c < self.tasks.len() {
                self.tasks.update(c as int, self.tasks[c as int].spec_saved(registers))
            } else {
                self.tasks
            },
            None => self.tasks,
        };
        let start = match self.current_task {
            Some(c) => c + 1,
            None => 0,
        };
        let (tasks, next) = spec_scan(saved, start, saved.len());
        SchedulerView {
            tasks: match next {
                Some(n) => tasks.update(
                    n as int,
                    tasks[n as int].spec_with_state(TaskState::RUNNING),
                ),
                None => tasks,
            },
            current_task_ticks: 0,
            next_task_id: self.next_task_id,
            current_task: next,
            is_enabled: self.is_enabled,
        }
    }

    /// The scheduler with another queue.
    pub open spec fn spec_with_tasks(self, tasks: Seq<Task>) -> SchedulerView {
        SchedulerView { tasks, ..self }
    }

    /// Whether the next tick ends the quantum of the current task.
    pub open spec fn spec_expires(self) -> bool {
        self.is_enabled && self.current_task_ticks + 1 >= QUANTUM
    }

    /// The scheduler after a timer tick. A scheduler that is not enabled does not
    /// change. Else the tick is counted, and the tick that fills the quantum makes
    /// the current task ready again and switches tasks.
    pub open spec fn spec_tick(self, registers: ProcessState) -> SchedulerView {
        if !self.is_enabled {
            self
        } else if self.current_task_ticks + 1 < QUANTUM {
            SchedulerView { current_task_ticks: (self.current_task_ticks + 1) as u32, ..self }
        } else {
            self.spec_with_tasks(self.spec_mark_current(TaskState::READY)).spec_swap(registers)
        }
    }

    /// The scheduler after the current task was blocked: it waits, and tasks are
    /// switched.
    pub open spec fn spec_block_current(self, registers: ProcessState) -> SchedulerView {
        self.spec_with_tasks(self.spec_mark_current(TaskState::WAITING)).spec_swap(registers)
    }

    /// The scheduler after the current task was ended: it is done, and tasks are
    /// switched.
    pub open spec fn spec_end_current_task(self, registers: ProcessState) -> SchedulerView {
        self.spec_with_tasks(self.spec_mark_current(TaskState::DONE)).spec_swap(registers)
    }

    /// What it takes to run the current task; `None` where no task is current.
    pub open spec fn spec_activation(self, user_cs: u16, user_ds: u16) -> Option<Activation> {
        match self.current_task {
            Some(c) => Some(self.tasks[c as int].process.spec_activate(user_cs, user_ds)),
            None => None,
        }
    }
}

/// Whether the numbers of the tasks are all different and at most `next_task_id`.
pub open spec fn spec_pids_ok(tasks: Seq<Task>, next_task_id: u64) -> bool {
    &&& forall|i: int| 0 <= i < tasks.len() ==> (#[trigger] tasks[i]).pid.0 <= next_task_id
    &&& forall|i: int, j: int|
        0 <= i < j < tasks.len() ==> (#[trigger] tasks[i]).pid != (#[trigger] tasks[j]).pid
}

/// Whether no task is running.
pub open spec fn spec_none_running(tasks: Seq<Task>) -> bool {
    forall|i: int| 0 <= i < tasks.len() ==> (#[trigger] tasks[i]).state != TaskState::RUNNING
}

/// Taking a task out of a queue keeps the numbers of the others different, and
/// leaves no task running where none was.
pub proof fn lemma_remove_keeps(tasks: Seq<Task>, c: int, next_task_id: u64)
    requires
        0 <= c < tasks.len(),
    ensures
        spec_pids_ok(tasks, next_task_id) ==> spec_pids_ok(tasks.remove(c), next_task_id),
        spec_none_running(tasks) ==> spec_none_running(tasks.remove(c)),
{
    let r = tasks.remove(c);
    assert forall|i: int| 0 <= i < r.len() implies #[trigger] r[i] == tasks[if i < c {
        i
    } else {
        i + 1
    }] by {}
    if spec_pids_ok(tasks, next_task_id) {
        assert forall|i: int| 0 <= i < r.len() implies (#[trigger] r[i]).pid.0 <= next_task_id by {
            assert(r[i] == tasks[if i < c {
                i
            } else {
                i + 1
            }]);
        }
        assert forall|i: int, j: int| 0 <= i < j < r.len() implies (#[trigger] r[i]).pid != (
        #[trigger] r[j]).pid by {
            assert(r[i] == tasks[if i < c {
                i
            } else {
                i + 1
            }]);
            assert(r[j] == tasks[if j < c {
                j
            } else {
                j + 1
            }]);
        }
    }
    if spec_none_running(tasks) {
        assert forall|i: int| 0 <= i < r.len() implies (#[trigger] r[i]).state
            != TaskState::RUNNING by {
            assert(r[i] == tasks[if i < c {
                i
            } else {
                i + 1
            }]);
        }
    }
}

/// The search for the next task finds a task of the queue that is ready, keeps
/// the numbers of the tasks different, and leaves no task running where none was.
pub proof fn lemma_scan(tasks: Seq<Task>, cursor: int, fuel: nat, next_task_id: u64)
    requires
        tasks.len() <= usize::MAX,
    ensures
        ({
            let after = spec_scan(tasks, cursor, fuel).0;
            let next = spec_scan(tasks, cursor, fuel).1;
            &&& after.len() <= tasks.len()
            &&& match next {
                Some(n) => n < after.len() && after[n as int].state == TaskState::READY,
                None => true,
            }
            &&& spec_pids_ok(tasks, next_task_id) ==> spec_pids_ok(after, next_task_id)
            &&& spec_none_running(tasks) ==> spec_none_running(after)
        }),
    decreases fuel,
{
    if fuel > 0 && tasks.len() > 0 {
        let c = if 0 <= cursor < tasks.len() {
            cursor
        } else {
            0
        };
        if tasks[c].state == TaskState::READY {
            assert(spec_scan(tasks, cursor, fuel) == (tasks, Some(c as usize)));
        } else if tasks[c].state == TaskState::DONE {
            lemma_remove_keeps(tasks, c, next_task_id);
            lemma_scan(tasks.remove(c), c, (fuel - 1) as nat, next_task_id);
            assert(spec_scan(tasks, cursor, fuel) == spec_scan(
                tasks.remove(c),
                c,
                (fuel - 1) as nat,
            ));
        } else {
            lemma_scan(tasks, c + 1, (fuel - 1) as nat, next_task_id);
            assert(spec_scan(tasks, cursor, fuel) == spec_scan(tasks, c + 1, (fuel - 1) as nat));
        }
    } else {
        assert(spec_scan(tasks, cursor, fuel) == (tasks, None::<usize>));
    }
}

/// Tasks leave the queue only when they are done: the search for the next task
/// keeps every task that is not done, and brings in none.
pub proof fn lemma_scan_keeps(tasks: Seq<Task>, cursor: int, fuel: nat)
    ensures
        forall|j: int|
            0 <= j < spec_scan(tasks, cursor, fuel).0.len() ==> tasks.contains(
                #[trigger] spec_scan(tasks, cursor, fuel).0[j],
            ),
        forall|i: int|
            0 <= i < tasks.len() && (#[trigger] tasks[i]).state != TaskState::DONE ==> spec_scan(
                tasks,
                cursor,
                fuel,
            ).0.contains(tasks[i]),
    decreases fuel,
{
    let after = spec_scan(tasks, cursor, fuel).0;
    if fuel > 0 && tasks.len() > 0 {
        let c = if 0 <= cursor < tasks.len() {
            cursor
        } else {
            0
        };
        if tasks[c].state == TaskState::READY {
            assert(after == tasks);
        } else if tasks[c].state == TaskState::DONE {
            let rest = tasks.remove(c);
            lemma_scan_keeps(rest, c, (fuel - 1) as nat);
            assert(after == spec_scan(rest, c, (fuel - 1) as nat).0);
            assert forall|j: int| 0 <= j < after.len() implies tasks.contains(
                #[trigger] after[j],
            ) by {
                assert(rest.contains(after[j]));
                let k = choose|k: int| 0 <= k < rest.len() && rest[k] == after[j];
                assert(rest[k] == tasks[if k < c {
                    k
                } else {
                    k + 1
                }]);
            }
            assert forall|i: int|
                0 <= i < tasks.len() && (#[trigger] tasks[i]).state
                    != TaskState::DONE implies after.contains(tasks[i]) by {
                let k = if i < c {
                    i
                } else {
                    i - 1
                };
                assert(rest[k] == tasks[i]);
                assert(rest[k].state != TaskState::DONE);
            }
        } else {
            lemma_scan_keeps(tasks, c + 1, (fuel - 1) as nat);
            assert(after == spec_scan(tasks, c + 1, (fuel - 1) as nat).0);
        }
    } else {
        assert(after == tasks);
    }
    assert forall|j: int| 0 <= j < after.len() implies tasks.contains(#[trigger] after[j]) by {
        if after == tasks {
            assert(tasks[j] == after[j]);
        }
    }
    assert forall|i: int|
        0 <= i < tasks.len() && (#[trigger] tasks[i]).state != TaskState::DONE implies after.contains(
        tasks[i],
    ) by {
        if after == tasks {
            assert(after[i] == tasks[i]);
        }
    }
}

/// The scheduler.
pub struct Scheduler {
    pub tasks: VecDeque<Task>,
    /// Ticks that the current task has run in its quantum.
    pub current_task_ticks: u32,
    /// The last number that a task was given, or one above it.
    pub next_task_id: u64,
    /// The place of the current task in the queue.
    pub current_task: Option<usize>,
    pub is_enabled: bool,
}

impl Scheduler {
    /// The scheduler as plain values.
    pub open spec fn model(self) -> SchedulerView {
        SchedulerView {
            tasks: self.tasks@,
            current_task_ticks: self.current_task_ticks,
            next_task_id: self.next_task_id,
            current_task: self.current_task,
            is_enabled: self.is_enabled,
        }
    }

    /// The scheduler is well formed.
    pub open spec fn wf(self) -> bool {
        self.model().wf()
    }

    /// A scheduler without tasks that is not enabled.
    pub fn new() -> (r: Scheduler)
        ensures
            r.wf(),
            r.model() == (SchedulerView {
                tasks: Seq::empty(),
                current_task_ticks: 0,
                next_task_id: 0,
                current_task: None,
                is_enabled: false,
            }),
    {
        Scheduler {
            tasks: VecDeque::new(),
            current_task_ticks: 0,
            next_task_id: 0,
            current_task: None,
            is_enabled: false,
        }
    }

    /// Enables the scheduler: from now on ticks count.
    pub fn enable(&mut self)
        ensures
            final(self).model() == (SchedulerView { is_enabled: true, ..old(self).model() }),
    {
        self.is_enabled = true;
    }

    /// Puts the task at place `i` into another state.
    fn set_state(&mut self, i: usize, state: TaskState)
        requires
            i < old(self).tasks@.len(),
        ensures
            final(self).model() == old(self).model().spec_with_tasks(
                old(self).tasks@.update(i as int, old(self).tasks@[i as int].spec_with_state(state)),
            ),
    {
        let task = self.tasks.remove(i).unwrap();
        self.tasks.insert(i, Task { state, process: task.process, pid: task.pid });
        assert(self.tasks@ =~= old(self).tasks@.update(
            i as int,
            old(self).tasks@[i as int].spec_with_state(state),
        ));
    }

    /// Puts the current task, where there is one, into another state.
    fn mark_current(&mut self, state: TaskState)
        ensures
            final(self).model() == old(self).model().spec_with_tasks(
                old(self).model().spec_mark_current(state),
            ),
    {
        match self.current_task {
            Some(c) => {
                if c < self.tasks.len() {
                    self.set_state(c, state);
                }
            },
            None => {},
        }
    }

    /// Saves the registers with the current task, where there is one.
    fn save_current(&mut self, registers: ProcessState)
        ensures
            final(self).model() == old(self).model().spec_with_tasks(
                match old(self).current_task {
                    Some(c) => if c < old(self).tasks@.len() {
                        old(self).tasks@.update(
                            c as int,
                            old(self).tasks@[c as int].spec_saved(registers),
                        )
                    } else {
                        old(self).tasks@
                    },
                    None => old(self).tasks@,
                },
            ),
    {
        match self.current_task {
            Some(c) => {
                if c < self.tasks.len() {
                    let mut task = self.tasks.remove(c).unwrap();
                    task.process.deactivate(registers);
                    self.tasks.insert(c, task);
                    assert(self.tasks@ =~= old(self).tasks@.update(
                        c as int,
                        old(self).tasks@[c as int].spec_saved(registers),
                    ));
                }
            },
            None => {},
        }
    }

    /// Searches the queue for the next task to run, from the place after the
    /// current task on and round the queue: tasks that are done leave the queue,
    /// tasks that wait are passed over, and the first task that is ready is the
    /// one. Returns its place; `None` where no task is ready.
    fn get_next_task(&mut self) -> (r: Option<usize>)
        ensures
            final(self).tasks@ == spec_scan(
                old(self).tasks@,
                match old(self).current_task {
                    Some(c) => c + 1,
                    None => 0,
                },
                old(self).tasks@.len(),
            ).0,
            r == spec_scan(
                old(self).tasks@,
                match old(self).current_task {
                    Some(c) => c + 1,
                    None => 0,
                },
                old(self).tasks@.len(),
            ).1,
            final(self).current_task_ticks == old(self).current_task_ticks,
            final(self).next_task_id == old(self).next_task_id,
            final(self).is_enabled == old(self).is_enabled,
    {
        let mut fuel = self.tasks.len();
        let mut cursor: usize = match self.current_task {
            Some(c) => if c < usize::MAX {
                c + 1
            } else {
                0
            },
            None => 0,
        };
        let ghost start: int = match self.current_task {
            Some(c) => c + 1,
            None => 0,
        };
        assert(spec_scan(self.tasks@, start, fuel as nat) == spec_scan(
            self.tasks@,
            cursor as int,
            fuel as nat,
        )) by {
            reveal_with_fuel(spec_scan, 2);
        }
        while fuel > 0 && self.tasks.len() > 0
            invariant
                fuel <= self.tasks@.len(),
                start == match old(self).current_task {
                    Some(c) => c + 1,
                    None => 0,
                },
                self.current_task_ticks == old(self).current_task_ticks,
                self.next_task_id == old(self).next_task_id,
                self.is_enabled == old(self).is_enabled,
                spec_scan(old(self).tasks@, start, old(self).tasks@.len()) == spec_scan(
                    self.tasks@,
                    cursor as int,
                    fuel as nat,
                ),
            decreases fuel,
        {
            let c = if cursor < self.tasks.len() {
                cursor
            } else {
                0
            };
            assert(self.tasks@[c as int].state == TaskState::READY ==> spec_scan(
                self.tasks@,
                cursor as int,
                fuel as nat,
            ) == (self.tasks@, Some(c)));
            match self.tasks[c].state {
                TaskState::READY => {
                    assert(spec_scan(self.tasks@, cursor as int, fuel as nat) == (
                        self.tasks@,
                        Some(c),
                    ));
                    assert(spec_scan(old(self).tasks@, start, old(self).tasks@.len()) == (
                        self.tasks@,
                        Some(c),
                    ));
                    return Some(c);
                },
                TaskState::DONE => {
                    self.tasks.remove(c);
                    cursor = c;
                },
                _ => {
                    cursor = c + 1;
                },
            }
            fuel -= 1;
        }
        None
    }

    /// Switches tasks: see `SchedulerView::spec_swap`. Returns what it takes to
    /// run the task that is current afterwards.
    fn swap_tasks(&mut self, registers: ProcessState, user_cs: u16, user_ds: u16) -> (r: Option<
        Activation,
    >)
        ensures
            final(self).model() == old(self).model().spec_swap(registers),
            r == final(self).model().spec_activation(user_cs, user_ds),
    {
        self.save_current(registers);
        self.current_task_ticks = 0;
        let ghost saved = self.tasks@;
        let ghost start: int = match self.current_task {
            Some(c) => c + 1,
            None => 0,
        };
        let count = self.tasks.len();
        assert(saved.len() == count);
        let next = self.get_next_task();
        proof {
            lemma_scan(saved, start, saved.len(), self.next_task_id);
        }
        self.current_task = next;
        match next {
            Some(n) => {
                self.set_state(n, TaskState::RUNNING);
                Some(self.tasks[n].process.activate(user_cs, user_ds))
            },
            None => None,
        }
    }
}

/// A switch of tasks leaves a well-formed scheduler, where no task was running
/// when it began.
pub proof fn lemma_swap_wf(v: SchedulerView, registers: ProcessState)
    requires
        v.tasks.len() <= usize::MAX,
        spec_pids_ok(v.tasks, v.next_task_id),
        spec_none_running(v.tasks),
        match v.current_task {
            Some(c) => c < v.tasks.len(),
            None => true,
        },
    ensures
        v.spec_swap(registers).wf(),
        v.spec_swap(registers).tasks.len() <= v.tasks.len(),
{
    let saved = match v.current_task {
        Some(c) => if c < v.tasks.len() {
            v.tasks.update(c as int, v.tasks[c as int].spec_saved(registers))
        } else {
            v.tasks
        },
        None => v.tasks,
    };
    let start = match v.current_task {
        Some(c) => c + 1,
        None => 0,
    };
    assert(spec_pids_ok(saved, v.next_task_id));
    assert(spec_none_running(saved));
    lemma_scan(saved, start, saved.len(), v.next_task_id);
    let after = spec_scan(saved, start, saved.len()).0;
    let next = spec_scan(saved, start, saved.len()).1;
    let w = v.spec_swap(registers);
    assert(w.current_task == next);
    match next {
        Some(n) => {
            assert(w.tasks == after.update(
                n as int,
                after[n as int].spec_with_state(TaskState::RUNNING),
            ));
            assert forall|i: int, j: int| 0 <= i < j < w.tasks.len() implies (
            #[trigger] w.tasks[i]).pid != (#[trigger] w.tasks[j]).pid by {
                assert(w.tasks[i].pid == after[i].pid);
                assert(w.tasks[j].pid == after[j].pid);
            }
            assert forall|i: int| 0 <= i < w.tasks.len() implies (#[trigger] w.tasks[i]).pid.0
                <= w.next_task_id by {
                assert(w.tasks[i].pid == after[i].pid);
            }
            assert forall|i: int|
                0 <= i < w.tasks.len() && (#[trigger] w.tasks[i]).state
                    == TaskState::RUNNING implies w.current_task == Some(i as usize) by {
                if i != n {
                    assert(w.tasks[i] == after[i]);
                }
            }
        },
        None => {
            assert(w.tasks == after);
        },
    }
}

/// With the current task in a state other than running, no task of a
/// well-formed scheduler is running, and the numbers of the tasks are as before.
pub proof fn lemma_mark_current(v: SchedulerView, state: TaskState)
    requires
        v.wf(),
        state != TaskState::RUNNING,
    ensures
        spec_none_running(v.spec_mark_current(state)),
        spec_pids_ok(v.spec_mark_current(state), v.next_task_id),
        v.spec_mark_current(state).len() == v.tasks.len(),
{
    let m = v.spec_mark_current(state);
    assert forall|i: int| 0 <= i < m.len() implies (#[trigger] m[i]).state
        != TaskState::RUNNING by {
        if m[i].state == TaskState::RUNNING {
            assert(v.tasks[i].state == TaskState::RUNNING);
        }
    }
    assert forall|i: int| 0 <= i < m.len() implies (#[trigger] m[i]).pid.0 <= v.next_task_id by {
        assert(m[i].pid == v.tasks[i].pid);
    }
    assert forall|i: int, j: int| 0 <= i < j < m.len() implies (#[trigger] m[i]).pid != (
    #[trigger] m[j]).pid by {
        assert(m[i].pid == v.tasks[i].pid);
        assert(m[j].pid == v.tasks[j].pid);
    }
}

/// The place of the first task from `from` on with the number `pid`.
pub open spec fn spec_find_pid(tasks: Seq<Task>, pid: PID, from: int) -> Option<int>
    decreases tasks.len() - from,
{
    if from < 0 || from >= tasks.len() {
        None
    } else if tasks[from].pid == pid {
        Some(from)
    } else {
        spec_find_pid(tasks, pid, from + 1)
    }
}

impl Scheduler {
    /// Counts a timer tick: see `SchedulerView::spec_tick`. `registers` are the
    /// registers of the interrupted task, to be saved if it gives way. Returns
    /// what it takes to run the task that takes over, where tasks were switched
    /// and a task is ready; `None` otherwise.
    pub fn tick(&mut self, registers: ProcessState, user_cs: u16, user_ds: u16) -> (r: Option<
        Activation,
    >)
        requires
            old(self).wf(),
        ensures
            final(self).wf(),
            final(self).model() == old(self).model().spec_tick(registers),
            r == if old(self).model().spec_expires() {
                final(self).model().spec_activation(user_cs, user_ds)
            } else {
                None
            },
    {
        if !self.is_enabled {
            return None;
        }
        let ticks = self.current_task_ticks + 1;
        if ticks >= QUANTUM {
            let _n = self.tasks.len();
            proof {
                lemma_mark_current(old(self).model(), TaskState::READY);
                lemma_swap_wf(
                    old(self).model().spec_with_tasks(
                        old(self).model().spec_mark_current(TaskState::READY),
                    ),
                    registers,
                );
            }
            self.mark_current(TaskState::READY);
            self.swap_tasks(registers, user_cs, user_ds)
        } else {
            self.current_task_ticks = ticks;
            None
        }
    }

    /// Blocks the current task: it waits, and the next ready task takes over.
    /// Returns what it takes to run that task; `None` where no task is ready.
    pub fn block_current(&mut self, registers: ProcessState, user_cs: u16, user_ds: u16) -> (r:
        Option<Activation>)
        requires
            old(self).wf(),
        ensures
            final(self).wf(),
            final(self).model() == old(self).model().spec_block_current(registers),
            r == final(self).model().spec_activation(user_cs, user_ds),
    {
        let _n = self.tasks.len();
        proof {
            lemma_mark_current(old(self).model(), TaskState::WAITING);
            lemma_swap_wf(
                old(self).model().spec_with_tasks(
                    old(self).model().spec_mark_current(TaskState::WAITING),
                ),
                registers,
            );
        }
        self.mark_current(TaskState::WAITING);
        self.swap_tasks(registers, user_cs, user_ds)
    }

    /// Ends the current task: it is done, and the next ready task takes over.
    /// Returns what it takes to run that task; `None` where no task is ready.
    pub fn end_current_task(&mut self, registers: ProcessState, user_cs: u16, user_ds: u16) -> (r:
        Option<Activation>)
        requires
            old(self).wf(),
        ensures
            final(self).wf(),
            final(self).model() == old(self).model().spec_end_current_task(registers),
            r == final(self).model().spec_activation(user_cs, user_ds),
    {
        let _n = self.tasks.len();
        proof {
            lemma_mark_current(old(self).model(), TaskState::DONE);
            lemma_swap_wf(
                old(self).model().spec_with_tasks(
                    old(self).model().spec_mark_current(TaskState::DONE),
                ),
                registers,
            );
        }
        self.mark_current(TaskState::DONE);
        self.swap_tasks(registers, user_cs, user_ds)
    }

    /// Adds a process to the end of the queue as a ready task, under a number that
    /// no task has had before. Returns the number.
    pub fn push_task(&mut self, process: Process) -> (r: PID)
        requires
            old(self).wf(),
            old(self).next_task_id <= u64::MAX - 2,
        ensures
            final(self).wf(),
            r.0 == old(self).next_task_id + 1,
            forall|i: int| 0 <= i < old(self).tasks@.len() ==> old(self).tasks@[i].pid != r,
            final(self).model() == (SchedulerView {
                tasks: old(self).tasks@.push(Task { state: TaskState::READY, process, pid: r }),
                next_task_id: (old(self).next_task_id + 2) as u64,
                ..old(self).model()
            }),
    {
        self.next_task_id += 1;
        let pid = PID(self.next_task_id);
        self.tasks.push_back(Task { process, state: TaskState::READY, pid });
        self.next_task_id += 1;
        let _n = self.tasks.len();
        proof {
            let v = old(self).model();
            let w = self.model();
            assert forall|a: int| 0 <= a < v.tasks.len() implies #[trigger] w.tasks[a]
                == v.tasks[a] by {}
            assert forall|a: int|
                0 <= a < w.tasks.len() && (#[trigger] w.tasks[a]).state
                    == TaskState::RUNNING implies w.current_task == Some(a as usize) by {
                assert(a < v.tasks.len());
                assert(v.tasks[a].state == TaskState::RUNNING);
            }
            assert forall|a: int| 0 <= a < w.tasks.len() implies (#[trigger] w.tasks[a]).pid.0
                <= w.next_task_id by {
                if a < v.tasks.len() {
                    assert(w.tasks[a].pid == v.tasks[a].pid);
                }
            }
            assert forall|a: int, b: int| 0 <= a < b < w.tasks.len() implies (
            #[trigger] w.tasks[a]).pid != (#[trigger] w.tasks[b]).pid by {
                assert(w.tasks[a].pid == v.tasks[a].pid);
                if b < v.tasks.len() {
                    assert(w.tasks[b].pid == v.tasks[b].pid);
                }
            }
        }
        pid
    }

    /// Marks the task with the number `pid` as done; it leaves the queue when the
    /// search for the next task comes to it. Fails exactly when no task has the
    /// number.
    pub fn end_task(&mut self, pid: PID) -> (r: Result<(), TaskKillError>)
        requires
            old(self).wf(),
        ensures
            final(self).wf(),
            match spec_find_pid(old(self).tasks@, pid, 0) {
                Some(i) => r is Ok && final(self).model() == old(self).model().spec_with_tasks(
                    old(self).tasks@.update(i, old(self).tasks@[i].spec_with_state(TaskState::DONE)),
                ),
                None => r == Err::<(), TaskKillError>(TaskKillError::DoesNotExist)
                    && final(self).model() == old(self).model(),
            },
    {
        let mut i: usize = 0;
        while i < self.tasks.len()
            invariant
                i <= self.tasks@.len(),
                *self == *old(self),
                self.wf(),
                spec_find_pid(self.tasks@, pid, 0) == spec_find_pid(self.tasks@, pid, i as int),
            decreases self.tasks@.len() - i,
        {
            if self.tasks[i].pid.0 == pid.0 {
                self.set_state(i, TaskState::DONE);
                proof {
                    let v = old(self).model();
                    let w = self.model();
                    assert forall|a: int|
                        0 <= a < w.tasks.len() && (#[trigger] w.tasks[a]).state
                            == TaskState::RUNNING implies w.current_task == Some(a as usize) by {
                        assert(v.tasks[a].state == TaskState::RUNNING);
                    }
                    assert forall|a: int| 0 <= a < w.tasks.len() implies (#[trigger] w.tasks[a]).pid.0
                        <= w.next_task_id by {
                        assert(w.tasks[a].pid == v.tasks[a].pid);
                    }
                    assert forall|a: int, b: int| 0 <= a < b < w.tasks.len() implies (
                    #[trigger] w.tasks[a]).pid != (#[trigger] w.tasks[b]).pid by {
                        assert(w.tasks[a].pid == v.tasks[a].pid);
                        assert(w.tasks[b].pid == v.tasks[b].pid);
                    }
                }
                return Ok(());
            }
            i += 1;
        }
        Err(TaskKillError::DoesNotExist)
    }
}

/// The scheduler after the timer ticks that find the registers of `registers`,
/// one after another.
pub open spec fn spec_run(v: SchedulerView, registers: Seq<ProcessState>) -> SchedulerView
    decreases registers.len(),
{
    if registers.len() == 0 {
        v
    } else {
        spec_run(v.spec_tick(registers[0]), registers.drop_first())
    }
}

/// How often tasks are switched in those ticks.
pub open spec fn spec_switches(v: SchedulerView, registers: Seq<ProcessState>) -> nat
    decreases registers.len(),
{
    if registers.len() == 0 {
        0
    } else {
        (if v.spec_expires() {
            1nat
        } else {
            0nat
        }) + spec_switches(v.spec_tick(registers[0]), registers.drop_first())
    }
}

/// An enabled scheduler switches tasks once in every quantum of ticks: in `n`
/// ticks after `t` ticks of the running quantum, `(t + n) / QUANTUM` times; from
/// the start of a quantum, `n / QUANTUM` times. Tasks that are done and leave the
/// queue change nothing in this.
pub proof fn lemma_switch_count(v: SchedulerView, registers: Seq<ProcessState>)
    requires
        v.is_enabled,
        v.current_task_ticks < QUANTUM,
    ensures
        spec_switches(v, registers) == (v.current_task_ticks + registers.len()) / (QUANTUM as int),
        spec_run(v, registers).current_task_ticks == (v.current_task_ticks + registers.len()) % (
        QUANTUM as int),
        spec_run(v, registers).is_enabled,
    decreases registers.len(),
{
    if registers.len() > 0 {
        lemma_switch_count(v.spec_tick(registers[0]), registers.drop_first());
    }
}

/// Whether every task is ready or running: none waits, none is done.
pub open spec fn spec_all_runnable(tasks: Seq<Task>) -> bool {
    forall|i: int|
        0 <= i < tasks.len() ==> (#[trigger] tasks[i]).state == TaskState::READY || tasks[i].state
            == TaskState::RUNNING
}

/// The place after place `c` in a queue of `k` tasks, round the queue.
pub open spec fn spec_next_place(c: int, k: int) -> int {
    if c + 1 < k {
        c + 1
    } else {
        0
    }
}

/// The scheduler after the tick that ends a quantum.
pub open spec fn spec_switch(v: SchedulerView, registers: ProcessState) -> SchedulerView {
    v.spec_with_tasks(v.spec_mark_current(TaskState::READY)).spec_swap(registers)
}

/// Round robin: where no task waits and none is done, the tick that ends a
/// quantum hands the processor to the task at the next place of the queue, round
/// the queue; the queue keeps its tasks in their places, all of them ready but
/// the new current task, which is running.
pub proof fn lemma_round_robin(v: SchedulerView, registers: ProcessState)
    requires
        v.wf(),
        v.tasks.len() > 0,
        spec_all_runnable(v.tasks),
    ensures
        ({
            let w = spec_switch(v, registers);
            let next = match v.current_task {
                Some(c) => spec_next_place(c as int, v.tasks.len() as int),
                None => 0,
            };
            &&& w.wf()
            &&& w.tasks.len() == v.tasks.len()
            &&& spec_all_runnable(w.tasks)
            &&& w.current_task == Some(next as usize)
            &&& w.tasks[next].state == TaskState::RUNNING
            &&& forall|i: int| 0 <= i < w.tasks.len() ==> (#[trigger] w.tasks[i]).pid == v.tasks[i].pid
            &&& v.is_enabled && v.spec_expires() ==> v.spec_tick(registers) == w
        }),
{
    let marked = v.spec_with_tasks(v.spec_mark_current(TaskState::READY));
    lemma_mark_current(v, TaskState::READY);
    lemma_swap_wf(marked, registers);
    let saved = match marked.current_task {
        Some(c) => if c < marked.tasks.len() {
            marked.tasks.update(c as int, marked.tasks[c as int].spec_saved(registers))
        } else {
            marked.tasks
        },
        None => marked.tasks,
    };
    let start = match marked.current_task {
        Some(c) => c + 1,
        None => 0,
    };
    let next = match v.current_task {
        Some(c) => spec_next_place(c as int, v.tasks.len() as int),
        None => 0,
    };
    assert forall|i: int| 0 <= i < saved.len() implies (#[trigger] saved[i]).state
        == TaskState::READY && saved[i].pid == v.tasks[i].pid by {
        assert(v.tasks[i].state == TaskState::READY || v.tasks[i].state == TaskState::RUNNING);
        if v.tasks[i].state == TaskState::RUNNING {
            assert(v.current_task == Some(i as usize));
        }
    }
    assert(saved[next].state == TaskState::READY);
    assert(spec_scan(saved, start, saved.len()) == (saved, Some(next as usize)));
    let w = spec_switch(v, registers);
    assert(w.tasks == saved.update(next, saved[next].spec_with_state(TaskState::RUNNING)));
    assert forall|i: int| 0 <= i < w.tasks.len() implies (#[trigger] w.tasks[i]).pid
        == v.tasks[i].pid by {
        assert(saved[i].pid == v.tasks[i].pid);
    }
    assert forall|i: int| 0 <= i < w.tasks.len() implies (#[trigger] w.tasks[i]).state
        == TaskState::READY || w.tasks[i].state == TaskState::RUNNING by {
        assert(saved[i].state == TaskState::READY);
    }
}

/// The scheduler after the ticks that end the next quanta, as many as `registers`
/// holds.
pub open spec fn spec_switch_n(v: SchedulerView, registers: Seq<ProcessState>) -> SchedulerView
    decreases registers.len(),
{
    if registers.len() == 0 {
        v
    } else {
        spec_switch_n(spec_switch(v, registers[0]), registers.drop_first())
    }
}

/// The place that is `j` places after place `c` in a queue of `k` tasks, round
/// the queue.
pub open spec fn spec_place_after(c: int, k: int, j: nat) -> int
    decreases j,
{
    if j == 0 {
        c
    } else {
        spec_place_after(spec_next_place(c, k), k, (j - 1) as nat)
    }
}

/// Fairness: where no task waits and none is done, the quanta go round the
/// queue: after `j` quanta the task `j` places on is the current one.
pub proof fn lemma_quanta_go_round(v: SchedulerView, registers: Seq<ProcessState>)
    requires
        v.wf(),
        v.tasks.len() > 0,
        spec_all_runnable(v.tasks),
        v.current_task is Some,
    ensures
        ({
            let w = spec_switch_n(v, registers);
            &&& w.wf()
            &&& w.tasks.len() == v.tasks.len()
            &&& spec_all_runnable(w.tasks)
            &&& w.current_task == Some(
                spec_place_after(
                    v.current_task.unwrap() as int,
                    v.tasks.len() as int,
                    registers.len(),
                ) as usize,
            )
            &&& 0 <= spec_place_after(
                v.current_task.unwrap() as int,
                v.tasks.len() as int,
                registers.len(),
            ) < v.tasks.len()
            &&& forall|i: int| 0 <= i < w.tasks.len() ==> (#[trigger] w.tasks[i]).pid == v.tasks[i].pid
        }),
    decreases registers.len(),
{
    if registers.len() > 0 {
        lemma_round_robin(v, registers[0]);
        lemma_quanta_go_round(spec_switch(v, registers[0]), registers.drop_first());
    }
}

/// Within as many quanta as the queue has tasks, the places that the quanta come
/// to are all the places of the queue: place `i` is reached after `i - c` quanta
/// from a place `c` before it, and after `k - c + i` quanta from a place `c` at or
/// after it. So every task that is ready runs at least once in every `k` quanta,
/// which are `k * QUANTUM` ticks.
pub proof fn lemma_every_place_is_reached(c: int, k: int, i: int)
    requires
        0 <= c < k,
        0 <= i < k,
    ensures
        ({
            let j = if i > c {
                i - c
            } else {
                k - c + i
            };
            1 <= j <= k && spec_place_after(c, k, j as nat) == i
        }),
{
    let j = if i > c {
        i - c
    } else {
        k - c + i
    };
    lemma_place_after(c, k, j as nat);
}

/// The place `j` places on, for no more than a round: without the round where it
/// stays below the end of the queue, one round back where it does not.
pub proof fn lemma_place_after(c: int, k: int, j: nat)
    requires
        0 <= c < k,
        j <= k,
    ensures
        spec_place_after(c, k, j) == if c + j < k {
            c + j
        } else {
            c + j - k
        },
    decreases j,
{
    if j > 0 {
        lemma_place_after(spec_next_place(c, k), k, (j - 1) as nat);
    }
}

/// How often the task at place `i` is given the processor in the quanta that end
/// with the registers of `registers`, one after another.
pub open spec fn spec_runs(v: SchedulerView, registers: Seq<ProcessState>, i: int) -> nat
    decreases registers.len(),
{
    if registers.len() == 0 {
        0
    } else {
        (if spec_switch(v, registers[0]).current_task == Some(i as usize) {
            1nat
        } else {
            0nat
        }) + spec_runs(spec_switch(v, registers[0]), registers.drop_first(), i)
    }
}

/// The place from which the quanta go on: that of the current task, and the last
/// place of the queue where no task is current, so that the first place is next.
pub open spec fn spec_place(v: SchedulerView) -> int {
    match v.current_task {
        Some(c) => c as int,
        None => v.tasks.len() - 1,
    }
}

/// Whether place `i` is among the `j` places after place `c` in a queue of `k`
/// tasks, round the queue.
pub open spec fn spec_within(c: int, k: int, j: int, i: int) -> bool {
    (c < i && i - c <= j) || (i <= c && k - c + i <= j)
}

/// Where no task waits and none is done, any number of quanta leaves the queue
/// with its tasks, none of them waiting or done, and a task current.
pub proof fn lemma_switches_keep(v: SchedulerView, registers: Seq<ProcessState>)
    requires
        v.wf(),
        v.tasks.len() > 0,
        spec_all_runnable(v.tasks),
    ensures
        spec_switch_n(v, registers).wf(),
        spec_switch_n(v, registers).tasks.len() == v.tasks.len(),
        spec_all_runnable(spec_switch_n(v, registers).tasks),
        registers.len() > 0 ==> spec_switch_n(v, registers).current_task is Some,
        registers.len() == 0 ==> spec_switch_n(v, registers) == v,
    decreases registers.len(),
{
    if registers.len() > 0 {
        lemma_round_robin(v, registers[0]);
        lemma_switches_keep(spec_switch(v, registers[0]), registers.drop_first());
    }
}

/// Within one round of the queue no task runs twice: in no more quanta than the
/// queue has tasks, a task runs once if its place is among the places that the
/// quanta come to, and not at all otherwise.
pub proof fn lemma_runs_within_a_round(v: SchedulerView, registers: Seq<ProcessState>, i: int)
    requires
        v.wf(),
        v.tasks.len() > 0,
        spec_all_runnable(v.tasks),
        registers.len() <= v.tasks.len(),
        0 <= i < v.tasks.len(),
    ensures
        spec_runs(v, registers, i) == if spec_within(
            spec_place(v),
            v.tasks.len() as int,
            registers.len() as int,
            i,
        ) {
            1nat
        } else {
            0nat
        },
    decreases registers.len(),
{
    if registers.len() > 0 {
        lemma_round_robin(v, registers[0]);
        lemma_runs_within_a_round(spec_switch(v, registers[0]), registers.drop_first(), i);
    }
}

/// The runs of a task in quanta that follow one another add up.
pub proof fn lemma_runs_add(
    v: SchedulerView,
    first: Seq<ProcessState>,
    then: Seq<ProcessState>,
    i: int,
)
    ensures
        spec_runs(v, first + then, i) == spec_runs(v, first, i) + spec_runs(
            spec_switch_n(v, first),
            then,
            i,
        ),
    decreases first.len(),
{
    if first.len() == 0 {
        assert(first + then =~= then);
    } else {
        assert((first + then)[0] == first[0]);
        assert((first + then).drop_first() =~= first.drop_first() + then);
        lemma_runs_add(spec_switch(v, first[0]), first.drop_first(), then, i);
    }
}

/// Fair shares: where no task waits and none is done, every task of a queue of
/// `k` tasks runs exactly `m` times in `m * k` quanta, wherever the quanta begin.
/// Three tasks run 20 times each in 60 quanta.
pub proof fn lemma_fair_shares(v: SchedulerView, registers: Seq<ProcessState>, m: nat, i: int)
    requires
        v.wf(),
        v.tasks.len() > 0,
        spec_all_runnable(v.tasks),
        registers.len() == m * v.tasks.len(),
        0 <= i < v.tasks.len(),
    ensures
        spec_runs(v, registers, i) == m,
    decreases m,
{
    let k = v.tasks.len() as int;
    if m == 0 {
        assert(registers.len() == 0) by (nonlinear_arith)
            requires
                registers.len() == m * k,
                m == 0,
        ;
    } else {
        assert(registers.len() == k + (m - 1) * k) by (nonlinear_arith)
            requires
                registers.len() == m * k,
        ;
        assert((m - 1) * k >= 0) by (nonlinear_arith)
            requires
                m >= 1,
                k >= 1,
        ;
        let first = registers.take(k);
        let then = registers.skip(k);
        assert(registers =~= first + then);
        lemma_runs_add(v, first, then, i);
        lemma_runs_within_a_round(v, first, i);
        lemma_switches_keep(v, first);
        lemma_fair_shares(spec_switch_n(v, first), then, (m - 1) as nat, i);
    }
}

} // verus!
