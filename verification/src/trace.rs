//! Where the processor time goes: the executor's idle and busy time, and the run time of each task.
use vstd::prelude::*;

use crate::tasklist;
use crate::tasklist::{no_profiles, no_states, push_profile, push_state, states, states_mut};
use crate::ticks::{millis_at, ticks_between};
use crate::trace_switch;
use crate::trace_switch::is_trace_on;

verus! {

/// The tasks that can be told apart.
pub const MAX_TASKS: usize = 16;

/// The id of a task before it has one.
pub const NO_TASK_ID: u32 = 0xdeadbeef;

#[derive(Clone, Copy, Debug, PartialEq, Eq, Structural)]
pub struct SystemProfile {
    pub idle_ticks: u64,
    pub busy_ticks: u64,
}

impl SystemProfile {
    pub fn new() -> (profile: SystemProfile)
        ensures
            profile.idle_ticks == 0,
            profile.busy_ticks == 0,
    {
        SystemProfile { idle_ticks: 0, busy_ticks: 0 }
    }
}

#[derive(Clone, Copy, Debug, PartialEq, Eq)]
pub struct TaskProfile {
    pub name: &'static str,
    pub run_ticks: u64,
    pub longest_execution: u64,
}

/// What is known of one task.
#[derive(Clone, Copy, Debug, PartialEq, Eq)]
pub struct TaskState {
    pub name: &'static str,
    pub task_id: u32,
    /// When it was last started, in ticks.
    pub start_time: u64,
    pub run_time: u64,
    pub longest_exec: u64,
}

/// A task of which nothing but the id is known.
pub open spec fn unknown_task(task_id: u32) -> TaskState {
    TaskState { name: "unknown", task_id, start_time: 0, run_time: 0, longest_exec: 0 }
}

impl TaskState {
    pub fn new() -> (task: TaskState)
        ensures
            task == unknown_task(NO_TASK_ID),
            task.name@ == "unknown"@,
            task.task_id == 0xdeadbeef,
            task.start_time == 0,
            task.run_time == 0,
            task.longest_exec == 0,
    {
        TaskState {
            name: "unknown",
            task_id: NO_TASK_ID,
            start_time: 0,
            run_time: 0,
            longest_exec: 0,
        }
    }
}

/// The first place from `from` on at which a task is listed.
pub open spec fn listed_from(tasks: Seq<TaskState>, task_id: u32, from: int) -> Option<int>
    decreases tasks.len() - from,
{
    if from < 0 || from >= tasks.len() {
        None
    } else if tasks[from].task_id == task_id {
        Some(from)
    } else {
        listed_from(tasks, task_id, from + 1)
    }
}

/// The list after a task is looked up: a task that is not listed goes to the end, where there is
/// room for it.
pub open spec fn enlisted(tasks: Seq<TaskState>, task_id: u32) -> Seq<TaskState> {
    if listed_from(tasks, task_id, 0) is None && tasks.len() < MAX_TASKS {
        tasks.push(unknown_task(task_id))
    } else {
        tasks
    }
}

/// Where a task is found when it is looked up.
pub open spec fn place_of(tasks: Seq<TaskState>, task_id: u32) -> Option<int> {
    match listed_from(tasks, task_id, 0) {
        Some(place) => Some(place),
        None => if tasks.len() < MAX_TASKS {
            Some(tasks.len() as int)
        } else {
            None
        },
    }
}

/// The list after the task with this id was looked up and changed by `change`. Without room for the
/// task nothing happens.
pub open spec fn changed(
    tasks: Seq<TaskState>,
    task_id: u32,
    change: spec_fn(TaskState) -> TaskState,
) -> Seq<TaskState> {
    match place_of(tasks, task_id) {
        Some(place) => enlisted(tasks, task_id).update(
            place,
            change(enlisted(tasks, task_id)[place]),
        ),
        None => tasks,
    }
}

/// Whether every task is listed once, and ran no longer at once than in all.
pub open spec fn tasks_consistent(tasks: Seq<TaskState>) -> bool {
    &&& forall|i: int, j: int|
        0 <= i < j < tasks.len() ==> (#[trigger] tasks[i]).task_id != (#[trigger] tasks[j]).task_id
    &&& forall|i: int|
        0 <= i < tasks.len() ==> (#[trigger] tasks[i]).longest_exec <= tasks[i].run_time
}

/// What it means to be listed: a task is found at the first place that has its id, and it is not
/// found only where no place has it.
pub proof fn law_listed_task_is_the_first(tasks: Seq<TaskState>, task_id: u32, from: int)
    requires
        0 <= from <= tasks.len(),
    ensures
        match listed_from(tasks, task_id, from) {
            Some(place) => from <= place < tasks.len() && tasks[place].task_id == task_id
                && forall|j: int| from <= j < place ==> (#[trigger] tasks[j]).task_id != task_id,
            None => forall|j: int|
                from <= j < tasks.len() ==> (#[trigger] tasks[j]).task_id != task_id,
        },
    decreases tasks.len() - from,
{
    if from < tasks.len() && tasks[from].task_id != task_id {
        law_listed_task_is_the_first(tasks, task_id, from + 1);
    }
}

proof fn lemma_change_keeps_consistency(
    tasks: Seq<TaskState>,
    task_id: u32,
    change: spec_fn(TaskState) -> TaskState,
)
    requires
        forall|task: TaskState| (#[trigger] change(task)).task_id == task.task_id,
        place_of(tasks, task_id) matches Some(place) ==> {
            let task = enlisted(tasks, task_id)[place];
            task.longest_exec <= task.run_time ==> change(task).longest_exec <= change(
                task,
            ).run_time
        },
    ensures
        tasks_consistent(tasks) ==> tasks_consistent(changed(tasks, task_id, change)),
{
    law_listed_task_is_the_first(tasks, task_id, 0);
}

/// Where a lookup leads: to the first place that has the id of the task, or, where no place has it,
/// to a new place at the end. It leads nowhere only when the task is new and the list full.
pub proof fn law_lookup_finds_or_enlists(tasks: Seq<TaskState>, task_id: u32)
    ensures
        match place_of(tasks, task_id) {
            Some(place) => {
                &&& 0 <= place < enlisted(tasks, task_id).len()
                &&& enlisted(tasks, task_id)[place].task_id == task_id
                &&& forall|j: int| 0 <= j < place ==> (#[trigger] tasks[j]).task_id != task_id
                &&& enlisted(tasks, task_id) == if place < tasks.len() {
                    tasks
                } else {
                    tasks.push(unknown_task(task_id))
                }
            },
            None => {
                &&& tasks.len() >= MAX_TASKS
                &&& enlisted(tasks, task_id) == tasks
                &&& forall|j: int|
                    0 <= j < tasks.len() ==> (#[trigger] tasks[j]).task_id != task_id
            },
        },
{
    law_listed_task_is_the_first(tasks, task_id, 0);
}

/// A task under a name.
pub open spec fn named(name: &'static str) -> spec_fn(TaskState) -> TaskState {
    |task: TaskState| TaskState { name, ..task }
}

/// A task that starts to run.
pub open spec fn started(now: u64) -> spec_fn(TaskState) -> TaskState {
    |task: TaskState| TaskState { start_time: now, ..task }
}

/// A task that stops running: the time since it was started counts as run time.
pub open spec fn stopped(now: u64) -> spec_fn(TaskState) -> TaskState {
    |task: TaskState|
        {
            let exec_time = now - task.start_time;
            TaskState {
                run_time: (task.run_time + exec_time) as u64,
                longest_exec: if exec_time > task.longest_exec {
                    exec_time as u64
                } else {
                    task.longest_exec
                },
                ..task
            }
        }
}

/// Whether the run time of the task can take the time since it was started.
pub open spec fn can_stop(tasks: Seq<TaskState>, task_id: u32, now: u64) -> bool {
    match place_of(tasks, task_id) {
        Some(place) => {
            let task = enlisted(tasks, task_id)[place];
            task.start_time <= now && task.run_time + (now - task.start_time) <= u64::MAX
        },
        None => true,
    }
}

/// A task whose times start over.
pub open spec fn cleared(task: TaskState) -> TaskState {
    TaskState { run_time: 0, longest_exec: 0, ..task }
}

/// The sum of two tick counts, or the largest count where the sum is larger.
pub open spec fn saturating_sum(ticks: u64, more: int) -> int {
    if ticks + more <= u64::MAX {
        ticks + more
    } else {
        u64::MAX as int
    }
}

/// What a task shows in a profile.
pub open spec fn profile_of(task: TaskState) -> TaskProfile {
    TaskProfile {
        name: task.name,
        run_ticks: task.run_time,
        longest_execution: task.longest_exec,
    }
}

/// A profile of the system and of the tasks, taken at one moment.
pub struct Profile {
    pub system: SystemProfile,
    pub tasks: heapless::Vec<TaskProfile, MAX_TASKS>,
}

impl Profile {
    /// The profiles of the tasks, in the order in which the tasks were first seen.
    pub open spec fn listed(self) -> Seq<TaskProfile> {
        tasklist::profiles_of(self.tasks)
    }
}

pub struct TraceState {
    pub tasks: heapless::Vec<TaskState, MAX_TASKS>,
    pub active_task: usize,
    /// When the executor last went from idle to busy or back, in ticks.
    pub executor_transition_time: u64,
    pub profile: SystemProfile,
}

impl TraceState {
    /// The tasks that are listed, in the order in which they were first seen.
    pub open spec fn listed(self) -> Seq<TaskState> {
        tasklist::states_of(self.tasks)
    }

    /// No task is listed twice, no task ran longer at once than in all, and the executor was
    /// neither idle nor busy for longer than the clock has run.
    pub open spec fn consistent(self) -> bool {
        &&& tasks_consistent(self.listed())
        &&& self.profile.idle_ticks + self.profile.busy_ticks <= self.executor_transition_time
    }

    pub fn new() -> (trace: TraceState)
        ensures
            trace.consistent(),
            trace.listed() == Seq::<TaskState>::empty(),
            trace.active_task == 0,
            trace.executor_transition_time == 0,
            trace.profile == (SystemProfile { idle_ticks: 0, busy_ticks: 0 }),
    {
        TraceState {
            tasks: no_states(),
            active_task: 0,
            executor_transition_time: 0,
            profile: SystemProfile::new(),
        }
    }

    /// Looks a task up, and lists it if it is new and there is room.
    pub fn with_task(&mut self, task_id: u32) -> (task: Option<&mut TaskState>)
        ensures
            task is Some <==> place_of(old(self).listed(), task_id) is Some,
            task is Some ==> {
                let place = place_of(old(self).listed(), task_id)->0;
                &&& *task.unwrap() == enlisted(old(self).listed(), task_id)[place]
                &&& final(self).listed() == enlisted(old(self).listed(), task_id).update(
                    place,
                    *final(task.unwrap()),
                )
            },
            task is None ==> final(self).listed() == old(self).listed(),
            final(self).active_task == old(self).active_task,
            final(self).executor_transition_time == old(self).executor_transition_time,
            final(self).profile == old(self).profile,
    {
        let items = states(&self.tasks);
        let len: usize = items.len();
        let mut i: usize = 0;
        while i < len
            invariant
                i <= len,
                len == items@.len(),
                listed_from(items@, task_id, 0) == listed_from(items@, task_id, i as int),
                forall|j: int| 0 <= j < i ==> (#[trigger] items@[j]).task_id != task_id,
            ensures
                i <= len,
                listed_from(items@, task_id, 0) == if i < len {
                    Some(i as int)
                } else {
                    None
                },
            decreases len - i,
        {
            if items[i].task_id == task_id {
                break;
            }
            i = i + 1;
        }
        if i < len {
            let slice = states_mut(&mut self.tasks);
            Some(&mut slice[i])
        } else {
            let mut task = TaskState::new();
            task.task_id = task_id;
            match push_state(&mut self.tasks, task) {
                Ok(_) => {
                    let slice = states_mut(&mut self.tasks);
                    Some(&mut slice[len])
                },
                Err(_) => None,
            }
        }
    }

    /// Gives a task a name.
    pub fn name_task(&mut self, task_id: u32, name: &'static str)
        ensures
            final(self).listed() == changed(old(self).listed(), task_id, named(name)),
            final(self).active_task == old(self).active_task,
            final(self).executor_transition_time == old(self).executor_transition_time,
            final(self).profile == old(self).profile,
            old(self).consistent() ==> final(self).consistent(),
    {
        if let Some(task) = self.with_task(task_id) {
            task.name = name;
        }
        proof {
            lemma_change_keeps_consistency(old(self).listed(), task_id, named(name));
        }
    }

    /// Notes that a task starts to run.
    pub fn start_task(&mut self, task_id: u32, now: u64)
        ensures
            final(self).listed() == changed(old(self).listed(), task_id, started(now)),
            final(self).active_task == old(self).active_task,
            final(self).executor_transition_time == old(self).executor_transition_time,
            final(self).profile == old(self).profile,
            old(self).consistent() ==> final(self).consistent(),
    {
        if let Some(task) = self.with_task(task_id) {
            task.start_time = now;
        }
        proof {
            lemma_change_keeps_consistency(old(self).listed(), task_id, started(now));
        }
    }

    /// Notes that a task stops running, and counts its run time.
    pub fn stop_task(&mut self, task_id: u32, now: u64)
        requires
            can_stop(old(self).listed(), task_id, now),
        ensures
            final(self).listed() == changed(old(self).listed(), task_id, stopped(now)),
            final(self).active_task == old(self).active_task,
            final(self).executor_transition_time == old(self).executor_transition_time,
            final(self).profile == old(self).profile,
            old(self).consistent() ==> final(self).consistent(),
    {
        if let Some(task) = self.with_task(task_id) {
            let exec_time: u64 = ticks_between(now, task.start_time);
            task.run_time = task.run_time + exec_time;
            if exec_time > task.longest_exec {
                task.longest_exec = exec_time;
            }
        }
        proof {
            lemma_change_keeps_consistency(old(self).listed(), task_id, stopped(now));
        }
    }

    /// Whether a task can be stopped now: it was not started later, and its run time has room.
    pub fn can_stop_task(&self, task_id: u32, now: u64) -> (can: bool)
        ensures
            can == can_stop(self.listed(), task_id, now),
    {
        let items = states(&self.tasks);
        let mut i: usize = 0;
        while i < items.len()
            invariant
                i <= items@.len(),
                items@ == self.listed(),
                listed_from(items@, task_id, 0) == listed_from(items@, task_id, i as int),
            decreases items@.len() - i,
        {
            let task: TaskState = items[i];
            if task.task_id == task_id {
                return task.start_time <= now && task.run_time <= u64::MAX - (now
                    - task.start_time);
            }
            i = i + 1;
        }
        true
    }

    /// Notes that the executor goes from idle to busy.
    pub fn executor_busy(&mut self, now: u64)
        requires
            old(self).executor_transition_time <= now,
        ensures
            final(self).profile.idle_ticks == saturating_sum(
                old(self).profile.idle_ticks,
                now - old(self).executor_transition_time,
            ),
            old(self).profile.idle_ticks + (now - old(self).executor_transition_time) <= u64::MAX
                ==> final(self).profile.idle_ticks == old(self).profile.idle_ticks + (now - old(
                self,
            ).executor_transition_time),
            final(self).profile.busy_ticks == old(self).profile.busy_ticks,
            final(self).executor_transition_time == now,
            final(self).listed() == old(self).listed(),
            final(self).active_task == old(self).active_task,
            old(self).consistent() ==> final(self).consistent(),
    {
        self.profile.idle_ticks = self.profile.idle_ticks.saturating_add(
            ticks_between(now, self.executor_transition_time),
        );
        self.executor_transition_time = now;
    }

    /// Notes that the executor goes from busy to idle.
    pub fn executor_idle(&mut self, now: u64)
        requires
            old(self).executor_transition_time <= now,
        ensures
            final(self).profile.busy_ticks == saturating_sum(
                old(self).profile.busy_ticks,
                now - old(self).executor_transition_time,
            ),
            old(self).profile.busy_ticks + (now - old(self).executor_transition_time) <= u64::MAX
                ==> final(self).profile.busy_ticks == old(self).profile.busy_ticks + (now - old(
                self,
            ).executor_transition_time),
            final(self).profile.idle_ticks == old(self).profile.idle_ticks,
            final(self).executor_transition_time == now,
            final(self).listed() == old(self).listed(),
            final(self).active_task == old(self).active_task,
            old(self).consistent() ==> final(self).consistent(),
    {
        self.profile.busy_ticks = self.profile.busy_ticks.saturating_add(
            ticks_between(now, self.executor_transition_time),
        );
        self.executor_transition_time = now;
    }

    /// Starts all times over. The tasks stay listed.
    pub fn clear(&mut self)
        ensures
            final(self).profile == (SystemProfile { idle_ticks: 0, busy_ticks: 0 }),
            final(self).listed() == old(self).listed().map_values(|task: TaskState| cleared(task)),
            final(self).listed().len() == old(self).listed().len(),
            forall|i: int|
                0 <= i < old(self).listed().len() ==> #[trigger] final(self).listed()[i]
                    == (TaskState { run_time: 0, longest_exec: 0, ..old(self).listed()[i] }),
            final(self).executor_transition_time == old(self).executor_transition_time,
            final(self).active_task == old(self).active_task,
            old(self).consistent() ==> final(self).consistent(),
    {
        self.profile = SystemProfile::new();
        let ghost before = self.listed();
        let items = states_mut(&mut self.tasks);
        let len: usize = items.len();
        let mut i: usize = 0;
        while i < len
            invariant
                i <= len,
                len == items@.len(),
                len == before.len(),
                forall|j: int| 0 <= j < i ==> #[trigger] items@[j] == cleared(before[j]),
                forall|j: int| i <= j < len ==> #[trigger] items@[j] == before[j],
            decreases len - i,
        {
            items[i].run_time = 0;
            items[i].longest_exec = 0;
            i = i + 1;
        }
        assert(items@ =~= before.map_values(|task: TaskState| cleared(task)));
    }

    /// Takes a profile.
    pub fn snapshot(&self) -> (profile: Profile)
        ensures
            profile.system == self.profile,
            profile.listed() == self.listed().map_values(|task: TaskState| profile_of(task)),
            profile.listed().len() == self.listed().len(),
            forall|i: int|
                0 <= i < self.listed().len() ==> (#[trigger] profile.listed()[i]).name
                    == self.listed()[i].name,
            forall|i: int|
                0 <= i < self.listed().len() ==> (#[trigger] profile.listed()[i]).run_ticks
                    == self.listed()[i].run_time,
            forall|i: int|
                0 <= i < self.listed().len() ==> (#[trigger] profile.listed()[i]).longest_execution
                    == self.listed()[i].longest_exec,
    {
        let items = states(&self.tasks);
        let len: usize = items.len();
        let mut tasks: heapless::Vec<TaskProfile, MAX_TASKS> = no_profiles();
        let mut i: usize = 0;
        while i < len
            invariant
                i <= len,
                len == items@.len(),
                len <= MAX_TASKS,
                tasklist::profiles_of(tasks) == items@.take(i as int).map_values(
                    |task: TaskState| profile_of(task),
                ),
            decreases len - i,
        {
            let task: TaskState = items[i];
            let shown = TaskProfile {
                name: task.name,
                run_ticks: task.run_time,
                longest_execution: task.longest_exec,
            };
            let _ = push_profile(&mut tasks, shown);
            i = i + 1;
            assert(tasklist::profiles_of(tasks) =~= items@.take(i as int).map_values(
                |task: TaskState| profile_of(task),
            ));
        }
        assert(items@.take(len as int) =~= items@);
        Profile { system: self.profile, tasks }
    }
}

/// Gives a task a name in the trace.
pub fn set_task_name(trace: &mut TraceState, task_id: u32, name: &'static str)
    ensures
        trace_switch::trace_is_on() ==> final(trace).listed() == changed(
            old(trace).listed(),
            task_id,
            named(name),
        ),
        !trace_switch::trace_is_on() ==> final(trace).listed() == old(trace).listed(),
        final(trace).active_task == old(trace).active_task,
        final(trace).executor_transition_time == old(trace).executor_transition_time,
        final(trace).profile == old(trace).profile,
        old(trace).consistent() ==> final(trace).consistent(),
{
    if is_trace_on() {
        trace.name_task(task_id, name);
    }
}

/// Starts the times of the trace over.
pub fn reset_profile(trace: &mut TraceState)
    ensures
        trace_switch::trace_is_on() ==> {
            &&& final(trace).profile == (SystemProfile { idle_ticks: 0, busy_ticks: 0 })
            &&& final(trace).listed() == old(trace).listed().map_values(
                |task: TaskState| cleared(task),
            )
        },
        !trace_switch::trace_is_on() ==> final(trace).profile == old(trace).profile
            && final(trace).listed() == old(trace).listed(),
        final(trace).executor_transition_time == old(trace).executor_transition_time,
        final(trace).active_task == old(trace).active_task,
        old(trace).consistent() ==> final(trace).consistent(),
{
    if is_trace_on() {
        trace.clear();
    }
}

/// Takes a profile off the trace. Without a trace the profile is empty.
pub fn take_profile(trace: &TraceState) -> (profile: Profile)
    ensures
        trace_switch::trace_is_on() ==> profile.system == trace.profile && profile.listed()
            == trace.listed().map_values(|task: TaskState| profile_of(task)),
        trace_switch::trace_is_on() ==> forall|i: int|
            0 <= i < trace.listed().len() ==> (#[trigger] profile.listed()[i]).run_ticks
                == trace.listed()[i].run_time && profile.listed()[i].longest_execution
                == trace.listed()[i].longest_exec && profile.listed()[i].name
                == trace.listed()[i].name,
        !trace_switch::trace_is_on() ==> profile.system == (SystemProfile {
            idle_ticks: 0,
            busy_ticks: 0,
        }) && profile.listed() == Seq::<TaskProfile>::empty(),
{
    if is_trace_on() {
        trace.snapshot()
    } else {
        Profile { system: SystemProfile::new(), tasks: no_profiles() }
    }
}

/// This callback is called when the executor begins polling. This will always
/// be paired with a later call to `_embassy_trace_executor_idle`.
///
/// This marks the EXECUTOR state transition from IDLE -> SCHEDULING.
pub fn _embassy_trace_poll_start(trace: &mut TraceState, now: u64)
    requires
        trace_switch::trace_is_on() ==> old(trace).executor_transition_time <= now,
    ensures
        trace_switch::trace_is_on() ==> {
            &&& final(trace).profile.idle_ticks == saturating_sum(
                old(trace).profile.idle_ticks,
                now - old(trace).executor_transition_time,
            )
            &&& final(trace).profile.busy_ticks == old(trace).profile.busy_ticks
            &&& final(trace).executor_transition_time == now
        },
        !trace_switch::trace_is_on() ==> final(trace).profile == old(trace).profile
            && final(trace).executor_transition_time == old(trace).executor_transition_time,
        final(trace).listed() == old(trace).listed(),
        final(trace).active_task == old(trace).active_task,
        old(trace).consistent() ==> final(trace).consistent(),
{
    if is_trace_on() {
        trace.executor_busy(now);
    }
}

/// This callback is called AFTER a task has been dequeued from the runqueue,
/// and BEFORE the task is polled. There will always be a matching call to
/// `_embassy_trace_task_exec_end`.
///
/// This marks the TASK state transition from WAITING -> RUNNING
/// This marks the EXECUTOR state transition from SCHEDULING -> POLLING
pub fn _embassy_trace_task_exec_begin(trace: &mut TraceState, task_id: u32, now: u64)
    ensures
        trace_switch::trace_is_on() ==> final(trace).listed() == changed(
            old(trace).listed(),
            task_id,
            started(now),
        ),
        !trace_switch::trace_is_on() ==> final(trace).listed() == old(trace).listed(),
        final(trace).active_task == old(trace).active_task,
        final(trace).executor_transition_time == old(trace).executor_transition_time,
        final(trace).profile == old(trace).profile,
        old(trace).consistent() ==> final(trace).consistent(),
{
    if is_trace_on() {
        trace.start_task(task_id, now);
    }
}

/// This callback is called AFTER a task has completed polling. There will
/// always be a matching call to `_embassy_trace_task_exec_begin`.
///
/// This marks the TASK state transition from RUNNING to WAITING if the task was woken since it
/// was started, and from RUNNING to IDLE if it was not.
///
/// This marks the EXECUTOR state transition from POLLING -> SCHEDULING
pub fn _embassy_trace_task_exec_end(trace: &mut TraceState, task_id: u32, now: u64)
    requires
        trace_switch::trace_is_on() ==> can_stop(old(trace).listed(), task_id, now),
    ensures
        trace_switch::trace_is_on() ==> final(trace).listed() == changed(
            old(trace).listed(),
            task_id,
            stopped(now),
        ),
        !trace_switch::trace_is_on() ==> final(trace).listed() == old(trace).listed(),
        final(trace).active_task == old(trace).active_task,
        final(trace).executor_transition_time == old(trace).executor_transition_time,
        final(trace).profile == old(trace).profile,
        old(trace).consistent() ==> final(trace).consistent(),
{
    if is_trace_on() {
        trace.stop_task(task_id, now);
    }
}

/// This callback is called AFTER all dequeued tasks in a single call to poll
/// have been processed. This will always be paired with a call to
/// `_embassy_trace_executor_idle`.
///
/// This marks the EXECUTOR state transition from SCHEDULING -> IDLE
pub fn _embassy_trace_executor_idle(trace: &mut TraceState, now: u64)
    requires
        trace_switch::trace_is_on() ==> old(trace).executor_transition_time <= now,
    ensures
        trace_switch::trace_is_on() ==> {
            &&& final(trace).profile.busy_ticks == saturating_sum(
                old(trace).profile.busy_ticks,
                now - old(trace).executor_transition_time,
            )
            &&& final(trace).profile.idle_ticks == old(trace).profile.idle_ticks
            &&& final(trace).executor_transition_time == now
        },
        !trace_switch::trace_is_on() ==> final(trace).profile == old(trace).profile
            && final(trace).executor_transition_time == old(trace).executor_transition_time,
        final(trace).listed() == old(trace).listed(),
        final(trace).active_task == old(trace).active_task,
        old(trace).consistent() ==> final(trace).consistent(),
{
    if is_trace_on() {
        trace.executor_idle(now);
    }
}

/// A wake-up to be noted: which entry it is for, and its time in milliseconds, of which the lower
/// 32 bits are kept.
#[derive(Clone, Copy, Debug, PartialEq, Eq, Structural)]
pub struct Wake {
    pub entry: usize,
    pub millis: u32,
}

/// Finds the entry of a task that is woken at `now`: the first that has its id.
pub fn find_wake(task_ids: &[u32; MAX_TASKS], task_id: u32, now: u64) -> (wake: Option<Wake>)
    ensures
        match wake {
            Some(found) => {
                &&& found.entry < MAX_TASKS
                &&& task_ids[found.entry as int] == task_id
                &&& forall|j: int| 0 <= j < found.entry ==> #[trigger] task_ids[j] != task_id
                &&& found.millis == (now / 1000) % 0x1_0000_0000
            },
            None => forall|j: int| 0 <= j < MAX_TASKS ==> #[trigger] task_ids[j] != task_id,
        },
{
    let mut i: usize = 0;
    while i < MAX_TASKS
        invariant
            i <= MAX_TASKS,
            forall|j: int| 0 <= j < i ==> #[trigger] task_ids[j] != task_id,
        decreases MAX_TASKS - i,
    {
        if task_ids[i] == task_id {
            let millis: u64 = millis_at(now);
            assert(millis & 0xffff_ffff == millis % 0x1_0000_0000) by (bit_vector);
            return Some(Wake { entry: i, millis: (millis & 0xffff_ffff) as u32 });
        }
        i = i + 1;
    }
    None
}

/// This callback is called AFTER the waker for a task is awoken, and BEFORE it
/// is added to the run queue.
///
/// If the given task is currently RUNNING, this marks no state change, BUT the
/// RUNNING task will then move to the WAITING stage when polling is complete.
///
/// If the given task is currently IDLE, this marks the TASK state transition
/// from IDLE -> WAITING.
///
/// NOTE: This may be called from an interrupt, outside the context of the current
/// task or executor.
pub fn _embassy_trace_task_ready_begin(
    task_ids: &[u32; MAX_TASKS],
    task_id: u32,
    now: u64,
) -> (wake: Option<Wake>)
    ensures
        match wake {
            Some(found) => {
                &&& trace_switch::trace_is_on()
                &&& found.entry < MAX_TASKS
                &&& task_ids[found.entry as int] == task_id
                &&& forall|j: int| 0 <= j < found.entry ==> #[trigger] task_ids[j] != task_id
                &&& found.millis == (now / 1000) % 0x1_0000_0000
            },
            None => trace_switch::trace_is_on() ==> forall|j: int|
                0 <= j < MAX_TASKS ==> #[trigger] task_ids[j] != task_id,
        },
{
    if is_trace_on() {
        find_wake(task_ids, task_id, now)
    } else {
        None
    }
}

/// A change to one task leaves every other task alone and in its place, and never lists more tasks
/// than there is room for.
pub proof fn law_other_tasks_are_untouched(
    tasks: Seq<TaskState>,
    task_id: u32,
    change: spec_fn(TaskState) -> TaskState,
    i: int,
)
    requires
        tasks.len() <= MAX_TASKS,
        0 <= i < tasks.len(),
        tasks[i].task_id != task_id,
    ensures
        changed(tasks, task_id, change)[i] == tasks[i],
        tasks.len() <= changed(tasks, task_id, change).len() <= MAX_TASKS,
{
    law_listed_task_is_the_first(tasks, task_id, 0);
}

/// The time from the start of a task to its stop counts as its run time, and nothing else does.
pub proof fn law_run_time_is_time_between(
    tasks: Seq<TaskState>,
    task_id: u32,
    start: u64,
    stop: u64,
)
    requires
        place_of(tasks, task_id) is Some,
        start <= stop,
        enlisted(tasks, task_id)[place_of(tasks, task_id)->0].run_time + (stop - start) <= u64::MAX,
    ensures
        ({
            let place = place_of(tasks, task_id)->0;
            let before = enlisted(tasks, task_id)[place];
            let begun = changed(tasks, task_id, started(start));
            let ended = changed(begun, task_id, stopped(stop));
            &&& can_stop(begun, task_id, stop)
            &&& ended.len() == enlisted(tasks, task_id).len()
            &&& ended[place].run_time == before.run_time + (stop - start)
            &&& ended[place].longest_exec == if stop - start > before.longest_exec {
                stop - start
            } else {
                before.longest_exec as int
            }
            &&& ended[place].task_id == task_id
            &&& ended[place].name == before.name
        }),
{
    let begun = changed(tasks, task_id, started(start));
    law_listed_task_is_the_first(tasks, task_id, 0);
    law_listed_task_is_the_first(begun, task_id, 0);
    let place = place_of(tasks, task_id)->0;
    assert(begun[place].task_id == task_id);
    assert(forall|j: int| 0 <= j < place ==> (#[trigger] begun[j]).task_id != task_id);
}

/// Every tick of the clock counts as idle or busy: whichever way the executor goes, the two counts
/// together grow by the time that has passed, and they never grow too large to be added.
pub proof fn law_no_tick_is_lost(profile: SystemProfile, transition: u64, now: u64)
    requires
        profile.idle_ticks + profile.busy_ticks <= transition <= now,
    ensures
        saturating_sum(profile.idle_ticks, now - transition) + profile.busy_ticks
            == profile.idle_ticks + profile.busy_ticks + (now - transition),
        profile.idle_ticks + saturating_sum(profile.busy_ticks, now - transition)
            == profile.idle_ticks + profile.busy_ticks + (now - transition),
        profile.idle_ticks + profile.busy_ticks + (now - transition) <= now,
{
}

/// A profile taken right after the times started over shows every task, under its name and without
/// run time.
pub proof fn law_cleared_profile_is_empty(tasks: Seq<TaskState>, i: int)
    requires
        0 <= i < tasks.len(),
    ensures
        tasks.map_values(|task: TaskState| cleared(task)).map_values(
            |task: TaskState| profile_of(task),
        )[i] == (TaskProfile { name: tasks[i].name, run_ticks: 0, longest_execution: 0 }),
{
}

/// A task that was never seen has no name of its own and no times.
pub proof fn law_new_task_has_no_times(task_id: u32)
    ensures
        unknown_task(task_id).task_id == task_id,
        unknown_task(task_id).name@ == "unknown"@,
        unknown_task(task_id).start_time == 0,
        unknown_task(task_id).run_time == 0,
        unknown_task(task_id).longest_exec == 0,
{
}

/// What each event changes of a task, and that it leaves the rest alone: a name is the name, a
/// start is the start time, a stop adds the time since the start to the run time and keeps the
/// longest of these times, and starting over sets both back.
pub proof fn law_events_change_their_own_fields(task: TaskState, name: &'static str, now: u64)
    ensures
        named(name)(task).name == name,
        named(name)(task).task_id == task.task_id,
        named(name)(task).start_time == task.start_time,
        named(name)(task).run_time == task.run_time,
        named(name)(task).longest_exec == task.longest_exec,
        started(now)(task).start_time == now,
        started(now)(task).name == task.name,
        started(now)(task).task_id == task.task_id,
        started(now)(task).run_time == task.run_time,
        started(now)(task).longest_exec == task.longest_exec,
        stopped(now)(task).name == task.name,
        stopped(now)(task).task_id == task.task_id,
        stopped(now)(task).start_time == task.start_time,
        task.start_time <= now && task.run_time + (now - task.start_time) <= u64::MAX ==> stopped(
            now,
        )(task).run_time == task.run_time + (now - task.start_time),
        task.start_time <= now ==> stopped(now)(task).longest_exec >= task.longest_exec && stopped(
            now,
        )(task).longest_exec >= now - task.start_time && (stopped(now)(task).longest_exec
            == task.longest_exec || stopped(now)(task).longest_exec == now - task.start_time),
        cleared(task).run_time == 0,
        cleared(task).longest_exec == 0,
        cleared(task).name == task.name,
        cleared(task).task_id == task.task_id,
        cleared(task).start_time == task.start_time,
{
}

/// An event reaches the task that it is about: the first that has its id, or a new one at the end,
/// and no other. Without room for a new one nothing happens.
pub proof fn law_event_reaches_its_task(
    tasks: Seq<TaskState>,
    task_id: u32,
    change: spec_fn(TaskState) -> TaskState,
    place: int,
)
    requires
        tasks.len() <= MAX_TASKS,
        0 <= place <= tasks.len(),
        forall|j: int| 0 <= j < place ==> (#[trigger] tasks[j]).task_id != task_id,
        place < tasks.len() ==> tasks[place].task_id == task_id,
    ensures
        place < tasks.len() ==> changed(tasks, task_id, change) == tasks.update(
            place,
            change(tasks[place]),
        ),
        place == tasks.len() && tasks.len() < 16 ==> changed(tasks, task_id, change) == tasks.push(
            change(unknown_task(task_id)),
        ),
        place == tasks.len() && tasks.len() == 16 ==> changed(tasks, task_id, change) == tasks,
{
    law_listed_task_is_the_first(tasks, task_id, 0);
    if place < tasks.len() {
        assert(place_of(tasks, task_id) == Some(place));
        assert(changed(tasks, task_id, change) =~= tasks.update(place, change(tasks[place])));
    } else if tasks.len() < MAX_TASKS {
        assert(changed(tasks, task_id, change) =~= tasks.push(change(unknown_task(task_id))));
    }
}

/// A sum of ticks is exact as long as it fits, and stops at the largest count where it does not.
pub proof fn law_sum_stops_at_the_largest_count(ticks: u64, more: int)
    requires
        more >= 0,
    ensures
        ticks + more <= u64::MAX ==> saturating_sum(ticks, more) == ticks + more,
        ticks + more > u64::MAX ==> saturating_sum(ticks, more) == u64::MAX,
{
}

/// A run of executions (task, start, stop), oldest first, noted in a list of tasks.
pub open spec fn after_executions(
    tasks: Seq<TaskState>,
    executions: Seq<(u32, u64, u64)>,
) -> Seq<TaskState>
    decreases executions.len(),
{
    if executions.len() == 0 {
        tasks
    } else {
        let (task_id, start, stop) = executions.last();
        let before = after_executions(tasks, executions.drop_last());
        changed(changed(before, task_id, started(start)), task_id, stopped(stop))
    }
}

/// How long a task ran in a run of executions, in all.
pub open spec fn ran_in_all(executions: Seq<(u32, u64, u64)>, task_id: u32) -> int
    decreases executions.len(),
{
    if executions.len() == 0 {
        0
    } else {
        ran_in_all(executions.drop_last(), task_id) + if executions.last().0 == task_id {
            executions.last().2 - executions.last().1
        } else {
            0
        }
    }
}

/// Whether every execution of a run ends no earlier than it starts.
pub open spec fn well_timed(executions: Seq<(u32, u64, u64)>) -> bool {
    forall|k: int|
        0 <= k < executions.len() ==> (#[trigger] executions[k]).1 <= executions[k].2
}

proof fn lemma_ran_is_natural(executions: Seq<(u32, u64, u64)>, task_id: u32)
    requires
        well_timed(executions),
    ensures
        ran_in_all(executions, task_id) >= 0,
    decreases executions.len(),
{
    if executions.len() > 0 {
        let earlier = executions.drop_last();
        assert forall|k: int| 0 <= k < earlier.len() implies (#[trigger] earlier[k]).1
            <= earlier[k].2 by {
            assert(earlier[k] == executions[k]);
        }
        lemma_ran_is_natural(earlier, task_id);
    }
}

/// After any run of executions of any tasks, the profile of a task whose times were started over
/// shows as run time the sum of the times of its own executions, and as longest execution the
/// longest of them, which is never more than the sum.
pub proof fn law_profile_adds_up_executions(
    tasks: Seq<TaskState>,
    place: int,
    executions: Seq<(u32, u64, u64)>,
)
    requires
        tasks.len() <= MAX_TASKS,
        0 <= place < tasks.len(),
        forall|j: int|
            0 <= j < place ==> (#[trigger] tasks[j]).task_id != tasks[place].task_id,
        tasks[place].run_time == 0,
        tasks[place].longest_exec == 0,
        well_timed(executions),
        ran_in_all(executions, tasks[place].task_id) <= u64::MAX,
    ensures
        ({
            let task_id = tasks[place].task_id;
            let after = after_executions(tasks, executions);
            let profile = profile_of(after[place]);
            &&& tasks.len() <= after.len() <= MAX_TASKS
            &&& after[place].task_id == task_id
            &&& forall|j: int| 0 <= j < place ==> (#[trigger] after[j]).task_id != task_id
            &&& profile.name == tasks[place].name
            &&& profile.run_ticks == ran_in_all(executions, task_id)
            &&& profile.longest_execution <= profile.run_ticks
            &&& forall|k: int|
                0 <= k < executions.len() && (#[trigger] executions[k]).0 == task_id
                    ==> executions[k].2 - executions[k].1 <= profile.longest_execution
            &&& profile.longest_execution > 0 ==> exists|k: int|
                0 <= k < executions.len() && (#[trigger] executions[k]).0 == task_id
                    && executions[k].2 - executions[k].1 == profile.longest_execution
        }),
    decreases executions.len(),
{
    if executions.len() > 0 {
        let task_id = tasks[place].task_id;
        let earlier = executions.drop_last();
        let (id, start, stop) = executions.last();
        assert(executions.last() == executions[executions.len() - 1]);
        assert forall|k: int| 0 <= k < earlier.len() implies (#[trigger] earlier[k]).1
            <= earlier[k].2 by {
            assert(earlier[k] == executions[k]);
        }
        lemma_ran_is_natural(earlier, task_id);
        law_profile_adds_up_executions(tasks, place, earlier);
        let before = after_executions(tasks, earlier);
        let begun = changed(before, id, started(start));
        let after = changed(begun, id, stopped(stop));
        if id == task_id {
            law_event_reaches_its_task(before, id, started(start), place);
            assert forall|j: int| 0 <= j < place implies (#[trigger] begun[j]).task_id != id by {
                assert(begun[j] == before[j]);
            }
            law_event_reaches_its_task(begun, id, stopped(stop), place);
            assert forall|j: int| 0 <= j < place implies (#[trigger] after[j]).task_id != id by {
                assert(after[j] == before[j]);
            }
            assert forall|k: int|
                0 <= k < executions.len() && (#[trigger] executions[k]).0 == task_id implies
                executions[k].2 - executions[k].1 <= after[place].longest_exec by {
                if k < earlier.len() {
                    assert(earlier[k] == executions[k]);
                }
            }
            if after[place].longest_exec > 0 {
                if after[place].longest_exec == before[place].longest_exec {
                    let k = choose|k: int|
                        0 <= k < earlier.len() && (#[trigger] earlier[k]).0 == task_id
                            && earlier[k].2 - earlier[k].1 == before[place].longest_exec;
                    assert(executions[k] == earlier[k]);
                } else {
                    let k = executions.len() - 1;
                    assert(executions[k].2 - executions[k].1 == after[place].longest_exec);
                }
            }
        } else {
            lemma_other_execution_leaves_task(before, id, start, stop, place);
            assert forall|k: int|
                0 <= k < executions.len() && (#[trigger] executions[k]).0 == task_id implies
                executions[k].2 - executions[k].1 <= after[place].longest_exec by {
                assert(earlier[k] == executions[k]);
            }
            if after[place].longest_exec > 0 {
                let k = choose|k: int|
                    0 <= k < earlier.len() && (#[trigger] earlier[k]).0 == task_id && earlier[k].2
                        - earlier[k].1 == before[place].longest_exec;
                assert(executions[k] == earlier[k]);
            }
        }
    }
}

proof fn lemma_other_execution_leaves_task(
    tasks: Seq<TaskState>,
    id: u32,
    start: u64,
    stop: u64,
    place: int,
)
    requires
        tasks.len() <= MAX_TASKS,
        0 <= place < tasks.len(),
        tasks[place].task_id != id,
        forall|j: int|
            0 <= j < place ==> (#[trigger] tasks[j]).task_id != tasks[place].task_id,
    ensures
        ({
            let after = changed(changed(tasks, id, started(start)), id, stopped(stop));
            &&& tasks.len() <= after.len() <= MAX_TASKS
            &&& after[place] == tasks[place]
            &&& forall|j: int|
                0 <= j < place ==> (#[trigger] after[j]).task_id != tasks[place].task_id
        }),
{
    let begun = changed(tasks, id, started(start));
    let after = changed(begun, id, stopped(stop));
    law_listed_task_is_the_first(tasks, id, 0);
    law_listed_task_is_the_first(begun, id, 0);
    law_other_tasks_are_untouched(tasks, id, started(start), place);
    law_other_tasks_are_untouched(begun, id, stopped(stop), place);
    assert forall|j: int| 0 <= j < place implies (#[trigger] after[j]).task_id
        != tasks[place].task_id by {
        assert(tasks[j].task_id != tasks[place].task_id);
        assert(begun[j].task_id == tasks[j].task_id);
        assert(after[j].task_id == begun[j].task_id);
    }
}

/// In a profile of a consistent trace no task shows a longer execution than run time, and a task
/// that runs from `start` to `stop` shows that much more run time than before.
pub proof fn law_profile_follows_the_trace(
    tasks: Seq<TaskState>,
    task_id: u32,
    start: u64,
    stop: u64,
    i: int,
)
    requires
        tasks_consistent(tasks),
        place_of(tasks, task_id) is Some,
        start <= stop,
        enlisted(tasks, task_id)[place_of(tasks, task_id)->0].run_time + (stop - start) <= u64::MAX,
    ensures
        0 <= i < tasks.len() ==> profile_of(tasks[i]).longest_execution <= profile_of(
            tasks[i],
        ).run_ticks,
        ({
            let place = place_of(tasks, task_id)->0;
            let before = profile_of(enlisted(tasks, task_id)[place]);
            let after = profile_of(
                changed(
                    changed(tasks, task_id, started(start)),
                    task_id,
                    stopped(stop),
                )[place],
            );
            &&& after.run_ticks == before.run_ticks + (stop - start)
            &&& after.longest_execution >= stop - start
            &&& after.longest_execution >= before.longest_execution
            &&& after.longest_execution == stop - start || after.longest_execution
                == before.longest_execution
            &&& after.name == before.name
        }),
{
    law_run_time_is_time_between(tasks, task_id, start, stop);
}

/// A task cannot be stopped only if it was started later, or if its run time would grow too large.
/// A task that is not listed can be.
pub proof fn law_stop_is_refused_for_its_times(
    tasks: Seq<TaskState>,
    task_id: u32,
    now: u64,
    place: int,
)
    requires
        0 <= place <= tasks.len(),
        forall|j: int| 0 <= j < place ==> (#[trigger] tasks[j]).task_id != task_id,
        place < tasks.len() ==> tasks[place].task_id == task_id,
    ensures
        place < tasks.len() ==> (can_stop(tasks, task_id, now) <==> tasks[place].start_time <= now
            && tasks[place].run_time + (now - tasks[place].start_time) <= u64::MAX),
        place == tasks.len() ==> can_stop(tasks, task_id, now),
{
    law_listed_task_is_the_first(tasks, task_id, 0);
    if place < tasks.len() {
        assert(place_of(tasks, task_id) == Some(place));
    }
}

} // verus!
