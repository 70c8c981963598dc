//! The start/stop layer of the runtime: it remembers what a trace needs to
//! make sense (the tick rate, each task's name, executor and last state) and
//! lets events through only while tracing runs.
use vstd::prelude::*;

use crate::task_cache::{
    has_key, keys_distinct, lemma_upsert, lookup, task_map_entries, task_map_get,
    task_map_get_index, task_map_insert, task_map_len, task_map_new, upsert, TaskMap, TASK_COUNT,
};
use crate::transport::{
    global_event, task_event, Event, EventKind, GlobalEvent, TaskEvent, TaskEventKind,
};

verus! {

/// What the runtime remembers of one task.
#[derive(Debug, Clone, Copy, PartialEq, Eq)]
pub struct TaskData {
    pub name: Option<&'static str>,
    pub executor_id: Option<u32>,
    pub last_state_event: Option<TaskEventKind<'static>>,
    pub priority: Option<u8>,
    pub deadline: Option<u64>,
}

/// A task of which nothing is known yet.
pub open spec fn unknown_task() -> TaskData {
    TaskData { name: None, executor_id: None, last_state_event: None, priority: None, deadline: None }
}

impl Default for TaskData {
    fn default() -> (d: TaskData)
        ensures
            d == unknown_task(),
    {
        TaskData { name: None, executor_id: None, last_state_event: None, priority: None, deadline: None }
    }
}

/// Whether an event of kind `kind` is remembered for its task. Priority and
/// deadline changes are remembered only where the runtime was built to.
pub open spec fn caches_kind(kind: TaskEventKind<'static>, cache_priority: bool, cache_deadline: bool) -> bool {
    match kind {
        TaskEventKind::TaskNew { .. } => true,
        TaskEventKind::TaskNamed { .. } => true,
        TaskEventKind::TaskEnd => true,
        TaskEventKind::TaskExecBegin => true,
        TaskEventKind::TaskExecEnd => true,
        TaskEventKind::TaskReadyBegin => true,
        TaskEventKind::PrioritySet { .. } => cache_priority,
        TaskEventKind::DeadlineSet { .. } => cache_deadline,
        _ => false,
    }
}

/// What is known of a task after an event of kind `kind` happened to it.
pub open spec fn with_task_event(d: TaskData, kind: TaskEventKind<'static>) -> TaskData {
    match kind {
        TaskEventKind::TaskNamed { name } => TaskData { name: Some(name), ..d },
        TaskEventKind::TaskNew { executor_id } => TaskData { executor_id: Some(executor_id), ..d },
        TaskEventKind::TaskEnd => TaskData { last_state_event: Some(kind), ..d },
        TaskEventKind::TaskExecBegin => TaskData { last_state_event: Some(kind), ..d },
        TaskEventKind::TaskExecEnd => TaskData { last_state_event: Some(kind), ..d },
        TaskEventKind::TaskReadyBegin => TaskData { last_state_event: Some(kind), ..d },
        TaskEventKind::PrioritySet { priority } => TaskData { priority: Some(priority), ..d },
        TaskEventKind::DeadlineSet { deadline } => TaskData { deadline: Some(deadline), ..d },
        _ => d,
    }
}

/// The state of the start/stop layer as a mathematical value.
#[verifier::ext_equal]
pub struct TraceModel {
    /// Whether the start/stop layer is in use. Without it the runtime traces
    /// always: every event is let through and nothing is remembered.
    pub start_stop: bool,
    /// Whether tracing was started (it matters only with the start/stop layer).
    pub started: bool,
    /// The last tick rate seen.
    pub tickrate: Option<u64>,
    /// What is known of each task, in the order the tasks were first seen.
    pub tasks: Seq<(u32, TaskData)>,
    /// Whether priority changes are remembered.
    pub cache_priority: bool,
    /// Whether deadline changes are remembered.
    pub cache_deadline: bool,
}

/// The model after `event` went through the layer: with the start/stop layer
/// in use, a tick rate replaces the one remembered, a remembered kind of task
/// event updates its task (added at the end if it was not known), anything
/// else leaves the model as it was; without it, nothing changes.
pub open spec fn recorded(m: TraceModel, event: Event<'static>) -> TraceModel {
    if !m.start_stop {
        m
    } else {
        recorded_in_cache(m, event)
    }
}

/// What remembering `event` makes of the model.
pub open spec fn recorded_in_cache(m: TraceModel, event: Event<'static>) -> TraceModel {
    match event.kind {
        EventKind::Global(GlobalEvent::TickRate { rate }) => TraceModel { tickrate: Some(rate), ..m },
        EventKind::Task(te) => {
            if caches_kind(te.kind, m.cache_priority, m.cache_deadline) {
                let d = match lookup(m.tasks, te.task_id) {
                    Some(d) => d,
                    None => unknown_task(),
                };
                TraceModel { tasks: upsert(m.tasks, te.task_id, with_task_event(d, te.kind)), ..m }
            } else {
                m
            }
        },
        _ => m,
    }
}

/// Whether remembering `event` needs a new task slot that the full cache lacks.
pub open spec fn overflows(m: TraceModel, event: Event<'static>) -> bool {
    match event.kind {
        EventKind::Task(te) => m.start_stop && caches_kind(te.kind, m.cache_priority, m.cache_deadline) && !has_key(
            m.tasks,
            te.task_id,
        ) && m.tasks.len() >= TASK_COUNT,
        _ => false,
    }
}

/// What the layer hands on to the firmware of `event`: the event itself where
/// the start/stop layer is not in use or tracing was started, nothing otherwise.
pub open spec fn forwarded(m: TraceModel, event: Event<'static>) -> Option<Event<'static>> {
    if !m.start_stop || m.started {
        Some(event)
    } else {
        None
    }
}

/// The events that announce what is known of one task, stamped `timestamp`:
/// its name, its executor, its last state, its priority and its deadline, each
/// where known, in that order.
pub open spec fn task_replay(task_id: u32, d: TaskData, timestamp: u64) -> Seq<Event<'static>> {
    (match d.name {
        Some(name) => seq![task_event(timestamp, task_id, TaskEventKind::TaskNamed { name })],
        None => Seq::empty(),
    }) + (match d.executor_id {
        Some(executor_id) => seq![task_event(timestamp, task_id, TaskEventKind::TaskNew { executor_id })],
        None => Seq::empty(),
    }) + (match d.last_state_event {
        Some(kind) => seq![task_event(timestamp, task_id, kind)],
        None => Seq::empty(),
    }) + (match d.priority {
        Some(priority) => seq![task_event(timestamp, task_id, TaskEventKind::PrioritySet { priority })],
        None => Seq::empty(),
    }) + (match d.deadline {
        Some(deadline) => seq![task_event(timestamp, task_id, TaskEventKind::DeadlineSet { deadline })],
        None => Seq::empty(),
    })
}

/// The announcements of all tasks, one task after the other in their order.
pub open spec fn tasks_replay(tasks: Seq<(u32, TaskData)>, timestamp: u64) -> Seq<Event<'static>>
    decreases tasks.len(),
{
    if tasks.len() == 0 {
        Seq::empty()
    } else {
        tasks_replay(tasks.drop_last(), timestamp) + task_replay(tasks.last().0, tasks.last().1, timestamp)
    }
}

/// Everything that starting the trace emits: the tick rate where one is known,
/// then the announcements of all tasks.
pub open spec fn replay(m: TraceModel, timestamp: u64) -> Seq<Event<'static>> {
    (match m.tickrate {
        Some(rate) => seq![global_event(timestamp, GlobalEvent::TickRate { rate })],
        None => Seq::empty(),
    }) + tasks_replay(m.tasks, timestamp)
}

/// The state of the start/stop layer of the runtime.
pub struct State {
    start_stop: bool,
    started: bool,
    tickrate: Option<u64>,
    task_data: TaskMap,
    cache_priority: bool,
    cache_deadline: bool,
}

impl View for State {
    type V = TraceModel;

    closed spec fn view(&self) -> TraceModel {
        TraceModel {
            start_stop: self.start_stop,
            started: self.started,
            tickrate: self.tickrate,
            tasks: task_map_entries(self.task_data),
            cache_priority: self.cache_priority,
            cache_deadline: self.cache_deadline,
        }
    }
}

/// The task cache holds each task once and no more than it has room for.
pub open spec fn model_wf(m: TraceModel) -> bool {
    keys_distinct(m.tasks) && m.tasks.len() <= TASK_COUNT
}

impl State {
    /// The cache is well formed.
    pub open spec fn wf(&self) -> bool {
        model_wf(self@)
    }

    /// The runtime built without the start/stop layer, which traces always:
    /// it lets every event through and remembers nothing.
    pub fn always_on() -> (s: State)
        ensures
            s.wf(),
            s@ == (TraceModel {
                start_stop: false,
                started: false,
                tickrate: None,
                tasks: Seq::empty(),
                cache_priority: false,
                cache_deadline: false,
            }),
    {
        State {
            start_stop: false,
            started: false,
            tickrate: None,
            task_data: task_map_new(),
            cache_priority: false,
            cache_deadline: false,
        }
    }

    /// A stopped start/stop layer that knows nothing yet and remembers neither
    /// priority nor deadline changes.
    pub fn new() -> (s: State)
        ensures
            s.wf(),
            s@ == (TraceModel {
                start_stop: true,
                started: false,
                tickrate: None,
                tasks: Seq::empty(),
                cache_priority: false,
                cache_deadline: false,
            }),
    {
        State::with_features(false, false)
    }

    /// A stopped start/stop layer that knows nothing yet and remembers priority changes
    /// where `cache_priority` holds and deadline changes where `cache_deadline` does.
    pub fn with_features(cache_priority: bool, cache_deadline: bool) -> (s: State)
        ensures
            s.wf(),
            s@ == (TraceModel {
                start_stop: true,
                started: false,
                tickrate: None,
                tasks: Seq::empty(),
                cache_priority,
                cache_deadline,
            }),
    {
        State {
            start_stop: true,
            started: false,
            tickrate: None,
            task_data: task_map_new(),
            cache_priority,
            cache_deadline,
        }
    }
}

impl TaskData {
    /// What is known of the task after an event of kind `kind` happened to it.
    pub fn with_event(self, kind: TaskEventKind<'static>) -> (d: TaskData)
        ensures
            d == with_task_event(self, kind),
    {
        let mut d = self;
        match kind {
            TaskEventKind::TaskNamed { name } => d.name = Some(name),
            TaskEventKind::TaskNew { executor_id } => d.executor_id = Some(executor_id),
            TaskEventKind::TaskEnd => d.last_state_event = Some(kind),
            TaskEventKind::TaskExecBegin => d.last_state_event = Some(kind),
            TaskEventKind::TaskExecEnd => d.last_state_event = Some(kind),
            TaskEventKind::TaskReadyBegin => d.last_state_event = Some(kind),
            TaskEventKind::PrioritySet { priority } => d.priority = Some(priority),
            TaskEventKind::DeadlineSet { deadline } => d.deadline = Some(deadline),
            _ => {},
        }
        d
    }

    /// Emits, onto the end of `out`, the announcements of task `task_id`
    /// stamped `timestamp`.
    pub fn send_data(&self, task_id: u32, timestamp: u64, out: &mut Vec<Event<'static>>)
        ensures
            final(out)@ == old(out)@ + task_replay(task_id, *self, timestamp),
    {
        let ghost start = out@;
        if let Some(name) = self.name {
            out.push(Event { timestamp, kind: EventKind::Task(TaskEvent { task_id, kind: TaskEventKind::TaskNamed { name } }) });
        }
        if let Some(executor_id) = self.executor_id {
            out.push(Event { timestamp, kind: EventKind::Task(TaskEvent { task_id, kind: TaskEventKind::TaskNew { executor_id } }) });
        }
        if let Some(kind) = self.last_state_event {
            out.push(Event { timestamp, kind: EventKind::Task(TaskEvent { task_id, kind }) });
        }
        if let Some(priority) = self.priority {
            out.push(Event { timestamp, kind: EventKind::Task(TaskEvent { task_id, kind: TaskEventKind::PrioritySet { priority } }) });
        }
        if let Some(deadline) = self.deadline {
            out.push(Event { timestamp, kind: EventKind::Task(TaskEvent { task_id, kind: TaskEventKind::DeadlineSet { deadline } }) });
        }
        assert(out@ =~= start + task_replay(task_id, *self, timestamp));
    }
}

impl State {
    /// Whether an event of kind `kind` is remembered for its task.
    fn caches(&self, kind: TaskEventKind<'static>) -> (r: bool)
        ensures
            r == caches_kind(kind, self.cache_priority, self.cache_deadline),
    {
        match kind {
            TaskEventKind::TaskNew { .. } => true,
            TaskEventKind::TaskNamed { .. } => true,
            TaskEventKind::TaskEnd => true,
            TaskEventKind::TaskExecBegin => true,
            TaskEventKind::TaskExecEnd => true,
            TaskEventKind::TaskReadyBegin => true,
            TaskEventKind::PrioritySet { .. } => self.cache_priority,
            TaskEventKind::DeadlineSet { .. } => self.cache_deadline,
            _ => false,
        }
    }

    /// Whether `write_trace_event` of `event` would find the task cache full:
    /// the event is of a remembered kind, for a task not yet known, and all
    /// `TASK_COUNT` slots are taken.
    pub fn would_overflow(&self, event: &Event<'static>) -> (r: bool)
        ensures
            r == overflows(self@, *event),
    {
        match event.kind {
            EventKind::Task(te) => {
                self.start_stop && self.caches(te.kind) && task_map_get(&self.task_data, te.task_id).is_none()
                    && task_map_len(&self.task_data) >= TASK_COUNT
            },
            _ => false,
        }
    }

    /// Applies a task event of a remembered kind to the cache.
    fn update_task(&mut self, task_id: u32, kind: TaskEventKind<'static>)
        requires
            old(self).wf(),
            caches_kind(kind, old(self).cache_priority, old(self).cache_deadline),
            has_key(old(self)@.tasks, task_id) || old(self)@.tasks.len() < TASK_COUNT,
        ensures
            final(self).wf(),
            final(self)@ == recorded_in_cache(old(self)@, task_event(0, task_id, kind)),
    {
        let current = match task_map_get(&self.task_data, task_id) {
            Some(d) => d,
            None => TaskData::default(),
        };
        let updated = current.with_event(kind);
        proof {
            lemma_upsert(old(self)@.tasks, task_id, updated);
        }
        let r = task_map_insert(&mut self.task_data, task_id, updated);
        match r {
            Ok(_) => {},
            Err(_) => {
                assert(false);
            },
        }
        assert(self@ =~= recorded_in_cache(old(self)@, task_event(0, task_id, kind)));
    }

    /// With the start/stop layer in use, remembers what a trace needs of
    /// `event` (whether or not tracing runs) and returns the event to be
    /// written out while tracing runs; without it, returns the event.
    pub fn write_trace_event(&mut self, event: Event<'static>) -> (out: Option<Event<'static>>)
        requires
            old(self).wf(),
            !overflows(old(self)@, event),
        ensures
            final(self).wf(),
            final(self)@ == recorded(old(self)@, event),
            out == forwarded(old(self)@, event),
    {
        if !self.start_stop {
            return Some(event);
        }
        match event.kind {
            EventKind::Global(GlobalEvent::TickRate { rate }) => {
                self.tickrate = Some(rate);
            },
            EventKind::Task(te) => {
                if self.caches(te.kind) {
                    self.update_task(te.task_id, te.kind);
                }
            },
            _ => {},
        }
        if self.started {
            Some(event)
        } else {
            None
        }
    }

    /// Emits what is remembered, all stamped `timestamp`.
    fn send_data(&self, timestamp: u64) -> (out: Vec<Event<'static>>)
        requires
            self.wf(),
        ensures
            out@ == replay(self@, timestamp),
    {
        let mut out: Vec<Event<'static>> = Vec::new();
        if let Some(rate) = self.tickrate {
            out.push(Event { timestamp, kind: EventKind::Global(GlobalEvent::TickRate { rate }) });
        }
        let ghost head = out@;
        let ghost tasks = self@.tasks;
        assert(head =~= match self@.tickrate {
            Some(rate) => seq![global_event(timestamp, GlobalEvent::TickRate { rate })],
            None => Seq::<Event<'static>>::empty(),
        });
        let n = task_map_len(&self.task_data);
        let mut i: usize = 0;
        assert(tasks.take(0) =~= Seq::<(u32, TaskData)>::empty());
        while i < n
            invariant
                n == tasks.len(),
                tasks == self@.tasks,
                i <= n,
                out@ == head + tasks_replay(tasks.take(i as int), timestamp),
            decreases n - i,
        {
            let entry = task_map_get_index(&self.task_data, i);
            if let Some((task_id, data)) = entry {
                data.send_data(task_id, timestamp, &mut out);
            }
            assert(tasks.take(i + 1).drop_last() =~= tasks.take(i as int));
            assert(out@ =~= head + tasks_replay(tasks.take(i + 1), timestamp));
            i += 1;
        }
        assert(tasks.take(n as int) =~= tasks);
        out
    }

    /// Starts tracing: lets events through from now on and returns what is
    /// remembered, stamped `timestamp`, so that it is present in the trace.
    pub fn start_tracing(&mut self, timestamp: u64) -> (out: Vec<Event<'static>>)
        requires
            old(self).wf(),
        ensures
            final(self).wf(),
            final(self)@ == (TraceModel { started: true, ..old(self)@ }),
            out@ == replay(old(self)@, timestamp),
    {
        self.started = true;
        self.send_data(timestamp)
    }

    /// Stops tracing: holds back events from now on; what is remembered stays.
    pub fn stop_tracing(&mut self)
        requires
            old(self).wf(),
        ensures
            final(self).wf(),
            final(self)@ == (TraceModel { started: false, ..old(self)@ }),
    {
        self.started = false;
    }

    /// Whether events are let through.
    pub fn is_started(&self) -> (r: bool)
        ensures
            r == self@.started,
    {
        self.started
    }
}

} // verus!
