//! The events that make up a trace, as the runtime hands them to the firmware
//! and as the analyzer reads them back.
use vstd::prelude::*;

verus! {

/// One entry of the trace: what happened and when, in ticks.
#[derive(Debug, Clone, Copy, PartialEq, Eq)]
pub struct Event<'a> {
    pub timestamp: u64,
    pub kind: EventKind<'a>,
}

/// Which part of the system an event is about.
#[derive(Debug, Clone, Copy, PartialEq, Eq)]
pub enum EventKind<'a> {
    Global(GlobalEvent<'a>),
    Executor(ExecutorEvent),
    Task(TaskEvent<'a>),
}

/// Events that belong to no particular executor or task.
#[derive(Debug, Clone, Copy, PartialEq, Eq)]
pub enum GlobalEvent<'a> {
    /// The timestamp tickrate per second. Should appear at least once in every trace.
    /// When emitted multiple times, only one of them is used.
    ///
    /// This is a global value and is not bound to a particular executor
    TickRate { rate: u64 },
    /// An interrupt has started
    IrqStart { irq: u16 },
    /// An interrupt has stopped
    IrqEnd { irq: u16 },
    /// The user emitted a custom marker
    Marker { name: &'a str },
    /// The user started a custom span
    SpanStart { name: &'a str, id: u32 },
    /// The user ended the custom span with the specified id
    SpanEnd { id: u32 },
}

/// An event of one executor.
#[derive(Debug, Clone, Copy, PartialEq, Eq)]
pub struct ExecutorEvent {
    pub executor_id: u32,
    pub kind: ExecutorEventKind,
}

/// What an executor did.
#[derive(Debug, Clone, Copy, PartialEq, Eq)]
pub enum ExecutorEventKind {
    /// Executor exited the idle state
    ExecutorPollStart,
    /// Executor entered the idle state
    ExecutorIdle,
}

/// An event of one task.
#[derive(Debug, Clone, Copy, PartialEq, Eq)]
pub struct TaskEvent<'a> {
    pub task_id: u32,
    pub kind: TaskEventKind<'a>,
}

/// What happened to a task.
#[derive(Debug, Clone, Copy, PartialEq, Eq)]
pub enum TaskEventKind<'a> {
    /// A new task is created
    TaskNew { executor_id: u32 },
    /// A task has been stopped
    TaskEnd,
    /// A task started being executed
    TaskExecBegin,
    /// A task finished execution
    TaskExecEnd,
    /// A task is now ready to be executed
    TaskReadyBegin,
    /// A task got assigned a human readable name
    TaskNamed { name: &'a str },
    /// A task got its priority changed
    PrioritySet { priority: u8 },
    /// A task got its deadline changed
    DeadlineSet { deadline: u64 },
    /// The user emitted a custom marker
    Marker { name: &'a str },
    /// The user started a custom span
    SpanStart { name: &'a str, id: u32 },
    /// The user ended the custom span with the specified id
    SpanEnd { id: u32 },
}

/// The global event `kind` stamped with `timestamp`.
pub open spec fn global_event<'a>(timestamp: u64, kind: GlobalEvent<'a>) -> Event<'a> {
    Event { timestamp, kind: EventKind::Global(kind) }
}

/// The event `kind` of executor `executor_id` stamped with `timestamp`.
pub open spec fn executor_event<'a>(timestamp: u64, executor_id: u32, kind: ExecutorEventKind) -> Event<'a> {
    Event { timestamp, kind: EventKind::Executor(ExecutorEvent { executor_id, kind }) }
}

/// The event `kind` of task `task_id` stamped with `timestamp`.
pub open spec fn task_event<'a>(timestamp: u64, task_id: u32, kind: TaskEventKind<'a>) -> Event<'a> {
    Event { timestamp, kind: EventKind::Task(TaskEvent { task_id, kind }) }
}

} // verus!
