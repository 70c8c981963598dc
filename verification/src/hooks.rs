//! The events that the executor, the interrupt layer and the firmware report
//! to the runtime. Each goes through the start/stop layer, which remembers
//! what a trace needs of it and lets it through while tracing runs.
use vstd::prelude::*;

use crate::start_stop::{forwarded, overflows, recorded, State};
use crate::transport::{
    executor_event, global_event, task_event, Event, EventKind, ExecutorEvent, ExecutorEventKind,
    GlobalEvent, TaskEvent, TaskEventKind,
};

verus! {

/// The executor `executor_id` begins polling (it leaves the idle state).
/// The event, stamped `timestamp`, goes through `state`; the result is what
/// is to be written out.
pub fn embassy_trace_poll_start(state: &mut State, timestamp: u64, executor_id: u32) -> (out: Option<Event<'static>>)
    requires
        old(state).wf(),
    ensures
        final(state).wf(),
        final(state)@ == recorded(old(state)@, executor_event(timestamp, executor_id, ExecutorEventKind::ExecutorPollStart)),
        out == forwarded(old(state)@, executor_event(timestamp, executor_id, ExecutorEventKind::ExecutorPollStart)),
{
    let kind = ExecutorEventKind::ExecutorPollStart;
    state.write_trace_event(
        Event { timestamp, kind: EventKind::Executor(ExecutorEvent { executor_id, kind }) },
    )
}

/// Task `task_id` was created on executor `executor_id` and is about to be
/// enqueued for the first time.
/// The event, stamped `timestamp`, goes through `state`; the result is what
/// is to be written out.
pub fn embassy_trace_task_new(state: &mut State, timestamp: u64, executor_id: u32, task_id: u32) -> (out: Option<Event<'static>>)
    requires
        old(state).wf(),
        !overflows(old(state)@, task_event(timestamp, task_id, TaskEventKind::TaskNew { executor_id })),
    ensures
        final(state).wf(),
        final(state)@ == recorded(old(state)@, task_event(timestamp, task_id, TaskEventKind::TaskNew { executor_id })),
        out == forwarded(old(state)@, task_event(timestamp, task_id, TaskEventKind::TaskNew { executor_id })),
{
    let kind = TaskEventKind::TaskNew { executor_id };
    state.write_trace_event(Event { timestamp, kind: EventKind::Task(TaskEvent { task_id, kind }) })
}

/// Task `task_id` was destructed; the executor's id is not recorded.
/// The event, stamped `timestamp`, goes through `state`; the result is what
/// is to be written out.
pub fn embassy_trace_task_end(state: &mut State, timestamp: u64, _executor_id: u32, task_id: u32) -> (out: Option<Event<'static>>)
    requires
        old(state).wf(),
        !overflows(old(state)@, task_event(timestamp, task_id, TaskEventKind::TaskEnd)),
    ensures
        final(state).wf(),
        final(state)@ == recorded(old(state)@, task_event(timestamp, task_id, TaskEventKind::TaskEnd)),
        out == forwarded(old(state)@, task_event(timestamp, task_id, TaskEventKind::TaskEnd)),
{
    let kind = TaskEventKind::TaskEnd;
    state.write_trace_event(Event { timestamp, kind: EventKind::Task(TaskEvent { task_id, kind }) })
}

/// Task `task_id` was dequeued and is about to be polled; the executor's id
/// is not recorded.
/// The event, stamped `timestamp`, goes through `state`; the result is what
/// is to be written out.
pub fn embassy_trace_task_exec_begin(state: &mut State, timestamp: u64, _executor_id: u32, task_id: u32) -> (out: Option<Event<'static>>)
    requires
        old(state).wf(),
        !overflows(old(state)@, task_event(timestamp, task_id, TaskEventKind::TaskExecBegin)),
    ensures
        final(state).wf(),
        final(state)@ == recorded(old(state)@, task_event(timestamp, task_id, TaskEventKind::TaskExecBegin)),
        out == forwarded(old(state)@, task_event(timestamp, task_id, TaskEventKind::TaskExecBegin)),
{
    let kind = TaskEventKind::TaskExecBegin;
    state.write_trace_event(Event { timestamp, kind: EventKind::Task(TaskEvent { task_id, kind }) })
}

/// Task `task_id` has been polled; the executor's id is not recorded.
/// The event, stamped `timestamp`, goes through `state`; the result is what
/// is to be written out.
pub fn embassy_trace_task_exec_end(state: &mut State, timestamp: u64, _executor_id: u32, task_id: u32) -> (out: Option<Event<'static>>)
    requires
        old(state).wf(),
        !overflows(old(state)@, task_event(timestamp, task_id, TaskEventKind::TaskExecEnd)),
    ensures
        final(state).wf(),
        final(state)@ == recorded(old(state)@, task_event(timestamp, task_id, TaskEventKind::TaskExecEnd)),
        out == forwarded(old(state)@, task_event(timestamp, task_id, TaskEventKind::TaskExecEnd)),
{
    let kind = TaskEventKind::TaskExecEnd;
    state.write_trace_event(Event { timestamp, kind: EventKind::Task(TaskEvent { task_id, kind }) })
}

/// The waker of task `task_id` was woken and the task is about to enter the
/// run queue; the executor's id is not recorded.
/// The event, stamped `timestamp`, goes through `state`; the result is what
/// is to be written out.
pub fn embassy_trace_task_ready_begin(state: &mut State, timestamp: u64, _executor_id: u32, task_id: u32) -> (out: Option<Event<'static>>)
    requires
        old(state).wf(),
        !overflows(old(state)@, task_event(timestamp, task_id, TaskEventKind::TaskReadyBegin)),
    ensures
        final(state).wf(),
        final(state)@ == recorded(old(state)@, task_event(timestamp, task_id, TaskEventKind::TaskReadyBegin)),
        out == forwarded(old(state)@, task_event(timestamp, task_id, TaskEventKind::TaskReadyBegin)),
{
    let kind = TaskEventKind::TaskReadyBegin;
    state.write_trace_event(Event { timestamp, kind: EventKind::Task(TaskEvent { task_id, kind }) })
}

/// The executor `executor_id` has processed all dequeued tasks (it enters the
/// idle state).
/// The event, stamped `timestamp`, goes through `state`; the result is what
/// is to be written out.
pub fn embassy_trace_executor_idle(state: &mut State, timestamp: u64, executor_id: u32) -> (out: Option<Event<'static>>)
    requires
        old(state).wf(),
    ensures
        final(state).wf(),
        final(state)@ == recorded(old(state)@, executor_event(timestamp, executor_id, ExecutorEventKind::ExecutorIdle)),
        out == forwarded(old(state)@, executor_event(timestamp, executor_id, ExecutorEventKind::ExecutorIdle)),
{
    let kind = ExecutorEventKind::ExecutorIdle;
    state.write_trace_event(
        Event { timestamp, kind: EventKind::Executor(ExecutorEvent { executor_id, kind }) },
    )
}

/// Interrupt `irq` starts.
/// The event, stamped `timestamp`, goes through `state`; the result is what
/// is to be written out.
pub fn embassy_mcxa_trace_irq_start(state: &mut State, timestamp: u64, irq: u16) -> (out: Option<Event<'static>>)
    requires
        old(state).wf(),
    ensures
        final(state).wf(),
        final(state)@ == recorded(old(state)@, global_event(timestamp, GlobalEvent::IrqStart { irq })),
        out == forwarded(old(state)@, global_event(timestamp, GlobalEvent::IrqStart { irq })),
{
    state.write_trace_event(Event { timestamp, kind: EventKind::Global(GlobalEvent::IrqStart { irq }) })
}

/// Interrupt `irq` ends.
/// The event, stamped `timestamp`, goes through `state`; the result is what
/// is to be written out.
pub fn embassy_mcxa_trace_irq_end(state: &mut State, timestamp: u64, irq: u16) -> (out: Option<Event<'static>>)
    requires
        old(state).wf(),
    ensures
        final(state).wf(),
        final(state)@ == recorded(old(state)@, global_event(timestamp, GlobalEvent::IrqEnd { irq })),
        out == forwarded(old(state)@, global_event(timestamp, GlobalEvent::IrqEnd { irq })),
{
    state.write_trace_event(Event { timestamp, kind: EventKind::Global(GlobalEvent::IrqEnd { irq }) })
}

/// The timestamps count `rate` ticks per second.
/// The event, stamped `timestamp`, goes through `state`; the result is what
/// is to be written out.
pub fn emit_tickrate_trace(state: &mut State, timestamp: u64, rate: u64) -> (out: Option<Event<'static>>)
    requires
        old(state).wf(),
    ensures
        final(state).wf(),
        final(state)@ == recorded(old(state)@, global_event(timestamp, GlobalEvent::TickRate { rate })),
        out == forwarded(old(state)@, global_event(timestamp, GlobalEvent::TickRate { rate })),
{
    state.write_trace_event(Event { timestamp, kind: EventKind::Global(GlobalEvent::TickRate { rate }) })
}

/// Task `task_id` is given the readable name `name`.
/// The event, stamped `timestamp`, goes through `state`; the result is what
/// is to be written out.
pub fn name_task(state: &mut State, timestamp: u64, task_id: u32, name: &'static str) -> (out: Option<Event<'static>>)
    requires
        old(state).wf(),
        !overflows(old(state)@, task_event(timestamp, task_id, TaskEventKind::TaskNamed { name })),
    ensures
        final(state).wf(),
        final(state)@ == recorded(old(state)@, task_event(timestamp, task_id, TaskEventKind::TaskNamed { name })),
        out == forwarded(old(state)@, task_event(timestamp, task_id, TaskEventKind::TaskNamed { name })),
{
    let kind = TaskEventKind::TaskNamed { name };
    state.write_trace_event(Event { timestamp, kind: EventKind::Task(TaskEvent { task_id, kind }) })
}

} // verus!
