//! Markers: single points in time that the user names.
use vstd::prelude::*;

use crate::start_stop::{forwarded, State};
use crate::transport::{global_event, task_event, Event, EventKind, GlobalEvent, TaskEvent, TaskEventKind};

verus! {

/// Emits a marker named `name` that belongs to no task, at `timestamp`:
/// the marker event goes through `state`, which lets it through while tracing
/// runs and remembers nothing of it.
pub fn emit_global_marker(state: &mut State, timestamp: u64, name: &'static str) -> (out: Option<Event<'static>>)
    requires
        old(state).wf(),
    ensures
        final(state)@ == old(state)@,
        out == forwarded(old(state)@, global_event(timestamp, GlobalEvent::Marker { name })),
{
    state.write_trace_event(Event { timestamp, kind: EventKind::Global(GlobalEvent::Marker { name }) })
}

/// Emits a marker named `name` of task `task_id`, at `timestamp`: the marker
/// event goes through `state`, which lets it through while tracing runs and
/// remembers nothing of it.
pub fn emit_task_marker(state: &mut State, timestamp: u64, task_id: u32, name: &'static str) -> (out: Option<Event<'static>>)
    requires
        old(state).wf(),
    ensures
        final(state)@ == old(state)@,
        out == forwarded(old(state)@, task_event(timestamp, task_id, TaskEventKind::Marker { name })),
{
    state.write_trace_event(
        Event { timestamp, kind: EventKind::Task(TaskEvent { task_id, kind: TaskEventKind::Marker { name } }) },
    )
}

} // verus!
