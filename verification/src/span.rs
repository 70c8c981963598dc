//! Spans: stretches of time that the user names, opened by a start event and
//! closed by an end event that carries the same id.
use vstd::prelude::*;

use crate::start_stop::{forwarded, State};
use crate::transport::{global_event, task_event, Event, EventKind, GlobalEvent, TaskEvent, TaskEventKind};

verus! {

/// The id that follows `id`: one more, wrapping around after `u32::MAX`.
pub open spec fn next_span_id(id: u32) -> u32 {
    if id == u32::MAX {
        0
    } else {
        (id + 1) as u32
    }
}

/// The id that a counter at `start` hands out after `k` ids were taken from it.
pub open spec fn span_id_after(start: u32, k: nat) -> u32
    decreases k,
{
    if k == 0 {
        start
    } else {
        next_span_id(span_id_after(start, (k - 1) as nat))
    }
}

/// After `k` takes, a counter at `start` stands at `start + k` modulo 2^32.
proof fn lemma_span_id_after(start: u32, k: nat)
    ensures
        span_id_after(start, k) as int == (start + k) % 0x1_0000_0000int,
    decreases k,
{
    let m = 0x1_0000_0000int;
    if k == 0 {
        vstd::arithmetic::div_mod::lemma_small_mod(start as nat, m as nat);
    } else {
        lemma_span_id_after(start, (k - 1) as nat);
        let a = start + k - 1;
        let x = span_id_after(start, (k - 1) as nat) as int;
        vstd::arithmetic::div_mod::lemma_fundamental_div_mod(a, m);
        let q = a / m;
        if x == u32::MAX as int {
            assert(a + 1 == (q + 1) * m + 0) by (nonlinear_arith)
                requires
                    a == m * q + x,
                    x == m - 1,
            ;
            vstd::arithmetic::div_mod::lemma_fundamental_div_mod_converse(a + 1, m, q + 1, 0);
        } else {
            assert(a + 1 == q * m + (x + 1)) by (nonlinear_arith)
                requires
                    a == m * q + x,
            ;
            vstd::arithmetic::div_mod::lemma_fundamental_div_mod_converse(a + 1, m, q, x + 1);
        }
    }
}

/// Spans started one after another from one counter get distinct ids: of the
/// first 2^32 ids a counter hands out, no two are equal.
pub proof fn law_span_ids_distinct(start: u32, i: nat, j: nat)
    requires
        i < j < 0x1_0000_0000int,
    ensures
        span_id_after(start, i) != span_id_after(start, j),
{
    let m = 0x1_0000_0000int;
    lemma_span_id_after(start, i);
    lemma_span_id_after(start, j);
    let a = start + i;
    let b = start + j;
    vstd::arithmetic::div_mod::lemma_fundamental_div_mod(a, m);
    vstd::arithmetic::div_mod::lemma_fundamental_div_mod(b, m);
    if a % m == b % m {
        let qa = a / m;
        let qb = b / m;
        assert(false) by (nonlinear_arith)
            requires
                a == m * qa + (a % m),
                b == m * qb + (b % m),
                a % m == b % m,
                0 < b - a < m,
                m > 0,
        ;
    }
}

/// A counter that hands out span ids, one after the other.
pub struct SpanIds {
    next: u32,
}

impl View for SpanIds {
    type V = u32;

    /// The id that the counter hands out next.
    closed spec fn view(&self) -> u32 {
        self.next
    }
}

impl SpanIds {
    /// A counter that starts at 0.
    pub fn new() -> (ids: SpanIds)
        ensures
            ids@ == 0,
    {
        SpanIds { next: 0 }
    }

    /// Hands out the next id and moves on by one, wrapping around.
    pub fn fetch_next(&mut self) -> (id: u32)
        ensures
            id == old(self)@,
            final(self)@ == next_span_id(id),
    {
        let id = self.next;
        self.next = if id == u32::MAX {
            0
        } else {
            id + 1
        };
        id
    }
}

/// The token of a running span that belongs to no task.
pub struct GlobalSpan {
    id: u32,
}

impl View for GlobalSpan {
    type V = u32;

    /// The span's id.
    closed spec fn view(&self) -> u32 {
        self.id
    }
}

/// Starts a span named `name` that belongs to no task, at `timestamp`: takes
/// the next id of `ids` and passes the start event through `state`, which lets
/// it through while tracing runs and remembers nothing of it.
pub fn start_global_span(ids: &mut SpanIds, state: &mut State, timestamp: u64, name: &'static str) -> (r: (
    GlobalSpan,
    Option<Event<'static>>,
))
    requires
        old(state).wf(),
    ensures
        r.0@ == old(ids)@,
        final(ids)@ == next_span_id(old(ids)@),
        final(state)@ == old(state)@,
        r.1 == forwarded(old(state)@, global_event(timestamp, GlobalEvent::SpanStart { name, id: r.0@ })),
{
    let id = ids.fetch_next();
    let out = state.write_trace_event(
        Event { timestamp, kind: EventKind::Global(GlobalEvent::SpanStart { name, id }) },
    );
    (GlobalSpan { id }, out)
}

impl GlobalSpan {
    /// Ends the span at `timestamp`: the end event, with the span's id, goes
    /// through `state`, which lets it through while tracing runs and remembers
    /// nothing of it.
    pub fn end(self, state: &mut State, timestamp: u64) -> (out: Option<Event<'static>>)
        requires
            old(state).wf(),
        ensures
            final(state)@ == old(state)@,
            out == forwarded(old(state)@, global_event(timestamp, GlobalEvent::SpanEnd { id: self@ })),
    {
        state.write_trace_event(Event { timestamp, kind: EventKind::Global(GlobalEvent::SpanEnd { id: self.id }) })
    }
}

/// The token of a running span of one task.
pub struct TaskSpan {
    id: u32,
    task_id: u32,
}

impl View for TaskSpan {
    type V = (u32, u32);

    /// The span's id and its task's id.
    closed spec fn view(&self) -> (u32, u32) {
        (self.id, self.task_id)
    }
}

/// Starts a span named `name` of task `task_id`, at `timestamp`: takes the
/// next id of `ids` and passes the start event through `state`, which lets it
/// through while tracing runs and remembers nothing of it.
pub fn start_task_span(
    ids: &mut SpanIds,
    state: &mut State,
    timestamp: u64,
    task_id: u32,
    name: &'static str,
) -> (r: (TaskSpan, Option<Event<'static>>))
    requires
        old(state).wf(),
    ensures
        r.0@ == (old(ids)@, task_id),
        final(ids)@ == next_span_id(old(ids)@),
        final(state)@ == old(state)@,
        r.1 == forwarded(
            old(state)@,
            task_event(timestamp, task_id, TaskEventKind::SpanStart { name, id: old(ids)@ }),
        ),
{
    let id = ids.fetch_next();
    let out = state.write_trace_event(
        Event { timestamp, kind: EventKind::Task(TaskEvent { task_id, kind: TaskEventKind::SpanStart { name, id } }) },
    );
    (TaskSpan { id, task_id }, out)
}

impl TaskSpan {
    /// Ends the span at `timestamp`: the end event, with the span's id and of
    /// the span's task, goes through `state`, which lets it through while
    /// tracing runs and remembers nothing of it.
    pub fn end(self, state: &mut State, timestamp: u64) -> (out: Option<Event<'static>>)
        requires
            old(state).wf(),
        ensures
            final(state)@ == old(state)@,
            out == forwarded(
                old(state)@,
                task_event(timestamp, self@.1, TaskEventKind::SpanEnd { id: self@.0 }),
            ),
    {
        state.write_trace_event(
            Event {
                timestamp,
                kind: EventKind::Task(TaskEvent { task_id: self.task_id, kind: TaskEventKind::SpanEnd { id: self.id } }),
            },
        )
    }
}

} // verus!
