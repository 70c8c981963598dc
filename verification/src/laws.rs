//! What holds of the runtime across its operations.
use vstd::prelude::*;

use crate::start_stop::{
    caches_kind, forwarded, model_wf, overflows, recorded, replay, task_replay, tasks_replay,
    unknown_task, with_task_event, TaskData, TraceModel,
};
use crate::task_cache::{has_key, key_index, lemma_upsert, lookup, upsert};
use crate::transport::{global_event, task_event, Event, EventKind, GlobalEvent, TaskEventKind};

verus! {

/// With the start/stop layer in use, stopping holds back every event and
/// starting lets every event through; neither touches what is remembered.
pub proof fn law_gate(m: TraceModel, event: Event<'static>)
    requires
        m.start_stop,
    ensures
        forwarded(TraceModel { started: false, ..m }, event) is None,
        forwarded(TraceModel { started: true, ..m }, event) == Some(event),
        (TraceModel { started: false, ..m }).tasks == m.tasks,
        (TraceModel { started: true, ..m }).tickrate == m.tickrate,
{
}

/// Without the start/stop layer the runtime traces always: every event is let
/// through, whether or not tracing was started or stopped, and nothing is
/// remembered.
pub proof fn law_always_on(m: TraceModel, event: Event<'static>)
    requires
        !m.start_stop,
    ensures
        forwarded(m, event) == Some(event),
        recorded(m, event) == m,
        !overflows(m, event),
{
}

/// What is remembered of an event does not depend on whether tracing runs.
pub proof fn law_caching_ignores_gate(m: TraceModel, event: Event<'static>, started: bool)
    ensures
        recorded(TraceModel { started, ..m }, event) == (TraceModel { started, ..recorded(m, event) }),
{
    assert(recorded(TraceModel { started, ..m }, event) =~= (TraceModel { started, ..recorded(m, event) }));
}

/// An event of one task changes nothing known of the other tasks and moves no
/// task: the tasks known before keep their places, a new task comes last.
pub proof fn law_tasks_keep_their_place(m: TraceModel, event: Event<'static>)
    requires
        model_wf(m),
        !overflows(m, event),
    ensures
        model_wf(recorded(m, event)),
        recorded(m, event).tasks.len() == m.tasks.len() || recorded(m, event).tasks.len() == m.tasks.len() + 1,
        forall|i: int| 0 <= i < m.tasks.len() ==> #[trigger] recorded(m, event).tasks[i].0 == m.tasks[i].0,
        forall|i: int|
            0 <= i < m.tasks.len() && !(event.kind matches EventKind::Task(te) && te.task_id == m.tasks[i].0)
                ==> #[trigger] recorded(m, event).tasks[i] == m.tasks[i],
{
    match event.kind {
        EventKind::Task(te) => {
            if caches_kind(te.kind, m.cache_priority, m.cache_deadline) {
                let d = match lookup(m.tasks, te.task_id) {
                    Some(d) => d,
                    None => unknown_task(),
                };
                lemma_upsert(m.tasks, te.task_id, with_task_event(d, te.kind));
            }
        },
        _ => {},
    }
}

/// Every event of `tasks_replay(tasks, ts)` is an event of a task.
proof fn lemma_tasks_replay_only_task_events(tasks: Seq<(u32, TaskData)>, timestamp: u64)
    ensures
        forall|i: int|
            0 <= i < tasks_replay(tasks, timestamp).len() ==> #[trigger] tasks_replay(tasks, timestamp)[i].kind is Task,
    decreases tasks.len(),
{
    if tasks.len() > 0 {
        lemma_tasks_replay_only_task_events(tasks.drop_last(), timestamp);
        let a = tasks_replay(tasks.drop_last(), timestamp);
        let b = task_replay(tasks.last().0, tasks.last().1, timestamp);
        assert forall|i: int| 0 <= i < b.len() implies #[trigger] b[i].kind is Task by {}
        assert forall|i: int| 0 <= i < (a + b).len() implies #[trigger] (a + b)[i].kind is Task by {
            if i < a.len() {
                assert((a + b)[i] == a[i]);
            } else {
                assert((a + b)[i] == b[i - a.len()]);
            }
        }
    }
}

/// The announcements of the task at position `j` are part of the replay of all tasks.
pub(crate) proof fn lemma_tasks_replay_contains(tasks: Seq<(u32, TaskData)>, timestamp: u64, j: int, x: Event<'static>)
    requires
        0 <= j < tasks.len(),
        task_replay(tasks[j].0, tasks[j].1, timestamp).contains(x),
    ensures
        tasks_replay(tasks, timestamp).contains(x),
    decreases tasks.len(),
{
    let a = tasks_replay(tasks.drop_last(), timestamp);
    let b = task_replay(tasks.last().0, tasks.last().1, timestamp);
    if j == tasks.len() - 1 {
        let k = choose|k: int| 0 <= k < b.len() && b[k] == x;
        assert((a + b)[a.len() + k] == x);
    } else {
        assert(tasks.drop_last()[j] == tasks[j]);
        lemma_tasks_replay_contains(tasks.drop_last(), timestamp, j, x);
        let k = choose|k: int| 0 <= k < a.len() && a[k] == x;
        assert((a + b)[k] == x);
    }
}

/// A task's announcements include the kind of event that was last applied to it.
proof fn lemma_task_replay_announces(task_id: u32, d: TaskData, kind: TaskEventKind<'static>, cache_priority: bool, cache_deadline: bool, timestamp: u64)
    requires
        caches_kind(kind, cache_priority, cache_deadline),
    ensures
        task_replay(task_id, with_task_event(d, kind), timestamp).contains(task_event(timestamp, task_id, kind)),
{
    let r = task_replay(task_id, with_task_event(d, kind), timestamp);
    let x = task_event(timestamp, task_id, kind);
    let d2 = with_task_event(d, kind);
    let n: int = if d2.name is Some { 1 } else { 0 };
    let e: int = if d2.executor_id is Some { 1 } else { 0 };
    let s: int = if d2.last_state_event is Some { 1 } else { 0 };
    let p: int = if d2.priority is Some { 1 } else { 0 };
    match kind {
        TaskEventKind::TaskNamed { .. } => {
            assert(r[0] == x);
        },
        TaskEventKind::TaskNew { .. } => {
            assert(r[n] == x);
        },
        TaskEventKind::PrioritySet { .. } => {
            assert(r[n + e + s] == x);
        },
        TaskEventKind::DeadlineSet { .. } => {
            assert(r[n + e + s + p] == x);
        },
        _ => {
            assert(r[n + e] == x);
        },
    }
}

/// Starting the trace announces, for every task, the latest of each kind of
/// event that is remembered: after an event of a remembered kind of some task,
/// the replay holds that event, stamped with the time of the start.
pub proof fn law_replay_announces_latest(m: TraceModel, event: Event<'static>, timestamp: u64)
    requires
        m.start_stop,
        model_wf(m),
        !overflows(m, event),
        event.kind matches EventKind::Task(te) && caches_kind(te.kind, m.cache_priority, m.cache_deadline),
    ensures
        event.kind matches EventKind::Task(te) && replay(recorded(m, event), timestamp).contains(
            task_event(timestamp, te.task_id, te.kind),
        ),
{
    if let EventKind::Task(te) = event.kind {
        let d = match lookup(m.tasks, te.task_id) {
            Some(d) => d,
            None => unknown_task(),
        };
        let v = with_task_event(d, te.kind);
        lemma_upsert(m.tasks, te.task_id, v);
        let tasks = upsert(m.tasks, te.task_id, v);
        let j = if has_key(m.tasks, te.task_id) { key_index(m.tasks, te.task_id) } else { m.tasks.len() as int };
        let x = task_event(timestamp, te.task_id, te.kind);
        lemma_task_replay_announces(te.task_id, d, te.kind, m.cache_priority, m.cache_deadline, timestamp);
        lemma_tasks_replay_contains(tasks, timestamp, j, x);
        let head = match m.tickrate {
            Some(rate) => seq![global_event(timestamp, GlobalEvent::TickRate { rate })],
            None => Seq::<Event<'static>>::empty(),
        };
        let t = tasks_replay(tasks, timestamp);
        let k = choose|k: int| 0 <= k < t.len() && t[k] == x;
        assert((head + t)[head.len() + k] == x);
    }
}

/// The tick rate is used once: starting the trace emits a tick rate event
/// only first, only where one is known, and with the latest rate seen.
pub proof fn law_single_tick_rate(m: TraceModel, timestamp: u64)
    ensures
        forall|i: int|
            0 <= i < replay(m, timestamp).len() && (#[trigger] replay(m, timestamp)[i]).kind is Global
                ==> i == 0 && m.tickrate is Some && replay(m, timestamp)[i] == global_event(
                timestamp,
                GlobalEvent::TickRate { rate: m.tickrate->Some_0 },
            ),
        m.tickrate is Some ==> replay(m, timestamp)[0] == global_event(
            timestamp,
            GlobalEvent::TickRate { rate: m.tickrate->Some_0 },
        ),
{
    lemma_tasks_replay_only_task_events(m.tasks, timestamp);
    let head = match m.tickrate {
        Some(rate) => seq![global_event(timestamp, GlobalEvent::TickRate { rate })],
        None => Seq::<Event<'static>>::empty(),
    };
    let t = tasks_replay(m.tasks, timestamp);
    assert forall|i: int|
        0 <= i < replay(m, timestamp).len() && (#[trigger] replay(m, timestamp)[i]).kind is Global
        implies i == 0 && m.tickrate is Some && replay(m, timestamp)[i] == global_event(
            timestamp,
            GlobalEvent::TickRate { rate: m.tickrate->Some_0 },
        ) by {
        if i >= head.len() {
            assert((head + t)[i] == t[i - head.len()]);
        }
    }
}

/// With the start/stop layer in use, a tick rate event replaces the rate
/// remembered: starting the trace afterwards emits that rate.
pub proof fn law_latest_tick_rate(m: TraceModel, at: u64, rate: u64, timestamp: u64)
    requires
        m.start_stop,
    ensures
        recorded(m, global_event(at, GlobalEvent::TickRate { rate })).tickrate == Some(rate),
        replay(recorded(m, global_event(at, GlobalEvent::TickRate { rate })), timestamp)[0]
            == global_event(timestamp, GlobalEvent::TickRate { rate }),
{
}

} // verus!

verus! {

/// Whether `x` is the announcement, stamped `timestamp`, of one fact known of
/// task `t` in `d`: its name, its executor, its last state change, its
/// priority or its deadline.
pub open spec fn announces(x: Event<'static>, t: u32, d: TaskData, timestamp: u64) -> bool {
    ||| d.name matches Some(name) && x == task_event(timestamp, t, TaskEventKind::TaskNamed { name })
    ||| d.executor_id matches Some(executor_id) && x == task_event(
        timestamp,
        t,
        TaskEventKind::TaskNew { executor_id },
    )
    ||| d.last_state_event matches Some(k) && x == task_event(timestamp, t, k)
    ||| d.priority matches Some(priority) && x == task_event(timestamp, t, TaskEventKind::PrioritySet { priority })
    ||| d.deadline matches Some(deadline) && x == task_event(timestamp, t, TaskEventKind::DeadlineSet { deadline })
}

/// How many facts are known of a task.
pub open spec fn known_facts(d: TaskData) -> nat {
    (if d.name is Some { 1nat } else { 0nat }) + (if d.executor_id is Some { 1nat } else { 0nat }) + (
    if d.last_state_event is Some { 1nat } else { 0nat }) + (if d.priority is Some { 1nat } else { 0nat }) + (
    if d.deadline is Some { 1nat } else { 0nat })
}

/// How many facts are known of all tasks together.
pub open spec fn known_facts_of_all(tasks: Seq<(u32, TaskData)>) -> nat
    decreases tasks.len(),
{
    if tasks.len() == 0 {
        0
    } else {
        known_facts_of_all(tasks.drop_last()) + known_facts(tasks.last().1)
    }
}

/// A task's announcements are exactly its known facts: one event for each fact
/// known, each the announcement of a known fact, and every known fact among them.
pub proof fn law_task_replay_exact(t: u32, d: TaskData, timestamp: u64)
    ensures
        task_replay(t, d, timestamp).len() == known_facts(d),
        forall|i: int|
            0 <= i < task_replay(t, d, timestamp).len() ==> announces(
                #[trigger] task_replay(t, d, timestamp)[i],
                t,
                d,
                timestamp,
            ),
        d.name matches Some(name) ==> task_replay(t, d, timestamp).contains(
            task_event(timestamp, t, TaskEventKind::TaskNamed { name }),
        ),
        d.executor_id matches Some(executor_id) ==> task_replay(t, d, timestamp).contains(
            task_event(timestamp, t, TaskEventKind::TaskNew { executor_id }),
        ),
        d.last_state_event matches Some(k) ==> task_replay(t, d, timestamp).contains(task_event(timestamp, t, k)),
        d.priority matches Some(priority) ==> task_replay(t, d, timestamp).contains(
            task_event(timestamp, t, TaskEventKind::PrioritySet { priority }),
        ),
        d.deadline matches Some(deadline) ==> task_replay(t, d, timestamp).contains(
            task_event(timestamp, t, TaskEventKind::DeadlineSet { deadline }),
        ),
{
    let r = task_replay(t, d, timestamp);
    let a = match d.name {
        Some(name) => seq![task_event(timestamp, t, TaskEventKind::TaskNamed { name })],
        None => Seq::<Event<'static>>::empty(),
    };
    let b = match d.executor_id {
        Some(executor_id) => seq![task_event(timestamp, t, TaskEventKind::TaskNew { executor_id })],
        None => Seq::<Event<'static>>::empty(),
    };
    let c = match d.last_state_event {
        Some(kind) => seq![task_event(timestamp, t, kind)],
        None => Seq::<Event<'static>>::empty(),
    };
    let p = match d.priority {
        Some(priority) => seq![task_event(timestamp, t, TaskEventKind::PrioritySet { priority })],
        None => Seq::<Event<'static>>::empty(),
    };
    let q = match d.deadline {
        Some(deadline) => seq![task_event(timestamp, t, TaskEventKind::DeadlineSet { deadline })],
        None => Seq::<Event<'static>>::empty(),
    };
    assert(r == a + b + c + p + q);
    assert forall|i: int| 0 <= i < r.len() implies announces(#[trigger] r[i], t, d, timestamp) by {
        if i < a.len() {
            assert(r[i] == a[i]);
        } else if i < a.len() + b.len() {
            assert(r[i] == b[i - a.len()]);
        } else if i < a.len() + b.len() + c.len() {
            assert(r[i] == c[i - a.len() - b.len()]);
        } else if i < a.len() + b.len() + c.len() + p.len() {
            assert(r[i] == p[i - a.len() - b.len() - c.len()]);
        } else {
            assert(r[i] == q[i - a.len() - b.len() - c.len() - p.len()]);
        }
    }
    if d.name is Some {
        assert(r[0] == a[0]);
    }
    if d.executor_id is Some {
        assert(r[a.len() as int] == b[0]);
    }
    if d.last_state_event is Some {
        assert(r[(a.len() + b.len()) as int] == c[0]);
    }
    if d.priority is Some {
        assert(r[(a.len() + b.len() + c.len()) as int] == p[0]);
    }
    if d.deadline is Some {
        assert(r[(a.len() + b.len() + c.len() + p.len()) as int] == q[0]);
    }
}

/// The announcements of all tasks are exactly their known facts: one event for
/// each fact known of some task, each the announcement of a known fact of a
/// task at some position.
proof fn lemma_tasks_replay_exact(tasks: Seq<(u32, TaskData)>, timestamp: u64)
    ensures
        tasks_replay(tasks, timestamp).len() == known_facts_of_all(tasks),
        forall|i: int|
            0 <= i < tasks_replay(tasks, timestamp).len() ==> exists|j: int|
                0 <= j < tasks.len() && announces(
                    #[trigger] tasks_replay(tasks, timestamp)[i],
                    tasks[j].0,
                    tasks[j].1,
                    timestamp,
                ),
    decreases tasks.len(),
{
    if tasks.len() > 0 {
        let init = tasks.drop_last();
        lemma_tasks_replay_exact(init, timestamp);
        law_task_replay_exact(tasks.last().0, tasks.last().1, timestamp);
        let a = tasks_replay(init, timestamp);
        let b = task_replay(tasks.last().0, tasks.last().1, timestamp);
        let r = tasks_replay(tasks, timestamp);
        assert(r == a + b);
        assert forall|i: int| 0 <= i < r.len() implies exists|j: int|
            0 <= j < tasks.len() && announces(#[trigger] r[i], tasks[j].0, tasks[j].1, timestamp) by {
            if i < a.len() {
                assert(r[i] == a[i]);
                let j = choose|j: int| 0 <= j < init.len() && announces(a[i], init[j].0, init[j].1, timestamp);
                assert(tasks[j] == init[j]);
            } else {
                assert(r[i] == b[i - a.len()]);
                assert(announces(b[i - a.len()], tasks.last().0, tasks.last().1, timestamp));
                assert(tasks[tasks.len() - 1] == tasks.last());
            }
        }
    }
}

/// Starting the trace emits nothing but what is remembered: one event for the
/// tick rate where one is known, and one for each fact known of each task; every
/// event of the replay is the tick rate or the announcement of a known fact of
/// a known task.
pub proof fn law_replay_only_remembered(m: TraceModel, timestamp: u64)
    ensures
        replay(m, timestamp).len() == (if m.tickrate is Some { 1nat } else { 0nat }) + known_facts_of_all(m.tasks),
        forall|i: int|
            0 <= i < replay(m, timestamp).len() ==> (m.tickrate matches Some(rate) && #[trigger] replay(
                m,
                timestamp,
            )[i] == global_event(timestamp, GlobalEvent::TickRate { rate })) || exists|j: int|
                0 <= j < m.tasks.len() && announces(replay(m, timestamp)[i], m.tasks[j].0, m.tasks[j].1, timestamp),
{
    lemma_tasks_replay_exact(m.tasks, timestamp);
    let head = match m.tickrate {
        Some(rate) => seq![global_event(timestamp, GlobalEvent::TickRate { rate })],
        None => Seq::<Event<'static>>::empty(),
    };
    let t = tasks_replay(m.tasks, timestamp);
    let r = replay(m, timestamp);
    assert(r == head + t);
    assert forall|i: int| 0 <= i < r.len() implies (m.tickrate matches Some(rate) && #[trigger] r[i] == global_event(
        timestamp,
        GlobalEvent::TickRate { rate },
    )) || exists|j: int| 0 <= j < m.tasks.len() && announces(r[i], m.tasks[j].0, m.tasks[j].1, timestamp) by {
        if i >= head.len() {
            assert(r[i] == t[i - head.len()]);
        }
    }
}

/// A task that is known keeps its slot: no event of it ever finds the cache
/// full. The cache is found full exactly where the event would need a new slot
/// (its task is not yet known and it is remembered) and all `TASK_COUNT` slots
/// are taken.
pub proof fn law_overflow_needs_new_task(m: TraceModel, event: Event<'static>)
    ensures
        (event.kind matches EventKind::Task(te) && has_key(m.tasks, te.task_id)) ==> !overflows(m, event),
        overflows(m, event) == (m.tasks.len() >= crate::task_cache::TASK_COUNT && recorded(m, event).tasks.len()
            > m.tasks.len()),
{
}

} // verus!
