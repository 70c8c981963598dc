//! What the start/stop layer knows after a whole history of events, and what
//! starting the trace then announces.
use vstd::prelude::*;

use crate::laws::lemma_tasks_replay_contains;
use crate::start_stop::{
    caches_kind, model_wf, overflows, recorded, replay, task_replay, tasks_replay, unknown_task,
    with_task_event, TaskData, TraceModel,
};
use crate::task_cache::{has_key, key_index, keys_distinct, lemma_upsert, lookup, upsert};
use crate::transport::{global_event, task_event, Event, EventKind, GlobalEvent, TaskEventKind};

verus! {

/// The model after each event of `h` went through the layer, in order.
pub open spec fn recorded_all(m: TraceModel, h: Seq<Event<'static>>) -> TraceModel
    decreases h.len(),
{
    if h.len() == 0 {
        m
    } else {
        recorded(recorded_all(m, h.drop_last()), h.last())
    }
}

/// No event of `h` found the task cache full when it came.
pub open spec fn fits(m: TraceModel, h: Seq<Event<'static>>) -> bool {
    forall|i: int| 0 <= i < h.len() ==> !overflows(recorded_all(m, h.take(i)), #[trigger] h[i])
}

/// The things announced of a task when the trace starts.
pub enum TaskFact {
    Name,
    Executor,
    State,
    Priority,
    Deadline,
}

/// Whether an event of kind `k` tells the fact `f`.
pub open spec fn tells(f: TaskFact, k: TaskEventKind<'static>) -> bool {
    match f {
        TaskFact::Name => k is TaskNamed,
        TaskFact::Executor => k is TaskNew,
        TaskFact::State => k is TaskEnd || k is TaskExecBegin || k is TaskExecEnd || k is TaskReadyBegin,
        TaskFact::Priority => k is PrioritySet,
        TaskFact::Deadline => k is DeadlineSet,
    }
}

/// Whether the fact `f` is remembered: priority and deadline only where the
/// runtime was built to.
pub open spec fn fact_remembered(f: TaskFact, cache_priority: bool, cache_deadline: bool) -> bool {
    match f {
        TaskFact::Priority => cache_priority,
        TaskFact::Deadline => cache_deadline,
        _ => true,
    }
}

/// The kind of the last event of task `t` in `h` that tells `f`, if any.
pub open spec fn last_fact(h: Seq<Event<'static>>, t: u32, f: TaskFact) -> Option<TaskEventKind<'static>>
    decreases h.len(),
{
    if h.len() == 0 {
        None
    } else {
        match h.last().kind {
            EventKind::Task(te) => if te.task_id == t && tells(f, te.kind) {
                Some(te.kind)
            } else {
                last_fact(h.drop_last(), t, f)
            },
            _ => last_fact(h.drop_last(), t, f),
        }
    }
}

/// The rate of the last tick rate event in `h`, if any.
pub open spec fn last_tick_rate(h: Seq<Event<'static>>) -> Option<u64>
    decreases h.len(),
{
    if h.len() == 0 {
        None
    } else {
        match h.last().kind {
            EventKind::Global(GlobalEvent::TickRate { rate }) => Some(rate),
            _ => last_tick_rate(h.drop_last()),
        }
    }
}

/// Whether `e` is an event of task `t` of a remembered kind.
pub open spec fn remembered_event_of(e: Event<'static>, t: u32, cache_priority: bool, cache_deadline: bool) -> bool {
    match e.kind {
        EventKind::Task(te) => te.task_id == t && caches_kind(te.kind, cache_priority, cache_deadline),
        _ => false,
    }
}

/// Whether `h` holds an event of task `t` of a remembered kind.
pub open spec fn seen(h: Seq<Event<'static>>, t: u32, cache_priority: bool, cache_deadline: bool) -> bool
    decreases h.len(),
{
    if h.len() == 0 {
        false
    } else {
        remembered_event_of(h.last(), t, cache_priority, cache_deadline) || seen(
            h.drop_last(),
            t,
            cache_priority,
            cache_deadline,
        )
    }
}

/// The position in `h` of the first event of task `t` of a remembered kind.
pub open spec fn first_seen(h: Seq<Event<'static>>, t: u32, cache_priority: bool, cache_deadline: bool) -> int
    decreases h.len(),
{
    if h.len() == 0 {
        0
    } else if seen(h.drop_last(), t, cache_priority, cache_deadline) {
        first_seen(h.drop_last(), t, cache_priority, cache_deadline)
    } else {
        h.len() - 1
    }
}

/// What is known of task `t` after `h`: its last name, the executor of its
/// last creation, its last state change, and (where remembered) its last
/// priority and deadline.
pub open spec fn expected_task(h: Seq<Event<'static>>, t: u32, cache_priority: bool, cache_deadline: bool) -> TaskData {
    TaskData {
        name: match last_fact(h, t, TaskFact::Name) {
            Some(TaskEventKind::TaskNamed { name }) => Some(name),
            _ => None,
        },
        executor_id: match last_fact(h, t, TaskFact::Executor) {
            Some(TaskEventKind::TaskNew { executor_id }) => Some(executor_id),
            _ => None,
        },
        last_state_event: last_fact(h, t, TaskFact::State),
        priority: if cache_priority {
            match last_fact(h, t, TaskFact::Priority) {
                Some(TaskEventKind::PrioritySet { priority }) => Some(priority),
                _ => None,
            }
        } else {
            None
        },
        deadline: if cache_deadline {
            match last_fact(h, t, TaskFact::Deadline) {
                Some(TaskEventKind::DeadlineSet { deadline }) => Some(deadline),
                _ => None,
            }
        } else {
            None
        },
    }
}

/// What holds of the model after `h`, from a start/stop layer that knew nothing.
pub open spec fn history_holds(m0: TraceModel, h: Seq<Event<'static>>) -> bool {
    let m = recorded_all(m0, h);
    let cp = m0.cache_priority;
    let cd = m0.cache_deadline;
    &&& m.start_stop && m.cache_priority == cp && m.cache_deadline == cd && m.started == m0.started
    &&& model_wf(m)
    &&& m.tickrate == last_tick_rate(h)
    &&& forall|t: u32|
        #![trigger has_key(m.tasks, t)]
        #![trigger seen(h, t, cp, cd)]
        has_key(m.tasks, t) == seen(h, t, cp, cd)
    &&& forall|t: u32| seen(h, t, cp, cd) ==> #[trigger] lookup(m.tasks, t) == Some(expected_task(h, t, cp, cd))
    &&& forall|i: int, j: int|
        0 <= i < j < m.tasks.len() ==> first_seen(h, #[trigger] m.tasks[i].0, cp, cd) < first_seen(
            h,
            #[trigger] m.tasks[j].0,
            cp,
            cd,
        )
}

/// The kind found by `last_fact` tells the fact looked for.
proof fn lemma_last_fact_tells(h: Seq<Event<'static>>, t: u32, f: TaskFact)
    ensures
        last_fact(h, t, f) matches Some(k) ==> tells(f, k),
    decreases h.len(),
{
    if h.len() > 0 {
        lemma_last_fact_tells(h.drop_last(), t, f);
    }
}

/// A remembered fact of a task is told only by a remembered event of it.
proof fn lemma_fact_needs_seen(h: Seq<Event<'static>>, t: u32, f: TaskFact, cp: bool, cd: bool)
    requires
        fact_remembered(f, cp, cd),
        last_fact(h, t, f) is Some,
    ensures
        seen(h, t, cp, cd),
    decreases h.len(),
{
    if h.len() > 0 {
        match h.last().kind {
            EventKind::Task(te) => {
                if !(te.task_id == t && tells(f, te.kind)) {
                    lemma_fact_needs_seen(h.drop_last(), t, f, cp, cd);
                }
            },
            _ => {
                lemma_fact_needs_seen(h.drop_last(), t, f, cp, cd);
            },
        }
    }
}

/// A task first seen in `h` was first seen at a position of `h`.
proof fn lemma_first_seen_bound(h: Seq<Event<'static>>, t: u32, cp: bool, cd: bool)
    requires
        seen(h, t, cp, cd),
    ensures
        0 <= first_seen(h, t, cp, cd) < h.len(),
    decreases h.len(),
{
    if seen(h.drop_last(), t, cp, cd) {
        lemma_first_seen_bound(h.drop_last(), t, cp, cd);
    }
}

/// With distinct keys, the value at a position is the one found under its key.
proof fn lemma_lookup_at(entries: Seq<(u32, TaskData)>, i: int)
    requires
        keys_distinct(entries),
        0 <= i < entries.len(),
    ensures
        has_key(entries, entries[i].0),
        lookup(entries, entries[i].0) == Some(entries[i].1),
{
    assert(entries[i].0 == entries[i].0);
    let j = key_index(entries, entries[i].0);
    assert(entries[j].0 == entries[i].0);
}

/// Storing under one key leaves what is found under any other key.
proof fn lemma_lookup_upsert_other(entries: Seq<(u32, TaskData)>, k: u32, v: TaskData, t: u32)
    requires
        keys_distinct(entries),
        t != k,
    ensures
        has_key(upsert(entries, k, v), t) == has_key(entries, t),
        lookup(upsert(entries, k, v), t) == lookup(entries, t),
{
    lemma_upsert(entries, k, v);
    let e2 = upsert(entries, k, v);
    if has_key(entries, t) {
        let i = key_index(entries, t);
        assert(e2[i].0 == t);
        lemma_lookup_at(entries, i);
        lemma_lookup_at(e2, i);
        assert(e2[i] == entries[i]);
    }
    if has_key(e2, t) {
        let i = key_index(e2, t);
        if i < entries.len() {
            assert(entries[i].0 == t);
        } else {
            assert(e2[i].0 == k);
        }
    }
}

/// A fact of a task that was never seen is not known.
proof fn lemma_unseen_task(h: Seq<Event<'static>>, t: u32, cp: bool, cd: bool)
    requires
        !seen(h, t, cp, cd),
    ensures
        expected_task(h, t, cp, cd) == unknown_task(),
{
    if last_fact(h, t, TaskFact::Name) is Some {
        lemma_fact_needs_seen(h, t, TaskFact::Name, cp, cd);
    }
    if last_fact(h, t, TaskFact::Executor) is Some {
        lemma_fact_needs_seen(h, t, TaskFact::Executor, cp, cd);
    }
    if last_fact(h, t, TaskFact::State) is Some {
        lemma_fact_needs_seen(h, t, TaskFact::State, cp, cd);
    }
    if cp && last_fact(h, t, TaskFact::Priority) is Some {
        lemma_fact_needs_seen(h, t, TaskFact::Priority, cp, cd);
    }
    if cd && last_fact(h, t, TaskFact::Deadline) is Some {
        lemma_fact_needs_seen(h, t, TaskFact::Deadline, cp, cd);
    }
}

/// `history_holds`, by induction over the history.
proof fn lemma_history(m0: TraceModel, h: Seq<Event<'static>>)
    requires
        m0.start_stop,
        m0.tickrate is None,
        m0.tasks.len() == 0,
        fits(m0, h),
    ensures
        history_holds(m0, h),
    decreases h.len(),
{
    let cp = m0.cache_priority;
    let cd = m0.cache_deadline;
    if h.len() == 0 {
        assert(recorded_all(m0, h) == m0);
        assert forall|t: u32| has_key(m0.tasks, t) == seen(h, t, cp, cd) by {}
    } else {
        let p = h.drop_last();
        let e = h.last();
        assert forall|i: int| 0 <= i < p.len() implies !overflows(recorded_all(m0, p.take(i)), #[trigger] p[i]) by {
            assert(p.take(i) =~= h.take(i));
            assert(p[i] == h[i]);
        }
        lemma_history(m0, p);
        let mp = recorded_all(m0, p);
        let m = recorded_all(m0, h);
        assert(h.take(p.len() as int) =~= p);
        assert(h[p.len() as int] == e);
        assert(!overflows(mp, e));
        assert(m == recorded(mp, e));
        if remembered_event_of(e, e.kind->Task_0.task_id, cp, cd) && e.kind is Task {
            let te = e.kind->Task_0;
            let u = te.task_id;
            let d = match lookup(mp.tasks, u) {
                Some(d) => d,
                None => unknown_task(),
            };
            let v = with_task_event(d, te.kind);
            lemma_upsert(mp.tasks, u, v);
            assert(m.tasks == upsert(mp.tasks, u, v));
            // the task of the event
            if seen(p, u, cp, cd) {
                assert(d == expected_task(p, u, cp, cd));
            } else {
                lemma_unseen_task(p, u, cp, cd);
                assert(!has_key(mp.tasks, u));
            }
            assert(v == expected_task(h, u, cp, cd));
            let iu = if has_key(mp.tasks, u) { key_index(mp.tasks, u) } else { mp.tasks.len() as int };
            assert(m.tasks[iu] == (u, v));
            lemma_lookup_at(m.tasks, iu);
            assert(seen(h, u, cp, cd));
            assert forall|t: u32| has_key(m.tasks, t) == seen(h, t, cp, cd) by {
                if t != u {
                    lemma_lookup_upsert_other(mp.tasks, u, v, t);
                }
            }
            assert forall|t: u32| seen(h, t, cp, cd) implies #[trigger] lookup(m.tasks, t) == Some(
                expected_task(h, t, cp, cd),
            ) by {
                if t != u {
                    lemma_lookup_upsert_other(mp.tasks, u, v, t);
                    assert(expected_task(h, t, cp, cd) == expected_task(p, t, cp, cd));
                }
            }
            assert forall|i: int, j: int|
                0 <= i < j < m.tasks.len() implies first_seen(h, #[trigger] m.tasks[i].0, cp, cd) < first_seen(
                h,
                #[trigger] m.tasks[j].0,
                cp,
                cd,
            ) by {
                assert(has_key(mp.tasks, mp.tasks[i].0)) by {
                    assert(mp.tasks[i].0 == mp.tasks[i].0);
                }
                assert(m.tasks[i].0 == mp.tasks[i].0);
                assert(seen(p, mp.tasks[i].0, cp, cd));
                lemma_first_seen_bound(p, mp.tasks[i].0, cp, cd);
                if j < mp.tasks.len() {
                    assert(m.tasks[j].0 == mp.tasks[j].0);
                    assert(has_key(mp.tasks, mp.tasks[j].0)) by {
                        assert(mp.tasks[j].0 == mp.tasks[j].0);
                    }
                } else {
                    assert(m.tasks[j].0 == u);
                    assert(!has_key(mp.tasks, u));
                }
            }
        } else {
            assert(m.tasks == mp.tasks);
            assert forall|t: u32| has_key(m.tasks, t) == seen(h, t, cp, cd) by {}
            assert forall|t: u32| seen(h, t, cp, cd) implies #[trigger] lookup(m.tasks, t) == Some(
                expected_task(h, t, cp, cd),
            ) by {
                assert(expected_task(h, t, cp, cd) == expected_task(p, t, cp, cd));
            }
            assert forall|i: int, j: int|
                0 <= i < j < m.tasks.len() implies first_seen(h, #[trigger] m.tasks[i].0, cp, cd) < first_seen(
                h,
                #[trigger] m.tasks[j].0,
                cp,
                cd,
            ) by {
                assert(has_key(mp.tasks, mp.tasks[i].0)) by {
                    assert(mp.tasks[i].0 == mp.tasks[i].0);
                }
                assert(has_key(mp.tasks, mp.tasks[j].0)) by {
                    assert(mp.tasks[j].0 == mp.tasks[j].0);
                }
            }
        }
    }
}

/// The fact `f` of task `t` last told in `h` is among the task's announcements.
proof fn lemma_fact_announced(h: Seq<Event<'static>>, t: u32, f: TaskFact, cp: bool, cd: bool, timestamp: u64)
    requires
        fact_remembered(f, cp, cd),
        last_fact(h, t, f) is Some,
    ensures
        task_replay(t, expected_task(h, t, cp, cd), timestamp).contains(
            task_event(timestamp, t, last_fact(h, t, f)->Some_0),
        ),
{
    lemma_last_fact_tells(h, t, f);
    let d = expected_task(h, t, cp, cd);
    let r = task_replay(t, d, timestamp);
    let x = task_event(timestamp, t, last_fact(h, t, f)->Some_0);
    let n: int = if d.name is Some { 1 } else { 0 };
    let e: int = if d.executor_id is Some { 1 } else { 0 };
    let st: int = if d.last_state_event is Some { 1 } else { 0 };
    let pr: int = if d.priority is Some { 1 } else { 0 };
    match f {
        TaskFact::Name => {
            assert(r[0] == x);
        },
        TaskFact::Executor => {
            assert(r[n] == x);
        },
        TaskFact::State => {
            assert(r[n + e] == x);
        },
        TaskFact::Priority => {
            assert(r[n + e + st] == x);
        },
        TaskFact::Deadline => {
            assert(r[n + e + st + pr] == x);
        },
    }
}

/// From a start/stop layer that knew nothing, after any history `h` of events
/// (passed while tracing ran or not) none of which found the task cache full:
/// the layer holds the last tick rate of `h`; it knows exactly the tasks of
/// which `h` has an event of a remembered kind, in the order in which `h` first
/// has one; of each task it knows the last name, the executor of the last
/// creation, the last state change and, where remembered, the last priority and
/// deadline that `h` tells; and starting the trace then emits the tick rate
/// first and every one of these facts, stamped with the time of the start.
pub proof fn law_history(m0: TraceModel, h: Seq<Event<'static>>, timestamp: u64)
    requires
        m0.start_stop,
        m0.tickrate is None,
        m0.tasks.len() == 0,
        fits(m0, h),
    ensures
        model_wf(recorded_all(m0, h)),
        recorded_all(m0, h).tickrate == last_tick_rate(h),
        forall|t: u32|
            #![trigger seen(h, t, m0.cache_priority, m0.cache_deadline)]
            has_key(recorded_all(m0, h).tasks, t) == seen(h, t, m0.cache_priority, m0.cache_deadline),
        forall|t: u32|
            seen(h, t, m0.cache_priority, m0.cache_deadline) ==> #[trigger] lookup(recorded_all(m0, h).tasks, t)
                == Some(expected_task(h, t, m0.cache_priority, m0.cache_deadline)),
        forall|i: int, j: int|
            0 <= i < j < recorded_all(m0, h).tasks.len() ==> first_seen(
                h,
                #[trigger] recorded_all(m0, h).tasks[i].0,
                m0.cache_priority,
                m0.cache_deadline,
            ) < first_seen(h, #[trigger] recorded_all(m0, h).tasks[j].0, m0.cache_priority, m0.cache_deadline),
        forall|t: u32, f: TaskFact|
            fact_remembered(f, m0.cache_priority, m0.cache_deadline) && #[trigger] last_fact(h, t, f) is Some
                ==> replay(recorded_all(m0, h), timestamp).contains(
                task_event(timestamp, t, last_fact(h, t, f)->Some_0),
            ),
        last_tick_rate(h) matches Some(rate) ==> replay(recorded_all(m0, h), timestamp)[0] == global_event(
            timestamp,
            GlobalEvent::TickRate { rate },
        ),
{
    lemma_history(m0, h);
    let cp = m0.cache_priority;
    let cd = m0.cache_deadline;
    let m = recorded_all(m0, h);
    let head = match m.tickrate {
        Some(rate) => seq![global_event(timestamp, GlobalEvent::TickRate { rate })],
        None => Seq::<Event<'static>>::empty(),
    };
    assert(replay(m, timestamp) == head + tasks_replay(m.tasks, timestamp));
    assert forall|t: u32, f: TaskFact|
        fact_remembered(f, cp, cd) && #[trigger] last_fact(h, t, f) is Some implies replay(m, timestamp).contains(
            task_event(timestamp, t, last_fact(h, t, f)->Some_0),
        ) by {
        lemma_fact_needs_seen(h, t, f, cp, cd);
        assert(has_key(m.tasks, t));
        assert(lookup(m.tasks, t) == Some(expected_task(h, t, cp, cd)));
        let j = key_index(m.tasks, t);
        assert(m.tasks[j].0 == t);
        assert(m.tasks[j].1 == expected_task(h, t, cp, cd));
        let x = task_event(timestamp, t, last_fact(h, t, f)->Some_0);
        lemma_fact_announced(h, t, f, cp, cd, timestamp);
        lemma_tasks_replay_contains(m.tasks, timestamp, j, x);
        let tr = tasks_replay(m.tasks, timestamp);
        let k = choose|k: int| 0 <= k < tr.len() && tr[k] == x;
        assert((head + tr)[head.len() + k] == x);
    }
}

} // verus!
