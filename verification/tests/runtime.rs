use embedded_perfmon::hooks::{
    embassy_mcxa_trace_irq_end, embassy_mcxa_trace_irq_start, embassy_trace_executor_idle,
    embassy_trace_poll_start, embassy_trace_task_end, embassy_trace_task_exec_begin,
    embassy_trace_task_exec_end, embassy_trace_task_new, embassy_trace_task_ready_begin,
    emit_tickrate_trace, name_task,
};
use embedded_perfmon::marker::{emit_global_marker, emit_task_marker};
use embedded_perfmon::span::{start_global_span, start_task_span, SpanIds};
use embedded_perfmon::start_stop::{State, TaskData};
use embedded_perfmon::task_cache::TASK_COUNT;
use embedded_perfmon::transport::{
    Event, EventKind, ExecutorEvent, ExecutorEventKind, GlobalEvent, TaskEvent, TaskEventKind,
};

fn task(timestamp: u64, task_id: u32, kind: TaskEventKind<'static>) -> Event<'static> {
    Event { timestamp, kind: EventKind::Task(TaskEvent { task_id, kind }) }
}

fn global(timestamp: u64, kind: GlobalEvent<'static>) -> Event<'static> {
    Event { timestamp, kind: EventKind::Global(kind) }
}

fn executor(timestamp: u64, executor_id: u32, kind: ExecutorEventKind) -> Event<'static> {
    Event { timestamp, kind: EventKind::Executor(ExecutorEvent { executor_id, kind }) }
}

#[test]
fn new_state_is_stopped_and_empty() {
    let mut s = State::new();
    assert!(!s.is_started());
    let replay = s.start_tracing(10);
    assert!(replay.is_empty());
    assert!(s.is_started());
}

#[test]
fn stopped_state_holds_events_back() {
    let mut s = State::new();
    let e = global(1, GlobalEvent::IrqStart { irq: 3 });
    assert_eq!(s.write_trace_event(e), None);
}

#[test]
fn started_state_lets_events_through() {
    let mut s = State::new();
    s.start_tracing(0);
    let e = global(1, GlobalEvent::IrqStart { irq: 3 });
    assert_eq!(s.write_trace_event(e), Some(e));
    s.stop_tracing();
    assert!(!s.is_started());
    assert_eq!(s.write_trace_event(e), None);
}

#[test]
fn start_replays_cached_task_data_in_order() {
    let mut s = State::new();
    s.write_trace_event(global(1, GlobalEvent::TickRate { rate: 32768 }));
    s.write_trace_event(task(2, 7, TaskEventKind::TaskNew { executor_id: 1 }));
    s.write_trace_event(task(3, 7, TaskEventKind::TaskNamed { name: "main" }));
    s.write_trace_event(task(4, 9, TaskEventKind::TaskExecBegin));
    s.write_trace_event(task(5, 7, TaskEventKind::TaskReadyBegin));
    s.write_trace_event(task(6, 7, TaskEventKind::TaskExecBegin));
    let replay = s.start_tracing(100);
    assert_eq!(
        replay,
        vec![
            global(100, GlobalEvent::TickRate { rate: 32768 }),
            task(100, 7, TaskEventKind::TaskNamed { name: "main" }),
            task(100, 7, TaskEventKind::TaskNew { executor_id: 1 }),
            task(100, 7, TaskEventKind::TaskExecBegin),
            task(100, 9, TaskEventKind::TaskExecBegin),
        ]
    );
}

#[test]
fn markers_and_spans_are_not_cached() {
    let mut s = State::new();
    let mut ids = SpanIds::new();
    assert_eq!(emit_global_marker(&mut s, 1, "m"), None);
    assert_eq!(emit_task_marker(&mut s, 2, 4, "tm"), None);
    let (span, out) = start_global_span(&mut ids, &mut s, 3, "g");
    assert_eq!(out, None);
    assert_eq!(span.end(&mut s, 4), None);
    let (tspan, out) = start_task_span(&mut ids, &mut s, 5, 4, "t");
    assert_eq!(out, None);
    assert_eq!(tspan.end(&mut s, 6), None);
    s.write_trace_event(task(7, 4, TaskEventKind::Marker { name: "x" }));
    s.write_trace_event(task(8, 4, TaskEventKind::SpanStart { name: "x", id: 3 }));
    s.write_trace_event(task(9, 4, TaskEventKind::SpanEnd { id: 3 }));
    assert!(s.start_tracing(10).is_empty());
}

#[test]
fn markers_pass_while_started() {
    let mut s = State::new();
    s.start_tracing(0);
    assert_eq!(emit_global_marker(&mut s, 5, "boot"), Some(global(5, GlobalEvent::Marker { name: "boot" })));
    assert_eq!(
        emit_task_marker(&mut s, 6, 2, "step"),
        Some(task(6, 2, TaskEventKind::Marker { name: "step" }))
    );
}

#[test]
fn spans_take_consecutive_ids_and_end_with_them() {
    let mut s = State::new();
    s.start_tracing(0);
    let mut global_ids = SpanIds::new();
    let mut task_ids = SpanIds::new();
    let (a, ea) = start_global_span(&mut global_ids, &mut s, 1, "a");
    let (b, eb) = start_global_span(&mut global_ids, &mut s, 2, "b");
    let (t, et) = start_task_span(&mut task_ids, &mut s, 3, 11, "t");
    assert_eq!(ea, Some(global(1, GlobalEvent::SpanStart { name: "a", id: 0 })));
    assert_eq!(eb, Some(global(2, GlobalEvent::SpanStart { name: "b", id: 1 })));
    assert_eq!(et, Some(task(3, 11, TaskEventKind::SpanStart { name: "t", id: 0 })));
    assert_eq!(b.end(&mut s, 4), Some(global(4, GlobalEvent::SpanEnd { id: 1 })));
    assert_eq!(a.end(&mut s, 5), Some(global(5, GlobalEvent::SpanEnd { id: 0 })));
    assert_eq!(t.end(&mut s, 6), Some(task(6, 11, TaskEventKind::SpanEnd { id: 0 })));
}

#[test]
fn span_counter_hands_out_ids_in_turn() {
    let mut ids = SpanIds::new();
    assert_eq!(ids.fetch_next(), 0);
    assert_eq!(ids.fetch_next(), 1);
    assert_eq!(ids.fetch_next(), 2);
}

#[test]
fn priority_and_deadline_cached_only_when_enabled() {
    let mut plain = State::new();
    plain.write_trace_event(task(1, 3, TaskEventKind::PrioritySet { priority: 2 }));
    plain.write_trace_event(task(2, 3, TaskEventKind::DeadlineSet { deadline: 99 }));
    assert!(plain.start_tracing(10).is_empty());

    let mut full = State::with_features(true, true);
    full.write_trace_event(task(1, 3, TaskEventKind::PrioritySet { priority: 2 }));
    full.write_trace_event(task(2, 3, TaskEventKind::DeadlineSet { deadline: 99 }));
    full.write_trace_event(task(3, 3, TaskEventKind::TaskEnd));
    assert_eq!(
        full.start_tracing(10),
        vec![
            task(10, 3, TaskEventKind::TaskEnd),
            task(10, 3, TaskEventKind::PrioritySet { priority: 2 }),
            task(10, 3, TaskEventKind::DeadlineSet { deadline: 99 }),
        ]
    );

    let mut prio_only = State::with_features(true, false);
    prio_only.write_trace_event(task(1, 3, TaskEventKind::PrioritySet { priority: 5 }));
    prio_only.write_trace_event(task(2, 3, TaskEventKind::DeadlineSet { deadline: 99 }));
    assert_eq!(prio_only.start_tracing(7), vec![task(7, 3, TaskEventKind::PrioritySet { priority: 5 })]);
}

#[test]
fn cache_full_is_detected() {
    let mut s = State::new();
    for id in 0..TASK_COUNT as u32 {
        let e = task(1, id, TaskEventKind::TaskNew { executor_id: 0 });
        assert!(!s.would_overflow(&e));
        s.write_trace_event(e);
    }
    assert!(s.would_overflow(&task(2, 100, TaskEventKind::TaskNew { executor_id: 0 })));
    assert!(s.would_overflow(&task(2, 100, TaskEventKind::TaskNamed { name: "late" })));
    // a known task still has its slot
    assert!(!s.would_overflow(&task(2, 5, TaskEventKind::TaskNamed { name: "five" })));
    // what is not cached needs no slot
    assert!(!s.would_overflow(&task(2, 100, TaskEventKind::Marker { name: "m" })));
    assert!(!s.would_overflow(&task(2, 100, TaskEventKind::PrioritySet { priority: 1 })));
    assert!(!s.would_overflow(&global(2, GlobalEvent::TickRate { rate: 1 })));
    s.write_trace_event(task(2, 5, TaskEventKind::TaskNamed { name: "five" }));
    let replay = s.start_tracing(3);
    assert_eq!(replay.len(), TASK_COUNT + 1);
    assert_eq!(replay[5], task(3, 5, TaskEventKind::TaskNamed { name: "five" }));
    assert_eq!(replay[6], task(3, 5, TaskEventKind::TaskNew { executor_id: 0 }));
}

#[test]
fn hooks_build_their_events() {
    let mut s = State::new();
    s.start_tracing(0);
    assert_eq!(embassy_trace_poll_start(&mut s, 1, 2), Some(executor(1, 2, ExecutorEventKind::ExecutorPollStart)));
    assert_eq!(embassy_trace_executor_idle(&mut s, 2, 2), Some(executor(2, 2, ExecutorEventKind::ExecutorIdle)));
    assert_eq!(
        embassy_trace_task_new(&mut s, 3, 2, 40),
        Some(task(3, 40, TaskEventKind::TaskNew { executor_id: 2 }))
    );
    assert_eq!(embassy_trace_task_exec_begin(&mut s, 4, 2, 40), Some(task(4, 40, TaskEventKind::TaskExecBegin)));
    assert_eq!(embassy_trace_task_exec_end(&mut s, 5, 2, 40), Some(task(5, 40, TaskEventKind::TaskExecEnd)));
    assert_eq!(embassy_trace_task_ready_begin(&mut s, 6, 2, 40), Some(task(6, 40, TaskEventKind::TaskReadyBegin)));
    assert_eq!(embassy_trace_task_end(&mut s, 7, 2, 40), Some(task(7, 40, TaskEventKind::TaskEnd)));
    assert_eq!(embassy_mcxa_trace_irq_start(&mut s, 8, 12), Some(global(8, GlobalEvent::IrqStart { irq: 12 })));
    assert_eq!(embassy_mcxa_trace_irq_end(&mut s, 9, 12), Some(global(9, GlobalEvent::IrqEnd { irq: 12 })));
    assert_eq!(emit_tickrate_trace(&mut s, 10, 1000), Some(global(10, GlobalEvent::TickRate { rate: 1000 })));
    assert_eq!(name_task(&mut s, 11, 40, "worker"), Some(task(11, 40, TaskEventKind::TaskNamed { name: "worker" })));
    s.stop_tracing();
    let replay = s.start_tracing(20);
    assert_eq!(
        replay,
        vec![
            global(20, GlobalEvent::TickRate { rate: 1000 }),
            task(20, 40, TaskEventKind::TaskNamed { name: "worker" }),
            task(20, 40, TaskEventKind::TaskNew { executor_id: 2 }),
            task(20, 40, TaskEventKind::TaskEnd),
        ]
    );
}

#[test]
fn task_data_update_and_announcements() {
    let d = TaskData::default();
    assert_eq!(d, TaskData { name: None, executor_id: None, last_state_event: None, priority: None, deadline: None });
    let d = d.with_event(TaskEventKind::TaskNamed { name: "n" }).with_event(TaskEventKind::TaskExecEnd);
    let d = d.with_event(TaskEventKind::Marker { name: "ignored" });
    assert_eq!(d.name, Some("n"));
    assert_eq!(d.last_state_event, Some(TaskEventKind::TaskExecEnd));
    let mut out = vec![global(0, GlobalEvent::IrqEnd { irq: 1 })];
    d.send_data(8, 77, &mut out);
    assert_eq!(
        out,
        vec![
            global(0, GlobalEvent::IrqEnd { irq: 1 }),
            task(77, 8, TaskEventKind::TaskNamed { name: "n" }),
            task(77, 8, TaskEventKind::TaskExecEnd),
        ]
    );
}

// One test for each law, on concrete values.

#[test]
fn law_gate_on_values() {
    let mut s = State::new();
    let e = task(1, 1, TaskEventKind::TaskExecBegin);
    s.start_tracing(0);
    s.stop_tracing();
    assert_eq!(s.write_trace_event(e), None);
    s.start_tracing(0);
    assert_eq!(s.write_trace_event(e), Some(e));
}

#[test]
fn law_caching_ignores_gate_on_values() {
    let mut stopped = State::new();
    let mut running = State::new();
    running.start_tracing(0);
    for s in [&mut stopped, &mut running] {
        s.write_trace_event(task(1, 6, TaskEventKind::TaskNamed { name: "six" }));
        s.write_trace_event(global(2, GlobalEvent::TickRate { rate: 5 }));
    }
    stopped.stop_tracing();
    running.stop_tracing();
    assert_eq!(stopped.start_tracing(9), running.start_tracing(9));
}

#[test]
fn law_tasks_keep_their_place_on_values() {
    let mut s = State::new();
    s.write_trace_event(task(1, 30, TaskEventKind::TaskNamed { name: "a" }));
    s.write_trace_event(task(2, 10, TaskEventKind::TaskNamed { name: "b" }));
    s.write_trace_event(task(3, 20, TaskEventKind::TaskNamed { name: "c" }));
    s.write_trace_event(task(4, 30, TaskEventKind::TaskNamed { name: "a2" }));
    assert_eq!(
        s.start_tracing(5),
        vec![
            task(5, 30, TaskEventKind::TaskNamed { name: "a2" }),
            task(5, 10, TaskEventKind::TaskNamed { name: "b" }),
            task(5, 20, TaskEventKind::TaskNamed { name: "c" }),
        ]
    );
}

#[test]
fn law_replay_announces_latest_on_values() {
    let mut s = State::new();
    s.write_trace_event(task(1, 2, TaskEventKind::TaskExecBegin));
    s.write_trace_event(task(2, 2, TaskEventKind::TaskExecEnd));
    s.write_trace_event(task(3, 2, TaskEventKind::TaskNew { executor_id: 4 }));
    s.write_trace_event(task(4, 2, TaskEventKind::TaskNew { executor_id: 5 }));
    let replay = s.start_tracing(6);
    assert!(replay.contains(&task(6, 2, TaskEventKind::TaskExecEnd)));
    assert!(replay.contains(&task(6, 2, TaskEventKind::TaskNew { executor_id: 5 })));
    assert!(!replay.contains(&task(6, 2, TaskEventKind::TaskExecBegin)));
    assert!(!replay.contains(&task(6, 2, TaskEventKind::TaskNew { executor_id: 4 })));
}

#[test]
fn law_single_and_latest_tick_rate_on_values() {
    let mut s = State::new();
    s.write_trace_event(task(1, 2, TaskEventKind::TaskEnd));
    s.write_trace_event(global(2, GlobalEvent::TickRate { rate: 100 }));
    s.write_trace_event(global(3, GlobalEvent::TickRate { rate: 200 }));
    let replay = s.start_tracing(4);
    assert_eq!(replay[0], global(4, GlobalEvent::TickRate { rate: 200 }));
    let rates = replay.iter().filter(|e| matches!(e.kind, EventKind::Global(_))).count();
    assert_eq!(rates, 1);
}

#[test]
fn law_span_ids_distinct_on_values() {
    let mut ids = SpanIds::new();
    let mut seen = Vec::new();
    for _ in 0..1000 {
        let id = ids.fetch_next();
        assert!(!seen.contains(&id));
        seen.push(id);
    }
}

#[test]
fn law_always_on_on_values() {
    let mut s = State::always_on();
    for id in 0..(TASK_COUNT as u32 + 4) {
        let e = task(1, id, TaskEventKind::TaskNew { executor_id: 0 });
        assert!(!s.would_overflow(&e));
        assert_eq!(s.write_trace_event(e), Some(e));
    }
    let rate = global(2, GlobalEvent::TickRate { rate: 10 });
    assert_eq!(s.write_trace_event(rate), Some(rate));
    s.stop_tracing();
    assert_eq!(emit_global_marker(&mut s, 3, "m"), Some(global(3, GlobalEvent::Marker { name: "m" })));
    assert!(s.start_tracing(4).is_empty());
}

#[test]
fn law_history_on_values() {
    let mut s = State::with_features(true, false);
    s.write_trace_event(task(1, 5, TaskEventKind::TaskNew { executor_id: 1 }));
    s.write_trace_event(global(2, GlobalEvent::TickRate { rate: 10 }));
    s.start_tracing(3);
    s.write_trace_event(task(4, 8, TaskEventKind::TaskReadyBegin));
    s.write_trace_event(task(5, 5, TaskEventKind::TaskNamed { name: "first" }));
    s.stop_tracing();
    s.write_trace_event(task(6, 5, TaskEventKind::TaskNamed { name: "second" }));
    s.write_trace_event(task(7, 8, TaskEventKind::PrioritySet { priority: 3 }));
    s.write_trace_event(task(8, 8, TaskEventKind::DeadlineSet { deadline: 40 }));
    s.write_trace_event(task(9, 5, TaskEventKind::TaskExecEnd));
    s.write_trace_event(global(10, GlobalEvent::TickRate { rate: 20 }));
    s.write_trace_event(task(11, 9, TaskEventKind::Marker { name: "not cached" }));
    assert_eq!(
        s.start_tracing(12),
        vec![
            global(12, GlobalEvent::TickRate { rate: 20 }),
            task(12, 5, TaskEventKind::TaskNamed { name: "second" }),
            task(12, 5, TaskEventKind::TaskNew { executor_id: 1 }),
            task(12, 5, TaskEventKind::TaskExecEnd),
            task(12, 8, TaskEventKind::TaskReadyBegin),
            task(12, 8, TaskEventKind::PrioritySet { priority: 3 }),
        ]
    );
}
