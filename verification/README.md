# embedded-perfmon

Gathers trace data of an embassy executor and its tasks on a device, and reads
the resulting byte stream back on a host.

- `src/` is the verified library:
  - `transport`: the event types.
  - `start_stop`: the runtime's state. Built always-on (the default) it lets
    every event through and remembers nothing; with the start/stop layer it
    remembers what a trace needs (tick rate, each task's name, executor, last
    state, and optionally its priority and deadline) and lets events through
    only while tracing runs; starting replays what it remembers.
  - `task_cache`: the fixed-capacity `heapless` map behind that memory, and what
    the library relies on of it.
  - `hooks`, `marker`, `span`: the events that the executor, the interrupt layer
    and the user report, each passed through the start/stop layer.
  - `laws`, `history`: properties that hold across these operations, among
    them what the layer knows, and replays, after any history of events.
- `app/` is the glue: the global state behind a critical section, the hooks the
  executor calls, the async entry points, the serde/postcard wire form of the
  events, and the analyzer command line.
