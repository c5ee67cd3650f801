# loopal_agent_hub — workflow scheduling core

The decision logic of the hub's workflow coordinator, written in Verus: the
custody of workflow attempts (preparations and bound workers), the abort,
interrupt, shutdown and containment protocol, activation and outcome
handling, run and attempt deadlines, recovery after a restart (deadlines,
adoption, worker handshakes), drain at shutdown, admission checks, the
trusted limits and the error texts.

Layout:

- `src/` — the verified library. `scheduler.rs`, `callbacks.rs`, `stop.rs`
  and `deadline.rs` hold the custody state and its transitions;
  `recovery.rs`, `dispatch.rs`, `resume.rs`, `admission.rs` and `drain.rs`
  the decisions of the coordinator's operations; `laws.rs` the properties
  that span several operations; `fixtures.rs` the runs and records that the
  tests build on.
- `tests/` — scenarios run against the compiled library.
- `app/` — the asynchronous plumbing: the worker runtime trait and the
  background tasks that carry out what the scheduler decides.
