# scheduled_tasks

Prompts that are queued on a schedule: cron jobs that live in a session or in the project's file
`.codex/scheduled_tasks.json`, and one-shot wakeups after a delay.

- `src/` is the library, verified with Verus: cron expressions and their run times, the spread of
  run times, the jobs and wakeups of a session, what is due at a tick, the tools that a model calls,
  and the texts it is shown. `src/laws.rs` states what holds from one call to the next.
- `app/` puts it to work: the file, the lock beside it, and the tick, on tokio.
- `tests/` runs the library.

Run times go by the local clock. Contracts speak of the clock through what it can show
(`calendar::local_reading`, `calendar::local_instant`), since the machine's time zone is not a
property of the library.
