# locker

Distributed locks backed by Redis, with automatic lease extension and RESP3
client-tracking push notifications.

* `src/` is the verified library. It holds every decision: what is sent to the
  server, what comes of each reply, who is woken, and when a lock is lost. It does not
  touch the network and does not wait.
* `app/` runs it on tokio: the tasks, the clock, and a `Client` trait for the
  connection.
* `tests/` runs the library against an in-memory server.

| module | what it holds |
| --- | --- |
| `config` | the knobs, and the settings they stand for |
| `time`, `text`, `key`, `token`, `error` | spans and deadlines, decimal numbers, lock keys, random tokens, errors |
| `script` | the Lua scripts and the calls made of them |
| `gate` | the signals that tasks wait on |
| `state` | the state of a locker and what each step makes of it |
| `locker` | gates, outstanding acquisitions, pushes, closing |
| `init` | getting ready, and ready again after a reconnect |
| `acquire` | from a request to a guard |
| `guard`, `extender` | held locks and how they are kept alive |
| `server` | a model of how Redis runs the scripts |
| `laws` | what holds of lockers as a whole |

An extension always carries an absolute deadline, since its script uses `PEXPIREAT`;
`fallback_set_px` only changes how keys are set.
