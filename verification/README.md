# servicio

The verified core of a desktop supervisor for long-running developer services
(queue workers, schedulers, scripts): it keeps them running with exponential
backoff, runs them on cron or interval schedules or a fixed number of times,
and suggests workers for a project folder.

## Layout

- `src/` — the library, verified with Verus:
  - `state`, `backoff`, `supervisor`, `schedule`, `worker`, `duration`: the
    instance lifecycle, restart and batch decisions, schedule delays;
  - `manager`, `process`, `logs`, `sampler`, `metrics`: the bookkeeping of
    running workers, the child's search path, log records and rotation,
    resource sampling and metric series;
  - `ipc`, `json`, `serve`, `client`, `sidecar`: the wire protocol, what the
    daemon answers on a connection, what a client makes of the replies, and
    how the desktop app brings up a current daemon;
  - `detect`, `laravel`, `entrypoints`, `procfile`, `crontab`, `tasks`,
    `jsonc`: the project scanners;
  - `paths`, `service`, `token`, `daemon`, `cli`, `text`: file locations,
    login-service definitions, tokens and text helpers.
- `tests/` — tests of the library, run against the compiled crate.
- `app/` — the I/O around it: the socket server, the SQLite store, the
  process runner, the daemon's command line, the terminal client and the
  desktop app's client.
