# kaisha_server

The rules behind Kaisha's server, written in Verus: every function of the
library carries a `requires`/`ensures` contract that Verus proves.

Kaisha runs a small software company of AI employees: requirements move
through collection, review, development, testing and release; employees keep
todo lists and explore the workspace on their own; a task graph schedules
work onto workers.

Layout:

- `src/` — the verified library. Requirement files and their front matter,
  review tallies and conclusions, development and testing tasks, release
  reports, employees and their todos, intent detection for chat messages, the
  autonomy planner, scheduler, task graph and workers, git argument building
  and repository listings, settings addresses, paths and text handling.
- `tests/` — tests of the library on concrete values.
- `app/` — the HTTP server around the library: configuration, files on disk,
  running `git`, JSON and YAML shapes, event delivery.
