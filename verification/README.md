# wake-core

Reads the conversations of Antigravity. The IDE writes a full transcript of each
conversation, one JSON step per line; the command line tool keeps a summary of
each in a database. Both become sessions: what a list shows of them, and their
messages.

- `src/` is the library, verified with Verus. Each type has a mathematical model
  (`deep_view`), and the contracts speak of the models.
  - `transcript`, `row`, `pending`, `request`, `tool_args`: the lines of a
    transcript.
  - `store`, `workspace`: the summaries.
  - `projects`, `layout`, `paths`, `adapter`: directories, files, their paths and
    what is kept of them.
  - `sessions`: finding sessions, and reading one.
  - `conventions`: what is settled for all agents alike; `plain`: the plainest
    such settings, with `time`.
  - `json`: the values of `serde_json`; `text`, `pairs`: texts and lists.
  - `laws`, `path_laws`: what holds of all this as a whole.
- `tests/` runs the library on concrete values.
- `app/` reads directories, files and the database.
