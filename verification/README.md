# Service accounts

Organization-scoped machine identities for Lenso, with machine-checked rules.

- `src/` is the library, verified with Verus. Operations are state machines that
  ask for outside work and are resumed with its outcome. The tables and the
  transactions on them are in `storage`, what holds over any sequence of
  transactions in `history`.
- `app/` is the Lenso plugin: provider calls, PostgreSQL, JSON, and the loops
  that run the state machines.
- `tests/` runs the library on concrete values.

The schema is installed and upgraded by an operator, never by the running
plugin.
