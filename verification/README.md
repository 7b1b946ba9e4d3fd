# runtime_host

The verified core of a runtime host: the rules by which a daemon owns its state
root, schedules policy work on game instances, watches its own performance and
room, keeps its ledger, and recovers after a stop.

`src/` is the library. Every function in it carries a contract that Verus
proves: what it returns, which error comes on which input, and how it changes
what it is given. Laws that relate several functions are public proof functions
whose names begin with `law_`.

- Owning a state root: `owner`, `owner_unlock`, `release_state`,
  `release_course`.
- Facts and their recovery: `runtime_facts`, `fact_write`, `fact_recovery`,
  `fact_producers`, `settlement_course`, `monitor`.
- Policy: `policy` (catalog generations, cadence, evaluation, dispatches,
  admissions, executions, planning signals), `procedure_manifest`, `planning`,
  `proposal`, `project_interface`.
- Performance and room: `performance`, `performance_control`.
- Devices and tasks: `resource_close`, `close_course`, `startup_package`,
  `task_timing`, `task_diagnostic`, `diagnostic_plan`.
- Saved artifacts and offline work: `saved_artifact`, `artifact_recognition`,
  `ledger_maintenance`, `maintenance_run`, `signatures`.
- Building blocks: `error`, `ids`, `text`, `json`, `json_value`, `json_text`,
  `digest`, `ordered_map`, `search`, `lines`, `period`, `ipc`.

Work that alternates between decisions and input or output is a course: a value
that names the next action, and a function that takes the reply to that action
and gives the next value or the end.

What other crates compute is trusted rather than proved: SHA-256 of `sha2`, and
the reading and writing of JSON of `serde_json`. The contracts of these calls
stand beside them in `digest`, `json_value` and `json_text`. Which document some
bytes hold, and which bytes a document is written as, are only named there.

`app/` performs the actions: sockets, files, encodings and the loops. `tests/`
runs the library on concrete values.
