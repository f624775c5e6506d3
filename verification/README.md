# altai_control

The logic of the ALTAI control plane as a verified library: stores of approvals, flags, routines,
work items and notifications, the control protocol, the transfer of the legacy schedule, the import
of the legacy stores, the read models for evaluation, and what the terminal program, its stdio host
and the acceptance scenario decide.

- `src/` is the library. Every executable function states in its contract what it returns and what
  it changes; the properties that span functions stand beside them as proof functions named
  `law_..`. `outside.rs` holds what is believed of other crates.
- `tests/` runs the library.
- `app/` is the program around it: the command line, the local database, the listener and the JSON
  forms of the library's types.
