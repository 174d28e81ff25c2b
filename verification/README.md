# libcrucible

The verified core of a multi-agent code review engine. Several command-line
agents review a diff in rounds; their findings are clustered and weighed for
consensus, a judge decides when the rounds have converged, and the result is
turned into canonical issues, an action plan and pull-request comments.

- `src/` is the library, written in Verus: every function carries a contract
  over mathematical models (`Seq`, `Map`, spec functions), and the laws of the
  library (consensus bounds, quorum monotonicity, calibration, the course of a
  multi-round run, the built-in task packs) are stated as public proof
  functions. Calls into outside crates (`regex`, `serde_json`, `which`,
  `uuid`) sit behind small trusted wrappers whose contracts name their results.
- `tests/` runs the library on concrete inputs.
- `app/` is the command-line program around it: argument handling, git, file
  and process I/O, the terminal UI, and the loop that performs the actions the
  library's state machine (`review_flow`) asks for.
