# Ranger, verified

The decision logic of the Ranger cyber-range orchestrator, written in Verus.

- `src/` is the verified library: scheduling of nodes and features, distribution
  of work over deployers, the records kept of deployment elements, event
  planning and polling, condition handling, role-based scenario filtering, the
  ledger, the websocket registry and helpers. Verus checks every function
  against its contract; the public functions state what they compute, and the
  calls into `uuid`, `sha3`, `depper` and `anyhow` stand
  behind small trusted items whose contracts are documented where they are declared.
- `app/` holds what cannot be verified: the actix actors, the deployer clients
  and database behind traits, the asynchronous deployment runs, mail sending
  with `lettre`, and the conversion of scenarios parsed by `sdl-parser`.
- `tests/` exercises the library on concrete values.
