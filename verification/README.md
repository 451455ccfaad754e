# canister_fleet

The decision logic of a fleet of Internet Computer canisters and of the
tooling that maintains them, proved with Verus.

- `src/` is the verified library: principals and their text codec,
  controller lists and caller guards, cycle returns, the decommission and
  subnet-provisioning runs (as state machines whose driver makes the calls),
  the platform orchestrator's registry, a subnet orchestrator's signup
  bookkeeping, the cycle harvest's decisions, the canister snapshot's paging
  and commits, and the SNS release helpers. Public proof functions named
  `law_*` state the properties that hold across calls.
- `tests/` runs the library on concrete values.
- `app/` holds what Verus does not see: the canisters' endpoints
  (`ic-cdk`), the snapshot fetcher (`reqwest`, `tokio`, `sqlx`), the task
  runner's database and agent (`sqlx`, `ic-agent`) and the harvest runner.
  It drives the library's state machines and converts between the outside
  crates' types and the library's.
