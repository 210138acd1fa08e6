# bastion_core

Safety primitives for agentic AI systems, verified with Verus.

- `src/` is the verified library: guardrails, verifications, the
  self-healing decision tree, consensus grouping, the hash-chained audit
  trail, metrics, the in-memory checkpoint store, and the runtime's
  decisions (`RuntimeCore`). Verus proves the contracts of its functions;
  calls into sha2, chrono, uuid, serde_json and std stand behind small
  trusted wrappers whose contracts are documented where they are declared.
  A few functions have no contract to prove: the `Timer`, whose readings
  come from the clock, and the methods of the `Guardrail` and
  `Verification` traits, whose contracts are stated by each implementation
  through the trait's spec functions.
- `app/` is the asynchronous runtime around it (`BastionRuntime`): agents
  awaited concurrently with tokio, checkpoint files, serde forms of the
  records, the cost total of the metrics, and the checks that compare
  floating point numbers or touch the file system.
- `tests/` exercises the library.

Numbers between 0 and 1 that the API would naturally hold as `f64` (confidences,
risk and drift scores, ratios, thresholds) are held by the library as the
bit patterns of those `f64` values (`f64::to_bits`).
