# offline_first_sdk

Building blocks of an offline-first multi-agent SDK, written in Verus.

- `src/` is the verified library. Each public function states its result in
  `requires`/`ensures` over spec views (`Seq`, `Map`, `Set`), and the laws
  that relate several operations are public proof functions in the `laws`
  modules (and a few `law_` methods beside the types they speak of).
  Calls into outside crates (ChaCha20-Poly1305, Ed25519, X25519, SHA-256,
  regex, serde_json, dashmap, uuid, chrono, prometheus) go through small
  trusted wrappers whose contracts name or state what those crates return.
- `tests/` runs the library on concrete values.
- `app/` holds what is not verified: asynchronous wrappers, Prometheus
  metric registration, and the floating-point parts (load prediction,
  adaptive balancing, experiment statistics, semantic search).

Modules of the library:

| module | contents |
| --- | --- |
| `load_balancer` | round robin and consistent hashing, the agent registry |
| `mesh_transport` | QoS queues, encryption, signatures, key agreement, ACLs |
| `multi_tenancy` | tenants, quotas, isolation |
| `metadata_management` | entries, in-memory storage, index, queries, history |
| `ml_model_versioning` | model registry, checksums, manager, A/B experiments |
| `monitoring`, `monitoring_integration` | alerts, alert rules, dashboards |
| `nlp` | intents, entities, durations |
| `notification` | channels, notifications, batch summaries |
