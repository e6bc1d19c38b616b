# julie-extract-artifact

Support for durable extraction artifacts and the multi-generation store
that holds them, written in Verus: every function in `src/` carries a
contract and is proved against it.

## Layout

- `src/` — the verified library.
  - `text`, `num`, `sorted`, `json` — text, integer and ordered-run
    helpers, and the few facts taken from `serde_json` and `sha2`.
  - `artifact_schema` — the statements that create an artifact database.
  - `model`, `reports`, `metadata`, `jsonl`, `resolution_store`,
    `memory`, `messages` — row counts and report codes, artifact metadata
    rows, the checks of a JSON-lines export, resolution spellings, the
    bulk page-cache size, and what each error says.
  - `store/` — the store family: its layout, version floors and the
    connection factory, the coordinator's lease, queue and drain
    decisions, the store log, manifest canonicalization, encoding,
    publication and rebasing, generation lifecycle and build plans,
    maintenance planning and the decisions of applying a plan, the state
    machine of one drain quantum, and reader registration.
- `app/` — what touches the machine: SQLite connections and statements,
  the file system, the memory probe, the lease heartbeat thread, and the
  JSON-lines export (whose rows carry floating-point columns). It runs
  the lease acquisition, the drain and its quanta, the coordinator's
  request lookups and cursors, manifest publication and a maintenance
  run's acquisition on the library's decisions, and writes the canonical
  JSON form of a maintenance plan that the library seals it with. The
  application of a maintenance plan and the generation build call store
  modules that this tree does not hold; their decisions stand in the
  library (`store::upkeep`, `store::generation`) without a driver here.
- `tests/` — tests of the library on concrete values.

Laws that span functions are public proof functions named `lemma_*`,
next to the functions they speak of.
