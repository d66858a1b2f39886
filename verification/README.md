# apophy

Local AI continuity engine. `src/` is the verified core (Verus); `app/` is
the service around it.

- `src/toon.rs` — TOON: JSON text compressed with zstd-12, the 100-token
  threshold (cl100k tokenizer), size statistics.
- `src/router.rs` — model registry and routing by task; `src/thermal.rs` —
  GPU temperature from sensor text and the safety decision.
- `src/prompt.rs` — prompt mutations and the text signals of the heuristic
  score; `src/text.rs` — words, sentences, joining, trimming, numbers.
- `src/task.rs`, `src/tasks.rs`, `src/text_map.rs` — the shared task context
  and the ArXiv lab tasks; `src/graph.rs`, `src/workflow.rs` — DAG planning
  with petgraph, the step-by-step run, and the whole run of the ArXiv lab.
- `src/api.rs`, `src/memory.rs` — the values of the HTTP API.
- `app/` — axum API, SQLite memory store, sysfs sensor reading, async task
  execution, `f64` prompt scoring and the refinement loop, serde forms.
