# Prism

Prism is a provider-agnostic publishing engine for deterministic multi-channel
delivery: one intent, explicit content variants, deterministic delivery. Every
target is validated before anything is published.

The `prism` library is written in Verus. Its contracts state what each
operation returns or changes, and Verus proves the code against them.

## Layout

| Path | Holds |
| --- | --- |
| `src/text.rs` | Character-level helpers: UTF-8 lengths, white space, decimals, code point order |
| `src/ids.rs` | Validated identifiers, namespaced keys, secret-bearing keys, BCP-47 locale tags |
| `src/content.rs` | Ordered extension maps, media, bodies and content variants |
| `src/capabilities.rs` | Provider capability snapshots and the checks they imply for a variant |
| `src/request.rs` | Publish requests, structural validation, variant selection, idempotency material |
| `src/result.rs` | Delivery errors, receipts, outcomes and events |
| `src/provider.rs` | Provider requests and the ordered provider registry |
| `src/runtime.rs` | The execution state machine: preflight, dispatch policy, report |
| `src/protocol.rs` | `prism-execution.v1` envelopes and transport bookkeeping |
| `src/threads.rs` | The Threads adapter's decisions: capabilities, publication steps, error mapping, API replies |
| `src/testkit.rs` | The fake provider's state and the conformance probe's decisions |
| `src/json.rs` | JSON values carried through unread |
| `app/` | The `prism-runtime` process: async adapters, HTTPS transport, serde wire form, stdin/stdout |
| `tests/` | Scenario tests on concrete values |

The execution state machine answers, at each step, which outside work it needs
next (capability discovery, provider validation, a publish call, or none); the
runtime in `app/` performs it and hands the answer back. The same holds for the
Threads adapter's publication: binding, container, publish.

Each step of an execution is a relation between the state before and after it
(`preflight_step`, `dispatch_step`, `publish_step` and the others in
`src/runtime.rs`), and the library proves that these relations leave nothing
open: runs driven from the same request, against registries with the same
providers, with the adapters giving the same answers, produce the same stages,
outcomes and events (`lemma_driven_runs_deterministic`).

## Running

Without `--json`, the runtime reads and writes one NDJSON envelope per line;
with it, one JSON envelope to EOF. `--test-provider` registers the no-network
provider `test.fake`. stdout is protocol-only; diagnostics go to stderr.
