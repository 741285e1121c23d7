# titanclaw

The decision logic of an autonomous agent runtime, verified with Verus.

The library (`src/`) holds the rules that decide what the agent does: the
approval and hook policy for tool calls, tool routing around unreliable
tools, circuit breakers and reliability counts, the chat tool loop and the
background plan runner, completion checks and replanning, memory write
classification and retrieval ranking, profile onboarding and synthesis with
their managed document sections, routines, incidents, the kernel patch
workflow, and the web gateway's token check. Every public function states
its result in its `ensures`; laws that span functions are public proof
functions (for example `section_laws::law_synth_section_rewrite` or
`plan_exec::lemma_plan_completion_needs_claim_and_check`).

Values that the runtime reads from outside (JSON, hook results, tool
outcomes, times) come in as plain values; the few calls into other crates
(JSON parsing, URL query parsing, BLAKE3, regular expressions, constant-time
comparison, UUIDs, lower-casing) sit behind small trusted wrappers whose
contracts say what the called function returns.

`app/` is the glue that cannot be verified: the axum middleware, telemetry
records with their serde derives, tool stream events, floating-point
reliability scores, and clock conversions.

Tests in `tests/` exercise the library on concrete values.
