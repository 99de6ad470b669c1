# planned_agent

The core of a plan-and-execute agent, verified with Verus: flexible plan
templates with `${name}` placeholders and output contracts, the step and plan
executors as decision machines, the run service's snapshot table and
subscriptions, and the decisions of a multi-round chat with tool calls,
action cards and sub-agents.

## Layout

- `src/` — the verified library.
  - `flexible/` — templates, parameters, placeholders, output contracts,
    prompts, reports, run events, the step (`StepRun`) and plan (`PlanRun`)
    machines, and `run_service/` (snapshot types, folding events into a
    snapshot, the start/stop decisions, the `RunStore` table).
  - `chat/` — messages and history, streamed replies, the decisions of a
    round and of the driver, tool selection, action cards, the tool-call
    trace, and sub-agent result chains.
  - `agents.rs`, `doc_round_trip.rs` — the flexible agent's completeness
    document, its Markdown form and the round trip of its fields.
  - `json.rs`, `text.rs`, `named_map.rs` — the JSON model, text helpers and a
    string-keyed map used by the contracts.
  - `config.rs`, `cli.rs` — settings and command-line merging.
- `tests/` — tests run against the compiled library.
- `app/` — the host side, not verified: async drivers that run the decision
  machines against a model and tools, serde forms of the library's types,
  settings files and command-line parsing.

## Trusted items

Every proof rests on these contracts, which are not proved:

- `json::parse_json` reads text with `serde_json::from_str` (result named
  `json_parse`); `json::json_to_text` writes a value with `serde_json`'s
  `Display` (result named `json_rendered`); `json::json_to_pretty_text`
  writes it with `serde_json::to_string_pretty` (result named
  `json_pretty`). `model_of` and `serde_of` convert
  between `serde_json::Value` and the library's `JsonValue`, variant for
  variant.
- `flexible::output_schema::debug_quote` quotes a text as `{:?}` does (result
  named `debug_quoted`; for printable ASCII without `"` or `\` it is the text
  between double quotes).
- `clock_now`, `since_epoch` and `whole_millis` in
  `flexible::run_service::types` read the system clock; nothing is stated of
  the time they give.
