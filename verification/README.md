# agentview

Building blocks of an agent runtime, with their behaviour stated as contracts and
proved by Verus.

- `pom`: the prompt object model. Documents of Markdown and XML are built, compared
  (`pom_diff`), resolved against what a reader has already seen (`pom_resolution`,
  `pom_cursor`) and rendered to text (`pom_renderer`). What these promise together
  stands in `pom_laws`.
- `prompt_context`, `llm_call`, `control`: prompt history, the course of one model
  turn, and replies from outside.
- `component`: components declare bindings and provider tools, are mounted into plans
  (`declaration`, `maker`, `tree`, `mountable`, `mount`, `registry`, `durable`), take part
  in streaming attempts (`streaming`, `handlers`, `mounted_binding`, `sink`, `live`,
  `attempt_start`, `attempt`, `finishing`), and publish their results once (`publication`,
  `operation`). `signal` holds the state of mounted components; `task`, `task_actor`,
  `task_loop` and `task_supervisor` decide about their tasks.

`src/` never waits and never locks: where a host has to do something in between, a
function begins the step and another one takes the answer. `app/` is the host side:
async traits, tokio tasks, locks, and JSON of `serde_json`.

Three facts about code outside this library are taken on trust: what `String::push` and
`Arc::clone` do, and that the SHA-256 digest of `sha2` depends on its argument alone and
has 32 bytes.
