# mink

The rules of a coding agent, verified with Verus.

`src/` is the library. It decides; it does not talk to a service, a file or a terminal.

- `agent`: turns, sub-agents, decisions about a turn that has gone astray, the prefix of requests
- `llm`: the bodies of requests, retries, streams, and how many tokens a request takes
- `prompt`: the system prompt, its sections and its workflows
- `capabilities`: skills, rules and instruction files
- `guard`: signals, evidence, and the breaker for calls that repeat themselves
- `events`, `protocol`: the log of a session, and what a model streams back
- `config`, `context`, `errors`, `cancel`: settings, faults and cancellation
- `json`, `json_parse`, `text`, `sets`, `paths`, `hash`, `tools`, `tool_args`, `tool_execution`,
  `tool_status`: what the others are made of

`tests/` runs the library on concrete values. `app/` holds what is left around it: files, the
network, tasks and floating-point numbers.

Skills and instruction files of another assistant are read too. Its name is not fixed: it is
handed over with the directories of the session.
