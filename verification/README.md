# sned

The verified core of a coding agent: what it asks of language-model providers, how
it reads their streamed answers, and how it indexes and reads source code.

- `src/` is the library. Every item is verified by Verus.
  - `text`, `json`, `fields`: text, JSON values and typed members of JSON objects.
  - `providers`: requests, headers, models and prices; server-sent events cut into
    lines; one stream decoder for each family of providers; `sessions` and
    `openai::OpenAiSession`, which say what each event of a transfer leads to.
  - `services::tree_sitter`: definitions, functions and the context of a position,
    read off syntax trees.
  - `services::symbol_index`: the index of symbols, its statements for a database,
    and the walk that fills it.
  - `services::telemetry`: the queue of events and when it is sent.
- `tests/` runs the library with the real crates linked.
- `app/` connects the library to the network, the disk, the clock and serde.

Calls into other crates stand behind small functions marked
`#[verifier::external_body]`. The comment above each says what is taken for granted.

Prices and temperatures are whole numbers of millionths; costs are whole numbers of
millionths of a millionth of a dollar.
