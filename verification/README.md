# messagehub_core

The core of a hub that brings mail, Telegram and other channels into one inbox,
sorts the messages with a local language model, and drafts, sums up and searches
with a cloud model. Before a text leaves the machine, tokens take the place of
known names, mail addresses and phone numbers; the answer gets them back.

The library under `src/` is written in Verus: every function states what it
returns, and Verus proves it.

| module | what it holds |
| --- | --- |
| `types` | messages, threads, contacts, channels |
| `adapters` | mail and Telegram as rules on plain values, the manager of adapters, a mock |
| `ai` | prompts, answers of models, classification, the pipeline |
| `ai::cloud` | the redactor and the three cloud actions |
| `knowledge` | notes in Markdown: parsing, indexing, people, retrieval, watching |
| `runtime` | channel tasks, their backoff and status, ingestion, events |
| `store` | the statements that the database runs, and the rows that it gives back |
| `config` | channel settings and credentials |
| `text`, `text_map`, `id_map`, `id`, `time`, `hash`, `json`, `pattern`, `error` | what the rest is built on |

What several functions promise together stands as public proof functions at the
end of the module that it belongs to, and for the redactor in
`ai::cloud::redactor_laws`.

`app/` is ordinary Rust around the library: sockets, the database, HTTP, the
embedding model, file watching and the async tasks. It asks the library what to
do, does it, and hands back what came of it. `tests/` runs the library with the
real crates behind it.

Outside crates that the library calls directly (`regex`, `uuid`, `chrono`,
`blake3`, `serde_json`, `serde_yaml`, `mail_parser`, `lettre`) stand behind small
functions marked `external_body`. The comment above each says what it takes the
crate to do.
