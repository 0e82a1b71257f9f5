# ragrig_cli

An interactive terminal for retrieval-augmented generation: index a document
collection once, then ask it questions. The core is written and proved in
Verus; the engines (chat models, embeddings, parsers, vector store) come from
the `ragrig` crate.

- `src/` is the verified library. It decides on plain values and touches
  neither the network nor the disk.
  - `command`, `console`, `session`: from a line of input to a step.
  - `startup`: the order in which a session comes to life.
  - `corpus`, `corpora`: named document corpora and the route of a download.
  - `chat`, `embed`, `memory`, `search`, `parsers`, `prompt`, `profile`,
    `history`, `log`, `attach`, `papers`, `query`: one module per family of
    commands.
  - `indexing`, `purge`: how `/embed index` goes through the corpora, and
    `/embed purge` through the documents of the store.
  - `config`, `progress`: the command line, the running settings, the indexing
    report.
  - `backends`: what is taken from `ragrig` without proof. Further assumptions,
    each with its reason, stand in `papers`, `text` and `ansi`.
  - `text`, `number`, `ranges`, `ansi`: the primitives underneath.
- `tests/` runs the library, with the real `ragrig` crate behind it.
- `app/` is the program: it reads lines, carries steps out and reports back.
  Floating-point parameters are read and checked there.

Proof functions whose names start with `law_` state what holds across
functions: that corpus names stay unique, that a download never reaches a
corpus that is switched off, that nothing is added before the pipeline has an
index, that attachments serve one question, that a question is asked at most
twice and then with a window that the model allows, that `/get` works after
every kind of search, that a purge deletes every document once, that a saved
profile brings the running engines back.
