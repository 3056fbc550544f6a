# malim_chat

The rules behind a server-authoritative AI chat service, verified with Verus: accounts and tokens,
providers and their wire dialects, conversations and their pages, context compaction, streamed
replies, the web research agent and dictionary lookup.

- `src/` is the library. Every function states what it returns, over mathematical models of text
  (`Seq<char>`), JSON values (`JsonView`) and the state machines; laws that span functions are public
  proof functions beside them. Calls into other crates stand behind small trusted functions whose
  doc comments say what is taken on trust.
- `app/` is the server around it: the HTTP routes, PostgreSQL, SQLite, the MDict file, and the
  requests to providers and to the web. It performs what the library's steps ask for and hands the
  outcome back.
- `tests/` runs the library on concrete values.

Work that alternates with the outside world is a state machine: `turns::Turn` for an answer,
`agent::WebAgent` for a research run, `web_search::SearchRun` for a search, `stream::StreamRelay` for
a relayed stream. Each step says what it needs next; the caller does it and reports back.
