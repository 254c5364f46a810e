# yaffle

A small log server. It receives GELF and syslog messages over UDP, hands them to a
search engine (Quickwit or Toshi) and shows on web pages what is found there.

`src/` is the server's logic as a library, verified with Verus: its functions have
contracts, and what relates several functions stands beside them as a public proof
function. `app/` is the program around it, in ordinary Rust: sockets, HTTP, HTML, serde.

## The library

| module | what it holds |
| --- | --- |
| `text`, `number`, `bytes`, `fieldmap`, `json` | strings, decimal numbers, UTF-8, maps from names, JSON values |
| `time`, `clock` | calendar dates, timestamps, what time it is |
| `gelf` | packets: chunks and how they are put together, compression, the messages themselves |
| `syslog` | RFC 3164 and RFC 3339 syslog lines |
| `query` | the query language: its grammar, its syntax trees, the queries they become and what those mean |
| `schema` | the columns of a document: where each comes from in a message, how it is converted, shown and stored, and the code that a derive writes for them |
| `storage` | the schema of a full text index |
| `ingest`, `quickwit` | which documents are kept, and how an index is made ready |
| `toshi` | the fields of the Toshi indexes, and which index documents go to |
| `web` | searches, the columns that a visitor sees, tables and pages |

What the library takes from outside crates and from std without proof stands in small
functions whose doc comments name the outside function and say what is believed of it.

## The program

`-m` says what is run: `quickwit` (the default), `lists`, `toshi` or `toshi-tables`.
`--expand FILE` prints what the schema derive writes for the Rust source in a file.
