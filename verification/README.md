# aster

The front end of a small systems language, written in Verus: a
character-level source reader, the skipping of blanks and comments,
parsers for literals, names, types, expressions (with operator precedence)
and top-level items, the layout of diagnostics, and command-line argument
handling. Every parser is specified against a grammar given as spec
functions, and proved to meet it.

What the crate does not hold: a tokenizer, a token-stream parser, name
resolution, pretty printing of resolved programs and code generation.

Offsets count characters, not bytes; see `SourceReader`.

Layout:

- `src/`: the verified library; `src/laws.rs` states properties that span
  several functions.
- `tests/`: tests that run the library.
- `app/`: the command-line program: reading arguments and files, finding
  executables on the search path, printing.
