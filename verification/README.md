# pahkat_client

The core of the Páhkat package manager client, written in Verus.

- `src/` — the verified library: package keys and repository URLs, release
  selection, package candidate and dependency resolution, transactions,
  package queries, repository configuration, download bookkeeping, Windows
  installer command lines, and the repository manager's descriptor updates,
  nightly pruning and repository search. Every function there is proved
  against its contract, except the small trusted wrappers round calls into
  `url`, `semver`, `sha2`, `indexmap`, `tokio` (running a future on a
  runtime), `std::path` and `char::is_whitespace`: their contracts are
  believed, not proved, and each says in its doc comment what it claims of
  the call it makes.
- URLs are handled by their serialized text: each edit parses the text
  with `url`, edits and serializes it again. For a URL without a host whose
  edited path starts with `//`, the `url` crate's serialization does not
  parse back to the same URL, and the library keeps the URL it parses to.
- Loaded repositories are kept in a `Vec`, at most one per URL
  (`insert_repository`), in the order they were loaded; lookups by URL find
  that one.
- `tests/` — tests run against the compiled library.
- `app/` — the `pahkat` command line: argument parsing, configuration files,
  network access and running installers, driving the library. The binary
  package index of a repository is a FlatBuffers table whose schema and
  generated reader are not part of this project, so `app/` cannot read it:
  loading a repository fails with an error saying so, and the commands that
  need packages have none to act on.
