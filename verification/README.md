# symsight_core

The core of SymSight, an insight generator that drafts blog articles and
social posts in a brand's voice. The library's functions carry contracts
that Verus proves.

- `src/` is the verified library: text utilities, prompt templating, the
  settings merge, draft front matter, brand files and brand checks, the
  generation pipeline over an `LlmClient`, and finalizing. Work that
  touches the disk is written as small state machines: the library
  decides, the caller performs the file-system step and reports back.
- `app/` is the `symsight` command line: argument parsing, the files, the
  clock, the HTTP client and the serde forms of the library's types.
- `tests/` run the library on concrete values, with an in-memory file system
  where a state machine needs one.

What is proved, and what is not:

- Front matter that is rendered reads back as written for plain entries
  (keys without `:` or line breaks, values whose text reads back as
  themselves); the proof is stated over the rendered text.
- A generation's result is stated for whatever replies the model gave. A
  client that keeps a log (the scripted test client does) is shown to
  receive exactly the first request and, when the first reply is out of
  bounds, the one rewrite request.
- Calls into `regex`, `toml` and `indexmap` stand behind small trusted
  wrappers; what those crates compute (a regex match, a parsed table) is
  named, not re-proved.
