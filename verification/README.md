# comment_checker

Detects the comments and docstrings that an edit adds to a source file and
decides whether an editor hook should let the edit pass (exit code 0) or
block it (exit code 2) with a message that lists the offending comments.

The library in `src/` is written in Verus. Its own functions carry contracts
that Verus proves; the few calls into outside code (tree-sitter, `itoa`, and
some of std) go through small trusted wrappers whose contracts Verus takes
as given, each with a doc comment that says what it claims.

- `text` — the model of text as `Seq<char>` (trimming, prefixes, ASCII case).
- `language` — file names and extensions to languages and tree-sitter queries.
- `models` — the comment record.
- `detector` — comment and docstring detection; tree-sitter parses and runs
  the comment query (its captures are named, not stated), everything after
  that is verified.
- `filters` — BDD markers, tool directives and shebangs that are allowed, and
  the agent-memo classifier.
- `output` — the XML listing and the hook message.
- `api` — the hook check: which text to look at, which comments are new,
  and the verdict.
- `input` — decoding file bytes (UTF-8, else Latin-1).
- `laws` — properties of the library as a whole.

`app/` is the `comment-checker` command: argument handling, standard input,
JSON reading and writing, and loading grammars from the tree-sitter language
pack.
