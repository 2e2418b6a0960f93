# citeright

A legal citation checker with machine-checked contracts. It extracts citations
and legal claims from a brief, resolves them against a lookup source,
classifies each citation as VERIFIED, HEALED, AMBIGUOUS or BLOCKED, emits a
verified brief and SHA-256 receipts, and checks an argument's claims against
the holdings of the cases it cites.

## Layout

- `src/` — the library, written in Verus. Every function carries a
  `requires`/`ensures` contract over mathematical views (`Seq`, `Set`, `int`),
  and the laws of the citation check are public proof functions, for example
  `verify::law_only_resolved_citations_pass` (a citation passes only when its
  lookup answered 200 with exactly one canonical cluster) and
  `emit::law_unresolved_citations_are_blocked`.
- `tests/` — ordinary Rust tests of the library.
- `app/` — the command-line program and the web service: file and network
  I/O, JSON parsing with serde, and the floating-point applicability scores.

Outside calls stand behind small trusted wrappers whose contracts say what
the called code documents: `sha2` and `hex` for digests; `regex` for citation
matching; `zip`, `quick-xml` and `lopdf` for the text of Word and PDF files;
`serde_json` for reading service replies; and, from std, `char::is_alphabetic`,
`str::to_lowercase` and collecting characters into a `String`.
