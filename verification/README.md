# anchorscope

Deterministic scoped editing: an anchor is matched byte for byte against a
file's content (CRLF normalized to LF, in memory only), and a write replaces
the matched scope only when the scope's xxh3_64 hash is the one the caller
read before.

## Layout

- `src/` — the library, verified with Verus.
  - `matcher` — line-ending normalization with its offset map, the complete
    search for an anchor, and the mapping of a normalized range back to the
    original bytes.
  - `lib` — `read` and `write` on a file's bytes, with their exact outcomes.
  - `laws` — properties relating `read`, `write`, the matcher and nested reads.
  - `hash`, `trueid` — scope hashes and True IDs.
  - `nested_read`, `label`, `paths`, `pipe`, `tree`, `storage`,
    `buffer_path` — the decisions of the commands that work on the anchor
    buffer kept under the temporary directory.
  - `commands`, `config`, `security`, `error`, `text`, `cli` — inputs,
    settings, checks, error strings and string helpers.
- `app/` — the command-line program: argument parsing, file-system access,
  external tools and printing, calling the library for every decision.
- `tests/` — tests of the library on concrete values.
