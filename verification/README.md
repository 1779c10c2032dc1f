# shtt

A small git helper (`dump`, `save`, `pull`, `wipe`, `drop`) whose rules are
verified with Verus.

- `src/` is the verified library: semantic version tags (`semver`, `order`),
  ordinal commit messages (`format_utils`), e-mail and name checks, clone-URL
  repository names, reference names and refspecs (`git_utils`), status codes and
  change detection (`status`), the pull and wipe decisions (`pull`, `wipe`), and
  the character-level helpers they share (`text`).
- `app/` is the command line: it talks to the repository through `git2`, to the
  terminal and to the file system, and hands plain values to the library.
- `tests/` runs the library on concrete inputs.
