# gitgobig

Manage large Git repositories through one bare, blob-less clone
(`git clone --bare --filter=blob:none`) and lightweight worktrees, from the
command line, from a manager window, or in a history viewer.

## Layout

- `src/` — the library, verified with Verus:
  - `text` — a character-level model of the string operations used
    (`trim`, `lines`, prefixes, decimal numbers);
  - `git` — the git commands behind clone, sync and the worktree
    operations, the checks made before them, and the parsers of
    `git worktree list --porcelain` and `git branch -a`;
  - `log` — the history command of the viewer and the reader of its output;
  - `order` — the order of texts and sorting by it (branch lists are sorted);
  - `types`, `state` — repositories, worktrees and the tracked state;
  - `graph` — the lane layout of the commit graph;
  - `search` — case-insensitive and regular-expression filters
    (the `regex` crate and `str::to_lowercase` are called behind small
    trusted wrappers);
  - `history` — the decisions of the history viewer;
  - `manager` — the decisions of the manager window;
  - `cli` — the command-line grammar.
- `tests/` — tests of the library.
- `app/` — the program: process and file I/O, the JSON state file, the iced
  windows, file dialogs and the streaming of git's output. It is one binary
  that acts as `gitgows` (viewer), `gitgobig-gui` (manager window) or the
  command line, after the name it is run under.
