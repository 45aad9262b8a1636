# git_function_history

Show the history of a function across the commits of a git repository, with
the behaviour of the library stated in Verus contracts and proved.

## Layout

- `src/` — the verified library.
  - `history.rs`: looking a function up through the commits of a repository
    (commits are handed in as plain values: hash, time, author, message and
    the files with their contents).
  - `types.rs`, `things.rs`, `new_types.rs`: commits, files, found functions,
    histories, moving through them, filtering them and showing them.
  - `grep.rs`: searching a file for functions with `tree-sitter` queries.
  - `filters.rs`, `filters/general_filters.rs`: the filters and how they are
    read from text.
  - `languages/`: functions of each language and their filters; finders for
    Rust (`ra_ap_syntax`), Python (`rustpython-parser`), Go (`gosyn`), Ruby
    (`lib-ruby-parser`), UMPL and Java (over a plain syntax tree).
  - `regex_search.rs`: finding Rust functions with regular expressions.
  - `cli.rs`, `terminal.rs`, `backend.rs`: the command line, the terminal
    application's state and commands, and the answers to its requests.
  - `text.rs`: string and line utilities with their specifications.
- `app/` — the program: arguments, reading the repository with `git`, the
  terminal loop, and converting UMPL syntax trees.
- `tests/` — tests of the library.

Calls into outside crates go through small trusted wrappers whose contracts
say what the crates document; everything else is verified.
