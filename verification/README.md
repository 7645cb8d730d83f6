# mya

`mya` runs and lists shell command aliases kept in YAML files, one file per
group. An alias names a command line with `{1}`, `{2}`, ... placeholders for
parameters, a description and an optional working directory.

Layout:

- `src/` is the verified library (Verus):
  - `util/` — text helpers, the ordered string-keyed map, command-line
    scanning, placeholder substitution, and the trusted calls into
    `shellexpand` and `regex`;
  - `alias/`, `snippet/` — the alias and snippet models, where their files
    are, and the search for the file that holds a name;
  - `action/`, `action_handler/` — what the `list` and `run` subcommands
    decide: listing layout, run preparation, exit codes, parameter handling.
- `app/` is the program around it: argument parsing, reading folders and
  YAML files, printing in colour and starting processes.
- `tests/` holds the tests of the library.
