# hrc_cli

The verified core of `hrc`, a command line for secure asynchronous messaging
between independent Herdr sessions over a Git-backed channel.

The library decides; whatever reads or writes the world hands it plain
values and acts on what it returns. The library routes commands, refuses
what must be refused, builds every report a command prints, and holds the
rules of the protocol's local side, each with a contract proved by Verus.

The executable in `app/` parses arguments, reads the environment and
prints. The local store, the key store, the Git transport and the Herdr
connection are separate components that this build does not include, so
`app/` runs `hrc doctor` and reports the store as missing for the commands
that need it.

## Layout

- `src/` — the library, one module per concern:
  - command line: `cli`, `dispatch`, `entry`, `exit`, `error`, `render`, `json`
  - text and time: `text`, `decimal`, `time`, `paths`
  - membership: `roster`, `enrol`, `channel`, `screens`
  - messages: `compose`, `inbox`, `panes`, `progress`, `receipts`, `audit`
  - synchronization: `publish`, `history`, `repository`
  - the trusted boundary: `review`, `decide`, `trusted`, `daemon`,
    `context`, `source`, `references`, `diagnostics`, `herdr`
- `tests/` — tests of the library from outside, on concrete values.
- `app/` — the `hrc` executable: argument parsing, the environment and
  printing.

Laws that relate several functions are public proof functions named
`law_*`, next to the functions they speak of.
