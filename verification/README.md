# bookos-store

The package store of BookOS: it shows a catalogue of applications, tells which of them are installed,
and installs, updates and removes them with the package manager of the system.

- `src/` is the library, verified with Verus. It holds the rules: where the catalogue comes from, how
  the package manager is found, which commands are run, what their answers mean and what is told of
  them, when a download is kept, and how far a running operation has come. Work that alternates with the system is written as
  steps: each step says what is to be done, and takes what came of it.
- `app/` runs the programs, reads and removes the files, and opens the window. The percentage that the
  window shows is a floating-point number, and is computed there.
- `tests/` runs the library on concrete values.
