# pixi_script

Python scripts that carry their own environment: the metadata block in a script,
the pyproject document it stands for, the cached resolution of the script, and
the commands that run, update and edit it.

- `src/` is the library. Everything in it is verified with Verus.
  - `text`, `ordered`: bytes, lines and lists of texts.
  - `script_block`, `script_block_laws`, `script_header`: where a metadata block
    stands, how it is written, and that what is written is read back.
  - `toml`, `script_metadata`, `initial_metadata`, `pyproject`, `manifest`: the data
    in the metadata, the rules it keeps, and edits to it.
  - `satisfiability`, `pypi`, `lock_file`, `unsat`: whether what is locked still
    stands for what is asked for.
  - `resolution`, `reconcile`: the cached resolution of a script.
  - `yaml`, `requirement`, `lock_text`, `lock_markers`: which lock files can be read
    and written without harm.
  - `update`, `similar`, `update_script`: updates.
  - `run`, `run_script`, `tasks`: runs.
  - `add`, `atomic_write`: edits to dependencies, and replacing files as a whole.
- `app/` does the input and output: it reads and writes files, takes locks, listens
  for signals, and carries out what the library decides.
- `tests/` holds the tests of the library.

Long-running work that other processes may interfere with is written as a course
of phases. The library decides what is done next (`step`), the caller does it and
reports what came of it. The laws about such a course are proved for every
sequence of events.
