# uv_ffi

The decision logic of a resident, in-process `uv pip install` engine,
verified with Verus.

- `src/` is the verified library:
  - `text`: Unicode whitespace, word splitting, string equality, prefixes,
    substring search;
  - `command`: reading `pip install` commands for the fast path, link modes;
  - `dispatch`: choosing between the engine, the CLI entry point with
    directly built arguments, and uv's full command-line parser; the exit
    code of a run; what the engine does after a failed install (rescan or
    refresh the registry, then retry once);
  - `install`: the link mode, reinstall policy, indexes and cache directory
    of an engine install;
  - `changelog`: the reports returned to Python and written for C callers;
  - `site_packages`: the edits that patch the in-memory site-packages cache,
    with package names and versions parsed by `uv-normalize` and `uv-pep440`;
  - `profile`: the profiling switch.
- `app/` is the Python extension module and the C entry point: process-wide
  state, calls into uv, and conversions between uv's types and the
  library's plain values.
- `tests/` exercises the library on concrete commands, reports and patches.
