# starry_api

Verified decision logic of the file-descriptor and process-control system
calls of a small Linux-compatible kernel, and of its test launcher.

- `src/` (Verus): the descriptor table (`fd_table`), `close`/`dup`/`dup2`/
  `fcntl`/`lseek` (`fd_ops`), open flags and the `openat` order (`open`),
  `faccessat` (`access`), the loops of `readv`/`writev`/`sendfile` as state
  machines (`io`), `arch_prctl` codes (`task`), error numbers (`errno`), the
  ABI numbers (`abi`), the command-line parser (`cmdline`) and the choice of
  test cases (`launcher`).
- `app/`: the kernel side that performs the file and register accesses and
  runs the test cases.
- `tests/`: tests of the library on concrete values.
