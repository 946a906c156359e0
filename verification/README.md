# arceos_tools

Tooling around running unmodified Linux applications on the ArceOS unikernel,
with its logic verified by Verus.

- `src/` is the verified library:
  - `judge`: deciding from a test run's console output whether it failed;
  - `image`: the payload images the loader boots (`apps.bin` with its size
    prefix, and the packed image behind an `AppHeader`);
  - `axfncall`, `mocklibc`: the function-call ABI tables on the kernel and the
    application side, and `puts` in terms of `putchar`;
  - `config`, `plan`: the tester's arguments, per-application configuration
    and its decisions (link type, tool locations, build steps, test plans);
  - `steps`: the multi-step procedures (running `make`, checking out the
    branch, installing the cross toolchain) as state machines;
  - `text`: small string utilities they share.
- `app/` is the command-line tester and the FFI glue that performs the I/O
  the library's decisions ask for.
