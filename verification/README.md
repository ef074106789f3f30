# cargo-zirild

`cargo zirild` builds, checks, tests and runs a Cargo project with Zig's C, C++,
linker and archiver frontends in place of the system's. It converts between
Zig's and Rust's spellings of a target, finds Zig and the Android NDK, and puts
itself in the place of the tools that Cargo, rustc and build scripts start.

- `src/` holds the rules of the program, with contracts that Verus proves: the
  command line (`arguments`, `driver`), the order of the steps (`steps`),
  targets (`target`), options (`options`), the NDK (`ndk`) and Zig (`zig`),
  Cargo's arguments, environment and messages (`cargo`), the tool wrappers
  (`wrapper`, `invocation`, `handoff`) and what they change for Windows and musl
  links (`windows`, `response`, `musl`) and for every link through Zig
  (`erratum`). Texts and decimal numbers are in `text` and `decimal`.
- The modules whose names end in `_laws` state what holds of every command line,
  request, NDK, response file and wrapper invocation. So do the functions named
  `law_...` in the other modules.
- `app/` is the program around the library: it performs the steps, looks at
  files, runs processes, and hands the library what it found.
- `tests/` runs the library on concrete inputs.

A library function never panics. Paths that are no Unicode text stay with the
caller: the library names them by position or by role.
