//! The decisions behind `cargo zirild`, which builds Cargo projects with Zig's
//! C, C++, linker and archiver frontends.
//!
//! The driver reads a command line (`arguments`, `driver`), picks Zig and an
//! Android NDK (`zig`, `ndk`) and runs Cargo (`cargo`), one step after the other
//! (`steps`). Cargo then starts copies of the program as tool wrappers, which
//! find the build in their environment (`handoff`) and run Zig or the NDK's tools
//! instead (`wrapper`, `invocation`), with what Windows, musl and other links
//! need changed (`windows`, `response`, `musl`, `erratum`). Files, processes and
//! the environment itself are the caller's.
//!
//! The modules whose names end in `_laws` state and prove what holds of all of
//! this, for every input: of the texts that go in and come out, and of the
//! functions' own results (`result_laws`).

pub mod arguments;
pub mod arguments_laws;
pub mod build_laws;
pub mod cargo;
pub mod command_laws;
pub mod decimal;
pub mod driver;
pub mod driver_laws;
pub mod erratum;
pub mod exit;
pub mod handoff;
pub mod invocation;
pub mod invocation_laws;
pub mod linking_laws;
pub mod musl;
pub mod ndk;
pub mod ndk_laws;
pub mod options;
pub mod reading_laws;
pub mod response;
pub mod response_laws;
pub mod result_laws;
pub mod settings_laws;
pub mod steps;
pub mod target;
pub mod target_laws;
pub mod text;
pub mod text_laws;
pub mod tool_laws;
pub mod windows;
pub mod wrapper;
pub mod zig;
