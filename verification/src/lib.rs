//! Finds the static-library archives that hold a WebAssembly module with a
//! given import.
//!
//! An archive is scanned member by member, and each member's payload is
//! decoded as a module until its import declarations have been compared with
//! the query:
//!
//! - `wasm_contains_import` scans one payload and gives a `ScanVerdict`; the
//!   states it goes through are those of `ScanState`.
//! - `rlib_contains_import` scans the members of one archive and stops at the
//!   first that shows the import.
//! - `Report` collects the archives that showed it.
//!
//! The bytes are decoded by two crates that are not verified here:
//! `wasmparser` for modules (see `decode`) and `ar` for archives (see
//! `archive`). What they return is named in the contracts, and everything
//! that is done with it is proved. Before the archive reader reads a member,
//! `layout` walks the headers that the reader will read, because the reader
//! does not check the name references it follows.

pub mod archive;
pub mod bytes;
pub mod decode;
pub mod import;
pub mod layout;
pub mod machine;
pub mod number;
pub mod report;
pub mod scanner;
pub mod verdict;
