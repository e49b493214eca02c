//! Huge-page-aware memory tooling: alignment arithmetic for trimmed anonymous
//! mappings, parsing of the kernel's transparent-huge-page policy line, and
//! decoding of the kernel's per-page metadata records.
//!
//! The operating-system calls themselves (mapping, unmapping, advising) and
//! the metadata file reads live outside this crate; everything here works on
//! plain values and is verified.

pub mod align;
pub mod faultlatency;
pub mod hugepage_setting;
pub mod pagemap;
pub mod region;
pub mod words;
