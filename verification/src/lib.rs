//! Verified core of a WASI build of the Tectonic TeX engine: dependency
//! configuration for build scripts, the in-memory file store used for
//! intermediate files, the multi-pass compile driver's decisions, and the
//! font-directory backend's name handling.

pub mod dep_support;
pub mod driver;
pub mod fonts;
pub mod memory_io;
pub mod paths;
pub mod text;
