//! Dependency resolution for binaries of one target format.
//!
//! Given seed artifacts, the library finds the closure of the dynamic
//! libraries they import: it inspects each binary for its format tag and
//! its imports, looks each imported name up along an ordered list of
//! candidate paths, and insists that every file it accepts has the one
//! format of the run. System libraries are left out, names are compared
//! without regard to case, and a name that cannot be found fails the run.
//!
//! The library reads no file and runs no program. [`inspect::Inspection`]
//! and [`resolver::Resolver`] say what is to be looked at next and take what
//! the caller saw; [`closure::resolve`] runs a resolution over a catalog of
//! binaries that is given as a value.

pub mod backend;
pub mod bundle;
pub mod closure;
pub mod deps;
pub mod dumpbin;
pub mod error;
pub mod format;
pub mod inspect;
pub mod model;
pub mod names;
pub mod objdump;
pub mod resolver;
pub mod search;
pub mod text;
