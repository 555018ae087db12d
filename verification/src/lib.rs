//! A verified core for a local open-port reporter.
//!
//! The library parses the kernel's textual per-protocol socket tables,
//! models per-process metadata and open-descriptor links as plain values,
//! joins the two data sets through the socket inode, and builds a filtered,
//! sorted list of port records.  All file reading, argument handling and
//! rendering live outside the library; the functions here are pure and
//! carry contracts that pin their results down.

pub mod filters;
pub mod netparse;
pub mod num;
pub mod procs;
pub mod records;
pub mod resolve;
pub mod snapshot;
pub mod text;
