//! Verified driver logic for launching an external `eunit` test run.
//!
//! The library assembles the `erl` command line that executes a project's
//! EUnit test modules and maps the subprocess outcome to a result. All
//! decisions are verified; the surrounding I/O (directory enumeration,
//! process spawning) stays outside and hands the library plain values.

pub mod invocation;
pub mod modules;
pub mod outcome;
