//! Discovery and sizing of Python virtual environments.
//!
//! The library holds the decisions: which directories are searched, which
//! walked entries mark an environment, how a directory tree's size is
//! summed, how an interpreter version is read from what an environment
//! holds, and how the records are built, ordered and filtered. Reading the
//! disk, spawning the interpreter and talking to the operator happen in the
//! program around it, which hands the library plain values.

pub mod text;

pub mod size;
pub mod paths;
pub mod version;
pub mod venv;
