//! Moves files that have aged past a threshold from watched directories into
//! destination directories. The verified core decides which directory entries
//! qualify, where each one goes, and how per-watch outcomes combine; the
//! surrounding program performs the filesystem work it describes.
pub mod cli;
pub mod config;
pub mod scan;
