//! Benchmarking a command by running it repeatedly: the configuration and how it is read
//! from a command line, the bookkeeping of the runs, the statistics of the elapsed times,
//! and the layout of the summary. Spawning the command and timing it are the caller's part.

pub mod config;
pub mod options;
pub mod report;
pub mod runner;
pub mod stats;
