//! Decision logic for measuring how buffered writes, flushes and data syncs
//! of an append-only log file behave.
//!
//! Two independent parts live here. [`trial`] plans the write-strategy
//! benchmark: which writes and flushes each strategy issues, in which order,
//! and inside which timed region. [`durability`] drives the durability
//! verification loop: write, sync, then check through an independent read
//! handle that the file has grown by exactly one payload and ends in it.
//!
//! Neither part touches a file. Each is a state machine that names the next
//! operation and takes its outcome back, so the caller owns all I/O. The
//! modules [`sink`] and [`disk`] are in-memory stand-ins for a buffered
//! writer and for a file with delayed visibility; [`bench`] and [`replay`]
//! run the machines against them and prove what the runs come to.

pub mod bytes;
pub mod failure;
pub mod trial;
pub mod sink;
pub mod bench;
pub mod durability;
pub mod disk;
pub mod replay;
