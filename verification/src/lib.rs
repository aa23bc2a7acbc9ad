//! Decision core of a small client that moves text snippets and files between
//! a local machine and a remote account over SFTP.
//!
//! Everything here is pure: the functions take plain values and return plain
//! values. Network, file and console work is left to the program that links
//! this library: the library says what is to be done next, the program does it
//! and reports how it went.
//!
//! All of it is verified but for one call into the `ssh2` crate, in `listing`,
//! whose contract is stated and taken on trust.

pub mod bootstrap;
pub mod catch;
pub mod clipboard;
pub mod command;
pub mod config;
pub mod layout;
pub mod listing;
pub mod menu;
pub mod session;
pub mod text;
pub mod throw;
