//! Verified core of the Páhkat package manager client: package statuses,
//! transactions, release selection, package keys and configuration data.

pub mod cli;
pub mod common;
pub mod config;
pub mod download;
pub mod fbs;
pub mod ffi;
pub mod package_key;
pub mod package_store;
pub mod query;
pub mod repo;
pub mod repository;
pub mod resolve;
pub mod strings;
pub mod transaction;
pub mod url;
pub mod version;
pub mod windows;
pub mod repomgr;
