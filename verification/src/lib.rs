//! Issue Jumper: resolve the issue page of the current Git branch.

pub mod text;
pub mod platform;
pub mod error;
pub mod config;
pub mod git;
pub mod url;
pub mod issue;
pub mod lint;
pub mod jump;
pub mod cli;
pub mod zed;
pub mod browser;
