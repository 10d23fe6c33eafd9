//! `dock`: Docker containers as development environments. This library
//! holds the logic of the `dock` command: the Dock file's environments, the
//! arguments of the `docker` commands that build and run them, the mapping
//! of paths between nested containers and the host, the loggers of the
//! commands that it runs, and the templates that initialise projects.

pub mod canon_path;
pub mod clean;
pub mod cli;
pub mod cmd_loggers;
pub mod init;
pub mod messages;
pub mod option;
pub mod rebuild;
pub mod run_in;
pub mod spinner;
pub mod text;
pub mod trie;
