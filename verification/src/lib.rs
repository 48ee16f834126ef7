//! Selecting the modules of a multi-module source tree that a change affects,
//! writing the settings file that names them, and planning the run of the build
//! tool.
//!
//! The library decides and computes; it touches no file, starts no process and
//! speaks to no server. Whoever calls it reads what there is to read, hands it
//! over as plain values, and carries out what comes back.
//!
//! - [`text`] and [`path`] say what strings and paths are and compute on them.
//! - [`project`] names the modules, [`deps`] reads their dependencies off their
//!   descriptors, and [`filter`] decides which of them a chain of filters
//!   accepts.
//! - [`select`] grows the accepted modules into the modules to build, and
//!   states what holds of every selection.
//! - [`projects`] ties these together for the roots of a repository.
//! - [`settings`] writes and reads the settings file, and [`orchestrate`] plans
//!   the build.
//! - [`create`], [`open`], [`pullrequest`], [`api`], [`users`] and [`auth`]
//!   plan what the other commands do.
//! - [`pattern`] holds what is taken on trust of regular expressions, and [`vc`]
//!   what is asked of a version control system.
pub mod api;
pub mod auth;
pub mod create;
pub mod deps;
pub mod error;
pub mod filter;
pub mod open;
pub mod orchestrate;
pub mod path;
pub mod pattern;
pub mod project;
pub mod projects;
pub mod pullrequest;
pub mod select;
pub mod settings;
pub mod text;
pub mod users;
pub mod vc;
